//! Order intake: the documents, the cache that mirrors the committed orders,
//! and the protocol that keeps the cache and the durable store in agreement.

pub mod agreement;
pub mod cache;
pub mod ingest;
pub mod load;
pub mod order;
pub mod restart;
pub mod row;
pub mod schema;
pub mod store;
