//! The `orders` row: an order without what it owns, which it reaches through
//! the surrogate identifiers of its delivery and payment rows.

use crate::order::{Delivery, DeliveryView, Item, ItemView, Order, OrderView, Payment, PaymentView};
use vstd::prelude::*;

verus! {

/// One row of the `orders` table.
#[derive(Debug, PartialEq, Eq)]
pub struct OrderRow {
    pub order_uid: String,
    pub track_number: String,
    pub entry: String,
    pub delivery_id: i32,
    pub payment_id: i32,
    pub locale: String,
    pub internal_signature: String,
    pub customer_id: String,
    pub delivery_service: String,
    pub shardkey: String,
    pub sm_id: i32,
    pub date_created: String,
    pub oof_shard: String,
}

/// An [`OrderRow`] as plain mathematical data.
pub struct OrderRowView {
    pub order_uid: Seq<char>,
    pub track_number: Seq<char>,
    pub entry: Seq<char>,
    pub delivery_id: i32,
    pub payment_id: i32,
    pub locale: Seq<char>,
    pub internal_signature: Seq<char>,
    pub customer_id: Seq<char>,
    pub delivery_service: Seq<char>,
    pub shardkey: Seq<char>,
    pub sm_id: i32,
    pub date_created: Seq<char>,
    pub oof_shard: Seq<char>,
}

impl View for OrderRow {
    type V = OrderRowView;

    open spec fn view(&self) -> OrderRowView {
        OrderRowView {
            order_uid: self.order_uid@,
            track_number: self.track_number@,
            entry: self.entry@,
            delivery_id: self.delivery_id,
            payment_id: self.payment_id,
            locale: self.locale@,
            internal_signature: self.internal_signature@,
            customer_id: self.customer_id@,
            delivery_service: self.delivery_service@,
            shardkey: self.shardkey@,
            sm_id: self.sm_id,
            date_created: self.date_created@,
            oof_shard: self.oof_shard@,
        }
    }
}

impl DeepView for OrderRow {
    type V = OrderRowView;

    open spec fn deep_view(&self) -> OrderRowView {
        self@
    }
}

impl Clone for OrderRow {
    /// A copy that is the same row: its view is that of `self`.
    fn clone(&self) -> (copy: Self)
        ensures
            copy@ == self@,
    {
        OrderRow {
            order_uid: self.order_uid.clone(),
            track_number: self.track_number.clone(),
            entry: self.entry.clone(),
            delivery_id: self.delivery_id,
            payment_id: self.payment_id,
            locale: self.locale.clone(),
            internal_signature: self.internal_signature.clone(),
            customer_id: self.customer_id.clone(),
            delivery_service: self.delivery_service.clone(),
            shardkey: self.shardkey.clone(),
            sm_id: self.sm_id,
            date_created: self.date_created.clone(),
            oof_shard: self.oof_shard.clone(),
        }
    }
}

/// The row that stands for an order whose delivery and payment rows have the
/// given surrogate identifiers.
pub open spec fn row_of(order: OrderView, delivery_id: i32, payment_id: i32) -> OrderRowView {
    OrderRowView {
        order_uid: order.order_uid,
        track_number: order.track_number,
        entry: order.entry,
        delivery_id,
        payment_id,
        locale: order.locale,
        internal_signature: order.internal_signature,
        customer_id: order.customer_id,
        delivery_service: order.delivery_service,
        shardkey: order.shardkey,
        sm_id: order.sm_id,
        date_created: order.date_created,
        oof_shard: order.oof_shard,
    }
}

/// The order that a row makes together with what the row refers to.
pub open spec fn assembled(
    row: OrderRowView,
    delivery: DeliveryView,
    payment: PaymentView,
    items: Seq<ItemView>,
) -> OrderView {
    OrderView {
        order_uid: row.order_uid,
        track_number: row.track_number,
        entry: row.entry,
        delivery,
        payment,
        items,
        locale: row.locale,
        internal_signature: row.internal_signature,
        customer_id: row.customer_id,
        delivery_service: row.delivery_service,
        shardkey: row.shardkey,
        sm_id: row.sm_id,
        date_created: row.date_created,
        oof_shard: row.oof_shard,
    }
}

/// Taking an order apart and putting it together again gives the same order,
/// whatever the surrogate identifiers were.
pub proof fn lemma_assembled_row_of(order: OrderView, delivery_id: i32, payment_id: i32)
    ensures
        assembled(row_of(order, delivery_id, payment_id), order.delivery, order.payment, order.items)
            == order,
{
}

impl OrderRow {
    /// The row for `order`, wired to its delivery and payment rows.
    pub fn of(order: &Order, delivery_id: i32, payment_id: i32) -> (row: OrderRow)
        ensures
            row@ == row_of(order@, delivery_id, payment_id),
    {
        OrderRow {
            order_uid: order.order_uid.clone(),
            track_number: order.track_number.clone(),
            entry: order.entry.clone(),
            delivery_id,
            payment_id,
            locale: order.locale.clone(),
            internal_signature: order.internal_signature.clone(),
            customer_id: order.customer_id.clone(),
            delivery_service: order.delivery_service.clone(),
            shardkey: order.shardkey.clone(),
            sm_id: order.sm_id,
            date_created: order.date_created.clone(),
            oof_shard: order.oof_shard.clone(),
        }
    }

    /// The order that this row makes with the delivery, the payment and the
    /// items that it refers to.
    pub fn assemble(&self, delivery: Delivery, payment: Payment, items: Vec<Item>) -> (order: Order)
        ensures
            order@ == assembled(self@, delivery@, payment@, items.deep_view()),
    {
        Order {
            order_uid: self.order_uid.clone(),
            track_number: self.track_number.clone(),
            entry: self.entry.clone(),
            delivery,
            payment,
            items,
            locale: self.locale.clone(),
            internal_signature: self.internal_signature.clone(),
            customer_id: self.customer_id.clone(),
            delivery_service: self.delivery_service.clone(),
            shardkey: self.shardkey.clone(),
            sm_id: self.sm_id,
            date_created: self.date_created.clone(),
            oof_shard: self.oof_shard.clone(),
        }
    }
}

} // verus!
