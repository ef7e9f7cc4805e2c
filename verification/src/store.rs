//! The durable store, as far as this crate reasons about it.
//!
//! The store itself is a relational database behind a connection. What
//! stands here is its model: four tables as mathematical data, what it
//! answers to each request, and what a request does to it. The model is what
//! the statements about submissions and restarts are measured against.

use crate::ingest::{Event, RequestView};
use crate::load::{LoadEventView, LoadRequestView};
use crate::order::{DeliveryView, ItemView, OrderView, PaymentView};
use crate::row::{assembled, lemma_assembled_row_of, row_of, OrderRowView};
use vstd::prelude::*;

verus! {

/// Why the store refused a request.
#[derive(Clone, Copy, Debug, PartialEq, Eq, Structural)]
pub enum StoreError {
    /// The identifier is already taken: a primary key was violated.
    Conflict,
    /// A row refers to a row that is not there.
    Integrity,
    /// The store could not be reached, or the exchange with it broke down.
    Unavailable,
}

/// One row of the `item` table: an item and the order that owns it.
pub struct ItemRowView {
    pub item: ItemView,
    pub order_uid: Seq<char>,
}

/// The four tables. Delivery and payment rows are found by their surrogate
/// identifiers; `orders` and `item` keep their rows in the order of insertion.
pub struct Tables {
    pub delivery: Map<i32, DeliveryView>,
    pub payment: Map<i32, PaymentView>,
    pub orders: Seq<OrderRowView>,
    pub item: Seq<ItemRowView>,
}

/// Tables without rows.
pub open spec fn no_rows() -> Tables {
    Tables { delivery: Map::empty(), payment: Map::empty(), orders: Seq::empty(), item: Seq::empty() }
}

/// The identifiers of the rows of `orders`.
pub open spec fn order_uids(tables: Tables) -> Seq<Seq<char>> {
    tables.orders.map_values(|row: OrderRowView| row.order_uid)
}

/// Whether `orders` has a row with this identifier.
pub open spec fn exists_order(tables: Tables, order_uid: Seq<char>) -> bool {
    order_uids(tables).contains(order_uid)
}

/// The items that belong to an order, in the order of their rows.
pub open spec fn items_of(rows: Seq<ItemRowView>, order_uid: Seq<char>) -> Seq<ItemView>
    decreases rows.len(),
{
    if rows.len() == 0 {
        Seq::empty()
    } else if rows.last().order_uid == order_uid {
        items_of(rows.drop_last(), order_uid).push(rows.last().item)
    } else {
        items_of(rows.drop_last(), order_uid)
    }
}

/// The order that a row of `orders` stands for: the row joined with the
/// delivery, the payment and the items that it refers to.
pub open spec fn joined(tables: Tables, row: OrderRowView) -> OrderView {
    assembled(
        row,
        tables.delivery[row.delivery_id],
        tables.payment[row.payment_id],
        items_of(tables.item, row.order_uid),
    )
}

/// Every order that the tables hold, in the order of the rows of `orders`.
pub open spec fn load_all(tables: Tables) -> Seq<OrderView> {
    Seq::new(tables.orders.len(), |i: int| joined(tables, tables.orders[i]))
}

/// Referential integrity: no identifier occurs twice in `orders`; every
/// row of `orders` has its delivery row and its payment row, and shares them
/// with no other; every item row belongs to a row of `orders`.
pub open spec fn sound(tables: Tables) -> bool {
    &&& order_uids(tables).no_duplicates()
    &&& forall|i: int|
        #![trigger tables.orders[i]]
        0 <= i < tables.orders.len() ==> tables.delivery.dom().contains(
            tables.orders[i].delivery_id,
        ) && tables.payment.dom().contains(tables.orders[i].payment_id)
    &&& forall|i: int, j: int|
        #![trigger tables.orders[i], tables.orders[j]]
        0 <= i < j < tables.orders.len() ==> tables.orders[i].delivery_id
            != tables.orders[j].delivery_id && tables.orders[i].payment_id
            != tables.orders[j].payment_id
    &&& forall|i: int|
        #![trigger tables.item[i]]
        0 <= i < tables.item.len() ==> exists_order(tables, tables.item[i].order_uid)
}

/// The tables with one more delivery row.
pub open spec fn with_delivery(tables: Tables, id: i32, row: DeliveryView) -> Tables {
    Tables { delivery: tables.delivery.insert(id, row), ..tables }
}

/// The tables with one more payment row.
pub open spec fn with_payment(tables: Tables, id: i32, row: PaymentView) -> Tables {
    Tables { payment: tables.payment.insert(id, row), ..tables }
}

/// The tables with one more row of `orders`.
pub open spec fn with_order(tables: Tables, row: OrderRowView) -> Tables {
    Tables { orders: tables.orders.push(row), ..tables }
}

/// The tables with one more item row.
pub open spec fn with_item(tables: Tables, item: ItemView, order_uid: Seq<char>) -> Tables {
    Tables { item: tables.item.push(ItemRowView { item, order_uid }), ..tables }
}

/// The rows of the first `count` items of an order.
pub open spec fn item_rows(order: OrderView, count: int) -> Seq<ItemRowView> {
    Seq::new(
        count as nat,
        |i: int| ItemRowView { item: order.items[i], order_uid: order.order_uid },
    )
}

/// The tables in the middle of the write of an order: its delivery row under
/// `delivery_id`, its payment row under `payment_id`, its row of `orders`, and
/// the rows of its first `count` items.
pub open spec fn partly_written(
    tables: Tables,
    order: OrderView,
    delivery_id: i32,
    payment_id: i32,
    count: int,
) -> Tables {
    Tables {
        delivery: tables.delivery.insert(delivery_id, order.delivery),
        payment: tables.payment.insert(payment_id, order.payment),
        orders: tables.orders.push(row_of(order, delivery_id, payment_id)),
        item: tables.item + item_rows(order, count),
    }
}

/// The tables after the whole write of an order.
pub open spec fn written(tables: Tables, order: OrderView, delivery_id: i32, payment_id: i32) -> Tables {
    partly_written(tables, order, delivery_id, payment_id, order.items.len() as int)
}

/// Whether both surrogate identifiers are unused.
pub open spec fn unused(tables: Tables, delivery_id: i32, payment_id: i32) -> bool {
    !tables.delivery.dom().contains(delivery_id) && !tables.payment.dom().contains(payment_id)
}

/// What the store decides by itself when it gets a request: whether it
/// refuses, and which surrogate identifier it draws for a new row.
pub struct Choice {
    pub refuse: Option<StoreError>,
    pub id: i32,
}

/// The store: what is committed, and the working copy of the transaction
/// that is open, if one is.
pub struct Store {
    pub committed: Tables,
    pub open: Option<Tables>,
}

/// What a write does to tables, and what the store answers: a row of
/// `orders` whose identifier is taken is a conflict; a row of `orders` without
/// its delivery or payment row, or an item row without its order, breaks
/// integrity; a surrogate identifier that is in use cannot be drawn again.
pub open spec fn write(tables: Tables, request: RequestView, id: i32) -> (Tables, Event) {
    match request {
        RequestView::InsertDelivery(row) => if tables.delivery.dom().contains(id) {
            (tables, Event::Refused(StoreError::Unavailable))
        } else {
            (with_delivery(tables, id, row), Event::Assigned(id))
        },
        RequestView::InsertPayment(row) => if tables.payment.dom().contains(id) {
            (tables, Event::Refused(StoreError::Unavailable))
        } else {
            (with_payment(tables, id, row), Event::Assigned(id))
        },
        RequestView::InsertOrder(row) => if exists_order(tables, row.order_uid) {
            (tables, Event::Refused(StoreError::Conflict))
        } else if !tables.delivery.dom().contains(row.delivery_id) || !tables.payment.dom().contains(
            row.payment_id,
        ) {
            (tables, Event::Refused(StoreError::Integrity))
        } else {
            (with_order(tables, row), Event::Done)
        },
        RequestView::InsertItem { item, order_uid } => if !exists_order(tables, order_uid) {
            (tables, Event::Refused(StoreError::Integrity))
        } else {
            (with_item(tables, item, order_uid), Event::Done)
        },
        _ => (tables, Event::Done),
    }
}

/// The store after a request that it serves, and its answer. Writes go to
/// the open transaction; without one they are committed at once. A commit
/// makes the working copy the committed state; a rollback drops it.
pub open spec fn serve(store: Store, request: RequestView, id: i32) -> (Store, Event) {
    match request {
        RequestView::Exists { order_uid } => (
            store,
            Event::Found(exists_order(store.committed, order_uid)),
        ),
        RequestView::Begin => (
            Store { committed: store.committed, open: Some(store.committed) },
            Event::Done,
        ),
        RequestView::Commit => match store.open {
            Some(tables) => (Store { committed: tables, open: None }, Event::Done),
            None => (store, Event::Done),
        },
        RequestView::Rollback => (Store { committed: store.committed, open: None }, Event::Done),
        _ => match store.open {
            Some(tables) => (
                Store { committed: store.committed, open: Some(write(tables, request, id).0) },
                write(tables, request, id).1,
            ),
            None => (
                Store { committed: write(store.committed, request, id).0, open: None },
                write(store.committed, request, id).1,
            ),
        },
    }
}

/// The store after a request, and its answer. A request that the store
/// refuses changes nothing, except that a refused commit or rollback leaves
/// no transaction open.
pub open spec fn respond(store: Store, request: RequestView, choice: Choice) -> (Store, Event) {
    match choice.refuse {
        Some(cause) => match request {
            RequestView::Commit | RequestView::Rollback => (
                Store { committed: store.committed, open: None },
                Event::Refused(cause),
            ),
            _ => (store, Event::Refused(cause)),
        },
        None => serve(store, request, choice.id),
    }
}

/// What the store returns to a request of the loader. A delivery or payment
/// row that is not there is a breach of integrity.
pub open spec fn fetch(tables: Tables, request: LoadRequestView, refuse: Option<StoreError>) -> LoadEventView {
    match refuse {
        Some(cause) => LoadEventView::Refused(cause),
        None => match request {
            LoadRequestView::Orders => LoadEventView::Orders(tables.orders),
            LoadRequestView::Delivery { id } => if tables.delivery.dom().contains(id) {
                LoadEventView::Delivery(tables.delivery[id])
            } else {
                LoadEventView::Refused(StoreError::Integrity)
            },
            LoadRequestView::Payment { id } => if tables.payment.dom().contains(id) {
                LoadEventView::Payment(tables.payment[id])
            } else {
                LoadEventView::Refused(StoreError::Integrity)
            },
            LoadRequestView::Items { order_uid } => LoadEventView::Items(
                items_of(tables.item, order_uid),
            ),
        },
    }
}

/// An order without rows in `item` has no items there.
pub proof fn lemma_items_of_absent(rows: Seq<ItemRowView>, order_uid: Seq<char>)
    requires
        forall|i: int| 0 <= i < rows.len() ==> (#[trigger] rows[i]).order_uid != order_uid,
    ensures
        items_of(rows, order_uid) == Seq::<ItemView>::empty(),
    decreases rows.len(),
{
    if rows.len() > 0 {
        assert(rows.last() == rows[rows.len() - 1]);
        assert forall|i: int| 0 <= i < rows.drop_last().len() implies (#[trigger] rows.drop_last()[i]).order_uid
            != order_uid by {
            assert(rows.drop_last()[i] == rows[i]);
        }
        lemma_items_of_absent(rows.drop_last(), order_uid);
    }
}

/// Item rows that are appended for one order add its items to that order
/// and change the items of no other.
pub proof fn lemma_items_of_appended(
    rows: Seq<ItemRowView>,
    order: OrderView,
    count: int,
    order_uid: Seq<char>,
)
    requires
        0 <= count <= order.items.len(),
    ensures
        items_of(rows + item_rows(order, count), order_uid) == if order_uid == order.order_uid {
            items_of(rows, order_uid) + order.items.take(count)
        } else {
            items_of(rows, order_uid)
        },
    decreases count,
{
    let all = rows + item_rows(order, count);
    if count == 0 {
        assert(all =~= rows);
        assert(items_of(rows, order_uid) + order.items.take(0) =~= items_of(rows, order_uid));
    } else {
        lemma_items_of_appended(rows, order, count - 1, order_uid);
        assert(all.drop_last() =~= rows + item_rows(order, count - 1));
        assert(all.last() == item_rows(order, count)[count - 1]);
        assert(all.last() == ItemRowView { item: order.items[count - 1], order_uid: order.order_uid });
        if order_uid == order.order_uid {
            assert((items_of(rows, order_uid) + order.items.take(count - 1)).push(
                order.items[count - 1],
            ) =~= items_of(rows, order_uid) + order.items.take(count));
        }
    }
}

/// Writing an order whole, under unused surrogate identifiers, into sound
/// tables that do not have its identifier: the tables stay sound, every
/// order that they held is unchanged, and the new order comes last, equal to
/// what was written.
pub proof fn lemma_written(tables: Tables, order: OrderView, delivery_id: i32, payment_id: i32)
    requires
        sound(tables),
        !exists_order(tables, order.order_uid),
        unused(tables, delivery_id, payment_id),
    ensures
        sound(written(tables, order, delivery_id, payment_id)),
        load_all(written(tables, order, delivery_id, payment_id)) == load_all(tables).push(order),
        order_uids(written(tables, order, delivery_id, payment_id)) == order_uids(tables).push(
            order.order_uid,
        ),
{
    let after = written(tables, order, delivery_id, payment_id);
    let count = order.items.len() as int;
    let row = row_of(order, delivery_id, payment_id);
    let old_len = tables.orders.len() as int;
    assert(order_uids(after) =~= order_uids(tables).push(order.order_uid));
    assert forall|i: int| 0 <= i < old_len implies tables.orders[i].order_uid
        != order.order_uid by {
        assert(order_uids(tables)[i] == tables.orders[i].order_uid);
    }
    assert forall|i: int| 0 <= i < tables.item.len() implies (#[trigger] tables.item[i]).order_uid
        != order.order_uid by {
        assert(exists_order(tables, tables.item[i].order_uid));
    }
    lemma_items_of_absent(tables.item, order.order_uid);
    lemma_items_of_appended(tables.item, order, count, order.order_uid);
    assert(order.items.take(count) =~= order.items);
    assert(Seq::<ItemView>::empty() + order.items =~= order.items);
    lemma_assembled_row_of(order, delivery_id, payment_id);
    assert(after.orders[old_len] == row);
    assert(joined(after, row) == order);
    assert forall|i: int| 0 <= i < old_len implies joined(after, #[trigger] after.orders[i])
        == joined(tables, tables.orders[i]) by {
        assert(after.orders[i] == tables.orders[i]);
        lemma_items_of_appended(tables.item, order, count, tables.orders[i].order_uid);
    }
    assert(load_all(after) =~= load_all(tables).push(order));
    // soundness of the new tables
    assert forall|i: int, j: int|
        0 <= i < order_uids(after).len() && 0 <= j < order_uids(after).len() && i
            != j implies order_uids(after)[i] != order_uids(after)[j] by {
        if i < old_len {
            assert(order_uids(tables)[i] == order_uids(after)[i]);
        }
        if j < old_len {
            assert(order_uids(tables)[j] == order_uids(after)[j]);
        }
    }
    assert forall|i: int| 0 <= i < after.orders.len() implies after.delivery.dom().contains(
        (#[trigger] after.orders[i]).delivery_id,
    ) && after.payment.dom().contains(after.orders[i].payment_id) by {
        if i < old_len {
            assert(after.orders[i] == tables.orders[i]);
        }
    }
    assert forall|i: int, j: int| 0 <= i < j < after.orders.len() implies (#[trigger] after.orders[i]).delivery_id
        != (#[trigger] after.orders[j]).delivery_id && after.orders[i].payment_id
        != after.orders[j].payment_id by {
        assert(after.orders[i] == tables.orders[i]);
        if j < old_len {
            assert(after.orders[j] == tables.orders[j]);
        }
    }
    assert forall|i: int| 0 <= i < after.item.len() implies exists_order(
        after,
        (#[trigger] after.item[i]).order_uid,
    ) by {
        if i < tables.item.len() {
            assert(after.item[i] == tables.item[i]);
            let uid = tables.item[i].order_uid;
            assert(exists_order(tables, uid));
            let k = choose|k: int| 0 <= k < order_uids(tables).len() && order_uids(tables)[k] == uid;
            assert(order_uids(after)[k] == uid);
        } else {
            assert(order_uids(after)[old_len] == order.order_uid);
        }
    }
}

} // verus!
