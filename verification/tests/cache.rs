use order_service::cache::AppState;
use order_service::ingest::{Event, Outcome, Submission};
use order_service::load::{LoadEvent, Loader};
use order_service::order::{Delivery, Item, Order, Payment};
use order_service::row::OrderRow;
use order_service::store::StoreError;

fn delivery(name: &str) -> Delivery {
    Delivery {
        name: name.to_string(),
        phone: "+9720000000".to_string(),
        zip: "2639809".to_string(),
        city: "Kiryat Mozkin".to_string(),
        address: "Ploshad Mira 15".to_string(),
        region: "Kraiot".to_string(),
        email: "test@gmail.com".to_string(),
    }
}

fn payment(transaction: &str) -> Payment {
    Payment {
        transaction: transaction.to_string(),
        request_id: "".to_string(),
        currency: "USD".to_string(),
        provider: "wbpay".to_string(),
        amount: 1817,
        payment_dt: 1637907727,
        bank: "alpha".to_string(),
        delivery_cost: 1500,
        goods_total: 317,
        custom_fee: 0,
    }
}

fn item(chrt_id: i32, name: &str) -> Item {
    Item {
        chrt_id,
        track_number: "WBILMTESTTRACK".to_string(),
        price: 453,
        rid: "ab4219087a764ae0btest".to_string(),
        name: name.to_string(),
        sale: 30,
        size: "0".to_string(),
        total_price: 317,
        nm_id: 2389212,
        brand: "Vivienne Sabo".to_string(),
        status: 202,
    }
}

fn order(uid: &str, entry: &str, items: Vec<Item>) -> Order {
    Order {
        order_uid: uid.to_string(),
        track_number: "WBILMTESTTRACK".to_string(),
        entry: entry.to_string(),
        delivery: delivery("Test Testov"),
        payment: payment(uid),
        items,
        locale: "en".to_string(),
        internal_signature: "".to_string(),
        customer_id: "test".to_string(),
        delivery_service: "meest".to_string(),
        shardkey: "9".to_string(),
        sm_id: 99,
        date_created: "2021-11-26T06:22:19Z".to_string(),
        oof_shard: "1".to_string(),
    }
}

fn uids(state: &AppState) -> Vec<String> {
    state.get_orders().into_iter().map(|order| order.order_uid).collect()
}

#[test]
fn new_cache_is_empty() {
    let state = AppState::new();
    assert_eq!(state.len(), 0);
    assert_eq!(state.get_orders(), Vec::<Order>::new());
}

#[test]
fn added_orders_come_back_in_order_of_arrival() {
    let mut state = AppState::new();
    state.add_order(order("b", "first", vec![item(1, "one")]));
    state.add_order(order("a", "second", vec![]));
    state.add_order(order("c", "third", vec![item(2, "two"), item(3, "three")]));
    assert_eq!(
        state.get_orders(),
        vec![
            order("b", "first", vec![item(1, "one")]),
            order("a", "second", vec![]),
            order("c", "third", vec![item(2, "two"), item(3, "three")]),
        ]
    );
    assert_eq!(state.len(), 3);
}

#[test]
fn adding_a_known_identifier_overwrites_in_place() {
    let mut state = AppState::new();
    state.add_order(order("a", "old", vec![item(1, "one")]));
    state.add_order(order("b", "other", vec![]));
    state.add_order(order("a", "new", vec![item(9, "nine"), item(8, "eight")]));
    assert_eq!(
        state.get_orders(),
        vec![
            order("a", "new", vec![item(9, "nine"), item(8, "eight")]),
            order("b", "other", vec![]),
        ]
    );
}

#[test]
fn identifiers_are_compared_whole() {
    let mut state = AppState::new();
    state.add_order(order("uid", "one", vec![]));
    state.add_order(order("uid-", "two", vec![]));
    state.add_order(order("", "three", vec![]));
    state.add_order(order("UID", "four", vec![]));
    assert_eq!(uids(&state), vec!["uid", "uid-", "", "UID"]);
}

#[test]
fn get_orders_hands_out_copies() {
    let mut state = AppState::new();
    state.add_order(order("a", "kept", vec![item(1, "one")]));
    let mut copy = state.get_orders();
    copy[0].entry = "changed".to_string();
    copy.push(order("z", "extra", vec![]));
    assert_eq!(state.get_orders(), vec![order("a", "kept", vec![item(1, "one")])]);
}

#[test]
fn clone_of_the_cache_holds_the_same_orders() {
    let mut state = AppState::new();
    state.add_order(order("a", "one", vec![item(1, "one")]));
    state.add_order(order("b", "two", vec![]));
    let copy = state.clone();
    state.add_order(order("c", "three", vec![]));
    assert_eq!(uids(&copy), vec!["a", "b"]);
    assert_eq!(uids(&state), vec!["a", "b", "c"]);
}

#[test]
fn populate_replaces_the_contents() {
    let mut state = AppState::new();
    state.add_order(order("old", "gone", vec![]));
    state.populate(vec![order("x", "one", vec![item(1, "one")]), order("y", "two", vec![])]);
    assert_eq!(
        state.get_orders(),
        vec![order("x", "one", vec![item(1, "one")]), order("y", "two", vec![])]
    );
}

#[test]
fn populate_with_nothing_empties_the_cache() {
    let mut state = AppState::new();
    state.add_order(order("old", "gone", vec![]));
    state.populate(Vec::new());
    assert_eq!(state.len(), 0);
}

#[test]
fn populate_keeps_one_entry_for_each_identifier() {
    let mut state = AppState::new();
    state.populate(vec![
        order("x", "first", vec![]),
        order("y", "second", vec![]),
        order("x", "third", vec![item(1, "one")]),
    ]);
    assert_eq!(
        state.get_orders(),
        vec![order("x", "third", vec![item(1, "one")]), order("y", "second", vec![])]
    );
}

#[test]
fn settle_caches_a_committed_order() {
    let mut submission = Submission::new(order("a", "one", vec![]));
    submission.advance(Event::Submitted);
    submission.advance(Event::Found(false));
    submission.advance(Event::Done);
    submission.advance(Event::Assigned(1));
    submission.advance(Event::Assigned(1));
    submission.advance(Event::Done);
    submission.advance(Event::Done);
    let mut state = AppState::new();
    assert_eq!(state.settle(submission), Outcome::Committed);
    assert_eq!(state.get_orders(), vec![order("a", "one", vec![])]);
}

#[test]
fn settle_leaves_the_cache_alone_for_a_duplicate() {
    let mut state = AppState::new();
    state.add_order(order("a", "kept", vec![]));
    let mut submission = Submission::new(order("a", "again", vec![]));
    submission.advance(Event::Submitted);
    submission.advance(Event::Found(true));
    assert_eq!(state.settle(submission), Outcome::Duplicate);
    assert_eq!(state.get_orders(), vec![order("a", "kept", vec![])]);
}

#[test]
fn settle_leaves_the_cache_alone_for_a_failure() {
    let mut state = AppState::new();
    let mut submission = Submission::new(order("a", "one", vec![]));
    submission.advance(Event::Submitted);
    submission.advance(Event::Found(false));
    submission.advance(Event::Refused(StoreError::Integrity));
    assert_eq!(state.settle(submission), Outcome::Failed(StoreError::Integrity));
    assert_eq!(state.len(), 0);
}

#[test]
fn settle_counts_an_unfinished_submission_as_failed() {
    let mut state = AppState::new();
    let fresh = Submission::new(order("a", "one", vec![]));
    assert_eq!(state.settle(fresh), Outcome::Failed(StoreError::Unavailable));
    let mut waiting = Submission::new(order("b", "two", vec![]));
    waiting.advance(Event::Submitted);
    waiting.advance(Event::Found(false));
    waiting.advance(Event::Done);
    waiting.advance(Event::Assigned(4));
    assert_eq!(state.settle(waiting), Outcome::Failed(StoreError::Unavailable));
    assert_eq!(state.len(), 0);
}

fn row(uid: &str, delivery_id: i32, payment_id: i32) -> OrderRow {
    OrderRow::of(&order(uid, "loaded", vec![]), delivery_id, payment_id)
}

#[test]
fn load_orders_fills_the_cache_from_a_finished_loading() {
    let mut loader = Loader::new();
    loader.advance(LoadEvent::Started);
    loader.advance(LoadEvent::Orders(vec![row("a", 1, 2), row("b", 3, 4)]));
    loader.advance(LoadEvent::Delivery(delivery("A")));
    loader.advance(LoadEvent::Payment(payment("pa")));
    loader.advance(LoadEvent::Items(vec![item(1, "one")]));
    loader.advance(LoadEvent::Delivery(delivery("B")));
    loader.advance(LoadEvent::Payment(payment("pb")));
    loader.advance(LoadEvent::Items(vec![]));
    let mut state = AppState::new();
    state.add_order(order("stale", "gone", vec![]));
    assert_eq!(state.load_orders(loader), Ok(()));
    let mut a = order("a", "loaded", vec![item(1, "one")]);
    a.delivery = delivery("A");
    a.payment = payment("pa");
    let mut b = order("b", "loaded", vec![]);
    b.delivery = delivery("B");
    b.payment = payment("pb");
    assert_eq!(state.get_orders(), vec![a, b]);
}

#[test]
fn load_orders_keeps_the_cache_when_loading_failed() {
    let mut loader = Loader::new();
    loader.advance(LoadEvent::Started);
    loader.advance(LoadEvent::Orders(vec![row("a", 1, 2)]));
    loader.advance(LoadEvent::Refused(StoreError::Integrity));
    let mut state = AppState::new();
    state.add_order(order("kept", "here", vec![]));
    assert_eq!(state.load_orders(loader), Err(StoreError::Integrity));
    assert_eq!(state.get_orders(), vec![order("kept", "here", vec![])]);
}

#[test]
fn load_orders_keeps_the_cache_when_loading_was_given_up() {
    let mut loader = Loader::new();
    loader.advance(LoadEvent::Started);
    let mut state = AppState::new();
    state.add_order(order("kept", "here", vec![]));
    assert_eq!(state.load_orders(loader), Err(StoreError::Unavailable));
    assert_eq!(state.load_orders(Loader::new()), Err(StoreError::Unavailable));
    assert_eq!(state.get_orders(), vec![order("kept", "here", vec![])]);
}

#[test]
fn load_orders_of_an_empty_store_empties_the_cache() {
    let mut loader = Loader::new();
    loader.advance(LoadEvent::Started);
    loader.advance(LoadEvent::Orders(Vec::new()));
    let mut state = AppState::new();
    state.add_order(order("stale", "gone", vec![]));
    assert_eq!(state.load_orders(loader), Ok(()));
    assert_eq!(state.len(), 0);
}
