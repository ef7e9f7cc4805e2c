//! The in-memory cache of committed orders.
//!
//! The cache is a mapping keyed by `order_uid` that remembers the order in
//! which its entries arrived. Its view is the sequence of its orders, oldest
//! first; no identifier occurs twice in it.

use crate::ingest::{outcome_of, Outcome, Phase, Submission};
use crate::load::{loaded, Loader};
use crate::order::{Order, OrderView};
use crate::store::StoreError;
use vstd::prelude::*;

verus! {

/// The identifiers of a sequence of orders, in the same order.
pub open spec fn uids(orders: Seq<OrderView>) -> Seq<Seq<char>> {
    orders.map_values(|order: OrderView| order.order_uid)
}

/// Inserting into a keyed sequence: an order whose identifier is already
/// present takes the place of the entry that holds it, any other order goes to
/// the end.
pub open spec fn put(orders: Seq<OrderView>, order: OrderView) -> Seq<OrderView> {
    if uids(orders).contains(order.order_uid) {
        orders.update(uids(orders).index_of(order.order_uid), order)
    } else {
        orders.push(order)
    }
}

/// Inserting several orders, first to last.
pub open spec fn put_all(orders: Seq<OrderView>, more: Seq<OrderView>) -> Seq<OrderView>
    decreases more.len(),
{
    if more.len() == 0 {
        orders
    } else {
        put(put_all(orders, more.drop_last()), more.last())
    }
}

/// Where an identifier sits in a sequence without repeated identifiers.
pub proof fn lemma_index_of_uid(orders: Seq<OrderView>, at: int)
    requires
        uids(orders).no_duplicates(),
        0 <= at < orders.len(),
    ensures
        uids(orders).contains(orders[at].order_uid),
        uids(orders).index_of(orders[at].order_uid) == at,
{
    let ids = uids(orders);
    assert(ids[at] == orders[at].order_uid);
    let found = ids.index_of(orders[at].order_uid);
    assert(0 <= found < ids.len() && ids[found] == orders[at].order_uid);
}

/// An insertion leaves the identifiers free of repetition, keeps every entry
/// under another identifier where it was, and makes the order an entry.
pub proof fn lemma_put(orders: Seq<OrderView>, order: OrderView)
    requires
        uids(orders).no_duplicates(),
    ensures
        uids(put(orders, order)).no_duplicates(),
        uids(put(orders, order)).to_set() == uids(orders).to_set().insert(order.order_uid),
        put(orders, order).contains(order),
        !uids(orders).contains(order.order_uid) ==> put(orders, order) == orders.push(order),
        uids(orders).contains(order.order_uid) ==> uids(put(orders, order)) == uids(orders),
{
    let ids = uids(orders);
    let after = put(orders, order);
    if ids.contains(order.order_uid) {
        let at = ids.index_of(order.order_uid);
        assert(0 <= at < ids.len() && ids[at] == order.order_uid);
        assert(uids(after) =~= ids);
        assert(after[at] == order);
        assert(ids.to_set().insert(order.order_uid) =~= ids.to_set());
    } else {
        assert(after[orders.len() as int] == order);
        assert(uids(after) =~= ids.push(order.order_uid));
        assert forall|i: int, j: int|
            0 <= i < uids(after).len() && 0 <= j < uids(after).len() && i != j implies uids(
            after,
        )[i] != uids(after)[j] by {
            if i < ids.len() {
                assert(ids[i] == uids(after)[i]);
            }
            if j < ids.len() {
                assert(ids[j] == uids(after)[j]);
            }
        }
        assert forall|uid: Seq<char>|
            uids(after).to_set().contains(uid) <==> ids.to_set().insert(order.order_uid).contains(
                uid,
            ) by {
            if uids(after).to_set().contains(uid) {
                let k = choose|k: int| 0 <= k < uids(after).len() && uids(after)[k] == uid;
                if k < ids.len() {
                    assert(ids[k] == uid);
                }
            }
            if ids.to_set().contains(uid) {
                let k = choose|k: int| 0 <= k < ids.len() && ids[k] == uid;
                assert(uids(after)[k] == uid);
            }
            if uid == order.order_uid {
                assert(uids(after)[ids.len() as int] == uid);
            }
        }
        assert(uids(after).to_set() =~= ids.to_set().insert(order.order_uid));
    }
}

/// Inserting, into an empty cache and one by one, orders whose identifiers
/// are all different gives back the same sequence.
pub proof fn lemma_put_all_distinct(more: Seq<OrderView>)
    requires
        uids(more).no_duplicates(),
    ensures
        put_all(Seq::empty(), more) == more,
    decreases more.len(),
{
    if more.len() > 0 {
        let front = more.drop_last();
        assert forall|i: int, j: int|
            0 <= i < uids(front).len() && 0 <= j < uids(front).len() && i != j implies uids(
            front,
        )[i] != uids(front)[j] by {
            assert(uids(front)[i] == uids(more)[i]);
            assert(uids(front)[j] == uids(more)[j]);
        }
        lemma_put_all_distinct(front);
        if uids(front).contains(more.last().order_uid) {
            let k = choose|k: int| 0 <= k < uids(front).len() && uids(front)[k] == more.last().order_uid;
            assert(uids(more)[k] == uids(more)[more.len() - 1]);
        }
        assert(front.push(more.last()) =~= more);
    } else {
        assert(more =~= Seq::empty());
    }
}

/// The cache: every order known to be committed, in the order of arrival.
pub struct AppState {
    orders: Vec<Order>,
}

impl View for AppState {
    type V = Seq<OrderView>;

    closed spec fn view(&self) -> Seq<OrderView> {
        self.orders.deep_view()
    }
}

impl AppState {
    #[verifier::type_invariant]
    spec fn keyed(self) -> bool {
        uids(self.orders.deep_view()).no_duplicates()
    }

    /// An empty cache.
    pub fn new() -> (state: Self)
        ensures
            state@ == Seq::<OrderView>::empty(),
    {
        let state = AppState { orders: Vec::new() };
        assert(state.orders.deep_view() =~= Seq::<OrderView>::empty());
        state
    }

    /// Inserts the order, or overwrites the entry that has its identifier.
    pub fn add_order(&mut self, order: Order)
        ensures
            final(self)@ == put(old(self)@, order@),
            uids(final(self)@).no_duplicates(),
    {
        proof {
            use_type_invariant(&*self);
            lemma_put(self@, order@);
        }
        let mut orders: Vec<Order> = Vec::new();
        assert(orders.deep_view() =~= Seq::<OrderView>::empty());
        std::mem::swap(&mut orders, &mut self.orders);
        let ghost before = orders.deep_view();
        let ghost ids = uids(before);
        let n = orders.len();
        let mut at: usize = 0;
        while at < n && orders[at].order_uid != order.order_uid
            invariant
                n == orders.len(),
                at <= n,
                orders.deep_view() == before,
                ids == uids(before),
                forall|k: int| 0 <= k < at ==> ids[k] != order@.order_uid,
            decreases n - at,
        {
            assert(ids[at as int] == before[at as int].order_uid);
            at = at + 1;
        }
        if at < n {
            proof {
                assert(ids[at as int] == before[at as int].order_uid);
                lemma_index_of_uid(before, at as int);
            }
            orders[at] = order;
            assert(orders.deep_view() =~= put(before, order@));
        } else {
            orders.push(order);
            assert(orders.deep_view() =~= put(before, order@));
        }
        self.orders = orders;
    }

    /// Replaces the contents wholesale: afterwards the cache holds what
    /// inserting `orders` one by one into an empty cache gives. Where no
    /// identifier occurs twice in `orders`, that is `orders` itself.
    pub fn populate(&mut self, orders: Vec<Order>)
        ensures
            final(self)@ == put_all(Seq::empty(), orders.deep_view()),
            uids(orders.deep_view()).no_duplicates() ==> final(self)@ == orders.deep_view(),
            uids(final(self)@).no_duplicates(),
    {
        let ghost all = orders.deep_view();
        let mut fresh = AppState::new();
        let n = orders.len();
        let mut done: usize = 0;
        while done < n
            invariant
                n == orders.len(),
                done <= n,
                all == orders.deep_view(),
                fresh@ == put_all(Seq::empty(), all.take(done as int)),
            decreases n - done,
        {
            let order = orders[done].clone();
            assert(all.take(done + 1).drop_last() =~= all.take(done as int));
            assert(all.take(done + 1).last() == order@);
            fresh.add_order(order);
            done = done + 1;
        }
        proof {
            use_type_invariant(&fresh);
            assert(all.take(n as int) =~= all);
            if uids(all).no_duplicates() {
                lemma_put_all_distinct(all);
            }
        }
        self.orders = fresh.orders;
    }

    /// Fills the cache from a finished loading: with every order that was
    /// read, in place of what the cache held. A loading that failed, or was
    /// given up on the way, leaves the cache as it was.
    pub fn load_orders(&mut self, loader: Loader) -> (result: Result<(), StoreError>)
        ensures
            match loaded(loader@) {
                Ok(orders) => result is Ok && final(self)@ == put_all(Seq::empty(), orders) && (
                uids(orders).no_duplicates() ==> final(self)@ == orders),
                Err(cause) => result == Err::<(), StoreError>(cause) && final(self)@ == old(self)@,
            },
            uids(final(self)@).no_duplicates(),
    {
        proof {
            use_type_invariant(&*self);
        }
        match loader.finish() {
            Ok(orders) => {
                self.populate(orders);
                Ok(())
            },
            Err(cause) => Err(cause),
        }
    }

    /// Closes a submission: a committed order enters the cache, any other
    /// submission leaves the cache as it was. Says how the submission ended.
    pub fn settle(&mut self, submission: Submission) -> (outcome: Outcome)
        ensures
            outcome == outcome_of(submission@.phase),
            submission@.phase == Phase::Committed ==> final(self)@ == put(
                old(self)@,
                submission@.order,
            ),
            submission@.phase != Phase::Committed ==> final(self)@ == old(self)@,
            uids(final(self)@).no_duplicates(),
    {
        proof {
            use_type_invariant(&*self);
        }
        let (order, phase) = submission.into_parts();
        match phase {
            Phase::Committed => {
                self.add_order(order);
                Outcome::Committed
            },
            Phase::Duplicate => Outcome::Duplicate,
            Phase::Failed(cause) => Outcome::Failed(cause),
            _ => Outcome::Failed(StoreError::Unavailable),
        }
    }

    /// Every cached order, oldest first.
    pub fn get_orders(&self) -> (orders: Vec<Order>)
        ensures
            orders.deep_view() == self@,
            uids(self@).no_duplicates(),
    {
        proof {
            use_type_invariant(self);
        }
        self.orders.clone()
    }

    /// How many orders the cache holds.
    pub fn len(&self) -> (n: usize)
        ensures
            n == self@.len(),
    {
        self.orders.len()
    }
}

impl Clone for AppState {
    fn clone(&self) -> (copy: Self)
        ensures
            copy@ == self@,
    {
        proof {
            use_type_invariant(self);
        }
        AppState { orders: self.orders.clone() }
    }
}

} // verus!
