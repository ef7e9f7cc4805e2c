//! What a restart finds.
//!
//! After a restart the cache is filled from the store: a loader is run
//! against the committed tables and its orders replace the cache. The
//! statements here say what such a run reads, whatever the store refuses on
//! the way, and that it finds every committed order as it was submitted.

use crate::agreement::{after_all, agrees, initial, lemma_initial_agrees, lemma_submission, representable, submit, Deployment, Submitted};
use crate::cache::{lemma_put_all_distinct, put_all, uids};
use crate::ingest::Phase;
use crate::load::{
    load_step, loaded, LoadActionView, LoadEventView, LoadPhaseView, LoadRequestView, LoaderView,
};
use crate::order::OrderView;
use crate::store::{fetch, load_all, order_uids, sound, StoreError, Tables};
use vstd::prelude::*;

verus! {

/// A loading under way: the loader, and what it asked for last.
pub struct Loading {
    pub loader: LoaderView,
    pub action: LoadActionView,
}

/// The loading that was just begun.
pub open spec fn begun() -> Loading {
    let idle = LoaderView { phase: LoadPhaseView::Idle, rows: Seq::empty(), orders: Seq::empty() };
    Loading {
        loader: load_step(idle, LoadEventView::Started).0,
        action: load_step(idle, LoadEventView::Started).1,
    }
}

/// The loading after the store has answered the pending request.
pub open spec fn fetched(tables: Tables, run: Loading, refuse: Option<StoreError>) -> Loading {
    match run.action {
        LoadActionView::Send(request) => Loading {
            loader: load_step(run.loader, fetch(tables, request, refuse)).0,
            action: load_step(run.loader, fetch(tables, request, refuse)).1,
        },
        _ => run,
    }
}

/// The loading after the store has answered as often as `refusals` is long,
/// or until the loading has ended. Each entry says whether the store
/// refuses that request, and why.
pub open spec fn load_drive(tables: Tables, run: Loading, refusals: Seq<Option<StoreError>>) -> Loading
    decreases refusals.len(),
{
    if refusals.len() == 0 {
        run
    } else {
        load_drive(tables, fetched(tables, run, refusals[0]), refusals.skip(1))
    }
}

/// What a whole loading has to show.
pub open spec fn reload(tables: Tables, refusals: Seq<Option<StoreError>>) -> Result<
    Seq<OrderView>,
    StoreError,
> {
    loaded(load_drive(tables, begun(), refusals).loader)
}

/// The loader has listed the rows of `orders` and put the first of them
/// together, as joining the tables does.
pub open spec fn reading(tables: Tables, loader: LoaderView) -> bool {
    &&& loader.rows == tables.orders
    &&& loader.orders.len() < loader.rows.len()
    &&& loader.orders == load_all(tables).take(loader.orders.len() as int)
}

/// What is known of a loading from `tables`, in each of its phases.
pub open spec fn loading_on_track(tables: Tables, run: Loading) -> bool {
    let row = run.loader.rows[run.loader.orders.len() as int];
    match run.loader.phase {
        LoadPhaseView::Idle => false,
        LoadPhaseView::Listing => run.action == LoadActionView::Send(LoadRequestView::Orders),
        LoadPhaseView::Delivery => {
            &&& reading(tables, run.loader)
            &&& run.action == LoadActionView::Send(LoadRequestView::Delivery { id: row.delivery_id })
        },
        LoadPhaseView::Payment { delivery } => {
            &&& reading(tables, run.loader)
            &&& delivery == tables.delivery[row.delivery_id]
            &&& run.action == LoadActionView::Send(LoadRequestView::Payment { id: row.payment_id })
        },
        LoadPhaseView::Items { delivery, payment } => {
            &&& reading(tables, run.loader)
            &&& delivery == tables.delivery[row.delivery_id]
            &&& payment == tables.payment[row.payment_id]
            &&& run.action == LoadActionView::Send(
                LoadRequestView::Items { order_uid: row.order_uid },
            )
        },
        LoadPhaseView::Done => {
            &&& run.loader.orders == load_all(tables)
            &&& run.action == LoadActionView::Done
        },
        LoadPhaseView::Failed(cause) => run.action == LoadActionView::Failed(cause),
    }
}

/// How many answers a loading still needs before it ends, if none is a
/// refusal.
pub open spec fn reads_left(tables: Tables, loader: LoaderView) -> int {
    let rest = tables.orders.len() - loader.orders.len();
    match loader.phase {
        LoadPhaseView::Listing => 3 * (tables.orders.len() as int) + 1,
        LoadPhaseView::Delivery => 3 * rest,
        LoadPhaseView::Payment { .. } => 3 * rest - 1,
        LoadPhaseView::Items { .. } => 3 * rest - 2,
        _ => 0,
    }
}

/// One answer of the store keeps a loading on track. Where the tables are
/// sound and the store does not refuse, the loading does not fail, and is one
/// step nearer to its end.
pub proof fn lemma_fetched(tables: Tables, run: Loading, refuse: Option<StoreError>)
    requires
        loading_on_track(tables, run),
    ensures
        loading_on_track(tables, fetched(tables, run, refuse)),
        sound(tables) && refuse is None && !(run.loader.phase is Failed) ==> {
            &&& !(fetched(tables, run, refuse).loader.phase is Failed)
            &&& run.action is Send ==> reads_left(tables, fetched(tables, run, refuse).loader)
                == reads_left(tables, run.loader) - 1
        },
{
    let next = fetched(tables, run, refuse);
    let done = run.loader.orders.len() as int;
    match run.loader.phase {
        LoadPhaseView::Listing => {
            if refuse is None {
                assert(load_all(tables).take(0) =~= Seq::<OrderView>::empty());
                if tables.orders.len() == 0 {
                    assert(load_all(tables) =~= Seq::<OrderView>::empty());
                }
            }
        },
        LoadPhaseView::Delivery => {
            if sound(tables) {
                assert(tables.delivery.dom().contains(tables.orders[done].delivery_id));
            }
        },
        LoadPhaseView::Payment { delivery } => {
            if sound(tables) {
                assert(tables.payment.dom().contains(tables.orders[done].payment_id));
            }
        },
        LoadPhaseView::Items { delivery, payment } => {
            if refuse is None {
                assert(next.loader.orders =~= load_all(tables).take(done + 1));
                if done + 1 == tables.orders.len() {
                    assert(load_all(tables).take(done + 1) =~= load_all(tables));
                }
            }
        },
        _ => {},
    }
}

/// A loading that has ended stays as it is.
pub proof fn lemma_load_drive_ended(tables: Tables, run: Loading, refusals: Seq<Option<StoreError>>)
    requires
        !(run.action is Send),
    ensures
        load_drive(tables, run, refusals) == run,
    decreases refusals.len(),
{
    if refusals.len() > 0 {
        lemma_load_drive_ended(tables, run, refusals.skip(1));
    }
}

/// Whatever the store refuses, and however often it answers, a loading
/// stays on track.
pub proof fn lemma_load_drive(tables: Tables, run: Loading, refusals: Seq<Option<StoreError>>)
    requires
        loading_on_track(tables, run),
    ensures
        loading_on_track(tables, load_drive(tables, run, refusals)),
    decreases refusals.len(),
{
    if refusals.len() > 0 {
        lemma_fetched(tables, run, refusals[0]);
        lemma_load_drive(tables, fetched(tables, run, refusals[0]), refusals.skip(1));
    }
}

/// From sound tables, with no refusal and answers enough, a loading ends
/// done.
pub proof fn lemma_load_drive_served(
    tables: Tables,
    run: Loading,
    refusals: Seq<Option<StoreError>>,
)
    requires
        sound(tables),
        loading_on_track(tables, run),
        !(run.loader.phase is Failed),
        forall|i: int| 0 <= i < refusals.len() ==> refusals[i] is None,
        refusals.len() >= reads_left(tables, run.loader),
    ensures
        load_drive(tables, run, refusals).loader.phase is Done,
    decreases refusals.len(),
{
    if !(run.action is Send) {
        lemma_load_drive_ended(tables, run, refusals);
    } else {
        assert(refusals.len() > 0) by {
            if run.loader.phase is Delivery || run.loader.phase is Payment
                || run.loader.phase is Items {
                assert(run.loader.orders.len() < tables.orders.len());
            }
        }
        lemma_fetched(tables, run, refusals[0]);
        assert forall|i: int| 0 <= i < refusals.skip(1).len() implies refusals.skip(
            1,
        )[i] is None by {
            assert(refusals.skip(1)[i] == refusals[i + 1]);
        }
        lemma_load_drive_served(tables, fetched(tables, run, refusals[0]), refusals.skip(1));
    }
}

/// A loading never shows anything but the committed orders: whatever the
/// store refuses on the way, it ends with an error or with every order that
/// joining the tables gives.
pub proof fn reload_is_all_or_nothing(tables: Tables, refusals: Seq<Option<StoreError>>)
    ensures
        reload(tables, refusals) is Ok ==> reload(tables, refusals) == Ok::<
            Seq<OrderView>,
            StoreError,
        >(load_all(tables)),
{
    lemma_load_drive(tables, begun(), refusals);
}

/// Restart reconstruction. Where cache and store agree, a loading that the
/// store does not refuse reads the cache back, entry for entry; filling an
/// empty cache with what it read gives the cache that was there before.
pub proof fn restart_rebuilds_cache(deployment: Deployment, refusals: Seq<Option<StoreError>>)
    requires
        agrees(deployment),
        forall|i: int| 0 <= i < refusals.len() ==> refusals[i] is None,
        refusals.len() >= 3 * deployment.cache.len() + 1,
    ensures
        reload(deployment.store.committed, refusals) == Ok::<Seq<OrderView>, StoreError>(
            deployment.cache,
        ),
        put_all(Seq::empty(), deployment.cache) == deployment.cache,
{
    let tables = deployment.store.committed;
    lemma_load_drive(tables, begun(), refusals);
    lemma_load_drive_served(tables, begun(), refusals);
    assert(uids(load_all(tables)) =~= order_uids(tables));
    lemma_put_all_distinct(deployment.cache);
}

/// The orders of a sequence of submissions.
pub open spec fn orders_of(submissions: Seq<Submitted>) -> Seq<OrderView> {
    submissions.map_values(|submitted: Submitted| submitted.order)
}

/// Every submission of the sequence, run after those before it, ended as
/// committed.
pub open spec fn all_committed(deployment: Deployment, submissions: Seq<Submitted>) -> bool {
    forall|i: int|
        #![trigger submissions[i]]
        0 <= i < submissions.len() ==> representable(submissions[i].order) && submit(
            after_all(deployment, submissions.take(i)),
            submissions[i].order,
            submissions[i].choices,
        ).phase == Phase::Committed
}

/// Orders that were all committed, one after the other, are the cache.
pub proof fn lemma_all_committed(deployment: Deployment, submissions: Seq<Submitted>)
    requires
        agrees(deployment),
        all_committed(deployment, submissions),
    ensures
        agrees(after_all(deployment, submissions)),
        after_all(deployment, submissions).cache == deployment.cache + orders_of(submissions),
    decreases submissions.len(),
{
    if submissions.len() == 0 {
        assert(deployment.cache + orders_of(submissions) =~= deployment.cache);
    } else {
        let before = submissions.drop_last();
        let last = submissions.len() - 1;
        assert forall|i: int| 0 <= i < before.len() implies representable(
            (#[trigger] before[i]).order,
        ) && submit(after_all(deployment, before.take(i)), before[i].order, before[i].choices).phase
            == Phase::Committed by {
            assert(before[i] == submissions[i]);
            assert(before.take(i) =~= submissions.take(i));
        }
        lemma_all_committed(deployment, before);
        assert(submissions.take(last) =~= before);
        assert(submissions[last] == submissions.last());
        lemma_submission(
            after_all(deployment, before),
            submissions.last().order,
            submissions.last().choices,
        );
        assert((deployment.cache + orders_of(before)).push(submissions.last().order)
            =~= deployment.cache + orders_of(submissions));
    }
}

/// Restart reconstruction, from the beginning. After orders were committed
/// one after the other to a store that was empty, a loading that the store
/// does not refuse reads as many orders as were committed, each equal to the
/// document that was submitted, in the order of submission; and the cache
/// that is filled with them holds exactly these.
pub proof fn restart_finds_what_was_committed(
    submissions: Seq<Submitted>,
    refusals: Seq<Option<StoreError>>,
)
    requires
        all_committed(initial(), submissions),
        forall|i: int| 0 <= i < refusals.len() ==> refusals[i] is None,
        refusals.len() >= 3 * submissions.len() + 1,
    ensures
        reload(after_all(initial(), submissions).store.committed, refusals) == Ok::<
            Seq<OrderView>,
            StoreError,
        >(orders_of(submissions)),
        put_all(Seq::empty(), orders_of(submissions)) == orders_of(submissions),
        orders_of(submissions).len() == submissions.len(),
{
    lemma_initial_agrees();
    lemma_all_committed(initial(), submissions);
    assert(Seq::<OrderView>::empty() + orders_of(submissions) =~= orders_of(submissions));
    restart_rebuilds_cache(after_all(initial(), submissions), refusals);
}

} // verus!
