//! What holds of the cache and the store together.
//!
//! A deployment is a store and a cache. Submissions are run against the
//! model of the store, whatever the store decides on the way: to refuse a
//! request at any point, or to serve it. The statements here say what such
//! runs can and cannot do to the committed tables and to the cache.

use crate::cache::{lemma_put, put, uids};
use crate::ingest::{step, ActionView, Event, Outcome, Phase, RequestView, Write};
use crate::order::OrderView;
use crate::row::row_of;
use crate::store::{
    exists_order, lemma_written, load_all, no_rows, order_uids, partly_written, respond, sound,
    unused, with_delivery, with_item, with_order, with_payment, written, Choice, Store, Tables,
};
use vstd::prelude::*;

verus! {

/// An order that a machine can hold: its items can be counted.
pub open spec fn representable(order: OrderView) -> bool {
    order.items.len() <= usize::MAX
}

/// A submission under way: where it stands, what it asked for last, and the
/// store as it is before that request is answered.
pub struct Run {
    pub phase: Phase,
    pub action: ActionView,
    pub store: Store,
}

/// The run of an order that was just handed in.
pub open spec fn submitted(order: OrderView, store: Store) -> Run {
    Run {
        phase: step(Phase::Received, order, Event::Submitted).0,
        action: step(Phase::Received, order, Event::Submitted).1,
        store,
    }
}

/// The run after the store has answered the pending request.
pub open spec fn answered(order: OrderView, run: Run, choice: Choice) -> Run {
    match run.action {
        ActionView::Send(request) => {
            let store = respond(run.store, request, choice).0;
            let event = respond(run.store, request, choice).1;
            Run { phase: step(run.phase, order, event).0, action: step(run.phase, order, event).1, store }
        },
        ActionView::Finish(_) => run,
    }
}

/// The run after the store has answered as often as there are choices, or
/// until the submission has ended.
pub open spec fn drive(order: OrderView, run: Run, choices: Seq<Choice>) -> Run
    decreases choices.len(),
{
    if choices.len() == 0 {
        run
    } else {
        drive(order, answered(order, run, choices[0]), choices.skip(1))
    }
}

/// A store and the cache beside it.
pub struct Deployment {
    pub store: Store,
    pub cache: Seq<OrderView>,
}

/// A deployment that has never seen an order.
pub open spec fn initial() -> Deployment {
    Deployment { store: Store { committed: no_rows(), open: None }, cache: Seq::empty() }
}

/// The run of a whole submission.
pub open spec fn submit(deployment: Deployment, order: OrderView, choices: Seq<Choice>) -> Run {
    drive(order, submitted(order, deployment.store), choices)
}

/// The deployment after a submission was run and settled: only a committed
/// order enters the cache.
pub open spec fn after(deployment: Deployment, order: OrderView, choices: Seq<Choice>) -> Deployment {
    let run = submit(deployment, order, choices);
    Deployment {
        store: run.store,
        cache: if run.phase == Phase::Committed {
            put(deployment.cache, order)
        } else {
            deployment.cache
        },
    }
}

/// The cache mirrors the store: the tables are sound, and joining them
/// gives the cache, entry for entry.
pub open spec fn agrees(deployment: Deployment) -> bool {
    sound(deployment.store.committed) && load_all(deployment.store.committed) == deployment.cache
}

/// The store serves whatever it is asked: it refuses nothing by itself, and
/// the surrogate identifiers that it draws are not in use.
pub open spec fn willing(choices: Seq<Choice>, tables: Tables) -> bool {
    forall|i: int|
        0 <= i < choices.len() ==> (#[trigger] choices[i]).refuse is None && unused(
            tables,
            choices[i].id,
            choices[i].id,
        )
}

/// What is known of the write of `order` into tables that were `start` when
/// it began, in each of its phases.
pub open spec fn writing(
    order: OrderView,
    start: Tables,
    write: Write,
    action: ActionView,
    open: Option<Tables>,
) -> bool {
    match write {
        Write::Opening => action == ActionView::Send(RequestView::Begin),
        Write::Delivery => {
            &&& action == ActionView::Send(RequestView::InsertDelivery(order.delivery))
            &&& open == Some(start)
        },
        Write::Payment { delivery_id } => {
            &&& action == ActionView::Send(RequestView::InsertPayment(order.payment))
            &&& !start.delivery.dom().contains(delivery_id)
            &&& open == Some(with_delivery(start, delivery_id, order.delivery))
        },
        Write::Rows { sent } => if sent == 0 {
            &&& action matches ActionView::Send(RequestView::InsertOrder(row))
            &&& row == row_of(order, row.delivery_id, row.payment_id)
            &&& unused(start, row.delivery_id, row.payment_id)
            &&& open == Some(
                with_payment(
                    with_delivery(start, row.delivery_id, order.delivery),
                    row.payment_id,
                    order.payment,
                ),
            )
        } else {
            &&& sent <= order.items.len()
            &&& action == ActionView::Send(
                RequestView::InsertItem { item: order.items[sent - 1], order_uid: order.order_uid },
            )
            &&& open matches Some(tables)
            &&& tables.orders.len() > 0
            &&& unused(start, tables.orders.last().delivery_id, tables.orders.last().payment_id)
            &&& tables == partly_written(
                start,
                order,
                tables.orders.last().delivery_id,
                tables.orders.last().payment_id,
                sent - 1,
            )
        },
        Write::Committing => {
            &&& action == ActionView::Send(RequestView::Commit)
            &&& open matches Some(tables)
            &&& tables.orders.len() > 0
            &&& unused(start, tables.orders.last().delivery_id, tables.orders.last().payment_id)
            &&& tables == written(
                start,
                order,
                tables.orders.last().delivery_id,
                tables.orders.last().payment_id,
            )
        },
        Write::RollingBack { cause } => action == ActionView::Send(RequestView::Rollback),
    }
}

/// What is known of a run of `order` that began when the committed tables
/// were `start`: until the commit is served the committed tables are `start`,
/// and afterwards they are `start` with the whole order written.
pub open spec fn on_track(order: OrderView, start: Tables, run: Run) -> bool {
    match run.phase {
        Phase::Received => false,
        Phase::Checking => {
            &&& run.store.committed == start
            &&& run.action == ActionView::Send(RequestView::Exists { order_uid: order.order_uid })
        },
        Phase::Persisting(write) => {
            &&& run.store.committed == start
            &&& !exists_order(start, order.order_uid)
            &&& writing(order, start, write, run.action, run.store.open)
        },
        Phase::Duplicate => {
            &&& run.store.committed == start
            &&& exists_order(start, order.order_uid)
            &&& run.action == ActionView::Finish(Outcome::Duplicate)
        },
        Phase::Failed(cause) => {
            &&& run.store.committed == start
            &&& run.action == ActionView::Finish(Outcome::Failed(cause))
        },
        Phase::Committed => {
            let tables = run.store.committed;
            &&& run.action == ActionView::Finish(Outcome::Committed)
            &&& !exists_order(start, order.order_uid)
            &&& tables.orders.len() > 0
            &&& unused(start, tables.orders.last().delivery_id, tables.orders.last().payment_id)
            &&& tables == written(
                start,
                order,
                tables.orders.last().delivery_id,
                tables.orders.last().payment_id,
            )
        },
    }
}

proof fn lemma_tables_equal(left: Tables, right: Tables)
    requires
        left.delivery =~= right.delivery,
        left.payment =~= right.payment,
        left.orders =~= right.orders,
        left.item =~= right.item,
    ensures
        left == right,
{
}

proof fn lemma_answered_rows(order: OrderView, start: Tables, run: Run, choice: Choice)
    requires
        representable(order),
        on_track(order, start, run),
        run.phase matches Phase::Persisting(Write::Rows { sent }),
    ensures
        on_track(order, start, answered(order, run, choice)),
{
    let sent = run.phase->Persisting_0->Rows_sent;
    let tables = run.store.open->Some_0;
    let request = run.action->Send_0;
    let next = answered(order, run, choice);
    if choice.refuse is None {
        if sent == 0 {
            let row = request->InsertOrder_0;
            let after = partly_written(start, order, row.delivery_id, row.payment_id, 0);
            assert(order_uids(tables) == order_uids(start));
            lemma_tables_equal(with_order(tables, row), after);
            assert(after.orders.last() == row);
        } else {
            let row = tables.orders.last();
            let after = partly_written(start, order, row.delivery_id, row.payment_id, sent as int);
            assert(order_uids(tables)[tables.orders.len() - 1] == order.order_uid);
            assert(exists_order(tables, order.order_uid));
            lemma_tables_equal(
                with_item(tables, order.items[sent - 1], order.order_uid),
                after,
            );
            assert(after.orders.last() == row);
        }
    }
}

/// One answer of the store keeps a run on track.
pub proof fn lemma_answered(order: OrderView, start: Tables, run: Run, choice: Choice)
    requires
        representable(order),
        on_track(order, start, run),
    ensures
        on_track(order, start, answered(order, run, choice)),
{
    match run.phase {
        Phase::Persisting(Write::Rows { sent }) => {
            lemma_answered_rows(order, start, run, choice);
        },
        Phase::Persisting(Write::Payment { delivery_id }) => {
            let tables = run.store.open->Some_0;
            assert(tables.payment == start.payment);
        },
        Phase::Persisting(Write::Committing) => {
            let next = answered(order, run, choice);
            if choice.refuse is None {
                assert(next.store.committed == run.store.open->Some_0);
            }
        },
        _ => {},
    }
}

/// Whatever the store answers, and however often, a run stays on track.
pub proof fn lemma_drive(order: OrderView, start: Tables, run: Run, choices: Seq<Choice>)
    requires
        representable(order),
        on_track(order, start, run),
    ensures
        on_track(order, start, drive(order, run, choices)),
    decreases choices.len(),
{
    if choices.len() > 0 {
        lemma_answered(order, start, run, choices[0]);
        lemma_drive(order, start, answered(order, run, choices[0]), choices.skip(1));
    }
}

/// The identifiers of the joined orders are those of the rows of `orders`.
pub proof fn lemma_uids_of_load_all(tables: Tables)
    ensures
        uids(load_all(tables)) == order_uids(tables),
{
    assert(uids(load_all(tables)) =~= order_uids(tables));
}

/// A submission, whatever the store answers and however far the run gets,
/// leaves the deployment in agreement. Either the order was committed: then
/// its identifier was new, and it is the last entry of the cache and the last
/// order of the store, with everything that was there before unchanged. Or
/// it was not: then the committed tables and the cache are what they were.
pub proof fn lemma_submission(deployment: Deployment, order: OrderView, choices: Seq<Choice>)
    requires
        agrees(deployment),
        representable(order),
    ensures
        agrees(after(deployment, order, choices)),
        submit(deployment, order, choices).phase == Phase::Committed ==> {
            &&& !exists_order(deployment.store.committed, order.order_uid)
            &&& after(deployment, order, choices).cache == deployment.cache.push(order)
        },
        submit(deployment, order, choices).phase != Phase::Committed ==> {
            &&& after(deployment, order, choices).store.committed == deployment.store.committed
            &&& after(deployment, order, choices).cache == deployment.cache
        },
        submit(deployment, order, choices).phase == Phase::Duplicate ==> exists_order(
            deployment.store.committed,
            order.order_uid,
        ),
{
    let start = deployment.store.committed;
    let run = submit(deployment, order, choices);
    lemma_drive(order, start, submitted(order, deployment.store), choices);
    lemma_uids_of_load_all(start);
    if run.phase == Phase::Committed {
        let tables = run.store.committed;
        lemma_written(start, order, tables.orders.last().delivery_id, tables.orders.last().payment_id);
        lemma_put(deployment.cache, order);
    }
}

/// A run that has ended stays as it is.
pub proof fn lemma_drive_ended(order: OrderView, run: Run, choices: Seq<Choice>)
    requires
        run.action is Finish,
    ensures
        drive(order, run, choices) == run,
    decreases choices.len(),
{
    if choices.len() > 0 {
        lemma_drive_ended(order, run, choices.skip(1));
    }
}

/// A phase from which a willing store leads to an end without failure.
pub open spec fn hopeful(phase: Phase) -> bool {
    match phase {
        Phase::Received | Phase::Failed(_) | Phase::Persisting(Write::RollingBack { .. }) => false,
        _ => true,
    }
}

/// How many answers of a willing store a run still needs before it ends.
pub open spec fn answers_left(order: OrderView, start: Tables, phase: Phase) -> int {
    let items = order.items.len() as int;
    match phase {
        Phase::Checking => if exists_order(start, order.order_uid) {
            1
        } else {
            items + 6
        },
        Phase::Persisting(Write::Opening) => items + 5,
        Phase::Persisting(Write::Delivery) => items + 4,
        Phase::Persisting(Write::Payment { .. }) => items + 3,
        Phase::Persisting(Write::Rows { sent }) => items - sent + 2,
        Phase::Persisting(Write::Committing) => 1,
        _ => 0,
    }
}

proof fn lemma_served_rows(order: OrderView, start: Tables, run: Run, choice: Choice)
    requires
        representable(order),
        on_track(order, start, run),
        run.phase matches Phase::Persisting(Write::Rows { sent }),
        choice.refuse is None,
    ensures
        hopeful(answered(order, run, choice).phase),
        answers_left(order, start, answered(order, run, choice).phase) == answers_left(
            order,
            start,
            run.phase,
        ) - 1,
{
    let sent = run.phase->Persisting_0->Rows_sent;
    let tables = run.store.open->Some_0;
    if sent == 0 {
        assert(order_uids(tables) == order_uids(start));
    } else {
        assert(order_uids(tables)[tables.orders.len() - 1] == order.order_uid);
        assert(exists_order(tables, order.order_uid));
    }
}

/// An answer of a willing store brings a hopeful run one step nearer to its
/// end, and keeps it hopeful.
pub proof fn lemma_served(order: OrderView, start: Tables, run: Run, choice: Choice)
    requires
        representable(order),
        on_track(order, start, run),
        hopeful(run.phase),
        run.action is Send,
        choice.refuse is None,
        unused(start, choice.id, choice.id),
    ensures
        hopeful(answered(order, run, choice).phase),
        answers_left(order, start, answered(order, run, choice).phase) == answers_left(
            order,
            start,
            run.phase,
        ) - 1,
{
    match run.phase {
        Phase::Persisting(Write::Rows { sent }) => {
            lemma_served_rows(order, start, run, choice);
        },
        Phase::Persisting(Write::Payment { delivery_id }) => {
            let tables = run.store.open->Some_0;
            assert(tables.payment == start.payment);
        },
        _ => {},
    }
}

/// With a willing store and answers enough, a hopeful run ends as a
/// duplicate where the identifier was committed before, and as committed
/// where it was not.
pub proof fn lemma_willing_run(order: OrderView, start: Tables, run: Run, choices: Seq<Choice>)
    requires
        representable(order),
        on_track(order, start, run),
        hopeful(run.phase),
        willing(choices, start),
        choices.len() >= answers_left(order, start, run.phase),
    ensures
        drive(order, run, choices).phase == if exists_order(start, order.order_uid) {
            Phase::Duplicate
        } else {
            Phase::Committed
        },
    decreases choices.len(),
{
    if run.action is Finish {
        lemma_drive_ended(order, run, choices);
    } else {
        assert(choices.len() > 0);
        let next = answered(order, run, choices[0]);
        lemma_answered(order, start, run, choices[0]);
        lemma_served(order, start, run, choices[0]);
        assert forall|i: int| 0 <= i < choices.skip(1).len() implies (#[trigger] choices.skip(
            1,
        )[i]).refuse is None && unused(start, choices.skip(1)[i].id, choices.skip(1)[i].id) by {
            assert(choices.skip(1)[i] == choices[i + 1]);
        }
        lemma_willing_run(order, start, next, choices.skip(1));
    }
}

/// Idempotency. An order whose identifier is new, submitted to a willing
/// store, is committed; submitted again unchanged, it is a duplicate, and
/// the second submission changes nothing. After both, the store and the
/// cache hold the order once: it is the last entry of each, and no
/// identifier occurs twice in either.
pub proof fn submission_is_idempotent(
    deployment: Deployment,
    order: OrderView,
    first: Seq<Choice>,
    second: Seq<Choice>,
)
    requires
        agrees(deployment),
        representable(order),
        !exists_order(deployment.store.committed, order.order_uid),
        willing(first, deployment.store.committed),
        first.len() >= order.items.len() + 6,
        second.len() >= 1,
        second[0].refuse is None,
    ensures
        submit(deployment, order, first).phase == Phase::Committed,
        agrees(after(deployment, order, first)),
        submit(after(deployment, order, first), order, second).phase == Phase::Duplicate,
        after(after(deployment, order, first), order, second) == after(deployment, order, first),
        after(deployment, order, first).cache == deployment.cache.push(order),
        load_all(after(deployment, order, first).store.committed) == load_all(
            deployment.store.committed,
        ).push(order),
        uids(after(deployment, order, first).cache).no_duplicates(),
        order_uids(after(deployment, order, first).store.committed).no_duplicates(),
{
    let start = deployment.store.committed;
    lemma_willing_run(order, start, submitted(order, deployment.store), first);
    lemma_submission(deployment, order, first);
    let once = after(deployment, order, first);
    lemma_uids_of_load_all(once.store.committed);
    lemma_uids_of_load_all(start);
    assert(order_uids(once.store.committed).last() == order.order_uid);
    assert(exists_order(once.store.committed, order.order_uid));
    let again = submitted(order, once.store);
    let ended = answered(order, again, second[0]);
    assert(ended.phase == Phase::Duplicate);
    assert(ended.store == once.store);
    lemma_drive_ended(order, ended, second.skip(1));
}

/// Round-trip fidelity. After an order was committed, the cache has an entry
/// equal to it, field for field: its last.
pub proof fn committed_order_is_cached(
    deployment: Deployment,
    order: OrderView,
    choices: Seq<Choice>,
)
    requires
        agrees(deployment),
        representable(order),
        submit(deployment, order, choices).phase == Phase::Committed,
    ensures
        after(deployment, order, choices).cache.contains(order),
        after(deployment, order, choices).cache.last() == order,
        after(deployment, order, choices).cache.drop_last() == deployment.cache,
{
    lemma_submission(deployment, order, choices);
    let cache = after(deployment, order, choices).cache;
    assert(cache[cache.len() - 1] == order);
    assert(cache.drop_last() =~= deployment.cache);
}

/// Atomic rejection. A submission that does not end as committed, wherever
/// it failed or stopped, leaves the committed tables without any of its
/// rows, and the cache as it was.
pub proof fn rejection_is_atomic(deployment: Deployment, order: OrderView, choices: Seq<Choice>)
    requires
        agrees(deployment),
        representable(order),
        submit(deployment, order, choices).phase != Phase::Committed,
    ensures
        after(deployment, order, choices).store.committed == deployment.store.committed,
        after(deployment, order, choices).cache == deployment.cache,
{
    lemma_submission(deployment, order, choices);
}

/// An order and the answers that the store gave while it was submitted.
pub struct Submitted {
    pub order: OrderView,
    pub choices: Seq<Choice>,
}

/// The deployment after several submissions, one after the other.
pub open spec fn after_all(deployment: Deployment, submissions: Seq<Submitted>) -> Deployment
    decreases submissions.len(),
{
    if submissions.len() == 0 {
        deployment
    } else {
        after(
            after_all(deployment, submissions.drop_last()),
            submissions.last().order,
            submissions.last().choices,
        )
    }
}

/// Cache and store agree. After any sequence of submissions, whatever the
/// store answered in each, the identifiers in the cache are those for which
/// the store says that an order exists, and the cache is what joining the
/// tables gives.
pub proof fn cache_agrees_with_store(deployment: Deployment, submissions: Seq<Submitted>)
    requires
        agrees(deployment),
        forall|i: int| 0 <= i < submissions.len() ==> representable((#[trigger] submissions[i]).order),
    ensures
        agrees(after_all(deployment, submissions)),
        uids(after_all(deployment, submissions).cache).to_set() == order_uids(
            after_all(deployment, submissions).store.committed,
        ).to_set(),
        forall|order_uid: Seq<char>|
            uids(after_all(deployment, submissions).cache).contains(order_uid) <==> exists_order(
                after_all(deployment, submissions).store.committed,
                order_uid,
            ),
    decreases submissions.len(),
{
    if submissions.len() > 0 {
        let before = submissions.drop_last();
        assert forall|i: int| 0 <= i < before.len() implies representable(
            (#[trigger] before[i]).order,
        ) by {
            assert(before[i] == submissions[i]);
        }
        cache_agrees_with_store(deployment, before);
        lemma_submission(
            after_all(deployment, before),
            submissions.last().order,
            submissions.last().choices,
        );
    }
    lemma_uids_of_load_all(after_all(deployment, submissions).store.committed);
}

/// A deployment that has never seen an order is in agreement.
pub proof fn lemma_initial_agrees()
    ensures
        agrees(initial()),
{
    assert(load_all(no_rows()) =~= Seq::<OrderView>::empty());
    assert(order_uids(no_rows()) =~= Seq::<Seq<char>>::empty());
}

} // verus!
