//! The ingestion pipeline: one submitted order on its way into the store.
//!
//! A [`Submission`] decides; it performs nothing. Its caller sends each
//! [`Request`] to the store and hands the store's answer back as an
//! [`Event`], until the submission finishes with an [`Outcome`]. The write is
//! one transaction: the delivery row, the payment row, the `orders` row that
//! refers to both, then one row for each item, and a commit. Whatever goes
//! wrong after the transaction was opened, it is rolled back.

use crate::order::{DeliveryView, ItemView, Order, OrderView, PaymentView};
use crate::order::{Delivery, Item, Payment};
use crate::row::{row_of, OrderRow, OrderRowView};
use crate::store::StoreError;
use vstd::prelude::*;

verus! {

/// How a submission ended.
#[derive(Clone, Copy, Debug, PartialEq, Eq, Structural)]
pub enum Outcome {
    /// The order is durably stored.
    Committed,
    /// An order with this identifier was stored before; nothing was written.
    Duplicate,
    /// Nothing was stored.
    Failed(StoreError),
}

/// How far the write of an order has come. Each value names what the
/// submission waits for.
#[derive(Clone, Copy, Debug, PartialEq, Eq, Structural)]
pub enum Write {
    /// For the transaction to open.
    Opening,
    /// For the identifier of the delivery row.
    Delivery,
    /// For the identifier of the payment row.
    Payment { delivery_id: i32 },
    /// For the `orders` row, or for the last of the `sent` item rows.
    Rows { sent: usize },
    /// For the commit.
    Committing,
    /// For the rollback, after a failure with this cause.
    RollingBack { cause: StoreError },
}

/// Where a submission stands.
#[derive(Clone, Copy, Debug, PartialEq, Eq, Structural)]
pub enum Phase {
    Received,
    Checking,
    Persisting(Write),
    Duplicate,
    Committed,
    Failed(StoreError),
}

/// What the store answered, or that the order was handed in.
#[derive(Clone, Copy, Debug, PartialEq, Eq, Structural)]
pub enum Event {
    /// The order was handed in.
    Submitted,
    /// The answer to [`Request::Exists`].
    Found(bool),
    /// The store inserted a row and gave it this surrogate identifier.
    Assigned(i32),
    /// The store did what was asked.
    Done,
    /// The store refused.
    Refused(StoreError),
}

/// What the store is asked to do.
#[derive(Debug, PartialEq, Eq)]
pub enum Request {
    /// Is an order with this identifier committed?
    Exists { order_uid: String },
    /// Open a transaction.
    Begin,
    /// Insert a delivery row and return its surrogate identifier.
    InsertDelivery(Delivery),
    /// Insert a payment row and return its surrogate identifier.
    InsertPayment(Payment),
    /// Insert a row into `orders`.
    InsertOrder(OrderRow),
    /// Insert an item row that belongs to the order `order_uid`.
    InsertItem { item: Item, order_uid: String },
    /// Commit the transaction.
    Commit,
    /// Roll the transaction back.
    Rollback,
}

/// A [`Request`] as plain mathematical data.
pub enum RequestView {
    Exists { order_uid: Seq<char> },
    Begin,
    InsertDelivery(DeliveryView),
    InsertPayment(PaymentView),
    InsertOrder(OrderRowView),
    InsertItem { item: ItemView, order_uid: Seq<char> },
    Commit,
    Rollback,
}

impl View for Request {
    type V = RequestView;

    open spec fn view(&self) -> RequestView {
        match self {
            Request::Exists { order_uid } => RequestView::Exists { order_uid: order_uid@ },
            Request::Begin => RequestView::Begin,
            Request::InsertDelivery(row) => RequestView::InsertDelivery(row@),
            Request::InsertPayment(row) => RequestView::InsertPayment(row@),
            Request::InsertOrder(row) => RequestView::InsertOrder(row@),
            Request::InsertItem { item, order_uid } => RequestView::InsertItem {
                item: item@,
                order_uid: order_uid@,
            },
            Request::Commit => RequestView::Commit,
            Request::Rollback => RequestView::Rollback,
        }
    }
}

/// What the caller of a submission does next.
#[derive(Debug, PartialEq, Eq)]
pub enum Action {
    /// Send the request to the store and come back with its answer.
    Send(Request),
    /// Nothing more: the submission has ended.
    Finish(Outcome),
}

/// An [`Action`] as plain mathematical data.
pub enum ActionView {
    Send(RequestView),
    Finish(Outcome),
}

impl View for Action {
    type V = ActionView;

    open spec fn view(&self) -> ActionView {
        match self {
            Action::Send(request) => ActionView::Send(request@),
            Action::Finish(outcome) => ActionView::Finish(*outcome),
        }
    }
}

/// The cause that an event gives for a failure: the store's own where it
/// refused, want of a usable answer otherwise.
pub open spec fn cause_of(event: Event) -> StoreError {
    match event {
        Event::Refused(cause) => cause,
        _ => StoreError::Unavailable,
    }
}

/// Ending in failure, with nothing to undo.
pub open spec fn fail(cause: StoreError) -> (Phase, ActionView) {
    (Phase::Failed(cause), ActionView::Finish(Outcome::Failed(cause)))
}

/// Giving the write up: the transaction is rolled back first.
pub open spec fn abort(cause: StoreError) -> (Phase, ActionView) {
    (Phase::Persisting(Write::RollingBack { cause }), ActionView::Send(RequestView::Rollback))
}

/// After `sent` item rows: the next item row, or the commit when none is left.
pub open spec fn next_row(order: OrderView, sent: usize) -> (Phase, ActionView) {
    if sent < order.items.len() {
        (
            Phase::Persisting(Write::Rows { sent: (sent + 1) as usize }),
            ActionView::Send(
                RequestView::InsertItem { item: order.items[sent as int], order_uid: order.order_uid },
            ),
        )
    } else {
        (Phase::Persisting(Write::Committing), ActionView::Send(RequestView::Commit))
    }
}

/// One step of the write.
pub open spec fn persist(write: Write, order: OrderView, event: Event) -> (Phase, ActionView) {
    match write {
        Write::Opening => match event {
            Event::Done => (
                Phase::Persisting(Write::Delivery),
                ActionView::Send(RequestView::InsertDelivery(order.delivery)),
            ),
            _ => fail(cause_of(event)),
        },
        Write::Delivery => match event {
            Event::Assigned(delivery_id) => (
                Phase::Persisting(Write::Payment { delivery_id }),
                ActionView::Send(RequestView::InsertPayment(order.payment)),
            ),
            _ => abort(cause_of(event)),
        },
        Write::Payment { delivery_id } => match event {
            Event::Assigned(payment_id) => (
                Phase::Persisting(Write::Rows { sent: 0 }),
                ActionView::Send(RequestView::InsertOrder(row_of(order, delivery_id, payment_id))),
            ),
            _ => abort(cause_of(event)),
        },
        Write::Rows { sent } => match event {
            Event::Done => next_row(order, sent),
            _ => abort(cause_of(event)),
        },
        Write::Committing => match event {
            Event::Done => (Phase::Committed, ActionView::Finish(Outcome::Committed)),
            _ => fail(cause_of(event)),
        },
        Write::RollingBack { cause } => fail(cause),
    }
}

/// One step of a submission: where it stands after `event`, and what its
/// caller does next.
///
/// A failed existence check ends the submission as unavailable, whatever the
/// store gave as its reason. A refusal during the write ends it as failed
/// with the store's own cause; that holds of a conflict too, which is what a
/// submission sees when its identifier was taken between the check and the
/// write. An event that answers nothing that was asked is taken as a
/// failure. A submission that has ended stays as it is.
pub open spec fn step(phase: Phase, order: OrderView, event: Event) -> (Phase, ActionView) {
    match phase {
        Phase::Received => match event {
            Event::Submitted => (
                Phase::Checking,
                ActionView::Send(RequestView::Exists { order_uid: order.order_uid }),
            ),
            _ => fail(StoreError::Unavailable),
        },
        Phase::Checking => match event {
            Event::Found(true) => (Phase::Duplicate, ActionView::Finish(Outcome::Duplicate)),
            Event::Found(false) => (
                Phase::Persisting(Write::Opening),
                ActionView::Send(RequestView::Begin),
            ),
            _ => fail(StoreError::Unavailable),
        },
        Phase::Persisting(write) => persist(write, order, event),
        Phase::Duplicate => (phase, ActionView::Finish(Outcome::Duplicate)),
        Phase::Committed => (phase, ActionView::Finish(Outcome::Committed)),
        Phase::Failed(cause) => (phase, ActionView::Finish(Outcome::Failed(cause))),
    }
}

/// What a submission in this phase amounts to: the outcome of one that has
/// ended, and a failure for one that was given up on the way.
pub open spec fn outcome_of(phase: Phase) -> Outcome {
    match phase {
        Phase::Committed => Outcome::Committed,
        Phase::Duplicate => Outcome::Duplicate,
        Phase::Failed(cause) => Outcome::Failed(cause),
        _ => Outcome::Failed(StoreError::Unavailable),
    }
}

/// One order on its way into the store.
pub struct Submission {
    order: Order,
    phase: Phase,
}

/// A [`Submission`] as plain mathematical data.
pub struct SubmissionView {
    pub order: OrderView,
    pub phase: Phase,
}

impl View for Submission {
    type V = SubmissionView;

    closed spec fn view(&self) -> SubmissionView {
        SubmissionView { order: self.order@, phase: self.phase }
    }
}

impl Submission {
    /// Receives an order. Nothing has been asked of the store yet.
    pub fn new(order: Order) -> (submission: Self)
        ensures
            submission@ == (SubmissionView { order: order@, phase: Phase::Received }),
    {
        Submission { order, phase: Phase::Received }
    }

    /// Where the submission stands.
    pub fn phase(&self) -> (phase: Phase)
        ensures
            phase == self@.phase,
    {
        self.phase
    }

    /// The order that was submitted.
    pub fn order(&self) -> (order: &Order)
        ensures
            order@ == self@.order,
    {
        &self.order
    }

    /// Gives the order back, and where its submission stood.
    pub fn into_parts(self) -> (parts: (Order, Phase))
        ensures
            parts.0@ == self@.order,
            parts.1 == self@.phase,
    {
        (self.order, self.phase)
    }

    /// Takes the next event and says what to do next.
    pub fn advance(&mut self, event: Event) -> (action: Action)
        ensures
            (final(self)@.phase, action@) == step(old(self)@.phase, old(self)@.order, event),
            final(self)@.order == old(self)@.order,
    {
        let (phase, action) = match self.phase {
            Phase::Received => match event {
                Event::Submitted => (
                    Phase::Checking,
                    Action::Send(Request::Exists { order_uid: self.order.order_uid.clone() }),
                ),
                _ => Self::fail(StoreError::Unavailable),
            },
            Phase::Checking => match event {
                Event::Found(true) => (Phase::Duplicate, Action::Finish(Outcome::Duplicate)),
                Event::Found(false) => (
                    Phase::Persisting(Write::Opening),
                    Action::Send(Request::Begin),
                ),
                _ => Self::fail(StoreError::Unavailable),
            },
            Phase::Persisting(write) => self.persist(write, event),
            Phase::Duplicate => (Phase::Duplicate, Action::Finish(Outcome::Duplicate)),
            Phase::Committed => (Phase::Committed, Action::Finish(Outcome::Committed)),
            Phase::Failed(cause) => (Phase::Failed(cause), Action::Finish(Outcome::Failed(cause))),
        };
        self.phase = phase;
        action
    }

    fn cause(event: Event) -> (cause: StoreError)
        ensures
            cause == cause_of(event),
    {
        match event {
            Event::Refused(cause) => cause,
            _ => StoreError::Unavailable,
        }
    }

    fn fail(cause: StoreError) -> (next: (Phase, Action))
        ensures
            (next.0, next.1@) == fail(cause),
    {
        (Phase::Failed(cause), Action::Finish(Outcome::Failed(cause)))
    }

    fn abort(cause: StoreError) -> (next: (Phase, Action))
        ensures
            (next.0, next.1@) == abort(cause),
    {
        (Phase::Persisting(Write::RollingBack { cause }), Action::Send(Request::Rollback))
    }

    fn next_row(&self, sent: usize) -> (next: (Phase, Action))
        ensures
            (next.0, next.1@) == next_row(self@.order, sent),
    {
        if sent < self.order.items.len() {
            (
                Phase::Persisting(Write::Rows { sent: sent + 1 }),
                Action::Send(
                    Request::InsertItem {
                        item: self.order.items[sent].clone(),
                        order_uid: self.order.order_uid.clone(),
                    },
                ),
            )
        } else {
            (Phase::Persisting(Write::Committing), Action::Send(Request::Commit))
        }
    }

    fn persist(&self, write: Write, event: Event) -> (next: (Phase, Action))
        ensures
            (next.0, next.1@) == persist(write, self@.order, event),
    {
        match write {
            Write::Opening => match event {
                Event::Done => (
                    Phase::Persisting(Write::Delivery),
                    Action::Send(Request::InsertDelivery(self.order.delivery.clone())),
                ),
                _ => Self::fail(Self::cause(event)),
            },
            Write::Delivery => match event {
                Event::Assigned(delivery_id) => (
                    Phase::Persisting(Write::Payment { delivery_id }),
                    Action::Send(Request::InsertPayment(self.order.payment.clone())),
                ),
                _ => Self::abort(Self::cause(event)),
            },
            Write::Payment { delivery_id } => match event {
                Event::Assigned(payment_id) => (
                    Phase::Persisting(Write::Rows { sent: 0 }),
                    Action::Send(
                        Request::InsertOrder(OrderRow::of(&self.order, delivery_id, payment_id)),
                    ),
                ),
                _ => Self::abort(Self::cause(event)),
            },
            Write::Rows { sent } => match event {
                Event::Done => self.next_row(sent),
                _ => Self::abort(Self::cause(event)),
            },
            Write::Committing => match event {
                Event::Done => (Phase::Committed, Action::Finish(Outcome::Committed)),
                _ => Self::fail(Self::cause(event)),
            },
            Write::RollingBack { cause } => Self::fail(cause),
        }
    }
}

} // verus!
