//! Reading every committed order back from the store.
//!
//! A [`Loader`] decides; it performs nothing. Its caller sends each
//! [`LoadRequest`] to the store and hands the rows back as a [`LoadEvent`].
//! The loader lists the `orders` table, then follows the foreign keys of
//! each row in turn: its delivery, its payment, its items.

use crate::order::{Delivery, DeliveryView, Item, ItemView, Order, OrderView, Payment, PaymentView};
use crate::row::{assembled, OrderRow, OrderRowView};
use crate::store::StoreError;
use vstd::prelude::*;

verus! {

/// What the store is asked to read.
#[derive(Debug, PartialEq, Eq)]
pub enum LoadRequest {
    /// Every row of `orders`.
    Orders,
    /// The delivery row with this surrogate identifier.
    Delivery { id: i32 },
    /// The payment row with this surrogate identifier.
    Payment { id: i32 },
    /// The item rows of this order, in the order in which the store keeps them.
    Items { order_uid: String },
}

/// A [`LoadRequest`] as plain mathematical data.
pub enum LoadRequestView {
    Orders,
    Delivery { id: i32 },
    Payment { id: i32 },
    Items { order_uid: Seq<char> },
}

impl View for LoadRequest {
    type V = LoadRequestView;

    open spec fn view(&self) -> LoadRequestView {
        match self {
            LoadRequest::Orders => LoadRequestView::Orders,
            LoadRequest::Delivery { id } => LoadRequestView::Delivery { id: *id },
            LoadRequest::Payment { id } => LoadRequestView::Payment { id: *id },
            LoadRequest::Items { order_uid } => LoadRequestView::Items { order_uid: order_uid@ },
        }
    }
}

/// What the store returned, or that loading is to begin.
#[derive(Debug, PartialEq, Eq)]
pub enum LoadEvent {
    /// Loading is to begin.
    Started,
    /// The answer to [`LoadRequest::Orders`].
    Orders(Vec<OrderRow>),
    /// The answer to [`LoadRequest::Delivery`].
    Delivery(Delivery),
    /// The answer to [`LoadRequest::Payment`].
    Payment(Payment),
    /// The answer to [`LoadRequest::Items`].
    Items(Vec<Item>),
    /// The store refused, or the row that was asked for is not there.
    Refused(StoreError),
}

/// A [`LoadEvent`] as plain mathematical data.
pub enum LoadEventView {
    Started,
    Orders(Seq<OrderRowView>),
    Delivery(DeliveryView),
    Payment(PaymentView),
    Items(Seq<ItemView>),
    Refused(StoreError),
}

impl View for LoadEvent {
    type V = LoadEventView;

    open spec fn view(&self) -> LoadEventView {
        match self {
            LoadEvent::Started => LoadEventView::Started,
            LoadEvent::Orders(rows) => LoadEventView::Orders(rows.deep_view()),
            LoadEvent::Delivery(row) => LoadEventView::Delivery(row@),
            LoadEvent::Payment(row) => LoadEventView::Payment(row@),
            LoadEvent::Items(rows) => LoadEventView::Items(rows.deep_view()),
            LoadEvent::Refused(cause) => LoadEventView::Refused(*cause),
        }
    }
}

/// What the caller of a loader does next.
#[derive(Debug, PartialEq, Eq)]
pub enum LoadAction {
    /// Send the request to the store and come back with its answer.
    Send(LoadRequest),
    /// Nothing more: every order was read.
    Done,
    /// Nothing more: loading failed.
    Failed(StoreError),
}

/// A [`LoadAction`] as plain mathematical data.
pub enum LoadActionView {
    Send(LoadRequestView),
    Done,
    Failed(StoreError),
}

impl View for LoadAction {
    type V = LoadActionView;

    open spec fn view(&self) -> LoadActionView {
        match self {
            LoadAction::Send(request) => LoadActionView::Send(request@),
            LoadAction::Done => LoadActionView::Done,
            LoadAction::Failed(cause) => LoadActionView::Failed(*cause),
        }
    }
}

/// Where a loader stands: what it waits for, with the parts of the current
/// order that it has already.
pub enum LoadPhase {
    Idle,
    Listing,
    Delivery,
    Payment { delivery: Delivery },
    Items { delivery: Delivery, payment: Payment },
    Done,
    Failed(StoreError),
}

/// A [`LoadPhase`] as plain mathematical data.
pub enum LoadPhaseView {
    Idle,
    Listing,
    Delivery,
    Payment { delivery: DeliveryView },
    Items { delivery: DeliveryView, payment: PaymentView },
    Done,
    Failed(StoreError),
}

impl View for LoadPhase {
    type V = LoadPhaseView;

    open spec fn view(&self) -> LoadPhaseView {
        match self {
            LoadPhase::Idle => LoadPhaseView::Idle,
            LoadPhase::Listing => LoadPhaseView::Listing,
            LoadPhase::Delivery => LoadPhaseView::Delivery,
            LoadPhase::Payment { delivery } => LoadPhaseView::Payment { delivery: delivery@ },
            LoadPhase::Items { delivery, payment } => LoadPhaseView::Items {
                delivery: delivery@,
                payment: payment@,
            },
            LoadPhase::Done => LoadPhaseView::Done,
            LoadPhase::Failed(cause) => LoadPhaseView::Failed(*cause),
        }
    }
}

/// A [`Loader`] as plain mathematical data: its phase, the rows of `orders`
/// that it listed, and the orders that it has put together so far, one for
/// each of the first rows.
pub struct LoaderView {
    pub phase: LoadPhaseView,
    pub rows: Seq<OrderRowView>,
    pub orders: Seq<OrderView>,
}

/// A loader in the middle of an order has a row for it.
pub open spec fn in_step(loader: LoaderView) -> bool {
    match loader.phase {
        LoadPhaseView::Delivery | LoadPhaseView::Payment { .. } | LoadPhaseView::Items { .. } =>
            loader.orders.len() < loader.rows.len(),
        _ => true,
    }
}

/// The cause that an event gives for a failure.
pub open spec fn load_cause_of(event: LoadEventView) -> StoreError {
    match event {
        LoadEventView::Refused(cause) => cause,
        _ => StoreError::Unavailable,
    }
}

/// Ending in failure: what was read is dropped.
pub open spec fn load_fail(cause: StoreError) -> (LoaderView, LoadActionView) {
    (
        LoaderView { phase: LoadPhaseView::Failed(cause), rows: Seq::empty(), orders: Seq::empty() },
        LoadActionView::Failed(cause),
    )
}

/// Turning to the first row that has no order yet, or ending when every row
/// has one.
pub open spec fn next_order(rows: Seq<OrderRowView>, orders: Seq<OrderView>) -> (
    LoaderView,
    LoadActionView,
) {
    if orders.len() < rows.len() {
        (
            LoaderView { phase: LoadPhaseView::Delivery, rows, orders },
            LoadActionView::Send(
                LoadRequestView::Delivery { id: rows[orders.len() as int].delivery_id },
            ),
        )
    } else {
        (LoaderView { phase: LoadPhaseView::Done, rows, orders }, LoadActionView::Done)
    }
}

/// One step of a loader: where it stands after `event`, and what its caller
/// does next.
///
/// Any refusal ends the loading with the store's cause. An event that
/// answers nothing that was asked ends it as unavailable. A loader that has
/// ended stays as it is.
pub open spec fn load_step(loader: LoaderView, event: LoadEventView) -> (
    LoaderView,
    LoadActionView,
) {
    let current = loader.rows[loader.orders.len() as int];
    match (loader.phase, event) {
        (LoadPhaseView::Idle, LoadEventView::Started) => (
            LoaderView { phase: LoadPhaseView::Listing, rows: loader.rows, orders: loader.orders },
            LoadActionView::Send(LoadRequestView::Orders),
        ),
        (LoadPhaseView::Listing, LoadEventView::Orders(rows)) => next_order(rows, Seq::empty()),
        (LoadPhaseView::Delivery, LoadEventView::Delivery(delivery)) => (
            LoaderView {
                phase: LoadPhaseView::Payment { delivery },
                rows: loader.rows,
                orders: loader.orders,
            },
            LoadActionView::Send(LoadRequestView::Payment { id: current.payment_id }),
        ),
        (LoadPhaseView::Payment { delivery }, LoadEventView::Payment(payment)) => (
            LoaderView {
                phase: LoadPhaseView::Items { delivery, payment },
                rows: loader.rows,
                orders: loader.orders,
            },
            LoadActionView::Send(LoadRequestView::Items { order_uid: current.order_uid }),
        ),
        (LoadPhaseView::Items { delivery, payment }, LoadEventView::Items(items)) => next_order(
            loader.rows,
            loader.orders.push(assembled(current, delivery, payment, items)),
        ),
        (LoadPhaseView::Done, _) => (loader, LoadActionView::Done),
        (LoadPhaseView::Failed(cause), _) => (loader, LoadActionView::Failed(cause)),
        _ => load_fail(load_cause_of(event)),
    }
}

/// What a loader in this state has to show: the orders, when it is done; the
/// cause, when it failed; a failure, when it was given up on the way.
pub open spec fn loaded(loader: LoaderView) -> Result<Seq<OrderView>, StoreError> {
    match loader.phase {
        LoadPhaseView::Done => Ok(loader.orders),
        LoadPhaseView::Failed(cause) => Err(cause),
        _ => Err(StoreError::Unavailable),
    }
}

/// The reading of every committed order, in progress.
pub struct Loader {
    phase: LoadPhase,
    rows: Vec<OrderRow>,
    orders: Vec<Order>,
}

impl View for Loader {
    type V = LoaderView;

    closed spec fn view(&self) -> LoaderView {
        LoaderView {
            phase: self.phase@,
            rows: self.rows.deep_view(),
            orders: self.orders.deep_view(),
        }
    }
}

impl Loader {
    #[verifier::type_invariant]
    spec fn has_row(self) -> bool {
        in_step(self@)
    }

    /// A loader that has asked nothing yet.
    pub fn new() -> (loader: Self)
        ensures
            loader@ == (LoaderView {
                phase: LoadPhaseView::Idle,
                rows: Seq::empty(),
                orders: Seq::empty(),
            }),
    {
        let loader = Loader { phase: LoadPhase::Idle, rows: Vec::new(), orders: Vec::new() };
        assert(loader.rows.deep_view() =~= Seq::empty());
        assert(loader.orders.deep_view() =~= Seq::empty());
        loader
    }

    /// Takes the next event and says what to do next.
    pub fn advance(&mut self, event: LoadEvent) -> (action: LoadAction)
        ensures
            (final(self)@, action@) == load_step(old(self)@, event@),
            in_step(final(self)@),
    {
        let mut current = Loader::new();
        std::mem::swap(self, &mut current);
        let (next, action) = current.step(event);
        proof {
            use_type_invariant(&next);
        }
        *self = next;
        action
    }

    /// What the loading came to: every committed order, or why there is none.
    pub fn finish(self) -> (result: Result<Vec<Order>, StoreError>)
        ensures
            match loaded(self@) {
                Ok(orders) => result is Ok && result->Ok_0.deep_view() == orders,
                Err(cause) => result is Err && result->Err_0 == cause,
            },
    {
        match self.phase {
            LoadPhase::Done => Ok(self.orders),
            LoadPhase::Failed(cause) => Err(cause),
            _ => Err(StoreError::Unavailable),
        }
    }

    fn fail(cause: StoreError) -> (next: (Loader, LoadAction))
        ensures
            (next.0@, next.1@) == load_fail(cause),
    {
        let loader = Loader { phase: LoadPhase::Failed(cause), rows: Vec::new(), orders: Vec::new() };
        assert(loader.rows.deep_view() =~= Seq::empty());
        assert(loader.orders.deep_view() =~= Seq::empty());
        (loader, LoadAction::Failed(cause))
    }

    fn cause(event: &LoadEvent) -> (cause: StoreError)
        ensures
            cause == load_cause_of(event@),
    {
        match event {
            LoadEvent::Refused(cause) => *cause,
            _ => StoreError::Unavailable,
        }
    }

    fn next_order(rows: Vec<OrderRow>, orders: Vec<Order>) -> (next: (Loader, LoadAction))
        ensures
            (next.0@, next.1@) == next_order(rows.deep_view(), orders.deep_view()),
    {
        if orders.len() < rows.len() {
            let id = rows[orders.len()].delivery_id;
            (
                Loader { phase: LoadPhase::Delivery, rows, orders },
                LoadAction::Send(LoadRequest::Delivery { id }),
            )
        } else {
            (Loader { phase: LoadPhase::Done, rows, orders }, LoadAction::Done)
        }
    }

    fn step(self, event: LoadEvent) -> (next: (Loader, LoadAction))
        ensures
            (next.0@, next.1@) == load_step(self@, event@),
    {
        proof {
            use_type_invariant(&self);
        }
        let Loader { phase, rows, orders } = self;
        match (phase, event) {
            (LoadPhase::Idle, LoadEvent::Started) => (
                Loader { phase: LoadPhase::Listing, rows, orders },
                LoadAction::Send(LoadRequest::Orders),
            ),
            (LoadPhase::Listing, LoadEvent::Orders(listed)) => {
                let none: Vec<Order> = Vec::new();
                assert(none.deep_view() =~= Seq::empty());
                Self::next_order(listed, none)
            },
            (LoadPhase::Delivery, LoadEvent::Delivery(delivery)) => {
                let id = rows[orders.len()].payment_id;
                (
                    Loader { phase: LoadPhase::Payment { delivery }, rows, orders },
                    LoadAction::Send(LoadRequest::Payment { id }),
                )
            },
            (LoadPhase::Payment { delivery }, LoadEvent::Payment(payment)) => {
                let order_uid = rows[orders.len()].order_uid.clone();
                (
                    Loader { phase: LoadPhase::Items { delivery, payment }, rows, orders },
                    LoadAction::Send(LoadRequest::Items { order_uid }),
                )
            },
            (LoadPhase::Items { delivery, payment }, LoadEvent::Items(items)) => {
                let mut orders = orders;
                let ghost before = orders.deep_view();
                let order = rows[orders.len()].assemble(delivery, payment, items);
                orders.push(order);
                assert(orders.deep_view() =~= before.push(order@));
                Self::next_order(rows, orders)
            },
            (LoadPhase::Done, _) => (Loader { phase: LoadPhase::Done, rows, orders }, LoadAction::Done),
            (LoadPhase::Failed(cause), _) => (
                Loader { phase: LoadPhase::Failed(cause), rows, orders },
                LoadAction::Failed(cause),
            ),
            (_, event) => Self::fail(Self::cause(&event)),
        }
    }
}

} // verus!
