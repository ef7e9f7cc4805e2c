//! The schema: four tables, each with a fixed set of columns.
//!
//! `orders` refers to `delivery` and to `payment`, and `item` refers to
//! `orders`, so the tables are set up in an order that creates each one
//! after those it refers to.

use vstd::prelude::*;

verus! {

pub const CREATE_DELIVERY_TABLE: &'static str = "
        CREATE TABLE delivery (
            id SERIAL PRIMARY KEY,
            name VARCHAR(255) NOT NULL,
            phone VARCHAR(50) NOT NULL,
            zip VARCHAR(20) NOT NULL,
            city VARCHAR(100) NOT NULL,
            address VARCHAR(255) NOT NULL,
            region VARCHAR(100) NOT NULL,
            email VARCHAR(100) NOT NULL
        );
    ";

pub const CREATE_PAYMENT_TABLE: &'static str = "
        CREATE TABLE payment (
            id SERIAL PRIMARY KEY,
            transaction VARCHAR(255) NOT NULL,
            request_id VARCHAR(255) NOT NULL,
            currency VARCHAR(10) NOT NULL,
            provider VARCHAR(100) NOT NULL,
            amount INTEGER NOT NULL,
            payment_dt BIGINT NOT NULL,
            bank VARCHAR(100) NOT NULL,
            delivery_cost INTEGER NOT NULL,
            goods_total INTEGER NOT NULL,
            custom_fee INTEGER NOT NULL
        );
    ";

pub const CREATE_ORDERS_TABLE: &'static str = "
        CREATE TABLE orders (
            order_uid VARCHAR(255) PRIMARY KEY,
            track_number VARCHAR(255) NOT NULL,
            entry VARCHAR(255) NOT NULL,
            delivery_id INTEGER REFERENCES delivery(id) ON DELETE CASCADE,
            payment_id INTEGER REFERENCES payment(id) ON DELETE CASCADE,
            locale VARCHAR(10) NOT NULL,
            internal_signature VARCHAR(255) NOT NULL,
            customer_id VARCHAR(255) NOT NULL,
            delivery_service VARCHAR(100) NOT NULL,
            shardkey VARCHAR(50) NOT NULL,
            sm_id INTEGER NOT NULL,
            date_created VARCHAR(50) NOT NULL,
            oof_shard VARCHAR(50) NOT NULL
        );
    ";

pub const CREATE_ITEM_TABLE: &'static str = "
        CREATE TABLE item (
            id SERIAL PRIMARY KEY,
            chrt_id INTEGER NOT NULL,
            track_number VARCHAR(255) NOT NULL,
            price INTEGER NOT NULL,
            rid VARCHAR(255) NOT NULL,
            name VARCHAR(255) NOT NULL,
            sale INTEGER NOT NULL,
            size VARCHAR(50) NOT NULL,
            total_price INTEGER NOT NULL,
            nm_id INTEGER NOT NULL,
            brand VARCHAR(100) NOT NULL,
            status INTEGER NOT NULL,
            order_uid VARCHAR(255) REFERENCES orders(order_uid) ON DELETE CASCADE
        );
    ";

/// Why a table could not be set up.
#[derive(Debug, PartialEq, Eq)]
pub enum SchemaError {
    /// No table of the schema has this name.
    UnknownTable(String),
    /// The store did not answer, or refused the statement.
    Rejected,
}

/// A [`SchemaError`] as plain mathematical data.
pub enum SchemaErrorView {
    UnknownTable(Seq<char>),
    Rejected,
}

impl View for SchemaError {
    type V = SchemaErrorView;

    open spec fn view(&self) -> SchemaErrorView {
        match self {
            SchemaError::UnknownTable(name) => SchemaErrorView::UnknownTable(name@),
            SchemaError::Rejected => SchemaErrorView::Rejected,
        }
    }
}

/// The statement that creates the table of this name, if the schema has one.
pub open spec fn statement_for(table: Seq<char>) -> Option<Seq<char>> {
    if table == "payment"@ {
        Some(CREATE_PAYMENT_TABLE@)
    } else if table == "delivery"@ {
        Some(CREATE_DELIVERY_TABLE@)
    } else if table == "orders"@ {
        Some(CREATE_ORDERS_TABLE@)
    } else if table == "item"@ {
        Some(CREATE_ITEM_TABLE@)
    } else {
        None
    }
}

/// Whether rows of `table` refer to rows of `other`.
pub open spec fn refers_to(table: Seq<char>, other: Seq<char>) -> bool {
    ||| table == "orders"@ && other == "delivery"@
    ||| table == "orders"@ && other == "payment"@
    ||| table == "item"@ && other == "orders"@
}

/// The tables in the order in which they are set up.
pub open spec fn startup_order() -> Seq<Seq<char>> {
    seq!["payment"@, "delivery"@, "orders"@, "item"@]
}

/// What setting a table up comes to, given what the store said when it was
/// asked whether the table exists (`None`: it gave no answer): nothing to do,
/// a statement to run, or an error.
pub open spec fn ensured(table: Seq<char>, probe: Option<bool>) -> Result<
    Option<Seq<char>>,
    SchemaErrorView,
> {
    match statement_for(table) {
        None => Err(SchemaErrorView::UnknownTable(table)),
        Some(statement) => match probe {
            None => Err(SchemaErrorView::Rejected),
            Some(true) => Ok(None),
            Some(false) => Ok(Some(statement)),
        },
    }
}

/// Every table of the startup order belongs to the schema, and comes after
/// the tables that it refers to.
pub proof fn startup_order_follows_references()
    ensures
        forall|i: int|
            0 <= i < startup_order().len() ==> statement_for(#[trigger] startup_order()[i]) is Some,
        forall|i: int, j: int|
            0 <= i < startup_order().len() && 0 <= j < startup_order().len() && refers_to(
                startup_order()[i],
                startup_order()[j],
            ) ==> j < i,
        startup_order().no_duplicates(),
{
    reveal_strlit("payment");
    reveal_strlit("delivery");
    reveal_strlit("orders");
    reveal_strlit("item");
    assert("payment"@.len() == 7 && "delivery"@.len() == 8 && "orders"@.len() == 6 && "item"@.len()
        == 4);
}

fn same(left: &str, right: &str) -> (equal: bool)
    ensures
        equal == (left@ == right@),
{
    left.to_owned() == right.to_owned()
}

/// The statement that creates the table `table`. A name that the schema does
/// not have is an error.
pub fn create_table(table: &str) -> (result: Result<&'static str, SchemaError>)
    ensures
        match statement_for(table@) {
            Some(statement) => result is Ok && result->Ok_0@ == statement,
            None => result is Err && result->Err_0@ == SchemaErrorView::UnknownTable(table@),
        },
{
    if same(table, "payment") {
        Ok(CREATE_PAYMENT_TABLE)
    } else if same(table, "delivery") {
        Ok(CREATE_DELIVERY_TABLE)
    } else if same(table, "orders") {
        Ok(CREATE_ORDERS_TABLE)
    } else if same(table, "item") {
        Ok(CREATE_ITEM_TABLE)
    } else {
        Err(SchemaError::UnknownTable(table.to_owned()))
    }
}

/// Decides what is to be done for the table `table`, once the store was
/// asked whether it exists: nothing where it exists, its creating statement
/// where it does not. A name that the schema does not have is an error, and
/// so is a store that gave no answer (`probe` is `None`).
pub fn ensure_table(table: &str, probe: Option<bool>) -> (result: Result<
    Option<&'static str>,
    SchemaError,
>)
    ensures
        match ensured(table@, probe) {
            Ok(Some(statement)) => result is Ok && result->Ok_0 is Some
                && result->Ok_0->Some_0@ == statement,
            Ok(None) => result is Ok && result->Ok_0 is None,
            Err(error) => result is Err && result->Err_0@ == error,
        },
{
    match create_table(table) {
        Err(error) => Err(error),
        Ok(statement) => match probe {
            None => Err(SchemaError::Rejected),
            Some(true) => Ok(None),
            Some(false) => Ok(Some(statement)),
        },
    }
}

/// The names of the tables, in the order in which they are set up.
pub fn startup_tables() -> (tables: Vec<&'static str>)
    ensures
        tables.deep_view() == startup_order(),
{
    let mut tables: Vec<&'static str> = Vec::new();
    tables.push("payment");
    tables.push("delivery");
    tables.push("orders");
    tables.push("item");
    assert(tables.deep_view() =~= startup_order());
    tables
}

} // verus!
