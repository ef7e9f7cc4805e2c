use order_service::schema::{
    create_table, ensure_table, startup_tables, SchemaError, CREATE_DELIVERY_TABLE,
    CREATE_ITEM_TABLE, CREATE_ORDERS_TABLE, CREATE_PAYMENT_TABLE,
};

#[test]
fn each_table_has_its_statement() {
    assert_eq!(create_table("payment"), Ok(CREATE_PAYMENT_TABLE));
    assert_eq!(create_table("delivery"), Ok(CREATE_DELIVERY_TABLE));
    assert_eq!(create_table("orders"), Ok(CREATE_ORDERS_TABLE));
    assert_eq!(create_table("item"), Ok(CREATE_ITEM_TABLE));
}

#[test]
fn statements_create_the_tables_they_are_named_for() {
    assert!(CREATE_PAYMENT_TABLE.trim_start().starts_with("CREATE TABLE payment ("));
    assert!(CREATE_DELIVERY_TABLE.trim_start().starts_with("CREATE TABLE delivery ("));
    assert!(CREATE_ORDERS_TABLE.trim_start().starts_with("CREATE TABLE orders ("));
    assert!(CREATE_ITEM_TABLE.trim_start().starts_with("CREATE TABLE item ("));
    assert!(CREATE_ORDERS_TABLE.contains("order_uid VARCHAR(255) PRIMARY KEY"));
    assert!(CREATE_ORDERS_TABLE.contains("delivery_id INTEGER REFERENCES delivery(id) ON DELETE CASCADE"));
    assert!(CREATE_ORDERS_TABLE.contains("payment_id INTEGER REFERENCES payment(id) ON DELETE CASCADE"));
    assert!(CREATE_ITEM_TABLE
        .contains("order_uid VARCHAR(255) REFERENCES orders(order_uid) ON DELETE CASCADE"));
    assert!(CREATE_PAYMENT_TABLE.contains("payment_dt BIGINT NOT NULL"));
    assert!(CREATE_DELIVERY_TABLE.contains("id SERIAL PRIMARY KEY"));
}

#[test]
fn unknown_table_is_an_error() {
    assert_eq!(create_table("customers"), Err(SchemaError::UnknownTable("customers".to_string())));
    assert_eq!(create_table(""), Err(SchemaError::UnknownTable("".to_string())));
    assert_eq!(create_table("Orders"), Err(SchemaError::UnknownTable("Orders".to_string())));
    assert_eq!(create_table("orders "), Err(SchemaError::UnknownTable("orders ".to_string())));
    assert_eq!(create_table("items"), Err(SchemaError::UnknownTable("items".to_string())));
}

#[test]
fn existing_table_needs_nothing() {
    assert_eq!(ensure_table("orders", Some(true)), Ok(None));
    assert_eq!(ensure_table("item", Some(true)), Ok(None));
}

#[test]
fn ensuring_twice_is_no_error() {
    assert_eq!(ensure_table("delivery", Some(false)), Ok(Some(CREATE_DELIVERY_TABLE)));
    assert_eq!(ensure_table("delivery", Some(true)), Ok(None));
    assert_eq!(ensure_table("delivery", Some(true)), Ok(None));
}

#[test]
fn missing_table_is_created() {
    assert_eq!(ensure_table("payment", Some(false)), Ok(Some(CREATE_PAYMENT_TABLE)));
    assert_eq!(ensure_table("delivery", Some(false)), Ok(Some(CREATE_DELIVERY_TABLE)));
    assert_eq!(ensure_table("orders", Some(false)), Ok(Some(CREATE_ORDERS_TABLE)));
    assert_eq!(ensure_table("item", Some(false)), Ok(Some(CREATE_ITEM_TABLE)));
}

#[test]
fn silent_store_is_a_rejection() {
    assert_eq!(ensure_table("orders", None), Err(SchemaError::Rejected));
}

#[test]
fn unknown_table_is_an_error_whatever_the_store_said() {
    let unknown = Err(SchemaError::UnknownTable("audit".to_string()));
    assert_eq!(ensure_table("audit", Some(true)), unknown);
    assert_eq!(ensure_table("audit", Some(false)), unknown);
    assert_eq!(ensure_table("audit", None), unknown);
}

#[test]
fn tables_start_up_after_those_they_refer_to() {
    let tables = startup_tables();
    assert_eq!(tables, vec!["payment", "delivery", "orders", "item"]);
    let place = |name: &str| tables.iter().position(|table| *table == name).unwrap();
    assert!(place("delivery") < place("orders"));
    assert!(place("payment") < place("orders"));
    assert!(place("orders") < place("item"));
    for table in tables {
        assert!(create_table(table).is_ok());
    }
}
