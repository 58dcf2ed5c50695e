use std::collections::HashMap;

use ledgers::binary64::Binary64;
use ledgers::error::{AppError, Failure, INTERNAL_SERVER_ERROR, NOT_FOUND};
use ledgers::holdings::{
    batch_to_orders, order_schema, orders_to_record_batch, HoldingStore, Order, OrderBatch, OrderRequest,
    StoreError,
};
use ledgers::schema::ColumnKind;

fn num(x: f64) -> Binary64 {
    Binary64::from_bits(x.to_bits())
}

fn order(user: &str, symbol: &str, amount: i64, price: f64) -> Order {
    Order { user: user.into(), symbol: symbol.into(), amount, price: num(price) }
}

/// A durable layer that lives in memory and counts its reads.
struct Tables {
    rows: HashMap<String, Vec<Order>>,
    reads: usize,
    broken: bool,
}

impl Tables {
    fn new() -> Tables {
        Tables { rows: HashMap::new(), reads: 0, broken: false }
    }

    fn write(&mut self, user: &str, rows: Vec<Order>) -> Result<(), String> {
        if self.broken {
            return Err("not a directory".to_string());
        }
        self.rows.insert(user.to_string(), rows);
        Ok(())
    }

    fn read(&mut self, user: &str) -> Result<Vec<Order>, String> {
        self.reads += 1;
        if self.broken {
            return Err("not a directory".to_string());
        }
        Ok(self.rows.get(user).cloned().unwrap_or_default())
    }
}

fn add_order(store: &mut HoldingStore, tables: &mut Tables, order: Order) -> Result<(), StoreError> {
    let user = order.user.clone();
    store.add_order(order);
    let rows = store.rows_to_write(&user);
    tables.write(&user, rows).map_err(|cause| HoldingStore::write_failed(&user, cause))
}

fn orders_for_user(store: &mut HoldingStore, tables: &mut Tables, user: &str) -> Result<Vec<Order>, StoreError> {
    if let Some(rows) = store.cached_orders(user) {
        return Ok(rows);
    }
    let loaded = tables.read(user);
    store.orders_for_user(user, loaded)
}

#[test]
fn test_add_and_list_orders() {
    let mut tables = Tables::new();
    let mut store = HoldingStore::new();

    let request = OrderRequest { user: "alice".into(), symbol: "AAPL".into(), amount: 5, price: num(10.0) };
    assert_eq!(add_order(&mut store, &mut tables, request.into()), Ok(()));

    let orders = store.all_orders();
    assert_eq!(orders.len(), 1);
    assert_eq!(orders[0].user, "alice");

    let orders = orders_for_user(&mut store, &mut tables, "alice").unwrap();
    assert_eq!(orders.len(), 1);
    assert_eq!(orders[0].symbol, "AAPL");

    let missing = orders_for_user(&mut store, &mut tables, "bob").unwrap_err();
    assert_eq!(missing, StoreError::NoOrders("bob".to_string()));
    let error = AppError::from(missing);
    assert_eq!(error.status, NOT_FOUND);
    assert_eq!(error.status, 404);
    assert_eq!(error.message, "no orders for user bob");
}

#[test]
fn test_add_transaction_failure() {
    let mut tables = Tables::new();
    tables.broken = true;
    let mut store = HoldingStore::new();

    let failed = add_order(&mut store, &mut tables, order("alice", "AAPL", 5, 10.0)).unwrap_err();
    let error = AppError::from(failed);
    assert_eq!(error.status, INTERNAL_SERVER_ERROR);
    assert_eq!(error.status, 500);
    assert!(error.message.contains("failed to persist order"));
    assert_eq!(error.message, "failed to persist order for alice");
    // the order is in the ledger all the same
    assert_eq!(store.all_orders(), vec![order("alice", "AAPL", 5, 10.0)]);
}

#[test]
fn no_orders_for_user_message() {
    let mut store = HoldingStore::new();
    let error = store.orders_for_user("bob", Ok(Vec::new())).unwrap_err();
    assert_eq!(error.message(), "no orders for user bob");
    assert_eq!(store.cached_orders("bob"), None);
}

#[test]
fn a_failed_read_is_reported_with_the_user() {
    let mut store = HoldingStore::new();
    let error = store.orders_for_user("carol", Err("disk on fire".to_string())).unwrap_err();
    assert_eq!(
        error,
        StoreError::Other(Failure {
            context: "failed to load orders for carol".to_string(),
            cause: "disk on fire".to_string(),
        })
    );
    assert_eq!(error.message(), "failed to load orders for carol");
    assert_eq!(store.cached_orders("carol"), None);
    assert_eq!(AppError::from(error).status, 500);
}

#[test]
fn a_write_failure_keeps_its_cause() {
    let error = HoldingStore::write_failed("alice", "no space left".to_string());
    match &error {
        StoreError::Other(failure) => {
            assert_eq!(failure.context, "failed to persist order for alice");
            assert_eq!(failure.cause, "no space left");
            assert_eq!(failure.detail(), "failed to persist order for alice: no space left");
            assert_eq!(failure.message(), "failed to persist order for alice");
        }
        other => panic!("unexpected error {other:?}"),
    }
    assert_eq!(error.message(), "failed to persist order for alice");
}

#[test]
fn identical_orders_are_both_kept() {
    let mut store = HoldingStore::new();
    store.add_order(order("alice", "AAPL", 5, 10.0));
    store.add_order(order("alice", "AAPL", 5, 10.0));
    assert_eq!(store.rows_to_write("alice").len(), 2);
    assert_eq!(store.all_orders().len(), 2);
}

#[test]
fn all_orders_go_user_by_user() {
    let mut store = HoldingStore::new();
    store.add_order(order("alice", "AAPL", 1, 1.0));
    store.add_order(order("bob", "MSFT", 2, 2.0));
    store.add_order(order("alice", "GOOG", 3, 3.0));
    assert_eq!(
        store.all_orders(),
        vec![order("alice", "AAPL", 1, 1.0), order("alice", "GOOG", 3, 3.0), order("bob", "MSFT", 2, 2.0)]
    );
    assert_eq!(store.rows_to_write("bob"), vec![order("bob", "MSFT", 2, 2.0)]);
    assert_eq!(store.rows_to_write("nobody"), Vec::<Order>::new());
    assert_eq!(HoldingStore::new().all_orders(), Vec::<Order>::new());
}

#[test]
fn written_rows_come_back_after_eviction() {
    let mut tables = Tables::new();
    let mut store = HoldingStore::new();
    add_order(&mut store, &mut tables, order("alice", "AAPL", 5, 10.0)).unwrap();
    add_order(&mut store, &mut tables, order("alice", "MSFT", -2, 20.5)).unwrap();
    let written = store.rows_to_write("alice");

    // a ledger with nothing in memory, in front of the same tables
    let mut fresh = HoldingStore::new();
    assert_eq!(fresh.cached_orders("alice"), None);
    let read = orders_for_user(&mut fresh, &mut tables, "alice").unwrap();
    assert_eq!(read, written);
    assert_eq!(read, vec![order("alice", "AAPL", 5, 10.0), order("alice", "MSFT", -2, 20.5)]);
}

#[test]
fn a_second_read_does_not_touch_the_tables() {
    let mut tables = Tables::new();
    tables.rows.insert("alice".into(), vec![order("alice", "AAPL", 5, 10.0)]);
    let mut store = HoldingStore::new();

    let first = orders_for_user(&mut store, &mut tables, "alice").unwrap();
    assert_eq!(tables.reads, 1);
    let second = orders_for_user(&mut store, &mut tables, "alice").unwrap();
    let third = orders_for_user(&mut store, &mut tables, "alice").unwrap();
    assert_eq!(tables.reads, 1);
    assert_eq!(first, second);
    assert_eq!(first, third);

    // a user without orders is not cached, so every read goes to the tables
    assert!(orders_for_user(&mut store, &mut tables, "bob").is_err());
    assert!(orders_for_user(&mut store, &mut tables, "bob").is_err());
    assert_eq!(tables.reads, 3);
}

#[test]
fn loaded_rows_replace_what_was_cached() {
    let mut store = HoldingStore::new();
    store.add_order(order("alice", "AAPL", 1, 1.0));
    store.add_order(order("bob", "MSFT", 1, 1.0));
    let rows = vec![order("alice", "GOOG", 7, 7.0)];
    assert_eq!(store.orders_for_user("alice", Ok(rows.clone())), Ok(rows.clone()));
    assert_eq!(store.cached_orders("alice"), Some(rows));
    assert_eq!(store.cached_orders("bob"), Some(vec![order("bob", "MSFT", 1, 1.0)]));
    // alice keeps her place in front of bob
    assert_eq!(store.all_orders()[0].symbol, "GOOG");
}

#[test]
fn order_request_becomes_the_same_order() {
    let request = OrderRequest { user: "alice".into(), symbol: "AAPL".into(), amount: -3, price: num(1.25) };
    assert_eq!(Order::from(request), order("alice", "AAPL", -3, 1.25));
}

#[test]
fn orders_table_has_four_columns() {
    let fields = order_schema();
    let names: Vec<&str> = fields.iter().map(|f| f.name.as_str()).collect();
    assert_eq!(names, vec!["user", "symbol", "amount", "price"]);
    let kinds: Vec<ColumnKind> = fields.iter().map(|f| f.kind).collect();
    assert_eq!(kinds, vec![ColumnKind::Text, ColumnKind::Text, ColumnKind::Integer, ColumnKind::Real]);
    assert!(fields.iter().all(|f| !f.nullable));
}

#[test]
fn orders_survive_the_columns() {
    let orders =
        vec![order("alice", "AAPL", 5, 10.0), order("bob", "MSFT", -1, 0.5), order("alice", "AAPL", 5, 10.0)];
    let batch = orders_to_record_batch(&orders);
    assert_eq!(batch.user, vec!["alice", "bob", "alice"]);
    assert_eq!(batch.symbol, vec!["AAPL", "MSFT", "AAPL"]);
    assert_eq!(batch.amount, vec![5, -1, 5]);
    assert_eq!(batch.price, vec![num(10.0), num(0.5), num(10.0)]);
    assert_eq!(batch_to_orders(&batch), Some(orders));

    let empty = orders_to_record_batch(&Vec::new());
    assert_eq!(batch_to_orders(&empty), Some(Vec::new()));
}

#[test]
fn ragged_order_columns_are_no_rows() {
    let batch = OrderBatch {
        user: vec!["alice".to_string()],
        symbol: vec!["AAPL".to_string()],
        amount: vec![1, 2],
        price: vec![num(1.0)],
    };
    assert_eq!(batch_to_orders(&batch), None);
    let short = OrderBatch { user: Vec::new(), symbol: Vec::new(), amount: Vec::new(), price: vec![num(1.0)] };
    assert_eq!(batch_to_orders(&short), None);
}
