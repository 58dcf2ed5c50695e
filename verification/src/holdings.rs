//! The order ledger: every order a user placed, kept per user in the order in
//! which they arrived, in front of one durable `orders` table per user.

use vstd::prelude::*;
use vstd::string::StringExecFns;
use crate::binary64::Binary64;
use crate::error::Failure;
use crate::keyed::{Keyed, Table};
use crate::schema::{ColumnKind, Field};

verus! {

/// Why a request to the order ledger was not served.
#[derive(Debug, PartialEq, Eq)]
pub enum StoreError {
    /// Neither the ledger nor the durable table has an order of this user.
    NoOrders(String),
    /// Reading or writing the durable table failed.
    Other(Failure),
}

impl StoreError {
    /// What is shown for this error.
    pub open spec fn text(&self) -> Seq<char> {
        match self {
            StoreError::NoOrders(user) => "no orders for user "@ + user@,
            StoreError::Other(failure) => failure.context@,
        }
    }

    /// Renders [`StoreError::text`].
    pub fn message(&self) -> (text: String)
        ensures
            text@ == self.text(),
    {
        match self {
            StoreError::NoOrders(user) => {
                let mut text = String::from_str("no orders for user ");
                text.append(user.as_str());
                text
            },
            StoreError::Other(failure) => failure.message(),
        }
    }
}

/// One order. An order is never changed once it is in a ledger, and two orders
/// with the same fields are two orders.
#[derive(Debug, PartialEq)]
pub struct Order {
    pub user: String,
    pub symbol: String,
    pub amount: i64,
    pub price: Binary64,
}

impl Clone for Order {
    fn clone(&self) -> (copy: Self)
        ensures
            copy == *self,
    {
        Order {
            user: self.user.clone(),
            symbol: self.symbol.clone(),
            amount: self.amount,
            price: self.price,
        }
    }
}

/// An order as a client submits it.
#[derive(Debug)]
pub struct OrderRequest {
    pub user: String,
    pub symbol: String,
    pub amount: i64,
    pub price: Binary64,
}

impl From<OrderRequest> for Order {
    fn from(req: OrderRequest) -> (order: Order) {
        Order { user: req.user, symbol: req.symbol, amount: req.amount, price: req.price }
    }
}

impl vstd::std_specs::convert::FromSpecImpl<OrderRequest> for Order {
    open spec fn obeys_from_spec() -> bool {
        true
    }

    open spec fn from_spec(req: OrderRequest) -> Order {
        Order { user: req.user, symbol: req.symbol, amount: req.amount, price: req.price }
    }
}

/// The columns of the `orders` table: `user` and `symbol` as text, `amount` as
/// an integer, `price` as a number, none of them nullable.
pub fn order_schema() -> (fields: Vec<Field>)
    ensures
        fields@.len() == 4,
        fields@[0].is("user"@, ColumnKind::Text),
        fields@[1].is("symbol"@, ColumnKind::Text),
        fields@[2].is("amount"@, ColumnKind::Integer),
        fields@[3].is("price"@, ColumnKind::Real),
{
    let mut fields: Vec<Field> = Vec::new();
    fields.push(Field::required("user", ColumnKind::Text));
    fields.push(Field::required("symbol", ColumnKind::Text));
    fields.push(Field::required("amount", ColumnKind::Integer));
    fields.push(Field::required("price", ColumnKind::Real));
    fields
}

/// A run of order rows laid out by column, as the `orders` table stores them.
#[derive(Debug, PartialEq)]
pub struct OrderBatch {
    pub user: Vec<String>,
    pub symbol: Vec<String>,
    pub amount: Vec<i64>,
    pub price: Vec<Binary64>,
}

/// The mathematical content of an [`OrderBatch`].
#[verifier::ext_equal]
pub struct OrderColumns {
    pub user: Seq<String>,
    pub symbol: Seq<String>,
    pub amount: Seq<i64>,
    pub price: Seq<Binary64>,
}

impl OrderColumns {
    /// All four columns have `rows` entries.
    pub open spec fn has_rows(self, rows: nat) -> bool {
        &&& self.user.len() == rows
        &&& self.symbol.len() == rows
        &&& self.amount.len() == rows
        &&& self.price.len() == rows
    }

    /// The columns have the same length.
    pub open spec fn aligned(self) -> bool {
        self.has_rows(self.user.len())
    }

    /// The rows that the columns spell out, as many as `user` has entries.
    pub open spec fn rows(self) -> Seq<Order> {
        Seq::new(
            self.user.len(),
            |i: int|
                Order { user: self.user[i], symbol: self.symbol[i], amount: self.amount[i], price: self.price[i] },
        )
    }

    /// The columns that lay out `orders`.
    pub open spec fn of(orders: Seq<Order>) -> OrderColumns {
        OrderColumns {
            user: Seq::new(orders.len(), |i: int| orders[i].user),
            symbol: Seq::new(orders.len(), |i: int| orders[i].symbol),
            amount: Seq::new(orders.len(), |i: int| orders[i].amount),
            price: Seq::new(orders.len(), |i: int| orders[i].price),
        }
    }
}

impl View for OrderBatch {
    type V = OrderColumns;

    open spec fn view(&self) -> OrderColumns {
        OrderColumns { user: self.user@, symbol: self.symbol@, amount: self.amount@, price: self.price@ }
    }
}

/// Laying rows out by column and reading them back gives the rows.
pub proof fn order_rows_round_trip(orders: Seq<Order>)
    ensures
        OrderColumns::of(orders).aligned(),
        OrderColumns::of(orders).rows() == orders,
{
    assert(OrderColumns::of(orders).rows() =~= orders);
}

/// Reading aligned columns as rows and laying those out again gives the
/// columns.
pub proof fn order_columns_round_trip(columns: OrderColumns)
    requires
        columns.aligned(),
    ensures
        OrderColumns::of(columns.rows()) == columns,
{
    let again = OrderColumns::of(columns.rows());
    assert(again.user =~= columns.user);
    assert(again.symbol =~= columns.symbol);
    assert(again.amount =~= columns.amount);
    assert(again.price =~= columns.price);
}

/// Lays `orders` out by column.
pub fn orders_to_record_batch(orders: &Vec<Order>) -> (batch: OrderBatch)
    ensures
        batch@ == OrderColumns::of(orders@),
{
    let mut batch = OrderBatch { user: Vec::new(), symbol: Vec::new(), amount: Vec::new(), price: Vec::new() };
    let mut i: usize = 0;
    while i < orders.len()
        invariant
            i <= orders@.len(),
            batch@ == OrderColumns::of(orders@.take(i as int)),
        decreases orders@.len() - i,
    {
        let order = &orders[i];
        batch.user.push(order.user.clone());
        batch.symbol.push(order.symbol.clone());
        batch.amount.push(order.amount);
        batch.price.push(order.price);
        proof {
            let next = OrderColumns::of(orders@.take(i + 1));
            assert(batch@.user =~= next.user);
            assert(batch@.symbol =~= next.symbol);
            assert(batch@.amount =~= next.amount);
            assert(batch@.price =~= next.price);
        }
        i += 1;
    }
    assert(orders@.take(i as int) =~= orders@);
    batch
}

/// Reads the rows of `batch`, or nothing where its columns differ in length.
pub fn batch_to_orders(batch: &OrderBatch) -> (orders: Option<Vec<Order>>)
    ensures
        match orders {
            Some(rows) => batch@.aligned() && rows@ == batch@.rows(),
            None => !batch@.aligned(),
        },
{
    let n = batch.user.len();
    if batch.symbol.len() != n || batch.amount.len() != n || batch.price.len() != n {
        return None;
    }
    let mut rows: Vec<Order> = Vec::new();
    let mut i: usize = 0;
    while i < n
        invariant
            batch@.has_rows(n as nat),
            i <= n,
            rows@ == batch@.rows().take(i as int),
        decreases n - i,
    {
        rows.push(
            Order {
                user: batch.user[i].clone(),
                symbol: batch.symbol[i].clone(),
                amount: batch.amount[i],
                price: batch.price[i],
            },
        );
        assert(rows@ =~= batch@.rows().take(i + 1));
        i += 1;
    }
    assert(batch@.rows().take(n as int) =~= batch@.rows());
    Some(rows)
}

/// A clone of an order is that order.
pub proof fn order_clone_is_copy()
    ensures
        forall|a: Order, b: Order| #[trigger] cloned(a, b) ==> a == b,
{
}

/// The order ledger in memory.
#[derive(Debug)]
pub struct HoldingStore {
    inner: Keyed<Vec<Order>>,
}

impl View for HoldingStore {
    type V = Table<Seq<Order>>;

    /// The users that the ledger holds, oldest first, each with the list of
    /// their orders.
    closed spec fn view(&self) -> Table<Seq<Order>> {
        self.inner.rows()
    }
}

impl HoldingStore {
    /// A ledger that holds nothing.
    pub fn new() -> (store: HoldingStore)
        ensures
            store@ == Table::<Seq<Order>>::empty(),
    {
        let store = HoldingStore { inner: Keyed::new() };
        assert(store@ =~= Table::<Seq<Order>>::empty());
        store
    }

    /// Appends `order` to the list of its user. Nothing is compared and
    /// nothing is merged: the same order added twice is held twice.
    ///
    /// The durable table of that user is then to be rewritten with
    /// [`HoldingStore::rows_to_write`].
    pub fn add_order(&mut self, order: Order)
        ensures
            final(self)@.wf(),
            final(self)@ == old(self)@.append(order.user@, order),
    {
        let user = order.user.clone();
        self.inner.append(user, order);
    }

    /// What a write of the `orders` table of `user` stores: the whole list
    /// that the ledger holds for that user at this moment, which is empty for
    /// a user it does not hold.
    pub fn rows_to_write(&self, user: &str) -> (rows: Vec<Order>)
        ensures
            self@.wf(),
            rows@ == self@.list(user@),
    {
        proof {
            order_clone_is_copy();
        }
        match self.inner.list_of(user) {
            Some(rows) => rows,
            None => Vec::new(),
        }
    }

    /// Why the write of the `orders` table of `user` failed, in the ledger's
    /// words.
    pub fn write_failed(user: &str, cause: String) -> (error: StoreError)
        ensures
            error matches StoreError::Other(failure) && failure.context@ == "failed to persist order for "@
                + user@ && failure.cause == cause,
    {
        StoreError::Other(Failure::for_key("failed to persist order for ", user, cause))
    }

    /// The orders of every user, user after user in the order in which the
    /// users arrived.
    pub fn all_orders(&self) -> (orders: Vec<Order>)
        ensures
            self@.wf(),
            orders@ == self@.flat(),
    {
        proof {
            order_clone_is_copy();
        }
        self.inner.flattened()
    }

    /// The first half of a read: the orders of `user` as the ledger holds
    /// them. `None` means that the durable table has to be read, and its rows
    /// handed to [`HoldingStore::orders_for_user`].
    pub fn cached_orders(&self, user: &str) -> (hit: Option<Vec<Order>>)
        ensures
            self@.wf(),
            match hit {
                Some(rows) => self@.get(user@) == Some(rows@),
                None => !self@.has(user@),
            },
    {
        proof {
            order_clone_is_copy();
        }
        self.inner.list_of(user)
    }

    /// The second half of a read that missed the ledger, given what reading
    /// the durable `orders` table of `user` gave.
    ///
    /// - The read failed: the failure is reported with the user it was for,
    ///   and the ledger is unchanged.
    /// - The table is empty or absent: the user has no orders, which is
    ///   reported as [`StoreError::NoOrders`]; the ledger is unchanged.
    /// - Otherwise the rows become the list of that user in the ledger and
    ///   are returned.
    pub fn orders_for_user(&mut self, user: &str, loaded: Result<Vec<Order>, String>) -> (result: Result<
        Vec<Order>,
        StoreError,
    >)
        ensures
            final(self)@.wf(),
            match loaded {
                Err(cause) => {
                    &&& final(self)@ == old(self)@
                    &&& result matches Err(StoreError::Other(failure))
                    &&& failure.context@ == "failed to load orders for "@ + user@
                    &&& failure.cause == cause
                },
                Ok(rows) => if rows@.len() == 0 {
                    &&& final(self)@ == old(self)@
                    &&& result matches Err(StoreError::NoOrders(who))
                    &&& who@ == user@
                } else {
                    &&& final(self)@ == old(self)@.put(user@, rows@)
                    &&& result matches Ok(found)
                    &&& found@ == rows@
                },
            },
    {
        proof {
            use_type_invariant(&self.inner);
            self.inner.rows_follow(user@);
        }
        match loaded {
            Err(cause) => Err(StoreError::Other(Failure::for_key("failed to load orders for ", user, cause))),
            Ok(rows) => {
                if rows.len() == 0 {
                    Err(StoreError::NoOrders(user.to_owned()))
                } else {
                    proof {
                        order_clone_is_copy();
                    }
                    let found = rows.clone();
                    assert(found@ =~= rows@);
                    self.inner.insert(user.to_owned(), rows);
                    assert(self@ =~= old(self)@.put(user@, rows@));
                    Ok(found)
                }
            },
        }
    }
}

/// Read-through caching: once a read has brought the rows of a user into the
/// ledger, the ledger answers for that user with those rows, and answers for
/// every other user as before.
pub proof fn loaded_rows_are_cached(
    ledger: Table<Seq<Order>>,
    user: Seq<char>,
    rows: Seq<Order>,
    other: Seq<char>,
)
    requires
        ledger.wf(),
    ensures
        ledger.put(user, rows).wf(),
        ledger.put(user, rows).get(user) == Some(rows),
        other != user ==> ledger.put(user, rows).get(other) == ledger.get(other),
{
    ledger.put_then_get(user, rows, other);
}

/// Write-through round trip: what a write stores for the user of an order
/// just added ends with the order, so it is not empty, and it is the list
/// that a ledger with nothing in memory holds for that user after reading
/// those rows back.
pub proof fn written_rows_read_back(ledger: Table<Seq<Order>>, order: Order)
    requires
        ledger.wf(),
    ensures
        ({
            let user = order.user@;
            let written = ledger.append(user, order).list(user);
            &&& written == ledger.list(user).push(order)
            &&& written.len() > 0
            &&& Table::<Seq<Order>>::empty().put(user, written).get(user) == Some(written)
        }),
{
    let user = order.user@;
    ledger.append_then_list(user, order, user);
    let written = ledger.append(user, order).list(user);
    Table::<Seq<Order>>::empty().put_then_get(user, written, user);
}

} // verus!
