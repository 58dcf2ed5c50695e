//! The holdings ledger: for each user, one valuation per order and calendar
//! day, in front of one durable `holdings` table per user.
//!
//! A holding record is found again by its symbol, original price, quantity
//! and day; deriving a record that is found overwrites its current price, and
//! deriving one that is not found appends it.

use vstd::prelude::*;
use vstd::string::StringExecFns;
use crate::binary64::Binary64;
use crate::day::{date_text, utc_date};
use crate::error::Failure;
use crate::holdings::Order;
use crate::keyed::{Keyed, Table};
use crate::market::{PriceInfo, Quote};
use crate::schema::{ColumnKind, Field};

verus! {

/// Why a request to the holdings ledger was not served.
#[derive(Debug, PartialEq, Eq)]
pub enum HoldingsError {
    /// Neither the ledger nor the durable table has a holding of this user.
    NoHoldings(String),
    /// Reading or writing the durable table failed, or a quote was unusable.
    Other(Failure),
}

impl HoldingsError {
    /// What is shown for this error.
    pub open spec fn text(&self) -> Seq<char> {
        match self {
            HoldingsError::NoHoldings(user) => "no holdings for user "@ + user@,
            HoldingsError::Other(failure) => failure.context@,
        }
    }

    /// Renders [`HoldingsError::text`].
    pub fn message(&self) -> (text: String)
        ensures
            text@ == self.text(),
    {
        match self {
            HoldingsError::NoHoldings(user) => {
                let mut text = String::from_str("no holdings for user ");
                text.append(user.as_str());
                text
            },
            HoldingsError::Other(failure) => failure.message(),
        }
    }
}

/// The valuation of one order on one day.
#[derive(Debug, PartialEq)]
pub struct HoldingRecord {
    pub user: String,
    pub symbol: String,
    pub quantity: i64,
    pub original_price: Binary64,
    pub current_price: Binary64,
    /// The day bucket, in its written form.
    pub updated_at: String,
}

impl Clone for HoldingRecord {
    fn clone(&self) -> (copy: Self)
        ensures
            copy == *self,
    {
        HoldingRecord {
            user: self.user.clone(),
            symbol: self.symbol.clone(),
            quantity: self.quantity,
            original_price: self.original_price,
            current_price: self.current_price,
            updated_at: self.updated_at.clone(),
        }
    }
}

/// A clone of a holding record is that record.
pub proof fn record_clone_is_copy()
    ensures
        forall|a: HoldingRecord, b: HoldingRecord| #[trigger] cloned(a, b) ==> a == b,
{
}

/// Whether two records are for the same order and day: same symbol, same
/// original price (compared as numbers, exactly), same quantity, same day.
pub open spec fn same_key(a: HoldingRecord, b: HoldingRecord) -> bool {
    &&& a.symbol@ == b.symbol@
    &&& a.original_price.same_number(b.original_price)
    &&& a.quantity == b.quantity
    &&& a.updated_at@ == b.updated_at@
}

/// No two records of the list are for the same order and day.
pub open spec fn one_per_key(list: Seq<HoldingRecord>) -> bool {
    forall|i: int, j: int| 0 <= i < j < list.len() ==> !same_key(#[trigger] list[i], #[trigger] list[j])
}

/// Whether position `i` holds the first record of the list with the key of
/// `record`.
pub open spec fn is_first_with_key(list: Seq<HoldingRecord>, record: HoldingRecord, i: int) -> bool {
    &&& 0 <= i < list.len()
    &&& same_key(list[i], record)
    &&& forall|j: int| 0 <= j < i ==> !same_key(#[trigger] list[j], record)
}

/// The position of the first record with the key of `record`.
pub open spec fn first_with_key(list: Seq<HoldingRecord>, record: HoldingRecord) -> Option<int> {
    if exists|i: int| is_first_with_key(list, record, i) {
        Some(choose|i: int| is_first_with_key(list, record, i))
    } else {
        None
    }
}

/// `stored` with the current price of `record`.
pub open spec fn repriced(stored: HoldingRecord, record: HoldingRecord) -> HoldingRecord {
    HoldingRecord { current_price: record.current_price, ..stored }
}

/// The records of one user after `record` was derived: the first record
/// with its key has its current price, or the list has it as its last entry.
pub open spec fn upserted(list: Seq<HoldingRecord>, record: HoldingRecord) -> Seq<HoldingRecord> {
    match first_with_key(list, record) {
        Some(i) => list.update(i, repriced(list[i], record)),
        None => list.push(record),
    }
}

/// A first record with the key is the only first.
pub proof fn first_with_key_is(list: Seq<HoldingRecord>, record: HoldingRecord, i: int)
    requires
        is_first_with_key(list, record, i),
    ensures
        first_with_key(list, record) == Some(i),
{
    let k = choose|k: int| is_first_with_key(list, record, k);
    if k < i {
        assert(!same_key(list[k], record));
    } else if i < k {
        assert(!same_key(list[i], record));
    }
}

/// Where some record has the key, some record is the first to have it.
pub proof fn first_with_key_exists(list: Seq<HoldingRecord>, record: HoldingRecord, a: int)
    requires
        0 <= a < list.len(),
        same_key(list[a], record),
    ensures
        first_with_key(list, record).is_some(),
    decreases a,
{
    if forall|j: int| 0 <= j < a ==> !same_key(#[trigger] list[j], record) {
        assert(is_first_with_key(list, record, a));
    } else {
        let j = choose|j: int| 0 <= j < a && same_key(#[trigger] list[j], record);
        first_with_key_exists(list, record, j);
    }
}

/// Deriving a record keeps a list at one record per order and day.
pub proof fn upsert_keeps_one_per_key(list: Seq<HoldingRecord>, record: HoldingRecord)
    requires
        one_per_key(list),
    ensures
        one_per_key(upserted(list, record)),
{
    let after = upserted(list, record);
    match first_with_key(list, record) {
        Some(i) => {
            assert(is_first_with_key(list, record, i));
            assert forall|a: int, b: int| 0 <= a < b < after.len() implies !same_key(
                #[trigger] after[a],
                #[trigger] after[b],
            ) by {
                assert(!same_key(list[a], list[b]));
            }
        },
        None => {
            assert forall|a: int, b: int| 0 <= a < b < after.len() implies !same_key(
                #[trigger] after[a],
                #[trigger] after[b],
            ) by {
                if b < list.len() {
                    assert(!same_key(list[a], list[b]));
                } else if same_key(list[a], record) {
                    first_with_key_exists(list, record, a);
                }
            }
        },
    }
}

/// Idempotent day-bucket upsert: deriving a record and then another with the
/// same symbol, original price, quantity and day leaves as many records as
/// the first derivation did; exactly one of them has that key, and its
/// current price is that of the second derivation. An original price that
/// is not a number is the same as no price, itself included, so two records
/// with such a price never have the same key.
pub proof fn derive_twice_same_day(list: Seq<HoldingRecord>, first: HoldingRecord, second: HoldingRecord)
    requires
        one_per_key(list),
        same_key(first, second),
    ensures
        ({
            let once = upserted(list, first);
            let twice = upserted(once, second);
            &&& twice.len() == once.len()
            &&& first_with_key(once, second) matches Some(i)
            &&& twice == once.update(i, repriced(once[i], second))
            &&& twice[i].current_price == second.current_price
            &&& same_key(twice[i], second)
            &&& forall|j: int| 0 <= j < twice.len() && j != i ==> !same_key(#[trigger] twice[j], second)
        }),
{
    let once = upserted(list, first);
    let at: int = match first_with_key(list, first) {
        Some(i) => i,
        None => list.len() as int,
    };
    assert(0 <= at < once.len() && same_key(once[at], second)) by {
        if first_with_key(list, first).is_some() {
            assert(is_first_with_key(list, first, at));
        }
    }
    first_with_key_exists(once, second, at);
    let i = first_with_key(once, second)->0;
    assert(is_first_with_key(once, second, i));
    upsert_keeps_one_per_key(list, first);
    let twice = upserted(once, second);
    assert forall|j: int| 0 <= j < twice.len() && j != i implies !same_key(#[trigger] twice[j], second) by {
        if same_key(once[j], second) {
            if i < j {
                assert(!same_key(once[i], once[j]));
            } else {
                assert(!same_key(once[j], once[i]));
            }
        }
    }
}

/// Day-boundary split: deriving into an empty list two records that differ
/// in their day gives both, in that order.
pub proof fn derive_on_two_days(first: HoldingRecord, second: HoldingRecord)
    requires
        first.updated_at@ != second.updated_at@,
    ensures
        upserted(upserted(Seq::<HoldingRecord>::empty(), first), second) == seq![first, second],
{
    let once = upserted(Seq::<HoldingRecord>::empty(), first);
    assert(once =~= seq![first]);
    assert(first_with_key(once, second).is_none()) by {
        if first_with_key(once, second).is_some() {
            let i = first_with_key(once, second)->0;
            assert(is_first_with_key(once, second, i));
        }
    }
    assert(upserted(once, second) =~= seq![first, second]);
}

/// Whether `record` values `order` at `close` on `day`.
pub open spec fn derived(record: HoldingRecord, order: Order, close: Binary64, day: Seq<char>) -> bool {
    &&& record.user == order.user
    &&& record.symbol == order.symbol
    &&& record.quantity == order.amount
    &&& record.original_price == order.price
    &&& record.current_price == close
    &&& record.updated_at@ == day
}

impl HoldingRecord {
    /// The record that values `order` at `close` on the day written `day`.
    pub fn derived_from(order: &Order, close: Binary64, day: String) -> (record: HoldingRecord)
        ensures
            derived(record, *order, close, day@),
            record.updated_at == day,
    {
        HoldingRecord {
            user: order.user.clone(),
            symbol: order.symbol.clone(),
            quantity: order.amount,
            original_price: order.price,
            current_price: close,
            updated_at: day,
        }
    }
}

/// The columns of the `holdings` table: `user` and `symbol` as text,
/// `quantity` as an integer, `original_price` and `current_price` as
/// numbers, `updated_at` as text, none of them nullable.
pub fn holdings_schema() -> (fields: Vec<Field>)
    ensures
        fields@.len() == 6,
        fields@[0].is("user"@, ColumnKind::Text),
        fields@[1].is("symbol"@, ColumnKind::Text),
        fields@[2].is("quantity"@, ColumnKind::Integer),
        fields@[3].is("original_price"@, ColumnKind::Real),
        fields@[4].is("current_price"@, ColumnKind::Real),
        fields@[5].is("updated_at"@, ColumnKind::Text),
{
    let mut fields: Vec<Field> = Vec::new();
    fields.push(Field::required("user", ColumnKind::Text));
    fields.push(Field::required("symbol", ColumnKind::Text));
    fields.push(Field::required("quantity", ColumnKind::Integer));
    fields.push(Field::required("original_price", ColumnKind::Real));
    fields.push(Field::required("current_price", ColumnKind::Real));
    fields.push(Field::required("updated_at", ColumnKind::Text));
    fields
}

/// A run of holding records laid out by column, as the `holdings` table
/// stores them.
#[derive(Debug, PartialEq)]
pub struct HoldingBatch {
    pub user: Vec<String>,
    pub symbol: Vec<String>,
    pub quantity: Vec<i64>,
    pub original_price: Vec<Binary64>,
    pub current_price: Vec<Binary64>,
    pub updated_at: Vec<String>,
}

/// The mathematical content of a [`HoldingBatch`].
#[verifier::ext_equal]
pub struct HoldingColumns {
    pub user: Seq<String>,
    pub symbol: Seq<String>,
    pub quantity: Seq<i64>,
    pub original_price: Seq<Binary64>,
    pub current_price: Seq<Binary64>,
    pub updated_at: Seq<String>,
}

impl HoldingColumns {
    /// All six columns have `rows` entries.
    pub open spec fn has_rows(self, rows: nat) -> bool {
        &&& self.user.len() == rows
        &&& self.symbol.len() == rows
        &&& self.quantity.len() == rows
        &&& self.original_price.len() == rows
        &&& self.current_price.len() == rows
        &&& self.updated_at.len() == rows
    }

    /// The columns have the same length.
    pub open spec fn aligned(self) -> bool {
        self.has_rows(self.user.len())
    }

    /// The rows that the columns spell out, as many as `user` has entries.
    pub open spec fn rows(self) -> Seq<HoldingRecord> {
        Seq::new(
            self.user.len(),
            |i: int|
                HoldingRecord {
                    user: self.user[i],
                    symbol: self.symbol[i],
                    quantity: self.quantity[i],
                    original_price: self.original_price[i],
                    current_price: self.current_price[i],
                    updated_at: self.updated_at[i],
                },
        )
    }

    /// The columns that lay out `records`.
    pub open spec fn of(records: Seq<HoldingRecord>) -> HoldingColumns {
        HoldingColumns {
            user: Seq::new(records.len(), |i: int| records[i].user),
            symbol: Seq::new(records.len(), |i: int| records[i].symbol),
            quantity: Seq::new(records.len(), |i: int| records[i].quantity),
            original_price: Seq::new(records.len(), |i: int| records[i].original_price),
            current_price: Seq::new(records.len(), |i: int| records[i].current_price),
            updated_at: Seq::new(records.len(), |i: int| records[i].updated_at),
        }
    }
}

impl View for HoldingBatch {
    type V = HoldingColumns;

    open spec fn view(&self) -> HoldingColumns {
        HoldingColumns {
            user: self.user@,
            symbol: self.symbol@,
            quantity: self.quantity@,
            original_price: self.original_price@,
            current_price: self.current_price@,
            updated_at: self.updated_at@,
        }
    }
}

/// Laying records out by column and reading them back gives the records.
pub proof fn holding_rows_round_trip(records: Seq<HoldingRecord>)
    ensures
        HoldingColumns::of(records).aligned(),
        HoldingColumns::of(records).rows() == records,
{
    assert(HoldingColumns::of(records).rows() =~= records);
}

/// Reading aligned columns as records and laying those out again gives the
/// columns.
pub proof fn holding_columns_round_trip(columns: HoldingColumns)
    requires
        columns.aligned(),
    ensures
        HoldingColumns::of(columns.rows()) == columns,
{
    let again = HoldingColumns::of(columns.rows());
    assert(again.user =~= columns.user);
    assert(again.symbol =~= columns.symbol);
    assert(again.quantity =~= columns.quantity);
    assert(again.original_price =~= columns.original_price);
    assert(again.current_price =~= columns.current_price);
    assert(again.updated_at =~= columns.updated_at);
}

/// Lays `records` out by column.
pub fn records_to_batch(records: &Vec<HoldingRecord>) -> (batch: HoldingBatch)
    ensures
        batch@ == HoldingColumns::of(records@),
{
    let mut batch = HoldingBatch {
        user: Vec::new(),
        symbol: Vec::new(),
        quantity: Vec::new(),
        original_price: Vec::new(),
        current_price: Vec::new(),
        updated_at: Vec::new(),
    };
    let mut i: usize = 0;
    while i < records.len()
        invariant
            i <= records@.len(),
            batch@ == HoldingColumns::of(records@.take(i as int)),
        decreases records@.len() - i,
    {
        let record = &records[i];
        batch.user.push(record.user.clone());
        batch.symbol.push(record.symbol.clone());
        batch.quantity.push(record.quantity);
        batch.original_price.push(record.original_price);
        batch.current_price.push(record.current_price);
        batch.updated_at.push(record.updated_at.clone());
        proof {
            let next = HoldingColumns::of(records@.take(i + 1));
            assert(batch@.user =~= next.user);
            assert(batch@.symbol =~= next.symbol);
            assert(batch@.quantity =~= next.quantity);
            assert(batch@.original_price =~= next.original_price);
            assert(batch@.current_price =~= next.current_price);
            assert(batch@.updated_at =~= next.updated_at);
        }
        i += 1;
    }
    assert(records@.take(i as int) =~= records@);
    batch
}

/// Reads the rows of `batch`, or nothing where its columns differ in length.
pub fn batch_to_records(batch: &HoldingBatch) -> (records: Option<Vec<HoldingRecord>>)
    ensures
        match records {
            Some(rows) => batch@.aligned() && rows@ == batch@.rows(),
            None => !batch@.aligned(),
        },
{
    let n = batch.user.len();
    if batch.symbol.len() != n || batch.quantity.len() != n || batch.original_price.len() != n
        || batch.current_price.len() != n || batch.updated_at.len() != n {
        return None;
    }
    let mut rows: Vec<HoldingRecord> = Vec::new();
    let mut i: usize = 0;
    while i < n
        invariant
            batch@.has_rows(n as nat),
            i <= n,
            rows@ == batch@.rows().take(i as int),
        decreases n - i,
    {
        rows.push(
            HoldingRecord {
                user: batch.user[i].clone(),
                symbol: batch.symbol[i].clone(),
                quantity: batch.quantity[i],
                original_price: batch.original_price[i],
                current_price: batch.current_price[i],
                updated_at: batch.updated_at[i].clone(),
            },
        );
        assert(rows@ =~= batch@.rows().take(i + 1));
        i += 1;
    }
    assert(batch@.rows().take(n as int) =~= batch@.rows());
    Some(rows)
}

/// Finds the first record of `list` with the key of `record`.
fn find_with_key(list: &Vec<HoldingRecord>, record: &HoldingRecord) -> (found: Option<usize>)
    ensures
        match found {
            Some(i) => first_with_key(list@, *record) == Some(i as int) && i < list@.len(),
            None => first_with_key(list@, *record).is_none(),
        },
{
    let mut i: usize = 0;
    while i < list.len()
        invariant
            i <= list@.len(),
            forall|j: int| 0 <= j < i ==> !same_key(#[trigger] list@[j], *record),
        decreases list@.len() - i,
    {
        let stored = &list[i];
        if stored.symbol == record.symbol && stored.original_price.equals(&record.original_price)
            && stored.quantity == record.quantity && stored.updated_at == record.updated_at {
            proof {
                first_with_key_is(list@, *record, i as int);
            }
            return Some(i);
        }
        i += 1;
    }
    proof {
        if first_with_key(list@, *record).is_some() {
            let k = first_with_key(list@, *record)->0;
            assert(is_first_with_key(list@, *record, k));
        }
    }
    None
}

/// Derives `record` into the list of its user.
fn upsert_in(list: &mut Vec<HoldingRecord>, record: HoldingRecord)
    ensures
        final(list)@ == upserted(old(list)@, record),
{
    match find_with_key(list, &record) {
        Some(i) => {
            list[i].current_price = record.current_price;
            assert(list@ =~= upserted(old(list)@, record));
        },
        None => {
            list.push(record);
        },
    }
}

/// The latest quote of the symbol of `order`, where `prices` has one.
pub open spec fn priced(order: Order, prices: Table<PriceInfo>) -> Option<Quote> {
    match prices.get(order.symbol@) {
        Some(info) => if info.history@.len() > 0 {
            Some(info.history@.last())
        } else {
            None
        },
        None => None,
    }
}

/// Looks up [`priced`].
pub fn latest_quote(order: &Order, prices: &Keyed<PriceInfo>) -> (quote: Option<Quote>)
    ensures
        quote == priced(*order, prices@),
{
    match prices.get(order.symbol.as_str()) {
        Some(info) => {
            let n = info.history.len();
            if n > 0 {
                Some(info.history[n - 1])
            } else {
                None
            }
        },
        None => None,
    }
}

/// Whether `i` is the first position from `start` on whose order has a
/// latest quote.
pub open spec fn is_next_priced(orders: Seq<Order>, prices: Table<PriceInfo>, start: int, i: int) -> bool {
    &&& start <= i < orders.len()
    &&& priced(orders[i], prices).is_some()
    &&& forall|j: int| start <= j < i ==> priced(#[trigger] orders[j], prices).is_none()
}

/// The first position from `start` on whose order has a latest quote.
pub open spec fn next_priced(orders: Seq<Order>, prices: Table<PriceInfo>, start: int) -> Option<int> {
    if exists|i: int| is_next_priced(orders, prices, start, i) {
        Some(choose|i: int| is_next_priced(orders, prices, start, i))
    } else {
        None
    }
}

/// A first position is the only first.
pub proof fn next_priced_is(orders: Seq<Order>, prices: Table<PriceInfo>, start: int, i: int)
    requires
        is_next_priced(orders, prices, start, i),
    ensures
        next_priced(orders, prices, start) == Some(i),
{
    let k = choose|k: int| is_next_priced(orders, prices, start, k);
    if k < i {
        assert(priced(orders[k], prices).is_none());
    } else if i < k {
        assert(priced(orders[i], prices).is_none());
    }
}

/// Whether `after` is `before` with some record derived for its user that
/// values `order` at `close` on `day`.
pub open spec fn derives_into(
    after: Table<Seq<HoldingRecord>>,
    before: Table<Seq<HoldingRecord>>,
    order: Order,
    close: Binary64,
    day: Seq<char>,
) -> bool {
    exists|record: HoldingRecord| #[trigger]
        derived(record, order, close, day) && after == before.put(
            order.user@,
            upserted(before.list(order.user@), record),
        )
}

/// The user whose table the step that ended before position `start` asked
/// to be rewritten: the user of the order before `start`. Before the first
/// order and behind the last there is no such step, and the text is empty.
pub open spec fn written_user(orders: Seq<Order>, start: int) -> Seq<char> {
    if 0 < start <= orders.len() {
        orders[start - 1].user@
    } else {
        Seq::empty()
    }
}

/// What one step of valuing orders from the market did.
#[derive(Debug, PartialEq)]
pub enum MarketStep {
    /// The order before position `next` was valued: the `holdings` table of
    /// `user` is to be rewritten, and the valuation goes on at `next` with
    /// the outcome of that write.
    Persist { user: String, next: usize },
    /// No order is left that has a price.
    Done,
    /// The valuation is over: the write that the step before asked for
    /// failed, or the next order with a price could not be valued.
    Failed(HoldingsError),
}

/// The holdings ledger in memory.
#[derive(Debug)]
pub struct HoldingsService {
    inner: Keyed<Vec<HoldingRecord>>,
}

impl View for HoldingsService {
    type V = Table<Seq<HoldingRecord>>;

    /// The users that the ledger holds, oldest first, each with the list of
    /// their holding records.
    closed spec fn view(&self) -> Table<Seq<HoldingRecord>> {
        self.inner.rows()
    }
}

impl HoldingsService {
    /// A ledger that holds nothing.
    pub fn new() -> (service: HoldingsService)
        ensures
            service@ == Table::<Seq<HoldingRecord>>::empty(),
    {
        let service = HoldingsService { inner: Keyed::new() };
        assert(service@ =~= Table::<Seq<HoldingRecord>>::empty());
        service
    }

    /// Derives `record` into the list of its user: if that list has a record
    /// of the same symbol, original price, quantity and day, the first such
    /// record takes the current price of `record` and nothing else changes;
    /// if it has none, `record` becomes its last entry.
    ///
    /// The durable table of that user is then to be rewritten with
    /// [`HoldingsService::rows_to_write`].
    pub fn add_or_update(&mut self, record: HoldingRecord)
        ensures
            final(self)@.wf(),
            final(self)@ == old(self)@.put(record.user@, upserted(old(self)@.list(record.user@), record)),
    {
        proof {
            use_type_invariant(&self.inner);
            self.inner.rows_follow(record.user@);
        }
        let ghost before = self@;
        let ghost after = before.put(record.user@, upserted(before.list(record.user@), record));
        match self.inner.position(record.user.as_str()) {
            None => {
                let user = record.user.clone();
                let mut list: Vec<HoldingRecord> = Vec::new();
                proof {
                    if first_with_key(list@, record).is_some() {
                        let k = first_with_key(list@, record)->0;
                        assert(is_first_with_key(list@, record, k));
                    }
                }
                list.push(record);
                assert(list@ =~= upserted(before.list(record.user@), record));
                self.inner.insert(user, list);
                assert(self@ =~= after);
            },
            Some(u) => {
                proof {
                    before.index_is_unique(record.user@, u as int);
                }
                let mut list = self.inner.replace(u, Vec::new());
                upsert_in(&mut list, record);
                let _ = self.inner.replace(u, list);
                assert(self@ =~= after);
            },
        }
    }

    /// What a write of the `holdings` table of `user` stores: the whole list
    /// that the ledger holds for that user at this moment, which is empty for
    /// a user it does not hold.
    pub fn rows_to_write(&self, user: &str) -> (rows: Vec<HoldingRecord>)
        ensures
            self@.wf(),
            rows@ == self@.list(user@),
    {
        proof {
            record_clone_is_copy();
        }
        match self.inner.list_of(user) {
            Some(rows) => rows,
            None => Vec::new(),
        }
    }

    /// Why the write of the `holdings` table of `user` failed, in the
    /// ledger's words.
    pub fn write_failed(user: &str, cause: String) -> (error: HoldingsError)
        ensures
            error matches HoldingsError::Other(failure) && failure.context@ == "failed to persist holding for "@
                + user@ && failure.cause == cause,
    {
        HoldingsError::Other(Failure::for_key("failed to persist holding for ", user, cause))
    }

    /// The holding records of every user, user after user in the order in
    /// which the users arrived.
    pub fn all_holdings(&self) -> (records: Vec<HoldingRecord>)
        ensures
            self@.wf(),
            records@ == self@.flat(),
    {
        proof {
            record_clone_is_copy();
        }
        self.inner.flattened()
    }

    /// The first half of a read: the records of `user` as the ledger holds
    /// them. `None` means that the durable table has to be read, and its
    /// rows handed to [`HoldingsService::holdings_for_user`].
    pub fn cached_holdings(&self, user: &str) -> (hit: Option<Vec<HoldingRecord>>)
        ensures
            self@.wf(),
            match hit {
                Some(rows) => self@.get(user@) == Some(rows@),
                None => !self@.has(user@),
            },
    {
        proof {
            record_clone_is_copy();
        }
        self.inner.list_of(user)
    }

    /// The second half of a read that missed the ledger, given what reading
    /// the durable `holdings` table of `user` gave.
    ///
    /// - The read failed: the failure is reported with the user it was for,
    ///   and the ledger is unchanged.
    /// - The table is empty or absent: the user has no holdings, which is
    ///   reported as [`HoldingsError::NoHoldings`]; the ledger is unchanged.
    /// - Otherwise the rows become the list of that user in the ledger and
    ///   are returned.
    pub fn holdings_for_user(&mut self, user: &str, loaded: Result<Vec<HoldingRecord>, String>) -> (result:
        Result<Vec<HoldingRecord>, HoldingsError>)
        ensures
            final(self)@.wf(),
            match loaded {
                Err(cause) => {
                    &&& final(self)@ == old(self)@
                    &&& result matches Err(HoldingsError::Other(failure))
                    &&& failure.context@ == "failed to load holdings for "@ + user@
                    &&& failure.cause == cause
                },
                Ok(rows) => if rows@.len() == 0 {
                    &&& final(self)@ == old(self)@
                    &&& result matches Err(HoldingsError::NoHoldings(who))
                    &&& who@ == user@
                } else {
                    &&& final(self)@ == old(self)@.put(user@, rows@)
                    &&& result matches Ok(found)
                    &&& found@ == rows@
                },
            },
    {
        proof {
            use_type_invariant(&self.inner);
            self.inner.rows_follow(user@);
        }
        match loaded {
            Err(cause) => Err(HoldingsError::Other(Failure::for_key("failed to load holdings for ", user, cause))),
            Ok(rows) => {
                if rows.len() == 0 {
                    Err(HoldingsError::NoHoldings(user.to_owned()))
                } else {
                    proof {
                        record_clone_is_copy();
                    }
                    let found = rows.clone();
                    assert(found@ =~= rows@);
                    self.inner.insert(user.to_owned(), rows);
                    assert(self@ =~= old(self)@.put(user@, rows@));
                    Ok(found)
                }
            },
        }
    }

    /// One step of valuing `orders` at the prices of the market. `written`
    /// says how the write went that the step before asked for; the first
    /// step is given `Ok`.
    ///
    /// - The write failed: the valuation ends here with
    ///   [`MarketStep::Failed`], which names the user whose table was to be
    ///   written and carries the cause; nothing changed, and no order from
    ///   `start` on is valued.
    ///
    /// Otherwise the step looks, from position `start` on, for the first
    /// order whose symbol has a latest quote in `prices`, and derives a record
    /// that values the order at the close of that quote, on the calendar day
    /// of that quote.
    ///
    /// - No such order is left: [`MarketStep::Done`], and nothing changed.
    /// - The quote falls on a calendar day: the record is derived as
    ///   [`HoldingsService::add_or_update`] does, and the step names the user
    ///   whose table is to be rewritten and the position to go on from.
    /// - The quote has no calendar day: [`MarketStep::Failed`], and nothing
    ///   changed.
    pub fn update_from_market(
        &mut self,
        orders: &Vec<Order>,
        prices: &Keyed<PriceInfo>,
        start: usize,
        written: Result<(), String>,
    ) -> (step: MarketStep)
        ensures
            final(self)@.wf(),
            match written {
                Err(cause) => {
                    &&& final(self)@ == old(self)@
                    &&& step matches MarketStep::Failed(HoldingsError::Other(failure))
                    &&& failure.context@ == "failed to persist holding for "@ + written_user(orders@, start as int)
                    &&& failure.cause == cause
                },
                Ok(_) => match next_priced(orders@, prices@, start as int) {
                    None => step == MarketStep::Done && final(self)@ == old(self)@,
                    Some(i) => match utc_date(priced(orders@[i], prices@)->0.timestamp) {
                        Some(day) => {
                            &&& step matches MarketStep::Persist { user, next }
                            &&& user@ == orders@[i].user@
                            &&& next == i + 1
                            &&& derives_into(
                                final(self)@,
                                old(self)@,
                                orders@[i],
                                priced(orders@[i], prices@)->0.close,
                                day,
                            )
                        },
                        None => {
                            &&& step matches MarketStep::Failed(HoldingsError::Other(failure))
                            &&& failure.context@ == "no calendar day for the latest quote of "@
                                + orders@[i].symbol@
                            &&& failure.cause@ == Seq::<char>::empty()
                            &&& final(self)@ == old(self)@
                        },
                    },
                },
            },
    {
        proof {
            use_type_invariant(&self.inner);
            self.inner.rows_follow(Seq::empty());
        }
        match written {
            Err(cause) => {
                let user = if 0 < start && start <= orders.len() {
                    orders[start - 1].user.as_str()
                } else {
                    ""
                };
                proof {
                    reveal_strlit("");
                    assert(user@ =~= written_user(orders@, start as int));
                }
                return MarketStep::Failed(HoldingsService::write_failed(user, cause));
            },
            Ok(_) => {},
        }
        let mut i: usize = start;
        while i < orders.len()
            invariant
                written is Ok,
                self@ == old(self)@,
                self@.wf(),
                start <= i,
                forall|j: int|
                    start <= j < i && j < orders@.len() ==> priced(#[trigger] orders@[j], prices@).is_none(),
            decreases orders@.len() - i,
        {
            let order = &orders[i];
            match latest_quote(order, prices) {
                Some(last) => {
                    proof {
                        next_priced_is(orders@, prices@, start as int, i as int);
                    }
                    match date_text(last.timestamp) {
                        Some(day) => {
                            let record = HoldingRecord::derived_from(order, last.close, day);
                            let user = order.user.clone();
                            self.add_or_update(record);
                            assert(derived(record, *order, last.close, day@));
                            return MarketStep::Persist { user, next: i + 1 };
                        },
                        None => {
                            let failure = Failure::for_key(
                                "no calendar day for the latest quote of ",
                                order.symbol.as_str(),
                                String::new(),
                            );
                            return MarketStep::Failed(HoldingsError::Other(failure));
                        },
                    }
                },
                None => {},
            }
            i += 1;
        }
        proof {
            if next_priced(orders@, prices@, start as int).is_some() {
                let k = next_priced(orders@, prices@, start as int)->0;
                assert(is_next_priced(orders@, prices@, start as int, k));
                assert(priced(orders@[k], prices@).is_none());
            }
        }
        MarketStep::Done
    }
}

} // verus!
