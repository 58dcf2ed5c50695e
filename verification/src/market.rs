//! The market cache: per symbol, the quotes that the last complete refresh
//! cycle fetched, and the durable history of daily closes of each symbol.
//!
//! The cache is replaced as a whole, and only by the results of a cycle in
//! which every step succeeded (see [`crate::refresh`]).

use vstd::prelude::*;
use crate::binary64::Binary64;
use crate::day::UtcTime;
use crate::holdings::Order;
use crate::keyed::{texts, Keyed, Table};
use crate::portfolio::{
    held_once, in_good_order, one_per_bucket, record_keeps_good_order, recorded, recorded_is_held_once,
    recorded_keeps_held_once, Holding, HoldingsService,
};
use crate::refresh::{distinct_symbols_are_the_symbols, Fetched};
use crate::schema::{ColumnKind, Field};

verus! {

/// The seconds between the start of one refresh cycle and the next.
pub const UPDATE_INTERVAL_SECS: u64 = 120;

/// One quote of a symbol, as a quote source reports it.
#[derive(Clone, Copy, Debug, PartialEq, Eq, Structural)]
pub struct Quote {
    /// Seconds since the epoch.
    pub timestamp: i64,
    pub open: Binary64,
    pub high: Binary64,
    pub low: Binary64,
    pub volume: u64,
    pub close: Binary64,
    pub adjclose: Binary64,
}

/// The quotes of one symbol, oldest first.
#[derive(Debug, PartialEq)]
pub struct PriceInfo {
    pub history: Vec<Quote>,
}

/// The close of the last quote, if there is a quote.
pub open spec fn latest(history: Seq<Quote>) -> Option<Binary64> {
    if history.len() > 0 {
        Some(history.last().close)
    } else {
        None
    }
}

impl Clone for PriceInfo {
    fn clone(&self) -> (copy: Self)
        ensures
            copy.history@ == self.history@,
    {
        let history = self.history.clone();
        assert(history@ =~= self.history@);
        PriceInfo { history }
    }
}

impl PriceInfo {
    /// The current price of the symbol: the close of its latest quote.
    pub fn latest_price(&self) -> (price: Option<Binary64>)
        ensures
            price == latest(self.history@),
    {
        let n = self.history.len();
        if n > 0 {
            Some(self.history[n - 1].close)
        } else {
            None
        }
    }
}

/// The close of one symbol on one calendar day.
#[derive(Debug, PartialEq)]
pub struct DailyClose {
    /// The day in its written form.
    pub date: String,
    pub close: Binary64,
}

impl Clone for DailyClose {
    fn clone(&self) -> (copy: Self)
        ensures
            copy == *self,
    {
        DailyClose { date: self.date.clone(), close: self.close }
    }
}

/// Whether the history has an entry for `day`.
pub open spec fn has_day(history: Seq<DailyClose>, day: Seq<char>) -> bool {
    exists|i: int| 0 <= i < history.len() && (#[trigger] history[i]).date@ == day
}

/// No two entries of the history are for the same day.
pub open spec fn one_per_day(history: Seq<DailyClose>) -> bool {
    forall|i: int, j: int|
        0 <= i < j < history.len() ==> (#[trigger] history[i]).date@ != (#[trigger] history[j]).date@
}

/// Whether `after` is `before` with one more entry at its end, for `day`
/// with `close`.
pub open spec fn extended_by(
    after: Seq<DailyClose>,
    before: Seq<DailyClose>,
    day: Seq<char>,
    close: Binary64,
) -> bool {
    &&& after.len() == before.len() + 1
    &&& after.drop_last() == before
    &&& after.last().date@ == day
    &&& after.last().close == close
}

/// Extending a history by a day that it lacks keeps it at one entry per day.
pub proof fn extension_keeps_one_per_day(
    after: Seq<DailyClose>,
    before: Seq<DailyClose>,
    day: Seq<char>,
    close: Binary64,
)
    requires
        one_per_day(before),
        !has_day(before, day),
        extended_by(after, before, day, close),
    ensures
        one_per_day(after),
        has_day(after, day),
{
    assert forall|i: int, j: int| 0 <= i < j < after.len() implies (#[trigger] after[i]).date@
        != (#[trigger] after[j]).date@ by {
        assert(after[i] == before[i]);
        if j < before.len() {
            assert(after[j] == before[j]);
        }
    }
    assert(after[after.len() - 1].date@ == day);
}

/// Looks for an entry for `day`.
pub fn history_has_day(history: &Vec<DailyClose>, day: &String) -> (found: bool)
    ensures
        found == has_day(history@, day@),
{
    let mut i: usize = 0;
    while i < history.len()
        invariant
            i <= history@.len(),
            forall|k: int| 0 <= k < i ==> (#[trigger] history@[k]).date@ != day@,
        decreases history@.len() - i,
    {
        if history[i].date == *day {
            return true;
        }
        i += 1;
    }
    false
}

/// The columns of the `prices` table: `date` as text and `close` as a number,
/// neither nullable.
pub fn price_schema() -> (fields: Vec<Field>)
    ensures
        fields@.len() == 2,
        fields@[0].is("date"@, ColumnKind::Text),
        fields@[1].is("close"@, ColumnKind::Real),
{
    let mut fields: Vec<Field> = Vec::new();
    fields.push(Field::required("date", ColumnKind::Text));
    fields.push(Field::required("close", ColumnKind::Real));
    fields
}

/// A run of daily closes laid out by column, as the `prices` table stores
/// them.
#[derive(Debug, PartialEq)]
pub struct CloseBatch {
    pub date: Vec<String>,
    pub close: Vec<Binary64>,
}

/// The mathematical content of a [`CloseBatch`].
#[verifier::ext_equal]
pub struct CloseColumns {
    pub date: Seq<String>,
    pub close: Seq<Binary64>,
}

impl CloseColumns {
    /// The columns have the same length.
    pub open spec fn aligned(self) -> bool {
        self.date.len() == self.close.len()
    }

    /// The rows that the columns spell out, as many as `date` has entries.
    pub open spec fn rows(self) -> Seq<DailyClose> {
        Seq::new(self.date.len(), |i: int| DailyClose { date: self.date[i], close: self.close[i] })
    }

    /// The columns that lay out `closes`.
    pub open spec fn of(closes: Seq<DailyClose>) -> CloseColumns {
        CloseColumns {
            date: Seq::new(closes.len(), |i: int| closes[i].date),
            close: Seq::new(closes.len(), |i: int| closes[i].close),
        }
    }
}

impl View for CloseBatch {
    type V = CloseColumns;

    open spec fn view(&self) -> CloseColumns {
        CloseColumns { date: self.date@, close: self.close@ }
    }
}

/// Laying daily closes out by column and reading them back gives the closes.
pub proof fn close_rows_round_trip(closes: Seq<DailyClose>)
    ensures
        CloseColumns::of(closes).aligned(),
        CloseColumns::of(closes).rows() == closes,
{
    assert(CloseColumns::of(closes).rows() =~= closes);
}

/// Reading aligned columns as daily closes and laying those out again gives
/// the columns.
pub proof fn close_columns_round_trip(columns: CloseColumns)
    requires
        columns.aligned(),
    ensures
        CloseColumns::of(columns.rows()) == columns,
{
    let again = CloseColumns::of(columns.rows());
    assert(again.date =~= columns.date);
    assert(again.close =~= columns.close);
}

/// Lays `closes` out by column.
pub fn closes_to_record_batch(closes: &Vec<DailyClose>) -> (batch: CloseBatch)
    ensures
        batch@ == CloseColumns::of(closes@),
{
    let mut batch = CloseBatch { date: Vec::new(), close: Vec::new() };
    let mut i: usize = 0;
    while i < closes.len()
        invariant
            i <= closes@.len(),
            batch@ == CloseColumns::of(closes@.take(i as int)),
        decreases closes@.len() - i,
    {
        batch.date.push(closes[i].date.clone());
        batch.close.push(closes[i].close);
        proof {
            let next = CloseColumns::of(closes@.take(i + 1));
            assert(batch@.date =~= next.date);
            assert(batch@.close =~= next.close);
        }
        i += 1;
    }
    assert(closes@.take(i as int) =~= closes@);
    batch
}

/// Reads the rows of `batch`, or nothing where its columns differ in length.
pub fn batch_to_closes(batch: &CloseBatch) -> (closes: Option<Vec<DailyClose>>)
    ensures
        match closes {
            Some(rows) => batch@.aligned() && rows@ == batch@.rows(),
            None => !batch@.aligned(),
        },
{
    let n = batch.date.len();
    if batch.close.len() != n {
        return None;
    }
    let mut rows: Vec<DailyClose> = Vec::new();
    let mut i: usize = 0;
    while i < n
        invariant
            batch@.date.len() == n,
            batch@.close.len() == n,
            i <= n,
            rows@ == batch@.rows().take(i as int),
        decreases n - i,
    {
        rows.push(DailyClose { date: batch.date[i].clone(), close: batch.close[i] });
        assert(rows@ =~= batch@.rows().take(i + 1));
        i += 1;
    }
    assert(batch@.rows().take(n as int) =~= batch@.rows());
    Some(rows)
}

/// The histories of a run of price records.
pub open spec fn histories(infos: Seq<PriceInfo>) -> Seq<Seq<Quote>> {
    Seq::new(infos.len(), |i: int| infos[i].history@)
}

/// The current price of `symbol` in a market cache: the close of the latest
/// quote that the cache holds for it.
pub open spec fn current_price(snapshot: Table<Seq<Quote>>, symbol: Seq<char>) -> Option<Binary64> {
    match snapshot.get(symbol) {
        Some(history) => latest(history),
        None => None,
    }
}

/// The holdings after every order whose symbol has a current price in
/// `snapshot` was valued at that price at the instant `now`, order after
/// order.
pub open spec fn valued(
    ledger: Table<Seq<Holding>>,
    orders: Seq<Order>,
    snapshot: Table<Seq<Quote>>,
    now: UtcTime,
) -> Table<Seq<Holding>>
    decreases orders.len(),
{
    if orders.len() == 0 {
        ledger
    } else {
        let before = valued(ledger, orders.drop_last(), snapshot, now);
        let order = orders.last();
        match current_price(snapshot, order.symbol@) {
            Some(price) => before.put(order.user@, recorded(before.list(order.user@), order, price, now)),
            None => before,
        }
    }
}

/// Valuing orders leaves a ledger in good order in good order.
pub proof fn valued_keeps_good_order(
    ledger: Table<Seq<Holding>>,
    orders: Seq<Order>,
    snapshot: Table<Seq<Quote>>,
    now: UtcTime,
)
    requires
        in_good_order(ledger),
    ensures
        in_good_order(valued(ledger, orders, snapshot, now)),
    decreases orders.len(),
{
    if orders.len() > 0 {
        valued_keeps_good_order(ledger, orders.drop_last(), snapshot, now);
        let before = valued(ledger, orders.drop_last(), snapshot, now);
        let order = orders.last();
        match current_price(snapshot, order.symbol@) {
            Some(price) => record_keeps_good_order(before, order, price, now),
            None => {},
        }
    }
}

/// After the orders were valued, every order among them whose symbol has a
/// current price, and whose own price is a number, has exactly one holding
/// for the day in the list of its user, valued at that current price.
pub proof fn valued_orders_are_held_once(
    ledger: Table<Seq<Holding>>,
    orders: Seq<Order>,
    snapshot: Table<Seq<Quote>>,
    now: UtcTime,
    k: int,
)
    requires
        in_good_order(ledger),
        0 <= k < orders.len(),
        current_price(snapshot, orders[k].symbol@).is_some(),
        !orders[k].price.is_nan(),
    ensures
        held_once(
            valued(ledger, orders, snapshot, now).list(orders[k].user@),
            orders[k],
            now.day(),
            current_price(snapshot, orders[k].symbol@)->0,
        ),
    decreases orders.len(),
{
    let front = orders.drop_last();
    let before = valued(ledger, front, snapshot, now);
    let last = orders.last();
    let order = orders[k];
    let price = current_price(snapshot, order.symbol@)->0;
    valued_keeps_good_order(ledger, front, snapshot, now);
    if before.has(last.user@) {
        let at = before.keys.index_of(last.user@);
        assert(one_per_bucket(before.values[at]));
    }
    if k == orders.len() - 1 {
        before.put_then_get(order.user@, recorded(before.list(order.user@), order, price, now), order.user@);
        recorded_is_held_once(before.list(order.user@), order, price, now);
    } else {
        assert(front[k] == order);
        valued_orders_are_held_once(ledger, front, snapshot, now, k);
        match current_price(snapshot, last.symbol@) {
            Some(last_price) => {
                let list = before.list(last.user@);
                before.put_then_get(last.user@, recorded(list, last, last_price, now), order.user@);
                if last.user@ == order.user@ {
                    recorded_keeps_held_once(list, order, price, last, last_price, now);
                }
            },
            None => {},
        }
    }
}

/// The market cache in memory: per symbol, the quotes of the last committed
/// refresh cycle.
#[derive(Debug)]
pub struct MarketData {
    inner: Keyed<PriceInfo>,
}

impl View for MarketData {
    type V = Table<Seq<Quote>>;

    /// The tracked symbols, each with its quotes.
    closed spec fn view(&self) -> Table<Seq<Quote>> {
        Table { keys: self.inner@.keys, values: histories(self.inner@.values) }
    }
}

impl MarketData {
    /// A cache that tracks nothing.
    pub fn new() -> (market: MarketData)
        ensures
            market@ == Table::<Seq<Quote>>::empty(),
    {
        let market = MarketData { inner: Keyed::new() };
        assert(market@ =~= Table::<Seq<Quote>>::empty());
        market
    }

    /// Commits a cycle in which every symbol was refreshed: the cache becomes
    /// the results of the cycle, whatever it held, and every order of the
    /// cycle whose symbol now has a current price is valued at that price at
    /// the instant `now`.
    pub fn update(&mut self, done: Fetched, holdings: &mut HoldingsService, now: UtcTime)
        ensures
            final(self)@.wf(),
            final(self)@ == done@.snapshot(),
            in_good_order(old(holdings)@),
            in_good_order(final(holdings)@),
            final(holdings)@ == valued(old(holdings)@, done@.orders, done@.snapshot(), now),
    {
        proof {
            use_type_invariant(&*holdings);
        }
        let (orders, symbols, fetched) = done.into_parts();
        proof {
            distinct_symbols_are_the_symbols(orders@);
        }
        self.inner = Keyed::from_parts(symbols, fetched);
        assert(self@ =~= done@.snapshot());
        let ghost snapshot = self@;
        let mut i: usize = 0;
        while i < orders.len()
            invariant
                self@ == snapshot,
                i <= orders@.len(),
                in_good_order(holdings@),
                holdings@ == valued(old(holdings)@, orders@.take(i as int), snapshot, now),
            decreases orders@.len() - i,
        {
            let order = &orders[i];
            assert(orders@.take(i + 1).drop_last() =~= orders@.take(i as int));
            match self.inner.get(order.symbol.as_str()) {
                Some(info) => {
                    proof {
                        let at = self.inner@.keys.index_of(order.symbol@);
                        snapshot.index_is_unique(order.symbol@, at);
                    }
                    match info.latest_price() {
                        Some(price) => {
                            holdings.record(order, price, now);
                        },
                        None => {},
                    }
                },
                None => {},
            }
            i += 1;
        }
        assert(orders@.take(i as int) =~= orders@);
    }

    /// The current price of every tracked symbol that has one.
    pub fn prices(&self) -> (prices: Keyed<Binary64>)
        ensures
            self@.wf(),
            prices@.wf(),
            forall|symbol: Seq<char>| #[trigger] prices@.get(symbol) == current_price(self@, symbol),
    {
        let mut prices: Keyed<Binary64> = Keyed::new();
        let mut i: usize = 0;
        let n = self.inner.len();
        while i < n
            invariant
                self@.wf(),
                n == self@.keys.len(),
                i <= n,
                prices@.wf(),
                forall|symbol: Seq<char>| #[trigger]
                    prices@.has(symbol) <==> exists|k: int|
                        0 <= k < i && self@.keys[k] == symbol && (#[trigger] self@.values[k]).len() > 0,
                forall|k: int|
                    0 <= k < i && (#[trigger] self@.values[k]).len() > 0 ==> prices@.get(self@.keys[k]) == Some(
                        self@.values[k].last().close,
                    ),
            decreases n - i,
        {
            match self.inner.value(i).latest_price() {
                Some(price) => {
                    let ghost before = prices@;
                    let ghost key = self@.keys[i as int];
                    prices.insert(self.inner.key(i).clone(), price);
                    proof {
                        assert forall|symbol: Seq<char>| #[trigger]
                            prices@.has(symbol) <==> exists|k: int|
                                0 <= k < i + 1 && self@.keys[k] == symbol && (#[trigger] self@.values[k]).len()
                                    > 0 by {
                            before.put_then_get(key, price, symbol);
                            if symbol == key {
                                assert(self@.keys[i as int] == symbol && self@.values[i as int].len() > 0);
                            }
                        }
                        assert forall|k: int|
                            0 <= k < i + 1 && (#[trigger] self@.values[k]).len() > 0 implies prices@.get(
                            self@.keys[k],
                        ) == Some(self@.values[k].last().close) by {
                            before.put_then_get(key, price, self@.keys[k]);
                        }
                    }
                },
                None => {
                    proof {
                        assert forall|symbol: Seq<char>| #[trigger]
                            prices@.has(symbol) <==> exists|k: int|
                                0 <= k < i + 1 && self@.keys[k] == symbol && (#[trigger] self@.values[k]).len()
                                    > 0 by {
                        }
                    }
                },
            }
            i += 1;
        }
        proof {
            assert forall|symbol: Seq<char>| #[trigger] prices@.get(symbol) == current_price(self@, symbol) by {
                if self@.has(symbol) {
                    let at = self@.keys.index_of(symbol);
                    if prices@.has(symbol) {
                        let k = choose|k: int|
                            0 <= k < n && self@.keys[k] == symbol && (#[trigger] self@.values[k]).len() > 0;
                        assert(k == at);
                    }
                }
            }
        }
        prices
    }

    /// The tracked symbols, in the order of the cycle that was committed last.
    pub fn symbols(&self) -> (symbols: Vec<String>)
        ensures
            self@.wf(),
            texts(symbols@) == self@.keys,
    {
        let mut symbols: Vec<String> = Vec::new();
        let mut i: usize = 0;
        let n = self.inner.len();
        while i < n
            invariant
                self@.wf(),
                n == self@.keys.len(),
                i <= n,
                texts(symbols@) == self@.keys.take(i as int),
            decreases n - i,
        {
            let ghost before = texts(symbols@);
            let symbol = self.inner.key(i).clone();
            symbols.push(symbol);
            assert(texts(symbols@) =~= before.push(symbol@));
            assert(self@.keys.take(i + 1) =~= self@.keys.take(i as int).push(self@.keys[i as int]));
            i += 1;
        }
        assert(self@.keys.take(n as int) =~= self@.keys);
        symbols
    }
}

} // verus!
