//! The refresh cycle that fills the market cache.
//!
//! A cycle fetches quotes for every distinct symbol among the orders, one
//! symbol after the other, and extends the durable history of daily closes
//! of each symbol by the day of its latest quote. Fetching, reading and
//! writing are done by whoever drives the cycle; the cycle decides what is
//! asked next and what becomes of each answer. The first failure ends the
//! cycle, and only a cycle in which every step succeeded has results that
//! can be committed to the cache.

use vstd::prelude::*;
use crate::binary64::Binary64;
use crate::day::{date_text, utc_date};
use crate::error::Failure;
use crate::holdings::Order;
use crate::keyed::{texts, Table};
use crate::market::{extended_by, has_day, histories, history_has_day, DailyClose, PriceInfo, Quote};

verus! {

/// The symbols that the orders name, each once, in the order in which the
/// orders first name them.
pub open spec fn distinct_symbols(orders: Seq<Order>) -> Seq<Seq<char>>
    decreases orders.len(),
{
    if orders.len() == 0 {
        Seq::empty()
    } else {
        let before = distinct_symbols(orders.drop_last());
        let symbol = orders.last().symbol@;
        if before.contains(symbol) {
            before
        } else {
            before.push(symbol)
        }
    }
}

/// The distinct symbols hold no symbol twice, and hold exactly the symbols of
/// the orders.
pub proof fn distinct_symbols_are_the_symbols(orders: Seq<Order>)
    ensures
        distinct_symbols(orders).no_duplicates(),
        forall|symbol: Seq<char>| #[trigger]
            distinct_symbols(orders).contains(symbol) <==> exists|i: int|
                0 <= i < orders.len() && (#[trigger] orders[i]).symbol@ == symbol,
    decreases orders.len(),
{
    if orders.len() > 0 {
        let front = orders.drop_last();
        let before = distinct_symbols(front);
        let last = orders.last().symbol@;
        distinct_symbols_are_the_symbols(front);
        assert forall|symbol: Seq<char>| #[trigger]
            distinct_symbols(orders).contains(symbol) <==> exists|i: int|
                0 <= i < orders.len() && (#[trigger] orders[i]).symbol@ == symbol by {
            if distinct_symbols(orders).contains(symbol) {
                if before.contains(symbol) {
                    let i = choose|i: int| 0 <= i < front.len() && (#[trigger] front[i]).symbol@ == symbol;
                    assert(orders[i].symbol@ == symbol);
                } else {
                    assert(symbol == last);
                    assert(orders[orders.len() - 1].symbol@ == symbol);
                }
            }
            if exists|i: int| 0 <= i < orders.len() && (#[trigger] orders[i]).symbol@ == symbol {
                let i = choose|i: int| 0 <= i < orders.len() && (#[trigger] orders[i]).symbol@ == symbol;
                if i < front.len() {
                    assert(front[i].symbol@ == symbol);
                    assert(before.contains(symbol));
                    if !before.contains(last) {
                        let k = before.index_of(symbol);
                        assert(before.push(last)[k] == symbol);
                    }
                } else {
                    if !before.contains(last) {
                        assert(before.push(last)[before.len() as int] == symbol);
                    }
                }
            }
        }
        if !before.contains(last) {
            assert forall|i: int, j: int|
                0 <= i < before.len() + 1 && 0 <= j < before.len() + 1 && i != j implies before.push(last)[i]
                != before.push(last)[j] by {
                if i < before.len() && j < before.len() {
                    assert(before[i] != before[j]);
                } else if i < before.len() {
                    assert(before.contains(before[i]));
                } else {
                    assert(before.contains(before[j]));
                }
            }
        }
    }
}

/// Whether `names` holds the text `wanted`.
fn holds_text(names: &Vec<String>, wanted: &String) -> (found: bool)
    ensures
        found == texts(names@).contains(wanted@),
{
    let mut i: usize = 0;
    while i < names.len()
        invariant
            i <= names@.len(),
            forall|k: int| 0 <= k < i ==> texts(names@)[k] != wanted@,
        decreases names@.len() - i,
    {
        if names[i] == *wanted {
            assert(texts(names@)[i as int] == wanted@);
            return true;
        }
        i += 1;
    }
    false
}

/// Computes [`distinct_symbols`].
pub fn symbols_of(orders: &Vec<Order>) -> (symbols: Vec<String>)
    ensures
        texts(symbols@) == distinct_symbols(orders@),
{
    let mut symbols: Vec<String> = Vec::new();
    let mut i: usize = 0;
    assert(texts(symbols@) =~= distinct_symbols(orders@.take(0)));
    while i < orders.len()
        invariant
            i <= orders@.len(),
            texts(symbols@) == distinct_symbols(orders@.take(i as int)),
        decreases orders@.len() - i,
    {
        let ghost before = texts(symbols@);
        assert(orders@.take(i + 1).drop_last() =~= orders@.take(i as int));
        if !holds_text(&symbols, &orders[i].symbol) {
            symbols.push(orders[i].symbol.clone());
            assert(texts(symbols@) =~= before.push(orders@[i as int].symbol@));
        }
        i += 1;
    }
    assert(orders@.take(i as int) =~= orders@);
    symbols
}

/// What a refresh cycle waits for.
#[derive(Clone, Copy, Debug, PartialEq, Eq, Structural)]
pub enum Phase {
    /// The quotes of the symbol in progress.
    Quotes,
    /// The durable history of daily closes of the symbol in progress.
    History,
    /// The outcome of writing that history.
    Write,
}

/// What a cycle asks of its driver.
#[derive(Debug, PartialEq)]
pub enum Request {
    /// Fetch the quotes of this symbol from the quote source.
    FetchQuotes(String),
    /// Read the durable history of daily closes of this symbol.
    ReadHistory(String),
    /// Replace the durable history of this symbol by this one.
    WriteHistory(String, Vec<DailyClose>),
}

/// What the driver answers.
#[derive(Debug, PartialEq)]
pub enum Reply {
    /// The quotes that the source returned, oldest first.
    Quotes(Vec<Quote>),
    /// The history that the durable table holds; empty where there is none.
    History(Vec<DailyClose>),
    /// The history was written.
    Written,
    /// What was asked failed, for this reason.
    Failed(String),
}

/// A cycle under way: some symbols are done, one is in progress.
#[derive(Debug)]
pub struct Refresh {
    orders: Vec<Order>,
    symbols: Vec<String>,
    fetched: Vec<PriceInfo>,
    quotes: Vec<Quote>,
    day: String,
    phase: Phase,
}

/// The mathematical content of a [`Refresh`].
#[verifier::ext_equal]
pub struct Cycle {
    /// The orders that the cycle started from.
    pub orders: Seq<Order>,
    /// Their distinct symbols.
    pub symbols: Seq<Seq<char>>,
    /// The quotes of the symbols that are done, in the order of the symbols.
    pub fetched: Seq<Seq<Quote>>,
    /// The quotes of the symbol in progress, once they have arrived.
    pub quotes: Seq<Quote>,
    /// The calendar day of the latest of those quotes.
    pub day: Seq<char>,
    pub phase: Phase,
}

impl Cycle {
    /// The symbol in progress.
    pub open spec fn symbol(self) -> Seq<char> {
        self.symbols[self.fetched.len() as int]
    }
}

/// A cycle in which every symbol is done.
#[derive(Debug)]
pub struct Fetched {
    orders: Vec<Order>,
    symbols: Vec<String>,
    fetched: Vec<PriceInfo>,
}

/// The mathematical content of a [`Fetched`].
#[verifier::ext_equal]
pub struct Results {
    pub orders: Seq<Order>,
    pub symbols: Seq<Seq<char>>,
    pub fetched: Seq<Seq<Quote>>,
}

impl Results {
    /// The market cache that the results amount to.
    pub open spec fn snapshot(self) -> Table<Seq<Quote>> {
        Table { keys: self.symbols, values: self.fetched }
    }
}

impl View for Refresh {
    type V = Cycle;

    closed spec fn view(&self) -> Cycle {
        Cycle {
            orders: self.orders@,
            symbols: texts(self.symbols@),
            fetched: histories(self.fetched@),
            quotes: self.quotes@,
            day: self.day@,
            phase: self.phase,
        }
    }
}

impl View for Fetched {
    type V = Results;

    closed spec fn view(&self) -> Results {
        Results {
            orders: self.orders@,
            symbols: texts(self.symbols@),
            fetched: histories(self.fetched@),
        }
    }
}

impl Refresh {
    /// What holds of every cycle under way.
    #[verifier::type_invariant]
    pub open spec fn sound(self) -> bool {
        sound_cycle(self@)
    }
}

impl Fetched {
    /// What holds of the results of every cycle.
    #[verifier::type_invariant]
    pub open spec fn sound(self) -> bool {
        sound_results(self@)
    }
}

/// Where a cycle stands after a step.
#[derive(Debug)]
pub enum Progress {
    /// The cycle goes on and asks for this.
    Ask(Refresh, Request),
    /// Every symbol is done: the results can be committed.
    Ready(Fetched),
    /// The cycle is over and nothing of it is to be committed.
    Aborted(Failure),
}

/// A cycle is sound when it refreshes the distinct symbols of its orders, one
/// of them is in progress, and the quotes it keeps for that symbol, if any,
/// end with a quote that falls on the day it keeps. Every [`Refresh`] is
/// sound.
pub open spec fn sound_cycle(cycle: Cycle) -> bool {
    &&& cycle.symbols == distinct_symbols(cycle.orders)
    &&& cycle.fetched.len() < cycle.symbols.len()
    &&& match cycle.phase {
        Phase::Quotes => cycle.quotes.len() == 0 && cycle.day.len() == 0,
        _ => cycle.quotes.len() > 0 && utc_date(cycle.quotes.last().timestamp) == Some(cycle.day),
    }
}

/// Results are sound when they hold quotes for each distinct symbol of their
/// orders. Every [`Fetched`] is sound.
pub open spec fn sound_results(results: Results) -> bool {
    &&& results.symbols == distinct_symbols(results.orders)
    &&& results.fetched.len() == results.symbols.len()
}

/// Whether `progress` is what follows when the symbol in progress of `cycle`
/// is done with `quotes`: the results, if that was the last symbol, or else
/// the cycle with the next symbol in progress, asking for its quotes.
pub open spec fn moves_on(progress: Progress, cycle: Cycle, quotes: Seq<Quote>) -> bool {
    let fetched = cycle.fetched.push(quotes);
    if fetched.len() == cycle.symbols.len() {
        &&& progress matches Progress::Ready(done)
        &&& done@ == (Results { orders: cycle.orders, symbols: cycle.symbols, fetched })
    } else {
        &&& progress matches Progress::Ask(next, Request::FetchQuotes(symbol))
        &&& next@ == (Cycle { fetched, quotes: Seq::empty(), day: Seq::empty(), phase: Phase::Quotes, ..cycle })
        &&& symbol@ == cycle.symbols[fetched.len() as int]
    }
}

/// Whether `progress` is the end of the cycle with a failure of this context
/// and cause.
pub open spec fn aborts(progress: Progress, context: Seq<char>, cause: Seq<char>) -> bool {
    &&& progress matches Progress::Aborted(failure)
    &&& failure.context@ == context
    &&& failure.cause@ == cause
}

/// Whether `progress` is the cycle `next` asking to read the history of
/// `symbol`.
pub open spec fn asks_to_read(progress: Progress, next: Cycle, symbol: Seq<char>) -> bool {
    &&& progress matches Progress::Ask(refresh, Request::ReadHistory(name))
    &&& refresh@ == next
    &&& name@ == symbol
}

/// Whether `progress` is the cycle `next` asking to write, for `symbol`, the
/// history `before` extended by `day` with `close`.
pub open spec fn asks_to_write(
    progress: Progress,
    next: Cycle,
    symbol: Seq<char>,
    before: Seq<DailyClose>,
    day: Seq<char>,
    close: Binary64,
) -> bool {
    &&& progress matches Progress::Ask(refresh, Request::WriteHistory(name, history))
    &&& refresh@ == next
    &&& name@ == symbol
    &&& extended_by(history@, before, day, close)
}

/// What a cycle becomes on a reply.
///
/// - Waiting for quotes. No quotes: the symbol is done, with none. Quotes
///   whose latest has a calendar day: the cycle asks for the symbol's
///   history. Quotes whose latest has none: the cycle aborts.
/// - Waiting for the history. It has an entry for the day of the latest
///   quote: the symbol is done. It has none: the cycle asks to write the
///   history with one more entry, that day with the close of the latest
///   quote.
/// - Waiting for the write: the symbol is done.
/// - A failure, whatever the cycle waits for, aborts the cycle, and so does a
///   reply that was not asked for.
pub open spec fn follows(progress: Progress, cycle: Cycle, reply: Reply) -> bool {
    match (cycle.phase, reply) {
        (Phase::Quotes, Reply::Quotes(quotes)) => {
            if quotes@.len() == 0 {
                moves_on(progress, cycle, quotes@)
            } else {
                match utc_date(quotes@.last().timestamp) {
                    Some(day) => asks_to_read(
                        progress,
                        Cycle { quotes: quotes@, day, phase: Phase::History, ..cycle },
                        cycle.symbol(),
                    ),
                    None => aborts(
                        progress,
                        "no calendar day for the latest quote of "@ + cycle.symbol(),
                        Seq::empty(),
                    ),
                }
            }
        },
        (Phase::Quotes, Reply::Failed(cause)) => aborts(
            progress,
            "failed to fetch quotes for "@ + cycle.symbol(),
            cause@,
        ),
        (Phase::History, Reply::History(history)) => {
            if has_day(history@, cycle.day) {
                moves_on(progress, cycle, cycle.quotes)
            } else {
                asks_to_write(
                    progress,
                    Cycle { phase: Phase::Write, ..cycle },
                    cycle.symbol(),
                    history@,
                    cycle.day,
                    cycle.quotes.last().close,
                )
            }
        },
        (Phase::History, Reply::Failed(cause)) => aborts(
            progress,
            "failed to read prices for "@ + cycle.symbol(),
            cause@,
        ),
        (Phase::Write, Reply::Written) => moves_on(progress, cycle, cycle.quotes),
        (Phase::Write, Reply::Failed(cause)) => aborts(
            progress,
            "failed to write prices for "@ + cycle.symbol(),
            cause@,
        ),
        _ => aborts(progress, "unexpected reply for "@ + cycle.symbol(), Seq::empty()),
    }
}

impl Fetched {
    /// The orders that the cycle started from.
    pub fn orders(&self) -> (orders: &Vec<Order>)
        ensures
            sound_results(self@),
            orders@ == self@.orders,
    {
        proof {
            use_type_invariant(self);
        }
        &self.orders
    }

    /// The orders, the symbols and the quotes of each symbol.
    pub(crate) fn into_parts(self) -> (parts: (Vec<Order>, Vec<String>, Vec<PriceInfo>))
        ensures
            sound_results(self@),
            parts.0@ == self@.orders,
            texts(parts.1@) == self@.symbols,
            histories(parts.2@) == self@.fetched,
    {
        proof {
            use_type_invariant(&self);
        }
        (self.orders, self.symbols, self.fetched)
    }
}

impl Refresh {
    /// The symbol in progress.
    pub fn symbol(&self) -> (symbol: &String)
        ensures
            sound_cycle(self@),
            symbol@ == self@.symbol(),
    {
        proof {
            use_type_invariant(self);
        }
        &self.symbols[self.fetched.len()]
    }

    /// What the cycle waits for.
    pub fn phase(&self) -> (phase: Phase)
        ensures
            phase == self@.phase,
    {
        self.phase
    }

    /// Starts a cycle for `orders`: with no order there is nothing to fetch
    /// and the empty results are ready; otherwise the cycle asks for the
    /// quotes of the first symbol.
    pub fn start(orders: Vec<Order>) -> (progress: Progress)
        ensures
            ({
                let symbols = distinct_symbols(orders@);
                if symbols.len() == 0 {
                    &&& progress matches Progress::Ready(done)
                    &&& done@ == (Results { orders: orders@, symbols, fetched: Seq::empty() })
                } else {
                    &&& progress matches Progress::Ask(refresh, Request::FetchQuotes(symbol))
                    &&& refresh@ == (Cycle {
                        orders: orders@,
                        symbols,
                        fetched: Seq::empty(),
                        quotes: Seq::empty(),
                        day: Seq::empty(),
                        phase: Phase::Quotes,
                    })
                    &&& symbol@ == symbols[0]
                }
            }),
    {
        let symbols = symbols_of(&orders);
        if symbols.len() == 0 {
            let done = Fetched { orders, symbols, fetched: Vec::new() };
            assert(done@.fetched =~= Seq::<Seq<Quote>>::empty());
            Progress::Ready(done)
        } else {
            let first = symbols[0].clone();
            let refresh = Refresh {
                orders,
                symbols,
                fetched: Vec::new(),
                quotes: Vec::new(),
                day: String::new(),
                phase: Phase::Quotes,
            };
            assert(refresh@.fetched =~= Seq::<Seq<Quote>>::empty());
            Progress::Ask(refresh, Request::FetchQuotes(first))
        }
    }

    /// The symbol in progress is done, with the quotes that the cycle keeps
    /// for it.
    fn move_on(self) -> (progress: Progress)
        ensures
            moves_on(progress, self@, self@.quotes),
    {
        proof {
            use_type_invariant(&self);
        }
        let ghost before = self@;
        let Refresh { orders, symbols, mut fetched, quotes, day: _, phase: _ } = self;
        fetched.push(PriceInfo { history: quotes });
        assert(histories(fetched@) =~= before.fetched.push(quotes@));
        if fetched.len() == symbols.len() {
            Progress::Ready(Fetched { orders, symbols, fetched })
        } else {
            let next = symbols[fetched.len()].clone();
            let refresh = Refresh {
                orders,
                symbols,
                fetched,
                quotes: Vec::new(),
                day: String::new(),
                phase: Phase::Quotes,
            };
            Progress::Ask(refresh, Request::FetchQuotes(next))
        }
    }

    /// The cycle is over, for this reason.
    fn abort(&self, context: &str, cause: String) -> (progress: Progress)
        ensures
            aborts(progress, context@ + self@.symbol(), cause@),
    {
        proof {
            use_type_invariant(self);
        }
        Progress::Aborted(Failure::for_key(context, self.symbols[self.fetched.len()].as_str(), cause))
    }

    /// Takes the reply to what the cycle asked last, and decides what
    /// follows: see [`follows`].
    pub fn advance(self, reply: Reply) -> (progress: Progress)
        ensures
            sound_cycle(self@),
            follows(progress, self@, reply),
    {
        proof {
            use_type_invariant(&self);
        }
        match self.phase {
            Phase::Quotes => match reply {
                Reply::Quotes(quotes) => {
                    let n = quotes.len();
                    if n == 0 {
                        assert(quotes@ =~= self@.quotes);
                        self.move_on()
                    } else {
                        match date_text(quotes[n - 1].timestamp) {
                            Some(day) => {
                                let symbol = self.symbols[self.fetched.len()].clone();
                                let Refresh { orders, symbols, fetched, quotes: _, day: _, phase: _ } = self;
                                let refresh =
                                    Refresh { orders, symbols, fetched, quotes, day, phase: Phase::History };
                                Progress::Ask(refresh, Request::ReadHistory(symbol))
                            },
                            None => self.abort("no calendar day for the latest quote of ", String::new()),
                        }
                    }
                },
                Reply::Failed(cause) => self.abort("failed to fetch quotes for ", cause),
                _ => self.abort("unexpected reply for ", String::new()),
            },
            Phase::History => match reply {
                Reply::History(history) => {
                    if history_has_day(&history, &self.day) {
                        self.move_on()
                    } else {
                        let symbol = self.symbols[self.fetched.len()].clone();
                        let close = self.quotes[self.quotes.len() - 1].close;
                        let mut longer = history;
                        longer.push(DailyClose { date: self.day.clone(), close });
                        assert(longer@.drop_last() =~= history@);
                        let Refresh { orders, symbols, fetched, quotes, day, phase: _ } = self;
                        let refresh = Refresh { orders, symbols, fetched, quotes, day, phase: Phase::Write };
                        Progress::Ask(refresh, Request::WriteHistory(symbol, longer))
                    }
                },
                Reply::Failed(cause) => self.abort("failed to read prices for ", cause),
                _ => self.abort("unexpected reply for ", String::new()),
            },
            Phase::Write => match reply {
                Reply::Written => self.move_on(),
                Reply::Failed(cause) => self.abort("failed to write prices for ", cause),
                _ => self.abort("unexpected reply for ", String::new()),
            },
        }
    }
}

} // verus!
