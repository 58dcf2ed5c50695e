use std::collections::{HashMap, VecDeque};

use ledgers::binary64::Binary64;
use ledgers::day::UtcTime;
use ledgers::error::Failure;
use ledgers::holdings::{HoldingStore, Order};
use ledgers::market::{
    batch_to_closes, closes_to_record_batch, history_has_day, price_schema, CloseBatch, DailyClose, MarketData,
    PriceInfo, Quote, UPDATE_INTERVAL_SECS,
};
use ledgers::portfolio::HoldingsService;
use ledgers::refresh::{symbols_of, Phase, Progress, Refresh, Reply, Request};
use ledgers::schema::ColumnKind;

fn num(x: f64) -> Binary64 {
    Binary64::from_bits(x.to_bits())
}

fn order(user: &str, symbol: &str, amount: i64, price: f64) -> Order {
    Order { user: user.into(), symbol: symbol.into(), amount, price: num(price) }
}

fn sample_quote(price: f64) -> Quote {
    quote_at(0, price)
}

fn quote_at(timestamp: i64, close: f64) -> Quote {
    Quote {
        timestamp,
        open: num(close),
        high: num(close),
        low: num(close),
        volume: 0,
        close: num(close),
        adjclose: num(close),
    }
}

fn close(date: &str, close: f64) -> DailyClose {
    DailyClose { date: date.into(), close: num(close) }
}

/// Everything outside the ledgers: a quote source and the durable tables of
/// daily closes, both in memory, with a record of what was asked of them.
struct World {
    quotes: HashMap<String, Vec<Quote>>,
    queue: VecDeque<Vec<Quote>>,
    failing_symbol: Option<String>,
    fail_reads: bool,
    fail_writes: bool,
    histories: HashMap<String, Vec<DailyClose>>,
    fetched: Vec<String>,
    writes: usize,
}

impl World {
    fn new() -> World {
        World {
            quotes: HashMap::new(),
            queue: VecDeque::new(),
            failing_symbol: None,
            fail_reads: false,
            fail_writes: false,
            histories: HashMap::new(),
            fetched: Vec::new(),
            writes: 0,
        }
    }

    fn with_quotes(entries: Vec<(&str, Vec<Quote>)>) -> World {
        let mut world = World::new();
        for (symbol, quotes) in entries {
            world.quotes.insert(symbol.to_string(), quotes);
        }
        world
    }

    fn answer(&mut self, request: Request) -> Reply {
        match request {
            Request::FetchQuotes(symbol) => {
                self.fetched.push(symbol.clone());
                if self.failing_symbol.as_deref() == Some(symbol.as_str()) {
                    return Reply::Failed("connection refused".to_string());
                }
                if let Some(quotes) = self.queue.pop_front() {
                    return Reply::Quotes(quotes);
                }
                Reply::Quotes(self.quotes.get(&symbol).cloned().unwrap_or_default())
            }
            Request::ReadHistory(symbol) => {
                if self.fail_reads {
                    return Reply::Failed("corrupt file".to_string());
                }
                Reply::History(self.histories.get(&symbol).cloned().unwrap_or_default())
            }
            Request::WriteHistory(symbol, history) => {
                if self.fail_writes {
                    return Reply::Failed("disk full".to_string());
                }
                self.writes += 1;
                self.histories.insert(symbol, history);
                Reply::Written
            }
        }
    }
}

/// One refresh cycle, as the scheduler drives it.
fn update(
    market: &mut MarketData,
    world: &mut World,
    store: &HoldingStore,
    holdings: &mut HoldingsService,
    now: UtcTime,
) -> Result<(), Failure> {
    let mut progress = Refresh::start(store.all_orders());
    loop {
        match progress {
            Progress::Ask(refresh, request) => {
                let reply = world.answer(request);
                progress = refresh.advance(reply);
            }
            Progress::Ready(done) => {
                market.update(done, holdings, now);
                return Ok(());
            }
            Progress::Aborted(failure) => return Err(failure),
        }
    }
}

fn noon() -> UtcTime {
    UtcTime::at(1_704_110_400, 0)
}

#[test]
fn test_update_prices() {
    let mut store = HoldingStore::new();
    store.add_order(order("alice", "AAPL", 1, 1.0));
    store.add_order(order("bob", "MSFT", 1, 2.0));
    // duplicate symbol
    store.add_order(order("alice", "AAPL", 1, 1.0));

    let mut world = World::with_quotes(vec![("AAPL", vec![sample_quote(10.0)]), ("MSFT", vec![sample_quote(20.0)])]);
    let mut market = MarketData::new();
    let mut holdings = HoldingsService::new();
    update(&mut market, &mut world, &store, &mut holdings, noon()).unwrap();

    let prices = market.prices();
    assert_eq!(prices.get("AAPL"), Some(&num(10.0)));
    assert_eq!(prices.get("MSFT"), Some(&num(20.0)));

    let mut symbols = market.symbols();
    symbols.sort();
    assert_eq!(symbols, vec!["AAPL", "MSFT"]);
    // each symbol was fetched once
    world.fetched.sort();
    assert_eq!(world.fetched, vec!["AAPL", "MSFT"]);
}

#[test]
fn test_persist_daily_closes() {
    let mut store = HoldingStore::new();
    store.add_order(order("alice", "AAPL", 1, 1.0));

    let day1 = vec![quote_at(0, 10.0)];
    let day2 = vec![quote_at(86_400, 12.0)];
    let mut world = World::new();
    world.queue = VecDeque::from(vec![day1, day2]);
    let mut market = MarketData::new();
    let mut holdings = HoldingsService::new();

    update(&mut market, &mut world, &store, &mut holdings, noon()).unwrap();
    update(&mut market, &mut world, &store, &mut holdings, noon()).unwrap();

    let history = world.histories.get("AAPL").unwrap();
    assert_eq!(history.len(), 2);
    assert_eq!(history[0].close, num(10.0));
    assert_eq!(history[1].close, num(12.0));
    assert_eq!(history, &vec![close("1970-01-01", 10.0), close("1970-01-02", 12.0)]);
}

#[test]
fn test_market_prices_endpoint() {
    let mut store = HoldingStore::new();
    store.add_order(order("alice", "AAPL", 1, 1.0));
    let mut world = World::with_quotes(vec![("AAPL", vec![quote_at(0, 10.0)])]);
    let mut market = MarketData::new();
    let mut holdings = HoldingsService::new();
    update(&mut market, &mut world, &store, &mut holdings, noon()).unwrap();

    let prices = market.prices();
    assert_eq!(prices.get("AAPL"), Some(&num(10.0)));
    assert_eq!(prices.len(), 1);
}

#[test]
fn test_market_symbols_endpoint() {
    let mut store = HoldingStore::new();
    store.add_order(order("alice", "AAPL", 1, 1.0));
    let mut world = World::with_quotes(vec![("AAPL", vec![quote_at(0, 10.0)])]);
    let mut market = MarketData::new();
    let mut holdings = HoldingsService::new();
    update(&mut market, &mut world, &store, &mut holdings, noon()).unwrap();

    assert_eq!(market.symbols(), vec!["AAPL"]);
}

#[test]
fn test_holdings_endpoint() {
    let mut store = HoldingStore::new();
    store.add_order(order("alice", "AAPL", 1, 1.0));
    let mut world = World::with_quotes(vec![("AAPL", vec![quote_at(0, 10.0)])]);
    let mut market = MarketData::new();
    let mut holdings = HoldingsService::new();
    update(&mut market, &mut world, &store, &mut holdings, noon()).unwrap();

    let for_alice = holdings.for_user("alice");
    assert_eq!(for_alice.len(), 1);
    assert_eq!(for_alice[0].current_price, num(10.0));
    assert_eq!(holdings.all().len(), 1);
}

#[test]
fn three_cycles_over_two_days() {
    let mut store = HoldingStore::new();
    store.add_order(order("alice", "AAPL", 5, 10.0));
    let mut market = MarketData::new();
    let mut holdings = HoldingsService::new();
    let day = noon();

    let mut world = World::with_quotes(vec![("AAPL", vec![quote_at(day.secs, 10.0)])]);
    update(&mut market, &mut world, &store, &mut holdings, day).unwrap();
    assert_eq!(market.prices().get("AAPL"), Some(&num(10.0)));
    let all = holdings.all();
    assert_eq!(all.len(), 1);
    assert_eq!(all[0].current_price, num(10.0));

    world.quotes.insert("AAPL".into(), vec![quote_at(day.secs + 60, 13.0)]);
    update(&mut market, &mut world, &store, &mut holdings, UtcTime::at(day.secs + 120, 0)).unwrap();
    let all = holdings.all();
    assert_eq!(all.len(), 1);
    assert_eq!(all[0].current_price, num(13.0));
    assert_eq!(all[0].original_price, num(10.0));
    assert_eq!(all[0].amount, 5);

    world.quotes.insert("AAPL".into(), vec![quote_at(day.secs + 86_400, 14.0)]);
    update(&mut market, &mut world, &store, &mut holdings, UtcTime::at(day.secs + 86_400, 0)).unwrap();
    let all = holdings.all();
    assert_eq!(all.len(), 2);
    assert_eq!(all[0].current_price, num(13.0));
    assert_eq!(all[1].current_price, num(14.0));
    assert_eq!(market.prices().get("AAPL"), Some(&num(14.0)));
    // the day of the first two cycles was written once
    assert_eq!(world.histories.get("AAPL").unwrap(), &vec![close("2024-01-01", 10.0), close("2024-01-02", 14.0)]);
    assert_eq!(world.writes, 2);
}

#[test]
fn one_failed_fetch_aborts_the_whole_cycle() {
    let mut store = HoldingStore::new();
    store.add_order(order("alice", "AAPL", 1, 1.0));
    store.add_order(order("alice", "MSFT", 1, 1.0));
    store.add_order(order("alice", "GOOG", 1, 1.0));
    let mut market = MarketData::new();
    let mut holdings = HoldingsService::new();

    let mut world = World::with_quotes(vec![
        ("AAPL", vec![sample_quote(10.0)]),
        ("MSFT", vec![sample_quote(20.0)]),
        ("GOOG", vec![sample_quote(30.0)]),
    ]);
    update(&mut market, &mut world, &store, &mut holdings, noon()).unwrap();
    assert_eq!(market.prices().get("AAPL"), Some(&num(10.0)));

    world.quotes.insert("AAPL".into(), vec![sample_quote(11.0)]);
    world.failing_symbol = Some("MSFT".to_string());
    world.fetched.clear();
    let failure = update(&mut market, &mut world, &store, &mut holdings, noon()).unwrap_err();
    assert_eq!(
        failure,
        Failure { context: "failed to fetch quotes for MSFT".to_string(), cause: "connection refused".to_string() }
    );
    // no symbol after the failing one was fetched, and the cache is as it was
    assert_eq!(world.fetched, vec!["AAPL", "MSFT"]);
    let prices = market.prices();
    assert_eq!(prices.get("AAPL"), Some(&num(10.0)));
    assert_eq!(prices.get("MSFT"), Some(&num(20.0)));
    assert_eq!(prices.get("GOOG"), Some(&num(30.0)));
    assert_eq!(holdings.all()[0].current_price, num(10.0));
}

#[test]
fn a_failed_read_or_write_aborts_the_cycle() {
    let mut store = HoldingStore::new();
    store.add_order(order("alice", "AAPL", 1, 1.0));
    let mut market = MarketData::new();
    let mut holdings = HoldingsService::new();

    let mut world = World::with_quotes(vec![("AAPL", vec![sample_quote(10.0)])]);
    world.fail_reads = true;
    assert_eq!(
        update(&mut market, &mut world, &store, &mut holdings, noon()),
        Err(Failure { context: "failed to read prices for AAPL".to_string(), cause: "corrupt file".to_string() })
    );
    world.fail_reads = false;
    world.fail_writes = true;
    assert_eq!(
        update(&mut market, &mut world, &store, &mut holdings, noon()),
        Err(Failure { context: "failed to write prices for AAPL".to_string(), cause: "disk full".to_string() })
    );
    assert_eq!(market.symbols(), Vec::<String>::new());
    assert_eq!(market.prices().len(), 0);
    assert_eq!(holdings.all().len(), 0);
}

#[test]
fn a_quote_without_a_day_aborts_the_cycle() {
    let mut store = HoldingStore::new();
    store.add_order(order("alice", "AAPL", 1, 1.0));
    let mut market = MarketData::new();
    let mut holdings = HoldingsService::new();
    let mut world = World::with_quotes(vec![("AAPL", vec![quote_at(0, 1.0), quote_at(i64::MIN, 10.0)])]);
    assert_eq!(
        update(&mut market, &mut world, &store, &mut holdings, noon()),
        Err(Failure { context: "no calendar day for the latest quote of AAPL".to_string(), cause: String::new() })
    );
    assert_eq!(market.symbols(), Vec::<String>::new());
}

#[test]
fn a_reply_that_was_not_asked_for_aborts_the_cycle() {
    let orders = vec![order("alice", "AAPL", 1, 1.0)];
    let refresh = match Refresh::start(orders.clone()) {
        Progress::Ask(refresh, Request::FetchQuotes(symbol)) => {
            assert_eq!(symbol, "AAPL");
            refresh
        }
        other => panic!("unexpected progress {other:?}"),
    };
    assert_eq!(refresh.phase(), Phase::Quotes);
    assert_eq!(refresh.symbol(), "AAPL");
    match refresh.advance(Reply::Written) {
        Progress::Aborted(failure) => {
            assert_eq!(failure, Failure { context: "unexpected reply for AAPL".to_string(), cause: String::new() })
        }
        other => panic!("unexpected progress {other:?}"),
    }

    let refresh = match Refresh::start(orders) {
        Progress::Ask(refresh, _) => refresh,
        other => panic!("unexpected progress {other:?}"),
    };
    let refresh = match refresh.advance(Reply::Quotes(vec![sample_quote(1.0)])) {
        Progress::Ask(refresh, Request::ReadHistory(symbol)) => {
            assert_eq!(symbol, "AAPL");
            refresh
        }
        other => panic!("unexpected progress {other:?}"),
    };
    assert_eq!(refresh.phase(), Phase::History);
    match refresh.advance(Reply::Quotes(Vec::new())) {
        Progress::Aborted(failure) => assert_eq!(failure.context, "unexpected reply for AAPL"),
        other => panic!("unexpected progress {other:?}"),
    }
}

#[test]
fn the_steps_of_one_symbol() {
    let refresh = match Refresh::start(vec![order("alice", "AAPL", 1, 1.0), order("bob", "MSFT", 1, 1.0)]) {
        Progress::Ask(refresh, request) => {
            assert_eq!(request, Request::FetchQuotes("AAPL".to_string()));
            refresh
        }
        other => panic!("unexpected progress {other:?}"),
    };
    let refresh = match refresh.advance(Reply::Quotes(vec![quote_at(5, 1.0), quote_at(86_400 * 2 + 5, 2.5)])) {
        Progress::Ask(refresh, request) => {
            assert_eq!(request, Request::ReadHistory("AAPL".to_string()));
            refresh
        }
        other => panic!("unexpected progress {other:?}"),
    };
    let refresh = match refresh.advance(Reply::History(vec![close("1970-01-01", 1.0)])) {
        Progress::Ask(refresh, request) => {
            assert_eq!(
                request,
                Request::WriteHistory("AAPL".to_string(), vec![close("1970-01-01", 1.0), close("1970-01-03", 2.5)])
            );
            refresh
        }
        other => panic!("unexpected progress {other:?}"),
    };
    assert_eq!(refresh.phase(), Phase::Write);
    let refresh = match refresh.advance(Reply::Written) {
        Progress::Ask(refresh, request) => {
            assert_eq!(request, Request::FetchQuotes("MSFT".to_string()));
            refresh
        }
        other => panic!("unexpected progress {other:?}"),
    };
    // no quotes: the symbol is tracked without a price
    let done = match refresh.advance(Reply::Quotes(Vec::new())) {
        Progress::Ready(done) => done,
        other => panic!("unexpected progress {other:?}"),
    };
    assert_eq!(done.orders().len(), 2);
    let mut market = MarketData::new();
    let mut holdings = HoldingsService::new();
    market.update(done, &mut holdings, noon());
    assert_eq!(market.symbols(), vec!["AAPL", "MSFT"]);
    let prices = market.prices();
    assert_eq!(prices.get("AAPL"), Some(&num(2.5)));
    assert_eq!(prices.get("MSFT"), None);
    assert_eq!(prices.len(), 1);
    let all = holdings.all();
    assert_eq!(all.len(), 1);
    assert_eq!(all[0].user, "alice");
}

#[test]
fn a_day_that_the_history_has_is_not_written_again() {
    let mut store = HoldingStore::new();
    store.add_order(order("alice", "AAPL", 1, 1.0));
    let mut market = MarketData::new();
    let mut holdings = HoldingsService::new();
    let mut world = World::with_quotes(vec![("AAPL", vec![quote_at(0, 10.0)])]);
    // the day is in the history, though not as its last entry
    world.histories.insert("AAPL".into(), vec![close("1970-01-01", 9.0), close("1970-01-02", 9.5)]);
    update(&mut market, &mut world, &store, &mut holdings, noon()).unwrap();
    assert_eq!(world.writes, 0);
    assert_eq!(world.histories.get("AAPL").unwrap().len(), 2);
    // the cache has the fresh quotes all the same
    assert_eq!(market.prices().get("AAPL"), Some(&num(10.0)));
}

#[test]
fn a_cycle_without_orders_empties_the_cache() {
    let mut store = HoldingStore::new();
    store.add_order(order("alice", "AAPL", 1, 1.0));
    let mut market = MarketData::new();
    let mut holdings = HoldingsService::new();
    let mut world = World::with_quotes(vec![("AAPL", vec![sample_quote(10.0)])]);
    update(&mut market, &mut world, &store, &mut holdings, noon()).unwrap();
    assert_eq!(market.symbols(), vec!["AAPL"]);

    update(&mut market, &mut world, &HoldingStore::new(), &mut holdings, noon()).unwrap();
    assert_eq!(market.symbols(), Vec::<String>::new());
    assert_eq!(holdings.all().len(), 1);
}

#[test]
fn symbols_are_taken_once_in_order_of_appearance() {
    let orders = vec![
        order("alice", "MSFT", 1, 1.0),
        order("bob", "AAPL", 1, 1.0),
        order("alice", "MSFT", 2, 1.0),
        order("carol", "GOOG", 1, 1.0),
        order("carol", "AAPL", 1, 1.0),
    ];
    assert_eq!(symbols_of(&orders), vec!["MSFT", "AAPL", "GOOG"]);
    assert_eq!(symbols_of(&Vec::new()), Vec::<String>::new());
}

#[test]
fn latest_price_is_the_last_close() {
    assert_eq!(PriceInfo { history: Vec::new() }.latest_price(), None);
    assert_eq!(PriceInfo { history: vec![quote_at(0, 1.0), quote_at(1, 2.0)] }.latest_price(), Some(num(2.0)));
}

#[test]
fn history_is_searched_for_the_day() {
    let history = vec![close("1970-01-01", 1.0), close("1970-01-02", 2.0)];
    assert!(history_has_day(&history, &"1970-01-01".to_string()));
    assert!(history_has_day(&history, &"1970-01-02".to_string()));
    assert!(!history_has_day(&history, &"1970-01-03".to_string()));
    assert!(!history_has_day(&Vec::new(), &"1970-01-01".to_string()));
}

#[test]
fn prices_table_has_two_columns() {
    let fields = price_schema();
    let names: Vec<&str> = fields.iter().map(|f| f.name.as_str()).collect();
    assert_eq!(names, vec!["date", "close"]);
    assert_eq!(fields[0].kind, ColumnKind::Text);
    assert_eq!(fields[1].kind, ColumnKind::Real);
    assert!(fields.iter().all(|f| !f.nullable));
}

#[test]
fn closes_survive_the_columns() {
    let closes = vec![close("1970-01-01", 10.0), close("1970-01-02", 12.0)];
    let batch = closes_to_record_batch(&closes);
    assert_eq!(batch.date, vec!["1970-01-01", "1970-01-02"]);
    assert_eq!(batch.close, vec![num(10.0), num(12.0)]);
    assert_eq!(batch_to_closes(&batch), Some(closes));
    assert_eq!(batch_to_closes(&CloseBatch { date: vec!["1970-01-01".to_string()], close: Vec::new() }), None);
}

#[test]
fn the_cycle_runs_every_two_minutes() {
    assert_eq!(UPDATE_INTERVAL_SECS, 120);
}

#[test]
fn every_priced_order_is_held_once_after_a_cycle() {
    let mut store = HoldingStore::new();
    store.add_order(order("alice", "AAPL", 1, 1.0));
    store.add_order(order("bob", "AAPL", 1, 1.0));
    store.add_order(order("alice", "AAPL", 1, 1.0));
    store.add_order(order("alice", "AAPL", 2, 1.0));
    store.add_order(order("alice", "MSFT", 1, 1.0));
    store.add_order(order("alice", "NONE", 1, 1.0));
    let mut market = MarketData::new();
    let mut holdings = HoldingsService::new();
    let mut world = World::with_quotes(vec![("AAPL", vec![sample_quote(10.0)]), ("MSFT", vec![sample_quote(20.0)])]);
    let now = noon();
    update(&mut market, &mut world, &store, &mut holdings, now).unwrap();
    world.quotes.insert("AAPL".into(), vec![sample_quote(11.0)]);
    update(&mut market, &mut world, &store, &mut holdings, UtcTime::at(now.secs + 60, 0)).unwrap();

    let prices = market.prices();
    for placed in store.all_orders() {
        let held: Vec<_> = holdings
            .for_user(&placed.user)
            .into_iter()
            .filter(|h| h.symbol == placed.symbol && h.original_price == placed.price && h.amount == placed.amount)
            .collect();
        match prices.get(&placed.symbol) {
            Some(price) => {
                assert_eq!(held.len(), 1);
                assert_eq!(held[0].current_price, *price);
                assert_eq!(held[0].updated_at, UtcTime::at(now.secs + 60, 0));
            }
            None => assert!(held.is_empty()),
        }
    }
    assert_eq!(holdings.for_user("alice").len(), 3);
    assert_eq!(holdings.for_user("bob").len(), 1);
}
