use ledgers::binary64::Binary64;
use ledgers::day::UtcTime;
use ledgers::holdings::Order;
use ledgers::portfolio::{Holding, HoldingsService};

fn num(x: f64) -> Binary64 {
    Binary64::from_bits(x.to_bits())
}

fn order() -> Order {
    Order { user: "alice".into(), symbol: "AAPL".into(), amount: 1, price: num(10.0) }
}

/// Noon of 1 January 2024.
fn noon() -> UtcTime {
    UtcTime::at(1_704_110_400, 0)
}

fn later(t: UtcTime, secs: i64) -> UtcTime {
    UtcTime::at(t.secs + secs, t.nanos)
}

#[test]
fn record_updates_same_day() {
    let mut svc = HoldingsService::new();
    let now = noon();
    svc.record(&order(), num(11.0), now);
    svc.record(&order(), num(12.0), later(now, 3_600));
    let holdings = svc.for_user("alice");
    assert_eq!(holdings.len(), 1);
    assert_eq!(holdings[0].current_price, num(12.0));
}

#[test]
fn record_new_day_adds_entry() {
    let mut svc = HoldingsService::new();
    let now = noon();
    svc.record(&order(), num(11.0), now);
    svc.record(&order(), num(12.0), later(now, 86_400));
    let holdings = svc.for_user("alice");
    assert_eq!(holdings.len(), 2);
}

#[test]
fn record_at_epoch_and_one_day_later_gives_two() {
    let mut svc = HoldingsService::new();
    svc.record(&order(), num(11.0), UtcTime::at(0, 0));
    svc.record(&order(), num(12.0), UtcTime::at(86_400, 0));
    assert_eq!(
        svc.for_user("alice"),
        vec![
            Holding {
                user: "alice".into(),
                symbol: "AAPL".into(),
                original_price: num(10.0),
                current_price: num(11.0),
                amount: 1,
                updated_at: UtcTime::at(0, 0),
            },
            Holding {
                user: "alice".into(),
                symbol: "AAPL".into(),
                original_price: num(10.0),
                current_price: num(12.0),
                amount: 1,
                updated_at: UtcTime::at(86_400, 0),
            },
        ]
    );
}

#[test]
fn record_overwrites_price_and_instant_only() {
    let mut svc = HoldingsService::new();
    svc.record(&order(), num(11.0), UtcTime::at(10, 5));
    svc.record(&order(), num(12.5), UtcTime::at(86_399, 7));
    assert_eq!(
        svc.for_user("alice"),
        vec![Holding {
            user: "alice".into(),
            symbol: "AAPL".into(),
            original_price: num(10.0),
            current_price: num(12.5),
            amount: 1,
            updated_at: UtcTime::at(86_399, 7),
        }]
    );
}

#[test]
fn the_last_second_before_midnight_is_still_the_day() {
    let mut svc = HoldingsService::new();
    svc.record(&order(), num(1.0), UtcTime::at(-86_400, 0));
    svc.record(&order(), num(2.0), UtcTime::at(-1, 0));
    assert_eq!(svc.for_user("alice").len(), 1);
    svc.record(&order(), num(3.0), UtcTime::at(0, 0));
    assert_eq!(svc.for_user("alice").len(), 2);
}

#[test]
fn a_different_symbol_amount_or_price_is_another_holding() {
    let mut svc = HoldingsService::new();
    let now = noon();
    svc.record(&order(), num(11.0), now);
    svc.record(&Order { symbol: "MSFT".into(), ..order() }, num(11.0), now);
    svc.record(&Order { amount: 2, ..order() }, num(11.0), now);
    svc.record(&Order { price: num(10.000000000000002), ..order() }, num(11.0), now);
    assert_eq!(svc.for_user("alice").len(), 4);
    svc.record(&order(), num(15.0), now);
    let holdings = svc.for_user("alice");
    assert_eq!(holdings.len(), 4);
    assert_eq!(holdings[0].current_price, num(15.0));
    assert_eq!(holdings[1].current_price, num(11.0));
}

#[test]
fn the_two_zeros_are_one_price() {
    let mut svc = HoldingsService::new();
    let now = noon();
    svc.record(&Order { price: num(0.0), ..order() }, num(1.0), now);
    svc.record(&Order { price: num(-0.0), ..order() }, num(2.0), now);
    let holdings = svc.for_user("alice");
    assert_eq!(holdings.len(), 1);
    assert_eq!(holdings[0].original_price, num(0.0));
    assert_eq!(holdings[0].current_price, num(2.0));
}

#[test]
fn an_order_without_a_price_is_never_found_again() {
    let mut svc = HoldingsService::new();
    let now = noon();
    let odd = Order { price: num(f64::NAN), ..order() };
    svc.record(&odd, num(1.0), now);
    svc.record(&odd, num(2.0), now);
    assert_eq!(svc.for_user("alice").len(), 2);
}

#[test]
fn holdings_are_kept_per_user() {
    let mut svc = HoldingsService::new();
    let now = noon();
    svc.record(&order(), num(11.0), now);
    svc.record(&Order { user: "bob".into(), ..order() }, num(12.0), now);
    svc.record(&order(), num(13.0), now);
    assert_eq!(svc.for_user("alice").len(), 1);
    assert_eq!(svc.for_user("bob").len(), 1);
    assert_eq!(svc.for_user("carol"), Vec::<Holding>::new());
    let all = svc.all();
    assert_eq!(all.len(), 2);
    assert_eq!(all[0].user, "alice");
    assert_eq!(all[0].current_price, num(13.0));
    assert_eq!(all[1].user, "bob");
    assert_eq!(HoldingsService::new().all(), Vec::<Holding>::new());
}
