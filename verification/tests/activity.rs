use ledgers::activity::{decimal_text, power_activity, Activity, ActivityStore, GpsPoint};
use ledgers::binary64::Binary64;
use ledgers::strava::StravaClient;

fn num(x: f64) -> Binary64 {
    Binary64::from_bits(x.to_bits())
}

#[test]
fn add_and_get_activity() {
    let mut store = ActivityStore::new();
    let act = Activity {
        id: "1".into(),
        metadata: "demo".into(),
        heart_rate: vec![1, 2, 3],
        power: vec![10, 20],
        gps: vec![GpsPoint { lat: num(0.0), lon: num(0.0) }],
    };
    store.add(act.clone());
    assert_eq!(store.get("1"), Some(act));
}

#[test]
fn add_if_missing_does_not_overwrite() {
    let mut store = ActivityStore::new();
    let act1 = Activity { id: "1".into(), metadata: "a".into(), heart_rate: vec![1], power: vec![5], gps: vec![] };
    let act2 = Activity { id: "1".into(), metadata: "b".into(), heart_rate: vec![2], power: vec![6], gps: vec![] };
    assert!(store.add_if_missing(act1.clone()));
    assert!(!store.add_if_missing(act2.clone()));
    assert_eq!(store.get("1"), Some(act1));
}

#[test]
fn add_overwrites() {
    let mut store = ActivityStore::new();
    let act1 = Activity { id: "1".into(), metadata: "a".into(), heart_rate: vec![1], power: vec![5], gps: vec![] };
    let act2 = Activity { id: "1".into(), metadata: "b".into(), heart_rate: vec![2], power: vec![6], gps: vec![] };
    store.add(act1);
    store.add(act2.clone());
    assert_eq!(store.get("1"), Some(act2));
    assert_eq!(store.get("2"), None);
    assert_eq!(store.get(""), None);
}

#[test]
fn fetch_and_store_power_inserts_once() {
    let client = StravaClient::with_base("http://127.0.0.1:1234/api/v3".to_string());
    let mut store = ActivityStore::new();
    assert!(client.fetch_and_store_power(&mut store, 7, vec![9]));
    assert!(!client.fetch_and_store_power(&mut store, 7, vec![9]));
    let act = store.get("7").unwrap();
    assert_eq!(act.power, vec![9]);
    assert_eq!(act.metadata, "strava");
    assert_eq!(act.id, "7");
    assert!(act.heart_rate.is_empty());
    assert!(act.gps.is_empty());
}

#[test]
fn a_stored_stream_is_not_replaced_by_a_later_one() {
    let client = StravaClient::new();
    let mut store = ActivityStore::new();
    assert!(client.fetch_and_store_power(&mut store, 42, vec![1, 2, 3]));
    assert!(!client.fetch_and_store_power(&mut store, 42, vec![4]));
    assert_eq!(store.get("42").unwrap().power, vec![1, 2, 3]);
}

#[test]
fn power_stream_address() {
    let client = StravaClient::with_base("http://127.0.0.1:1234/api/v3".to_string());
    assert_eq!(client.streams_url(42), "http://127.0.0.1:1234/api/v3/activities/42/streams");
    assert_eq!(StravaClient::new().streams_url(7), "https://www.strava.com/api/v3/activities/7/streams");
}

#[test]
fn ids_are_written_in_decimal() {
    for n in [0u64, 1, 7, 9, 10, 11, 42, 99, 100, 101, 1_000_000, 18_446_744_073_709_551_615] {
        assert_eq!(decimal_text(n), n.to_string());
    }
    assert_eq!(decimal_text(1_234_567_890), "1234567890");
}

#[test]
fn power_activity_holds_only_the_stream() {
    assert_eq!(
        power_activity(305, vec![250, 0, 301]),
        Activity {
            id: "305".into(),
            metadata: "strava".into(),
            heart_rate: Vec::new(),
            power: vec![250, 0, 301],
            gps: Vec::new(),
        }
    );
}
