use rtl433_metrics::measure::Decimal;
use rtl433_metrics::reading::{Sample, SampleKey};
use rtl433_metrics::store::Store;

fn decimal(units: i64, places: u8) -> Option<Decimal> {
    Some(Decimal::new(units, places).unwrap())
}

fn key(model: &str, id: Option<u32>) -> SampleKey {
    SampleKey { model: String::from(model), id }
}

fn celsius(model: &str, id: Option<u32>, tenths: i64, ts: u128) -> Sample {
    Sample::new(String::from(model), id, decimal(tenths, 1), None, None, ts)
}

#[test]
fn new_store_is_empty() {
    let store = Store::new();
    assert_eq!(store.len(), 0);
    assert!(store.snapshot().is_empty());
    assert!(store.entries().is_empty());
    assert!(store.get(&key("X", Some(1))).is_none());
}

#[test]
fn second_reading_of_a_device_replaces_the_first() {
    let mut store = Store::new();
    store.upsert(Sample::new(String::from("X"), Some(1), decimal(200, 1), None, decimal(40, 0), 1000));
    store.upsert(Sample::new(String::from("X"), Some(1), None, decimal(700, 1), None, 2000));
    assert_eq!(store.len(), 1);
    let kept = store.get(&key("X", Some(1))).unwrap();
    assert_eq!(kept.ts(), 2000);
    assert_eq!(kept.temp_f().unwrap().tenths(), 700);
    assert_eq!(kept.temp_c().unwrap().tenths(), 211);
    assert!(kept.humidity().is_none());
}

#[test]
fn readings_of_other_devices_are_kept() {
    let mut store = Store::new();
    store.upsert(celsius("X", Some(1), 200, 1));
    store.upsert(celsius("X", Some(2), 210, 2));
    store.upsert(celsius("Y", Some(1), 220, 3));
    store.upsert(celsius("X", Some(2), 230, 4));
    assert_eq!(store.len(), 3);
    assert_eq!(store.get(&key("X", Some(1))).unwrap().ts(), 1);
    assert_eq!(store.get(&key("X", Some(2))).unwrap().ts(), 4);
    assert_eq!(store.get(&key("X", Some(2))).unwrap().temp_c().unwrap().tenths(), 230);
    assert_eq!(store.get(&key("Y", Some(1))).unwrap().ts(), 3);
    assert!(store.get(&key("Y", Some(2))).is_none());
}

#[test]
fn device_without_id_is_not_device_zero() {
    let mut store = Store::new();
    store.upsert(celsius("X", None, 200, 1));
    store.upsert(celsius("X", Some(0), 210, 2));
    assert_eq!(store.len(), 2);
    assert_eq!(store.get(&key("X", None)).unwrap().ts(), 1);
    assert_eq!(store.get(&key("X", Some(0))).unwrap().ts(), 2);
    store.upsert(celsius("X", None, 220, 3));
    assert_eq!(store.len(), 2);
    assert_eq!(store.get(&key("X", None)).unwrap().ts(), 3);
    assert_eq!(store.get(&key("X", Some(0))).unwrap().ts(), 2);
}

#[test]
fn devices_stay_in_the_order_first_heard() {
    let mut store = Store::new();
    store.upsert(celsius("B", Some(1), 200, 1));
    store.upsert(celsius("A", Some(1), 210, 2));
    store.upsert(celsius("C", None, 220, 3));
    store.upsert(celsius("B", Some(1), 230, 4));
    let models: Vec<String> = store.entries().iter().map(|s| s.model().clone()).collect();
    assert_eq!(models, vec![String::from("B"), String::from("A"), String::from("C")]);
    assert_eq!(store.entries()[0].ts(), 4);
}

#[test]
fn snapshot_is_a_copy_of_its_moment() {
    let mut store = Store::new();
    store.upsert(celsius("X", Some(1), 200, 1));
    store.upsert(celsius("Y", None, 210, 2));
    let snapshot = store.snapshot();
    store.upsert(celsius("X", Some(1), 300, 3));
    store.upsert(celsius("Z", Some(9), 310, 4));
    assert_eq!(snapshot.len(), 2);
    assert_eq!(snapshot[0].key(), key("X", Some(1)));
    assert_eq!(snapshot[0].ts(), 1);
    assert_eq!(snapshot[0].temp_c().unwrap().tenths(), 200);
    assert_eq!(snapshot[1].key(), key("Y", None));
    assert_eq!(snapshot[1].ts(), 2);
    assert_eq!(store.len(), 3);
}
