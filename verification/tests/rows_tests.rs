use postwoman::http::KeyValue;
use postwoman::rows::tidy_rows;

fn kv(key: &str, value: &str) -> KeyValue {
    KeyValue { enabled: true, key: key.into(), value: value.into() }
}

fn keys(rows: &[KeyValue]) -> Vec<(bool, String, String)> {
    rows.iter().map(|r| (r.enabled, r.key.clone(), r.value.clone())).collect()
}

#[test]
fn typing_in_the_last_row_adds_a_blank_one() {
    let mut rows = vec![kv("a", "")];
    tidy_rows(&mut rows, None);
    assert_eq!(keys(&rows), vec![(true, "a".into(), "".into()), (true, "".into(), "".into())]);
    tidy_rows(&mut rows, None);
    assert_eq!(rows.len(), 2);
}

#[test]
fn value_only_row_counts_as_filled() {
    let mut rows = vec![kv("", "v")];
    tidy_rows(&mut rows, None);
    assert_eq!(rows.len(), 2);
}

#[test]
fn deleting_a_row_keeps_a_blank_end() {
    let mut rows = vec![kv("a", "1"), kv("b", "2"), kv("", "")];
    tidy_rows(&mut rows, Some(0));
    assert_eq!(keys(&rows), vec![(true, "b".into(), "2".into()), (true, "".into(), "".into())]);
    tidy_rows(&mut rows, Some(1));
    assert_eq!(keys(&rows), vec![(true, "b".into(), "2".into()), (true, "".into(), "".into())]);
    let mut empty: Vec<KeyValue> = Vec::new();
    tidy_rows(&mut empty, None);
    assert_eq!(keys(&empty), vec![(true, "".into(), "".into())]);
}

#[test]
fn disabled_blank_last_row_is_kept() {
    let mut rows = vec![kv("a", "1"), KeyValue::default()];
    tidy_rows(&mut rows, None);
    assert_eq!(keys(&rows), vec![(true, "a".into(), "1".into()), (false, "".into(), "".into())]);
}
