use collections::maps::{access_map, create_map, update_map, StringKeyedIntMap};

fn sorted_entries(m: &StringKeyedIntMap) -> Vec<(String, i32)> {
    let mut e = m.entries();
    e.sort();
    e
}

fn pair(k: &str, v: i32) -> (String, i32) {
    (k.to_owned(), v)
}

#[test]
fn create_map_holds_the_example_entries() {
    let m = create_map();
    assert_eq!(access_map(&m, "a"), 10);
    assert_eq!(access_map(&m, "b"), 20);
    assert_eq!(access_map(&m, "c"), 30);
}

#[test]
fn access_map_defaults_to_zero_for_absent_keys() {
    let m = create_map();
    assert_eq!(access_map(&m, "zebra"), 0);
    assert_eq!(access_map(&m, ""), 0);
}

#[test]
fn upsert_overwrite_replaces_the_value() {
    let mut m = create_map();
    m.upsert_overwrite("a", 100);
    assert_eq!(access_map(&m, "a"), 100);
    m.upsert_overwrite("z", -5);
    assert_eq!(access_map(&m, "z"), -5);
}

#[test]
fn upsert_if_absent_never_overwrites() {
    let mut m = create_map();
    assert_eq!(m.upsert_if_absent("b", 200), 20);
    assert_eq!(access_map(&m, "b"), 20);
    assert_eq!(m.upsert_if_absent("d", 400), 400);
    assert_eq!(access_map(&m, "d"), 400);
}

#[test]
fn upsert_if_absent_is_idempotent() {
    let mut once = create_map();
    once.upsert_if_absent("d", 400);
    let after_once = sorted_entries(&once);

    let mut twice = create_map();
    twice.upsert_if_absent("d", 400);
    twice.upsert_if_absent("d", 400);
    assert_eq!(sorted_entries(&twice), after_once);
}

#[test]
fn bump_or_init_counts_calls_on_a_fresh_key() {
    let mut m = create_map();
    let n = 5;
    for _ in 0..n {
        m.bump_or_init("fresh");
    }
    assert_eq!(access_map(&m, "fresh"), n);
}

#[test]
fn bump_or_init_increments_existing_value() {
    let mut m = create_map();
    m.bump_or_init("c");
    assert_eq!(access_map(&m, "c"), 31);
}

#[test]
fn worked_update_sequence() {
    let m = update_map();
    let expected = vec![pair("a", 101), pair("b", 21), pair("c", 31), pair("d", 401)];
    assert_eq!(sorted_entries(&m), expected);
}

#[test]
fn update_sequence_step_by_step_matches_update_map() {
    let mut m = create_map();
    m.upsert_overwrite("a", 100);
    m.upsert_if_absent("b", 200);
    m.upsert_if_absent("d", 400);
    for key in "a b c d".split_whitespace() {
        m.bump_or_init(key);
    }
    assert_eq!(sorted_entries(&m), sorted_entries(&update_map()));
}
