use nvix::xml::{
    by_id_descending, filter_items, str_contains, LookupValue, LookupValueSearch, LookupValues, Name, Value,
    XmlGpuEntry,
};
use std::cmp::Ordering;

fn entry(name: &str, series: u16, id: u16) -> XmlGpuEntry {
    XmlGpuEntry { name: name.to_string(), series, id }
}

fn record(name: &str, parentid: u16, value: u16) -> LookupValue {
    LookupValue { parentid, name: Name { value: name.to_string() }, value: Value { value } }
}

fn catalog() -> Vec<XmlGpuEntry> {
    vec![
        entry("GeForce RTX 3090 Ti", 120, 985),
        entry("GeForce RTX 3090", 120, 930),
        entry("GeForce RTX 3080", 120, 929),
        entry("GeForce GTX 1080", 101, 845),
        entry("GeForce RTX 3090", 120, 931),
    ]
}

#[test]
fn records_become_entries_in_order() {
    let search = LookupValueSearch {
        lookupvalues: LookupValues {
            lookupvalue: vec![record("GeForce RTX 3090 Ti", 120, 985), record("TITAN V", 95, 838)],
        },
    };
    assert_eq!(
        search.gpu_entries(),
        vec![entry("GeForce RTX 3090 Ti", 120, 985), entry("TITAN V", 95, 838)]
    );
}

#[test]
fn filter_is_case_sensitive_substring_in_order() {
    let all = catalog();
    let got = filter_items(&all, "3090");
    assert_eq!(
        got,
        vec![
            entry("GeForce RTX 3090 Ti", 120, 985),
            entry("GeForce RTX 3090", 120, 930),
            entry("GeForce RTX 3090", 120, 931),
        ]
    );
    assert!(filter_items(&all, "geforce").is_empty());
    assert_eq!(filter_items(&all, "GTX"), vec![entry("GeForce GTX 1080", 101, 845)]);
}

#[test]
fn empty_query_matches_everything() {
    let all = catalog();
    assert_eq!(filter_items(&all, ""), all);
}

#[test]
fn filter_of_empty_catalog_is_empty() {
    assert!(filter_items(&Vec::new(), "3090").is_empty());
}

#[test]
fn filtering_twice_changes_nothing() {
    let all = catalog();
    for q in ["", "3090", "RTX", "Ti", "zzz"] {
        let once = filter_items(&all, q);
        assert_eq!(filter_items(&once, q), once);
    }
}

#[test]
fn longer_query_never_shows_more() {
    let all = catalog();
    let mut q = String::new();
    let mut last = filter_items(&all, &q).len();
    for c in "GeForce RTX 3090 Ti".chars() {
        q.push(c);
        let now = filter_items(&all, &q).len();
        assert!(now <= last);
        last = now;
    }
    assert_eq!(last, 1);
}

#[test]
fn comparison_puts_higher_ids_first() {
    let a = entry("a", 1, 10);
    let b = entry("b", 1, 20);
    assert_eq!(by_id_descending(&a, &b), Ordering::Greater);
    assert_eq!(by_id_descending(&b, &a), Ordering::Less);
    assert_eq!(by_id_descending(&a, &entry("c", 2, 10)), Ordering::Equal);
}

#[test]
fn duplicate_copies_every_field() {
    let a = entry("GeForce RTX 3090 Ti", 120, 985);
    assert_eq!(a.duplicate(), a);
}

#[test]
fn substring_search() {
    assert!(str_contains("GeForce RTX 3090", "RTX 30"));
    assert!(str_contains("abc", ""));
    assert!(str_contains("", ""));
    assert!(!str_contains("", "a"));
    assert!(!str_contains("ab", "abc"));
    assert!(str_contains("Ää 3090", "ä 3"));
    assert!(!str_contains("GeForce", "geforce"));
    assert!(str_contains("aab", "ab"));
}
