use feedreader::post::Timestamp;
use feedreader::sort::{date_sort_key, key_is_before, sort_by_key, sort_with_keys, Keyed, SortKey};

fn k(rank: u8, g: i64, d: i64) -> SortKey {
    SortKey { rank, group: Timestamp { secs: g, nanos: 0 }, date: Timestamp { secs: d, nanos: 0 } }
}

#[test]
fn key_order() {
    assert!(key_is_before(&k(0, 0, 0), &k(1, 9, 9)));
    assert!(key_is_before(&k(1, 5, 0), &k(1, 4, 9)));
    assert!(key_is_before(&k(1, 5, 3), &k(1, 5, 2)));
    assert!(!key_is_before(&k(1, 5, 3), &k(1, 5, 3)));
    assert!(key_is_before(&date_sort_key(Timestamp { secs: 1, nanos: 2 }), &date_sort_key(Timestamp { secs: 1, nanos: 1 })));
}

#[test]
fn sorting_is_stable() {
    let items = vec![
        Keyed { key: k(1, 0, 0), item: "a" },
        Keyed { key: k(0, 0, 0), item: "b" },
        Keyed { key: k(1, 0, 0), item: "c" },
        Keyed { key: k(0, 0, 0), item: "d" },
    ];
    let out: Vec<_> = sort_by_key(items).into_iter().map(|x| x.item).collect();
    assert_eq!(out, vec!["b", "d", "a", "c"]);
    let out = sort_with_keys(vec![1, 2, 3], vec![k(2, 0, 0), k(1, 0, 0), k(2, 0, 0)]);
    assert_eq!(out, vec![2, 1, 3]);
}
