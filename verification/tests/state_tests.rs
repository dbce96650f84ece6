use feedreader::state::State;

#[test]
fn mark_then_seen() {
    let mut s = State::default();
    assert!(!s.is_seen("hn:1"));
    s.mark_seen("hn:1".to_string());
    assert!(s.is_seen("hn:1"));
    assert!(!s.is_seen("hn:2"));
}

#[test]
fn mark_twice_keeps_one_entry() {
    let mut s = State::default();
    s.mark_seen("rss:a".to_string());
    s.mark_seen("rss:a".to_string());
    assert_eq!(s.seen.len(), 1);
    assert!(s.last_opened.is_none());
}

#[test]
fn many_marks_accumulate() {
    let mut s = State::default();
    s.mark_seen("rss:old".to_string());
    for id in ["hn:1", "rss:b", "hn:1", "tg:c", "hn:1"] {
        s.mark_seen(id.to_string());
    }
    for id in ["rss:old", "hn:1", "rss:b", "tg:c"] {
        assert!(s.is_seen(id));
    }
    assert!(!s.is_seen("hn:2"));
    assert_eq!(s.seen.len(), 4);
}
