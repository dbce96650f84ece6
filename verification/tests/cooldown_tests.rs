use feedreader::cooldown::{cooldown_computable, cooldown_notice, CooldownNotice};
use feedreader::post::Timestamp;

fn t(secs: i64) -> Timestamp {
    Timestamp { secs, nanos: 0 }
}

#[test]
fn within_cooldown() {
    let now = t(10_000);
    let last = Some(t(10_000 - 30 * 60 - 10));
    assert!(cooldown_computable(now, last, 120));
    assert_eq!(cooldown_notice(now, last, 120), Some(CooldownNotice { hours: 1, minutes: 29, ago_minutes: 30 }));
}

#[test]
fn after_cooldown_or_none_set() {
    assert_eq!(cooldown_notice(t(10_000), Some(t(0)), 60), None);
    assert_eq!(cooldown_notice(t(10_000), Some(t(9_999)), 0), None);
    assert_eq!(cooldown_notice(t(10_000), None, 60), None);
}

#[test]
fn clock_went_back() {
    let n = cooldown_notice(t(0), Some(Timestamp { secs: 90, nanos: 5 }), 1).unwrap();
    assert_eq!(n.ago_minutes, -1);
    assert_eq!(n.hours, 0);
    assert_eq!(n.minutes, 2);
}

#[test]
fn out_of_range_cooldown() {
    assert!(!cooldown_computable(t(0), Some(t(0)), 153_722_867_280_913));
    assert!(cooldown_computable(t(0), Some(t(0)), 153_722_867_280_912));
    assert!(!cooldown_computable(t(0), Some(t(0)), 1 << 63));
    assert!(cooldown_computable(t(0), None, u64::MAX));
}

#[test]
fn cooldown_above_i64_wraps_to_negative_minutes() {
    // u64::MAX minutes is -1 minute once taken as i64.
    assert!(cooldown_computable(t(0), Some(t(0)), u64::MAX));
    assert_eq!(cooldown_notice(t(0), Some(t(0)), u64::MAX), None);
    // With the clock two minutes behind the last opening, -1 minute is not yet over.
    let n = cooldown_notice(t(0), Some(t(120)), u64::MAX).unwrap();
    assert_eq!(n, CooldownNotice { hours: 0, minutes: 1, ago_minutes: -2 });
}

#[test]
fn leap_second_counts() {
    // Last opened inside the leap second that follows second 59 of the day.
    let last = Some(Timestamp { secs: 59, nanos: 1_500_000_000 });
    let now = Timestamp { secs: 119, nanos: 700_000_000 };
    assert!(cooldown_computable(now, last, 2));
    assert_eq!(cooldown_notice(now, last, 2), Some(CooldownNotice { hours: 0, minutes: 0, ago_minutes: 1 }));
}

#[test]
fn leap_second_on_the_next_day() {
    let last = Some(Timestamp { secs: 86_399, nanos: 1_500_000_000 });
    let now = Timestamp { secs: 86_410, nanos: 0 };
    // 9.5 seconds have passed.
    assert_eq!(cooldown_notice(now, last, 1), Some(CooldownNotice { hours: 0, minutes: 0, ago_minutes: 0 }));
    let now = Timestamp { secs: 86_460, nanos: 0 };
    // 59.5 seconds have passed.
    assert_eq!(cooldown_notice(now, last, 1), Some(CooldownNotice { hours: 0, minutes: 0, ago_minutes: 0 }));
    let now = Timestamp { secs: 86_461, nanos: 0 };
    assert_eq!(cooldown_notice(now, last, 1), None);
}
