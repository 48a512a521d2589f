use jbot::clock::now;
use std::time::{SystemTime, UNIX_EPOCH};

fn system_nanos() -> u128 {
    SystemTime::now().duration_since(UNIX_EPOCH).unwrap().as_nanos()
}

#[test]
fn now_shows_the_system_clock() {
    let before = system_nanos();
    let shown = now().unwrap();
    let after = system_nanos();
    assert!(before <= shown && shown <= after);
    // well past the year 2020, so certainly no span handed back unread
    assert!(shown > 1_577_836_800 * 1_000_000_000);
}

#[test]
fn now_does_not_run_backwards_between_calls() {
    let mut last = now().unwrap();
    for _ in 0..1000 {
        let next = now().unwrap();
        assert!(next + 1_000_000_000 > last);
        last = next;
    }
}
