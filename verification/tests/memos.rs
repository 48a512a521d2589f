use jbot::memo::{Mailbox, Memo, Memos};
use std::time::Duration;

const SECOND: u128 = 1_000_000_000;
const FIVE_MINUTES: u128 = 300 * SECOND;

fn memo(from: &str, msg: &str) -> Memo {
    Memo { from: from.to_string(), msg: msg.to_string() }
}

fn lines(memos: &[Memo]) -> Vec<(String, String)> {
    memos.iter().map(|m| (m.from.clone(), m.msg.clone())).collect()
}

fn pair(from: &str, msg: &str) -> (String, String) {
    (from.to_string(), msg.to_string())
}

#[test]
fn drain_returns_memos_in_delivery_order() {
    let mut store = Memos::new();
    store.add_memo("bob", memo("alice", "one"));
    store.add_memo("carol", memo("dave", "other"));
    store.add_memo("bob", memo("erin", "two"));
    store.add_memo("bob", memo("alice", "three"));
    let got = store.get_memos("bob");
    assert_eq!(
        lines(&got),
        vec![pair("alice", "one"), pair("erin", "two"), pair("alice", "three")]
    );
    assert_eq!(lines(&store.get_memos("carol")), vec![pair("dave", "other")]);
}

#[test]
fn second_drain_is_empty() {
    let mut store = Memos::new();
    store.add_memo("bob", memo("alice", "one"));
    assert_eq!(store.get_memos("bob").len(), 1);
    assert!(store.get_memos("bob").is_empty());
    assert_eq!(store.len(), 0);
}

#[test]
fn drain_of_unknown_user_is_empty() {
    let mut store = Memos::new();
    store.add_memo("bob", memo("alice", "one"));
    assert!(store.get_memos("Bob").is_empty());
    assert!(store.get_memos("").is_empty());
    assert_eq!(store.len(), 1);
}

#[test]
fn recipients_are_case_sensitive() {
    let mut store = Memos::new();
    store.add_memo("bob", memo("alice", "lower"));
    store.add_memo("Bob", memo("alice", "upper"));
    assert_eq!(store.len(), 2);
    assert_eq!(lines(&store.get_memos("Bob")), vec![pair("alice", "upper")]);
    assert_eq!(lines(&store.get_memos("bob")), vec![pair("alice", "lower")]);
}

#[test]
fn new_mailbox_is_empty_and_never_notified() {
    let mailbox = Mailbox::new();
    assert!(mailbox.entries().is_empty());
    assert_eq!(mailbox.last_seen(), 0);
}

#[test]
fn reminder_comes_once_per_interval() {
    let mut store = Memos::new();
    store.add_memo("bob", memo("alice", "one"));
    let start = 1_000 * SECOND;
    assert_eq!(store.notify_if_due("bob", start, FIVE_MINUTES), Some(1));
    assert_eq!(store.notify_if_due("bob", start, FIVE_MINUTES), None);
    assert_eq!(store.notify_if_due("bob", start + 5 * SECOND, FIVE_MINUTES), None);
    assert_eq!(store.notify_if_due("bob", start + 299 * SECOND, FIVE_MINUTES), None);
    // the interval has to be exceeded, not just reached
    assert_eq!(store.notify_if_due("bob", start + FIVE_MINUTES, FIVE_MINUTES), None);
    assert_eq!(store.notify_if_due("bob", start + FIVE_MINUTES + 1, FIVE_MINUTES), Some(1));
    assert_eq!(store.notify_if_due("bob", start + FIVE_MINUTES + 2, FIVE_MINUTES), None);
}

#[test]
fn reminder_counts_what_waits_now() {
    let mut store = Memos::new();
    store.add_memo("bob", memo("alice", "one"));
    assert_eq!(store.notify_if_due("bob", 400 * SECOND, FIVE_MINUTES), Some(1));
    store.add_memo("bob", memo("carol", "two"));
    store.add_memo("bob", memo("carol", "three"));
    assert_eq!(store.notify_if_due("bob", 500 * SECOND, FIVE_MINUTES), None);
    assert_eq!(store.notify_if_due("bob", 701 * SECOND, FIVE_MINUTES), Some(3));
    assert_eq!(store.mailbox(0).last_seen(), 701 * SECOND);
}

#[test]
fn reminder_needs_a_mailbox() {
    let mut store = Memos::new();
    assert_eq!(store.notify_if_due("bob", 1_000 * SECOND, FIVE_MINUTES), None);
    store.add_memo("bob", memo("alice", "one"));
    assert_eq!(store.notify_if_due("carol", 1_000 * SECOND, FIVE_MINUTES), None);
    store.get_memos("bob");
    assert_eq!(store.notify_if_due("bob", 1_000 * SECOND, FIVE_MINUTES), None);
}

#[test]
fn reminder_is_not_due_before_the_last_one() {
    let mut store = Memos::new();
    store.add_memo("bob", memo("alice", "one"));
    assert_eq!(store.notify_if_due("bob", 1_000 * SECOND, 0), Some(1));
    assert_eq!(store.notify_if_due("bob", 999 * SECOND, 0), None);
    assert_eq!(store.notify_if_due("bob", 1_000 * SECOND, 0), None);
    assert_eq!(store.notify_if_due("bob", 1_000 * SECOND + 1, 0), Some(1));
    assert_eq!(store.notify_if_due("bob", u128::MAX, u128::MAX), None);
}

#[test]
fn reminders_of_different_users_do_not_mix() {
    let mut store = Memos::new();
    store.add_memo("bob", memo("alice", "one"));
    store.add_memo("carol", memo("alice", "two"));
    assert_eq!(store.notify_if_due("bob", 1_000 * SECOND, FIVE_MINUTES), Some(1));
    assert_eq!(store.notify_if_due("carol", 1_001 * SECOND, FIVE_MINUTES), Some(1));
    assert_eq!(store.notify_if_due("bob", 1_002 * SECOND, FIVE_MINUTES), None);
}

#[test]
fn has_memos_reads_the_clock() {
    let mut store = Memos::new();
    store.add_memo("bob", memo("alice", "one"));
    store.add_memo("bob", memo("alice", "two"));
    assert_eq!(store.has_memos("nobody", Duration::from_secs(300)), None);
    assert_eq!(store.has_memos("bob", Duration::from_secs(300)), Some(2));
    let noted = store.mailbox(0).last_seen();
    let now = std::time::SystemTime::now()
        .duration_since(std::time::UNIX_EPOCH)
        .unwrap()
        .as_nanos();
    assert!(noted <= now);
    assert!(now - noted < 60 * SECOND);
    assert_eq!(store.has_memos("bob", Duration::from_secs(300)), None);
    assert_eq!(store.mailbox(0).last_seen(), noted);
}

#[test]
fn has_memos_honours_the_threshold() {
    let mut store = Memos::new();
    store.add_memo("bob", memo("alice", "one"));
    // longer than the time since the epoch: never due
    assert_eq!(store.has_memos("bob", Duration::from_secs(u64::MAX)), None);
    assert_eq!(store.mailbox(0).last_seen(), 0);
    assert_eq!(store.has_memos("bob", Duration::from_nanos(1)), Some(1));
}

#[test]
fn store_can_be_read_out_and_put_back() {
    let mut store = Memos::new();
    store.add_memo("bob", memo("alice", "one"));
    store.add_memo("carol", memo("dave", "two"));
    store.add_memo("bob", memo("erin", "three"));
    assert_eq!(store.notify_if_due("carol", 900 * SECOND, FIVE_MINUTES), Some(1));

    let mut copy = Memos::new();
    for i in 0..store.len() {
        let mailbox = store.mailbox(i);
        assert!(copy.restore(
            store.recipient(i).to_string(),
            mailbox.entries().clone(),
            mailbox.last_seen()
        ));
    }
    assert_eq!(copy.len(), 2);
    assert_eq!(copy.recipient(0), "bob");
    assert_eq!(copy.recipient(1), "carol");
    assert_eq!(copy.mailbox(1).last_seen(), 900 * SECOND);
    assert_eq!(copy.notify_if_due("carol", 1_000 * SECOND, FIVE_MINUTES), None);
    assert_eq!(lines(&copy.get_memos("bob")), vec![pair("alice", "one"), pair("erin", "three")]);
}

#[test]
fn restore_refuses_what_would_break_the_store() {
    let mut store = Memos::new();
    assert!(!store.restore("bob".to_string(), vec![], 5));
    assert_eq!(store.len(), 0);
    assert!(store.restore("bob".to_string(), vec![memo("alice", "one")], 5));
    assert!(!store.restore("bob".to_string(), vec![memo("carol", "two")], 9));
    assert_eq!(store.len(), 1);
    assert_eq!(store.mailbox(0).last_seen(), 5);
    assert_eq!(lines(&store.get_memos("bob")), vec![pair("alice", "one")]);
}

#[test]
fn default_store_is_empty() {
    let mut store = Memos::default();
    assert_eq!(store.len(), 0);
    assert!(store.get_memos("bob").is_empty());
    assert_eq!(store.notify_if_due("bob", u128::MAX, 0), None);
}
