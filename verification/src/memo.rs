//! Memos left for users who are away, kept per recipient until they are
//! read, and the rule that keeps reminders apart.

use crate::clock::now;
use crate::table::Table;
use crate::trusted::{duration_nanos, nanos_of};
use std::time::Duration;
use vstd::prelude::*;

verus! {

/// A message left for somebody.
#[derive(Clone, Debug, PartialEq, Eq)]
pub struct Memo {
    pub from: String,
    pub msg: String,
}

/// What a memo says and who left it.
pub struct MemoView {
    pub from: Seq<char>,
    pub msg: Seq<char>,
}

impl View for Memo {
    type V = MemoView;

    open spec fn view(&self) -> MemoView {
        MemoView { from: self.from@, msg: self.msg@ }
    }
}

/// The memos waiting for one recipient, oldest first, and the time at which
/// the recipient was last told of them.
pub struct Mailbox {
    entries: Vec<Memo>,
    last_seen: u128,
}

/// A mailbox as a sequence of memos and a time in nanoseconds since the
/// Unix epoch.
pub struct MailboxView {
    pub entries: Seq<MemoView>,
    pub last_seen: nat,
}

/// The views of `memos`, in order.
pub open spec fn memo_views(memos: Seq<Memo>) -> Seq<MemoView> {
    memos.map_values(|m: Memo| m@)
}

impl View for Mailbox {
    type V = MailboxView;

    closed spec fn view(&self) -> MailboxView {
        MailboxView { entries: memo_views(self.entries@), last_seen: self.last_seen as nat }
    }
}

impl Mailbox {
    /// An empty mailbox whose owner was never told of anything.
    pub fn new() -> (mailbox: Mailbox)
        ensures
            mailbox@ == (MailboxView { entries: Seq::empty(), last_seen: 0 }),
    {
        let mailbox = Mailbox { entries: Vec::new(), last_seen: 0 };
        assert(mailbox@.entries =~= Seq::empty());
        mailbox
    }

    /// The memos that wait, oldest first.
    pub fn entries(&self) -> (entries: &Vec<Memo>)
        ensures
            memo_views(entries@) == self@.entries,
    {
        &self.entries
    }

    /// When the owner was last told of waiting memos, in nanoseconds since
    /// the Unix epoch; zero if never.
    pub fn last_seen(&self) -> (last_seen: u128)
        ensures
            last_seen == self@.last_seen,
    {
        self.last_seen
    }
}

/// The store as a map from recipient to mailbox.
pub type Mailboxes = Map<Seq<char>, MailboxView>;

/// Whether a reminder is due at `now` for a mailbox last reminded at
/// `last_seen`: more than `min_interval` has passed.
pub open spec fn due(last_seen: nat, now: nat, min_interval: nat) -> bool {
    now - last_seen > min_interval
}

/// The store after `memo` is left for `to`: appended to the mailbox of
/// `to`, which is made if there was none.
pub open spec fn delivered(boxes: Mailboxes, to: Seq<char>, memo: MemoView) -> Mailboxes {
    if boxes.contains_key(to) {
        boxes.insert(
            to,
            MailboxView { entries: boxes[to].entries.push(memo), last_seen: boxes[to].last_seen },
        )
    } else {
        boxes.insert(to, MailboxView { entries: seq![memo], last_seen: 0 })
    }
}

/// The store after `user` is checked for a reminder at `now`, and the
/// number of waiting memos if one is due.
pub open spec fn notified(boxes: Mailboxes, user: Seq<char>, now: nat, min_interval: nat) -> (
    Mailboxes,
    Option<nat>,
) {
    if boxes.contains_key(user) && due(boxes[user].last_seen, now, min_interval) {
        (
            boxes.insert(user, MailboxView { entries: boxes[user].entries, last_seen: now }),
            Some(boxes[user].entries.len()),
        )
    } else {
        (boxes, None)
    }
}

/// The store after the memos of `user` are taken out, and those memos,
/// oldest first.
pub open spec fn drained(boxes: Mailboxes, user: Seq<char>) -> (Mailboxes, Seq<MemoView>) {
    if boxes.contains_key(user) {
        (boxes.remove(user), boxes[user].entries)
    } else {
        (boxes, Seq::empty())
    }
}

/// A count as a natural number.
pub open spec fn as_count(n: Option<usize>) -> Option<nat> {
    match n {
        Some(n) => Some(n as nat),
        None => None,
    }
}

/// A memo left for a recipient.
pub struct Delivery {
    pub to: Seq<char>,
    pub memo: MemoView,
}

/// A check for a reminder: who is checked, and when.
pub struct Check {
    pub user: Seq<char>,
    pub now: nat,
}

/// The store after the deliveries `calls`, made in order.
pub open spec fn delivered_all(boxes: Mailboxes, calls: Seq<Delivery>) -> Mailboxes
    decreases calls.len(),
{
    if calls.len() == 0 {
        boxes
    } else {
        delivered(delivered_all(boxes, calls.drop_last()), calls.last().to, calls.last().memo)
    }
}

/// The memos that `calls` leave for `user`, in the order of the calls.
pub open spec fn memos_for(calls: Seq<Delivery>, user: Seq<char>) -> Seq<MemoView>
    decreases calls.len(),
{
    if calls.len() == 0 {
        Seq::empty()
    } else if calls.last().to == user {
        memos_for(calls.drop_last(), user).push(calls.last().memo)
    } else {
        memos_for(calls.drop_last(), user)
    }
}

/// The store after the checks `calls`, made in order.
pub open spec fn notified_all(boxes: Mailboxes, calls: Seq<Check>, min_interval: nat) -> Mailboxes
    decreases calls.len(),
{
    if calls.len() == 0 {
        boxes
    } else {
        notified(
            notified_all(boxes, calls.drop_last(), min_interval),
            calls.last().user,
            calls.last().now,
            min_interval,
        ).0
    }
}

/// What the check `calls[i]` returns when the checks are made in order.
pub open spec fn notice(boxes: Mailboxes, calls: Seq<Check>, min_interval: nat, i: int) -> Option<
    nat,
> {
    notified(
        notified_all(boxes, calls.take(i), min_interval),
        calls[i].user,
        calls[i].now,
        min_interval,
    ).1
}

/// However deliveries to several recipients are mixed, draining one
/// recipient returns what waited before, followed by the memos left for
/// that recipient in the order of the calls; draining again returns
/// nothing.
pub proof fn law_drain_keeps_delivery_order(
    boxes: Mailboxes,
    calls: Seq<Delivery>,
    user: Seq<char>,
)
    ensures
        drained(delivered_all(boxes, calls), user).1 == drained(boxes, user).1 + memos_for(
            calls,
            user,
        ),
        drained(drained(delivered_all(boxes, calls), user).0, user).1 == Seq::<MemoView>::empty(),
    decreases calls.len(),
{
    if calls.len() > 0 {
        law_drain_keeps_delivery_order(boxes, calls.drop_last(), user);
    }
    assert(drained(delivered_all(boxes, calls), user).1 =~= drained(boxes, user).1 + memos_for(
        calls,
        user,
    ));
}

/// Once a check of `calls[i].user` has returned a count, every later state
/// holds that user's mailbox with a reminder time no earlier than that
/// check.
proof fn lemma_reminder_time_grows(
    boxes: Mailboxes,
    calls: Seq<Check>,
    min_interval: nat,
    i: int,
    k: int,
)
    requires
        0 <= i < k <= calls.len(),
        notice(boxes, calls, min_interval, i) is Some,
    ensures
        notified_all(boxes, calls.take(k), min_interval).contains_key(calls[i].user),
        notified_all(boxes, calls.take(k), min_interval)[calls[i].user].last_seen >= calls[i].now,
    decreases k - i,
{
    assert(calls.take(k).drop_last() =~= calls.take(k - 1));
    if k > i + 1 {
        lemma_reminder_time_grows(boxes, calls, min_interval, i, k - 1);
    }
}

/// Reminders keep their distance: of the checks `calls`, made in order and
/// at any times, two that return a count for the same user lie more than
/// `min_interval` apart.
pub proof fn law_one_reminder_per_interval(
    boxes: Mailboxes,
    calls: Seq<Check>,
    min_interval: nat,
    i: int,
    j: int,
)
    requires
        0 <= i < j < calls.len(),
        calls[i].user == calls[j].user,
        notice(boxes, calls, min_interval, i) is Some,
        notice(boxes, calls, min_interval, j) is Some,
    ensures
        calls[j].now - calls[i].now > min_interval,
{
    lemma_reminder_time_grows(boxes, calls, min_interval, i, j);
}

/// A check made within `min_interval` of a reminder to the same user
/// returns nothing and changes nothing.
pub proof fn law_no_reminder_within_interval(
    boxes: Mailboxes,
    user: Seq<char>,
    first: nat,
    second: nat,
    min_interval: nat,
)
    requires
        notified(boxes, user, first, min_interval).1 is Some,
        second - first <= min_interval,
    ensures
        notified(notified(boxes, user, first, min_interval).0, user, second, min_interval) == (
            notified(boxes, user, first, min_interval).0,
            None::<nat>,
        ),
{
}

/// The mailboxes of all recipients who have memos waiting.
pub struct Memos {
    memos: Table<Mailbox>,
}

impl View for Memos {
    type V = Mailboxes;

    closed spec fn view(&self) -> Mailboxes {
        self.memos@.map_values(|m: Mailbox| m@)
    }
}

impl Default for Memos {
    /// A store without mailboxes.
    fn default() -> (store: Memos)
        ensures
            store.wf(),
            store@ == Mailboxes::empty(),
    {
        Memos::new()
    }
}

impl Memos {
    /// No recipient stands in the store twice, and every mailbox in it
    /// holds at least one memo.
    pub closed spec fn wf(&self) -> bool {
        &&& self.memos.wf()
        &&& forall|i: int|
            0 <= i < self.memos.spec_len() ==> (#[trigger] self.memos.val_at(i)).entries.len() > 0
    }

    /// Every mailbox of a well-formed store holds at least one memo.
    pub proof fn law_no_mailbox_is_empty(&self, user: Seq<char>)
        requires
            self.wf(),
            self@.contains_key(user),
        ensures
            self@[user].entries.len() > 0,
    {
        let i = self.memos.position(user);
        self.memos.lemma_position(user);
        self.memos.lemma_lookup(i);
    }

    /// A store without mailboxes.
    pub fn new() -> (store: Memos)
        ensures
            store.wf(),
            store@ == Mailboxes::empty(),
    {
        let store = Memos { memos: Table::new() };
        assert(store@ =~= Mailboxes::empty());
        store
    }

    /// The recipients who have a mailbox, in the order in which their
    /// mailboxes were made.
    pub closed spec fn recipients(&self) -> Seq<Seq<char>> {
        self.memos.keys()
    }

    /// The recipients of a well-formed store are the keys of its map, each
    /// once.
    pub proof fn law_recipients_are_the_keys(&self)
        requires
            self.wf(),
        ensures
            self.recipients().no_duplicates(),
            forall|user: Seq<char>| self@.contains_key(user) <==> self.recipients().contains(user),
    {
        self.memos.lemma_keys();
    }

    /// How many recipients have a mailbox.
    pub fn len(&self) -> (n: usize)
        ensures
            n == self.recipients().len(),
    {
        self.memos.len()
    }

    /// The recipient at position `i`.
    pub fn recipient(&self, i: usize) -> (user: &str)
        requires
            self.wf(),
            i < self.recipients().len(),
        ensures
            user@ == self.recipients()[i as int],
            self@.contains_key(user@),
    {
        proof {
            self.memos.lemma_keys();
        }
        self.memos.slot(i).key.as_str()
    }

    /// The mailbox of the recipient at position `i`.
    pub fn mailbox(&self, i: usize) -> (mailbox: &Mailbox)
        requires
            self.wf(),
            i < self.recipients().len(),
        ensures
            mailbox@ == self@[self.recipients()[i as int]],
    {
        proof {
            self.memos.lemma_keys();
        }
        &self.memos.slot(i).val
    }

    /// Puts back the mailbox of `user` as it was written out: its memos,
    /// oldest first, and the time of the last reminder. Says whether it
    /// did; it does not if `user` has a mailbox already or there are no
    /// memos, and then the store stays as it is.
    pub fn restore(&mut self, user: String, entries: Vec<Memo>, last_seen: u128) -> (restored: bool)
        requires
            old(self).wf(),
        ensures
            final(self).wf(),
            restored == (!old(self)@.contains_key(user@) && entries.len() > 0),
            restored ==> final(self)@ == old(self)@.insert(
                user@,
                (MailboxView { entries: memo_views(entries@), last_seen: last_seen as nat }),
            ) && final(self).recipients() == old(self).recipients().push(user@),
            !restored ==> final(self)@ == old(self)@ && final(self).recipients() == old(
                self,
            ).recipients(),
    {
        if entries.len() == 0 || self.memos.find(user.as_str()).is_some() {
            return false;
        }
        let ghost name = user@;
        self.memos.insert_new(user, Mailbox { entries, last_seen });
        assert forall|j: int| 0 <= j < self.memos.spec_len() implies (
        #[trigger] self.memos.val_at(j)).entries.len() > 0 by {
            if j < old(self).memos.spec_len() {
                assert(self.memos.val_at(j) == old(self).memos.val_at(j));
            }
        }
        assert(final(self)@ =~= old(self)@.insert(
            name,
            MailboxView { entries: memo_views(entries@), last_seen: last_seen as nat },
        ));
        assert(self.recipients() =~= old(self).recipients().push(name));
        true
    }

    /// Leaves `memo` for `to`.
    pub fn add_memo(&mut self, to: &str, memo: Memo)
        requires
            old(self).wf(),
        ensures
            final(self).wf(),
            final(self)@ == delivered(old(self)@, to@, memo@),
    {
        match self.memos.find(to) {
            Some(i) => {
                let mailbox = self.memos.value_mut(i);
                mailbox.entries.push(memo);
                proof {
                    assert(memo_views(mailbox.entries@) =~= memo_views(
                        old(self).memos.val_at(i as int).entries@,
                    ).push(memo@));
                }
            },
            None => {
                let mut mailbox = Mailbox::new();
                mailbox.entries.push(memo);
                assert(mailbox@.entries =~= seq![memo@]);
                self.memos.insert_new(to.to_owned(), mailbox);
                assert forall|j: int| 0 <= j < self.memos.spec_len() implies (
                #[trigger] self.memos.val_at(j)).entries.len() > 0 by {
                    if j < old(self).memos.spec_len() {
                        assert(self.memos.val_at(j) == old(self).memos.val_at(j));
                    }
                }
            },
        }
        assert(final(self)@ =~= delivered(old(self)@, to@, memo@));
    }

    /// Checks at `now` whether `user` is due a reminder, `min_interval`
    /// after the last one at the earliest, and if so notes the reminder and
    /// returns how many memos wait. Times are in nanoseconds since the Unix
    /// epoch.
    pub fn notify_if_due(&mut self, user: &str, now: u128, min_interval: u128) -> (count: Option<
        usize,
    >)
        requires
            old(self).wf(),
        ensures
            final(self).wf(),
            final(self)@ == notified(old(self)@, user@, now as nat, min_interval as nat).0,
            as_count(count) == notified(old(self)@, user@, now as nat, min_interval as nat).1,
    {
        if let Some(i) = self.memos.find(user) {
            let mailbox = self.memos.value_mut(i);
            if now > mailbox.last_seen && now - mailbox.last_seen > min_interval {
                mailbox.last_seen = now;
                let count = mailbox.entries.len();
                assert(final(self)@ =~= notified(
                    old(self)@,
                    user@,
                    now as nat,
                    min_interval as nat,
                ).0);
                return Some(count);
            }
            assert(final(self)@ =~= old(self)@);
        }
        None
    }

    /// Checks now whether `user` is due a reminder, `threshold` after the
    /// last one at the earliest. The time is read from the system clock;
    /// when the clock cannot be read nothing changes.
    pub fn has_memos(&mut self, user: &str, threshold: Duration) -> (count: Option<usize>)
        requires
            old(self).wf(),
        ensures
            final(self).wf(),
            (final(self)@ == old(self)@ && count is None) || exists|now: nat|
                (final(self)@, as_count(count)) == #[trigger] notified(
                    old(self)@,
                    user@,
                    now,
                    duration_nanos(threshold) as nat,
                ),
    {
        match now() {
            Some(now) => {
                let min_interval = nanos_of(&threshold);
                let count = self.notify_if_due(user, now, min_interval);
                assert((final(self)@, as_count(count)) == notified(
                    old(self)@,
                    user@,
                    now as nat,
                    min_interval as nat,
                ));
                count
            },
            None => None,
        }
    }

    /// Takes out the memos that wait for `user`, oldest first.
    pub fn get_memos(&mut self, user: &str) -> (memos: Vec<Memo>)
        requires
            old(self).wf(),
        ensures
            final(self).wf(),
            final(self)@ == drained(old(self)@, user@).0,
            memo_views(memos@) == drained(old(self)@, user@).1,
    {
        match self.memos.find(user) {
            Some(i) => {
                let slot = self.memos.remove_at(i);
                assert forall|j: int| 0 <= j < self.memos.spec_len() implies (
                #[trigger] self.memos.val_at(j)).entries.len() > 0 by {
                    let k = if j < i { j } else { j + 1 };
                    assert(self.memos.val_at(j) == old(self).memos.val_at(k));
                }
                assert(final(self)@ =~= old(self)@.remove(user@));
                slot.val.entries
            },
            None => {
                let memos: Vec<Memo> = Vec::new();
                assert(memo_views(memos@) =~= Seq::empty());
                memos
            },
        }
    }
}

} // verus!
