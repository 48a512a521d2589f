//! The ledger of words: when each was first and last used and how often,
//! and the sentence that says so.

use crate::clock::now;
use crate::table::Table;
use crate::text::{decimal, push_decimal, push_signed_decimal, signed_decimal};
use crate::trusted::{
    calendar_year, lowercase, texts, to_lowercase, utc_year,
};
use vstd::prelude::*;

verus! {

/// How many units of time the table of units holds.
pub const UNITS: usize = 12;

/// The longest span, in seconds, that is told in units: one of the largest
/// unit. A longer span is told by its year.
pub const LONGEST_SPAN: u64 = 157_788_000;

/// The name of the unit at position `i` of the table, which runs from the
/// smallest unit to the largest.
pub open spec fn unit_name(i: int) -> Seq<char> {
    if i == 0 {
        "atoms"@
    } else if i == 1 {
        "microfortnight"@
    } else if i == 2 {
        "moments"@
    } else if i == 3 {
        "European swallow-hours per mile"@
    } else if i == 4 {
        "punct"@
    } else if i == 5 {
        "ghurry"@
    } else if i == 6 {
        "quadrants"@
    } else if i == 7 {
        "nycthemeron"@
    } else if i == 8 {
        "quinzième"@
    } else if i == 9 {
        "dog years"@
    } else if i == 10 {
        "seasons"@
    } else {
        "mileways"@
    }
}

/// The length of the unit at position `i` as a fraction of seconds:
/// numerator and denominator.
pub open spec fn unit_length(i: int) -> (nat, nat) {
    if i == 0 {
        (1, 376)
    } else if i == 1 {
        (756, 625)
    } else if i == 2 {
        (90, 1)
    } else if i == 3 {
        (150, 1)
    } else if i == 4 {
        (900, 1)
    } else if i == 5 {
        (1440, 1)
    } else if i == 6 {
        (21_600, 1)
    } else if i == 7 {
        (86_400, 1)
    } else if i == 8 {
        (1_296_000, 1)
    } else if i == 9 {
        (4_492_800, 1)
    } else if i == 10 {
        (7_889_400, 1)
    } else {
        (157_788_000, 1)
    }
}

/// The seconds from `then` to `now`; none if `then` lies ahead.
pub open spec fn elapsed(then: nat, now: nat) -> nat {
    if now >= then {
        (now - then) as nat
    } else {
        0
    }
}

/// Whether the unit at position `i` is no longer than `span` seconds.
pub open spec fn fits(i: int, span: nat) -> bool {
    unit_length(i).0 <= span * unit_length(i).1
}

/// The first position from `from` on whose unit is no longer than `span`
/// seconds, or `UNITS` if there is none.
pub open spec fn first_fit(span: nat, from: int) -> int
    decreases UNITS - from,
{
    if from >= UNITS {
        UNITS as int
    } else if fits(from, span) {
        from
    } else {
        first_fit(span, from + 1)
    }
}

/// `span` seconds in units of `length.0 / length.1` seconds, in tenths,
/// rounded to the nearest tenth and to the even one of two that are equally
/// near.
pub open spec fn tenths(span: nat, length: (nat, nat)) -> nat {
    let scaled = 10 * span * length.1;
    let whole = scaled / length.0;
    let rest = scaled % length.0;
    if 2 * rest < length.0 || (2 * rest == length.0 && whole % 2 == 0) {
        whole
    } else {
        whole + 1
    }
}

/// A number of tenths written with one decimal.
pub open spec fn one_decimal(tenths: nat) -> Seq<char> {
    decimal(tenths / 10) + seq!['.'] + decimal(tenths % 10)
}

/// Whether a moment `span` seconds ago is told by its year: the span is
/// longer than the largest unit, or shorter than the smallest.
pub open spec fn told_by_year(span: nat) -> bool {
    span > LONGEST_SPAN || first_fit(span, 0) >= UNITS
}

/// How the moment `then` is told at `now`, both in seconds since the Unix
/// epoch, where `year` is the calendar year of `then`: the span between
/// them in the smallest unit that is no longer than the span, with one
/// decimal, or the year.
pub open spec fn relative(then: nat, now: nat, year: int) -> Seq<char> {
    let span = elapsed(then, now);
    if told_by_year(span) {
        "anno "@ + signed_decimal(year)
    } else {
        let i = first_fit(span, 0);
        one_decimal(tenths(span, unit_length(i))) + " "@ + unit_name(i) + " ago"@
    }
}

/// The units run from the smallest to the largest.
pub proof fn law_units_ascend(i: int, j: int)
    requires
        0 <= i < j < UNITS,
    ensures
        unit_length(i).0 * unit_length(j).1 < unit_length(j).0 * unit_length(i).1,
{
}

/// The unit chosen for a span is no longer than the span, and no unit that
/// is no longer than the span is shorter than the chosen one.
pub proof fn law_first_fit_is_smallest(span: nat, from: int)
    requires
        0 <= from <= UNITS,
    ensures
        from <= first_fit(span, from) <= UNITS,
        first_fit(span, from) < UNITS ==> fits(first_fit(span, from), span),
        forall|j: int| from <= j < first_fit(span, from) ==> !fits(j, span),
    decreases UNITS - from,
{
    if from < UNITS && !fits(from, span) {
        law_first_fit_is_smallest(span, from + 1);
    }
}

/// What the ledger knows of one word. Times are in seconds since the Unix
/// epoch.
#[derive(Clone, Copy, Debug, PartialEq, Eq)]
pub struct WordEntry {
    pub first_use: u64,
    pub last_use: u64,
    pub num_uses: u64,
}

/// The usage of a word in natural numbers.
pub struct Usage {
    pub first_use: nat,
    pub last_use: nat,
    pub count: nat,
}

impl View for WordEntry {
    type V = Usage;

    open spec fn view(&self) -> Usage {
        Usage {
            first_use: self.first_use as nat,
            last_use: self.last_use as nat,
            count: self.num_uses as nat,
        }
    }
}

/// The ledger as a map from each word, in lower case, to its usage.
pub type Ledger = Map<Seq<char>, Usage>;

/// Whether the calendar has a year for the second `t` after the epoch.
pub open spec fn has_year(t: nat) -> bool {
    t <= i64::MAX && calendar_year(t as i64) is Some
}

/// The calendar year of the second `t` after the epoch.
pub open spec fn year_of(t: nat) -> int {
    calendar_year(t as i64)->0 as int
}

/// One more than `count`, as far as 64 bits can count: the largest count
/// stays as it is.
pub open spec fn one_more(count: nat) -> nat {
    if count < u64::MAX {
        count + 1
    } else {
        count
    }
}

/// The ledger after one use of `term` at `now`: a new word is first and
/// last used now, once; a known word is last used now, once more.
pub open spec fn observed(ledger: Ledger, term: Seq<char>, now: nat) -> Ledger {
    if ledger.contains_key(term) {
        ledger.insert(
            term,
            Usage {
                first_use: ledger[term].first_use,
                last_use: now,
                count: one_more(ledger[term].count),
            },
        )
    } else {
        ledger.insert(term, Usage { first_use: now, last_use: now, count: 1 })
    }
}

/// One use of a word at a time.
pub struct Use {
    pub term: Seq<char>,
    pub at: nat,
}

/// The ledger after `uses`, in order.
pub open spec fn used_all(ledger: Ledger, uses: Seq<Use>) -> Ledger
    decreases uses.len(),
{
    if uses.len() == 0 {
        ledger
    } else {
        observed(used_all(ledger, uses.drop_last()), uses.last().term, uses.last().at)
    }
}

/// One use of each of `terms`, in order, all at `now`.
pub open spec fn stamped(terms: Seq<Seq<char>>, now: nat) -> Seq<Use> {
    Seq::new(terms.len(), |i: int| Use { term: terms[i], at: now })
}

/// The ledger after the uses of `terms`, in order, all at `now`.
pub open spec fn observed_all(ledger: Ledger, terms: Seq<Seq<char>>, now: nat) -> Ledger {
    used_all(ledger, stamped(terms, now))
}

/// The times at which `uses` use `term`, in order.
pub open spec fn times_of(uses: Seq<Use>, term: Seq<char>) -> Seq<nat>
    decreases uses.len(),
{
    if uses.len() == 0 {
        Seq::empty()
    } else if uses.last().term == term {
        times_of(uses.drop_last(), term).push(uses.last().at)
    } else {
        times_of(uses.drop_last(), term)
    }
}

/// The count that `ledger` has for `term`: none for a word it does not
/// hold.
pub open spec fn count_of(ledger: Ledger, term: Seq<char>) -> nat {
    if ledger.contains_key(term) {
        ledger[term].count
    } else {
        0
    }
}

/// What a ledger says of a word after some uses. A word that was not used
/// stands as before, and no word is ever dropped. A word that was used is
/// in the ledger; its first use is the one the ledger had, or the first of
/// these if it is new; its last use is the last of these; and its count
/// has grown by the number of its uses, from nothing if it is new, as long
/// as 64 bits hold the sum.
pub proof fn law_usage_after_uses(ledger: Ledger, uses: Seq<Use>, term: Seq<char>)
    ensures
        ({
            let after = used_all(ledger, uses);
            let times = times_of(uses, term);
            if times.len() == 0 {
                &&& after.contains_key(term) == ledger.contains_key(term)
                &&& after.contains_key(term) ==> after[term] == ledger[term]
            } else {
                &&& after.contains_key(term)
                &&& after[term].first_use == (if ledger.contains_key(term) {
                    ledger[term].first_use
                } else {
                    times.first()
                })
                &&& after[term].last_use == times.last()
                &&& count_of(ledger, term) + times.len() <= u64::MAX ==> after[term].count
                    == count_of(ledger, term) + times.len()
            }
        }),
    decreases uses.len(),
{
    if uses.len() > 0 {
        law_usage_after_uses(ledger, uses.drop_last(), term);
    }
}

/// How often `term` stands among `terms`.
pub open spec fn occurrences(terms: Seq<Seq<char>>, term: Seq<char>) -> nat
    decreases terms.len(),
{
    if terms.len() == 0 {
        0
    } else if terms.last() == term {
        occurrences(terms.drop_last(), term) + 1
    } else {
        occurrences(terms.drop_last(), term)
    }
}

/// Among uses that all come at one time, a term is used as often as it
/// stands among the terms, each time at that time.
proof fn lemma_times_at_once(terms: Seq<Seq<char>>, now: nat, term: Seq<char>)
    ensures
        times_of(stamped(terms, now), term).len() == occurrences(terms, term),
        forall|i: int|
            0 <= i < times_of(stamped(terms, now), term).len() ==> times_of(
                stamped(terms, now),
                term,
            )[i] == now,
    decreases terms.len(),
{
    if terms.len() > 0 {
        assert(stamped(terms, now).drop_last() =~= stamped(terms.drop_last(), now));
        lemma_times_at_once(terms.drop_last(), now, term);
    }
}

/// What recording `terms` at `now` does to a word, whatever the ledger
/// held and whenever `now` is. A word that is not among the terms stands
/// as before. A word that is among them is in the ledger and last used
/// now; it is first used when the ledger had it first, or now if it is
/// new; and its count has grown by the number of times it stands among
/// the terms, from nothing if it is new, as long as 64 bits hold the sum.
pub proof fn law_recorded_usage(
    ledger: Ledger,
    terms: Seq<Seq<char>>,
    now: nat,
    term: Seq<char>,
)
    ensures
        ({
            let after = observed_all(ledger, terms, now);
            let times = occurrences(terms, term);
            if times == 0 {
                &&& after.contains_key(term) == ledger.contains_key(term)
                &&& after.contains_key(term) ==> after[term] == ledger[term]
            } else {
                &&& after.contains_key(term)
                &&& after[term].last_use == now
                &&& after[term].first_use == (if ledger.contains_key(term) {
                    ledger[term].first_use
                } else {
                    now
                })
                &&& count_of(ledger, term) + times <= u64::MAX ==> after[term].count == count_of(
                    ledger,
                    term,
                ) + times
            }
        }),
{
    lemma_times_at_once(terms, now, term);
    law_usage_after_uses(ledger, stamped(terms, now), term);
}

/// Whether every word of `ledger` was first used no later than last.
pub open spec fn ordered(ledger: Ledger) -> bool {
    forall|term: Seq<char>| #[trigger]
        ledger.contains_key(term) ==> ledger[term].first_use <= ledger[term].last_use
}

/// Whether no word of `ledger` was first used after `now`.
pub open spec fn begun_by(ledger: Ledger, now: nat) -> bool {
    forall|term: Seq<char>| #[trigger] ledger.contains_key(term) ==> ledger[term].first_use <= now
}

/// While time does not run backwards, every word stays first used no later
/// than last: if that holds of a ledger, and the uses come at times in
/// order, none before a first use that the ledger holds, it holds
/// afterwards, and no word was first used after the last of the uses.
pub proof fn law_order_is_kept(ledger: Ledger, uses: Seq<Use>)
    requires
        ordered(ledger),
        forall|i: int| 0 <= i < uses.len() ==> begun_by(ledger, #[trigger] uses[i].at),
        forall|i: int, j: int| 0 <= i <= j < uses.len() ==> uses[i].at <= uses[j].at,
    ensures
        ordered(used_all(ledger, uses)),
        uses.len() > 0 ==> begun_by(used_all(ledger, uses), uses.last().at),
    decreases uses.len(),
{
    if uses.len() > 0 {
        let before = uses.drop_last();
        assert forall|i: int| 0 <= i < before.len() implies begun_by(
            ledger,
            #[trigger] before[i].at,
        ) by {
            assert(before[i] == uses[i]);
        }
        assert forall|i: int, j: int| 0 <= i <= j < before.len() implies before[i].at
            <= before[j].at by {
            assert(before[i] == uses[i] && before[j] == uses[j]);
        }
        law_order_is_kept(ledger, before);
        let prev = used_all(ledger, before);
        let at = uses.last().at;
        assert(begun_by(prev, at)) by {
            if before.len() > 0 {
                assert(before.last() == uses[uses.len() - 2]);
            } else {
                assert(begun_by(ledger, uses[uses.len() - 1].at));
            }
        }
    }
}

/// Uses made in two rounds come to the same as the uses made in one.
pub proof fn law_uses_compose(ledger: Ledger, first: Seq<Use>, second: Seq<Use>)
    ensures
        used_all(used_all(ledger, first), second) == used_all(ledger, first + second),
    decreases second.len(),
{
    if second.len() == 0 {
        assert(first + second =~= first);
    } else {
        law_uses_compose(ledger, first, second.drop_last());
        assert((first + second).drop_last() =~= first + second.drop_last());
    }
}

/// Each of `terms` in lower case.
pub open spec fn lowercase_all(terms: Seq<Seq<char>>) -> Seq<Seq<char>> {
    terms.map_values(|t: Seq<char>| lowercase(t))
}

/// The sentence on the usage `usage` of `term`, said at `now`, where
/// `first_year` and `last_year` are the calendar years of the first and of
/// the last use.
pub open spec fn description(
    term: Seq<char>,
    usage: Usage,
    now: nat,
    first_year: int,
    last_year: int,
) -> Seq<char> {
    let first = relative(usage.first_use, now, first_year);
    let last = relative(usage.last_use, now, last_year);
    if usage.count == 1 {
        term + " was used once "@ + first
    } else if usage.count == 2 {
        term + " was used twice: "@ + first + " and "@ + last
    } else {
        term + " was used "@ + decimal(usage.count) + " times between "@ + first + " and "@ + last
    }
}

/// The name of the unit at position `i`.
pub fn unit_label(i: usize) -> (name: &'static str)
    requires
        i < UNITS,
    ensures
        name@ == unit_name(i as int),
{
    if i == 0 {
        "atoms"
    } else if i == 1 {
        "microfortnight"
    } else if i == 2 {
        "moments"
    } else if i == 3 {
        "European swallow-hours per mile"
    } else if i == 4 {
        "punct"
    } else if i == 5 {
        "ghurry"
    } else if i == 6 {
        "quadrants"
    } else if i == 7 {
        "nycthemeron"
    } else if i == 8 {
        "quinzième"
    } else if i == 9 {
        "dog years"
    } else if i == 10 {
        "seasons"
    } else {
        "mileways"
    }
}

/// The length of the unit at position `i` as a fraction of seconds.
pub fn unit_ratio(i: usize) -> (length: (u64, u64))
    requires
        i < UNITS,
    ensures
        (length.0 as nat, length.1 as nat) == unit_length(i as int),
        1 <= length.0 <= LONGEST_SPAN,
        1 <= length.1 <= 625,
{
    if i == 0 {
        (1, 376)
    } else if i == 1 {
        (756, 625)
    } else if i == 2 {
        (90, 1)
    } else if i == 3 {
        (150, 1)
    } else if i == 4 {
        (900, 1)
    } else if i == 5 {
        (1440, 1)
    } else if i == 6 {
        (21_600, 1)
    } else if i == 7 {
        (86_400, 1)
    } else if i == 8 {
        (1_296_000, 1)
    } else if i == 9 {
        (4_492_800, 1)
    } else if i == 10 {
        (7_889_400, 1)
    } else {
        (157_788_000, 1)
    }
}

/// Whether the unit at position `i` is no longer than `span` seconds.
pub fn unit_fits(i: usize, span: u64) -> (r: bool)
    requires
        i < UNITS,
        span <= LONGEST_SPAN,
    ensures
        r == fits(i as int, span as nat),
{
    let (num, den) = unit_ratio(i);
    assert(span * den <= LONGEST_SPAN * 625) by (nonlinear_arith)
        requires
            span <= LONGEST_SPAN,
            den <= 625,
    ;
    num <= span * den
}

/// The position of the unit in which a span of `span` seconds is told, or
/// `None` if it is told by the year.
pub fn pick_unit(span: u64) -> (unit: Option<usize>)
    ensures
        unit is None <==> told_by_year(span as nat),
        unit is Some ==> unit->0 == first_fit(span as nat, 0) && unit->0 < UNITS,
{
    if span > LONGEST_SPAN {
        return None;
    }
    let mut i: usize = 0;
    while i < UNITS && !unit_fits(i, span)
        invariant
            i <= UNITS,
            span <= LONGEST_SPAN,
            first_fit(span as nat, 0) == first_fit(span as nat, i as int),
        decreases UNITS - i,
    {
        i += 1;
    }
    if i < UNITS {
        Some(i)
    } else {
        None
    }
}

/// `span` seconds in the unit at position `i`, in tenths, rounded to the
/// nearest tenth and to the even one of two that are equally near.
pub fn in_tenths(span: u64, i: usize) -> (amount: u64)
    requires
        span <= LONGEST_SPAN,
        i < UNITS,
    ensures
        amount == tenths(span as nat, unit_length(i as int)),
{
    let (num, den) = unit_ratio(i);
    assert(10 * span * den <= 10 * LONGEST_SPAN * 625) by (nonlinear_arith)
        requires
            span <= LONGEST_SPAN,
            den <= 625,
    ;
    let scaled: u64 = 10 * span * den;
    let whole: u64 = scaled / num;
    let rest: u64 = scaled % num;
    if 2 * rest < num || (2 * rest == num && whole % 2 == 0) {
        whole
    } else {
        whole + 1
    }
}

/// Tells the moment `then` as seen from `now`, both in seconds since the
/// Unix epoch, where `year` is the calendar year of `then`.
pub fn date(then: u64, now: u64, year: i32) -> (told: String)
    ensures
        told@ == relative(then as nat, now as nat, year as int),
{
    let span: u64 = if now >= then {
        now - then
    } else {
        0
    };
    match pick_unit(span) {
        None => {
            let mut told = String::from_str("anno ");
            push_signed_decimal(&mut told, year as i64);
            told
        },
        Some(i) => {
            let amount = in_tenths(span, i);
            let mut told = String::new();
            push_decimal(&mut told, amount / 10);
            proof {
                reveal_strlit(".");
            }
            told.append(".");
            push_decimal(&mut told, amount % 10);
            told.append(" ");
            told.append(unit_label(i));
            told.append(" ago");
            assert(told@ =~= relative(then as nat, now as nat, year as int));
            told
        },
    }
}

/// Says how `term` was used, from its entry in the ledger, at `now`, where
/// `first_year` and `last_year` are the calendar years of its first and
/// last use.
pub fn describe_usage(
    term: &str,
    entry: &WordEntry,
    now: u64,
    first_year: i32,
    last_year: i32,
) -> (text: String)
    ensures
        text@ == description(term@, entry@, now as nat, first_year as int, last_year as int),
{
    let first = date(entry.first_use, now, first_year);
    let last = date(entry.last_use, now, last_year);
    let mut text = String::from_str(term);
    if entry.num_uses == 1 {
        text.append(" was used once ");
        text.append(first.as_str());
    } else if entry.num_uses == 2 {
        text.append(" was used twice: ");
        text.append(first.as_str());
        text.append(" and ");
        text.append(last.as_str());
    } else {
        text.append(" was used ");
        push_decimal(&mut text, entry.num_uses);
        text.append(" times between ");
        text.append(first.as_str());
        text.append(" and ");
        text.append(last.as_str());
    }
    assert(text@ =~= description(
        term@,
        entry@,
        now as nat,
        first_year as int,
        last_year as int,
    ));
    text
}

/// The whole seconds in `nanos` nanoseconds, or the most that 64 bits
/// hold.
pub open spec fn seconds(nanos: nat) -> nat {
    if nanos / 1_000_000_000 <= u64::MAX {
        nanos / 1_000_000_000
    } else {
        u64::MAX as nat
    }
}

/// The whole seconds in `nanos` nanoseconds, or the most that 64 bits
/// hold.
pub fn whole_seconds(nanos: u128) -> (secs: u64)
    ensures
        secs == seconds(nanos as nat),
{
    let secs: u128 = nanos / 1_000_000_000;
    if secs <= u64::MAX as u128 {
        secs as u64
    } else {
        u64::MAX
    }
}

/// The ledger after `terms` were seen while the clock showed `shown`
/// nanoseconds since the Unix epoch, or nothing at all: the terms are
/// recorded at the whole second shown if the calendar has a year for it,
/// and otherwise the ledger is as before.
pub open spec fn seen_when(ledger: Ledger, terms: Seq<Seq<char>>, shown: Option<nat>) -> Ledger {
    match shown {
        Some(nanos) => if has_year(seconds(nanos)) {
            observed_all(ledger, terms, seconds(nanos))
        } else {
            ledger
        },
        None => ledger,
    }
}

/// The ledger of words.
pub struct Words {
    data: Table<WordEntry>,
}

impl View for Words {
    type V = Ledger;

    closed spec fn view(&self) -> Ledger {
        self.data@.map_values(|e: WordEntry| e@)
    }
}

impl Default for Words {
    /// A ledger without words.
    fn default() -> (ledger: Words)
        ensures
            ledger.wf(),
            ledger@ == Ledger::empty(),
    {
        Words::new()
    }
}

impl Words {
    /// What holds of every entry of a ledger: it counts at least one use,
    /// and the calendar has a year for its first and for its last use.
    pub open spec fn entry_ok(usage: Usage) -> bool {
        &&& usage.count >= 1
        &&& has_year(usage.first_use)
        &&& has_year(usage.last_use)
    }

    /// No word stands in the ledger twice, every count is at least one,
    /// and the calendar has a year for every time in the ledger.
    pub closed spec fn wf(&self) -> bool {
        &&& self.data.wf()
        &&& forall|i: int|
            0 <= i < self.data.spec_len() ==> Self::entry_ok((#[trigger] self.data.val_at(i))@)
    }

    /// What a well-formed ledger promises of each entry.
    pub proof fn law_entries_are_sound(&self, term: Seq<char>)
        requires
            self.wf(),
            self@.contains_key(term),
        ensures
            Self::entry_ok(self@[term]),
    {
        let i = self.data.position(term);
        self.data.lemma_position(term);
        self.data.lemma_lookup(i);
    }

    /// A ledger without words.
    pub fn new() -> (ledger: Words)
        ensures
            ledger.wf(),
            ledger@ == Ledger::empty(),
    {
        let ledger = Words { data: Table::new() };
        assert(ledger@ =~= Ledger::empty());
        ledger
    }

    /// The words of the ledger in the order in which they were first used.
    pub closed spec fn terms(&self) -> Seq<Seq<char>> {
        self.data.keys()
    }

    /// The words of a well-formed ledger are the keys of its map, each
    /// once.
    pub proof fn law_terms_are_the_keys(&self)
        requires
            self.wf(),
        ensures
            self.terms().no_duplicates(),
            forall|term: Seq<char>| self@.contains_key(term) <==> self.terms().contains(term),
    {
        self.data.lemma_keys();
    }

    /// How many words the ledger holds.
    pub fn len(&self) -> (n: usize)
        ensures
            n == self.terms().len(),
    {
        self.data.len()
    }

    /// The word at position `i`.
    pub fn term(&self, i: usize) -> (term: &str)
        requires
            self.wf(),
            i < self.terms().len(),
        ensures
            term@ == self.terms()[i as int],
            self@.contains_key(term@),
    {
        proof {
            self.data.lemma_keys();
        }
        self.data.slot(i).key.as_str()
    }

    /// What the ledger knows of the word at position `i`.
    pub fn entry(&self, i: usize) -> (entry: WordEntry)
        requires
            self.wf(),
            i < self.terms().len(),
        ensures
            entry@ == self@[self.terms()[i as int]],
    {
        proof {
            self.data.lemma_keys();
        }
        self.data.slot(i).val
    }

    /// Whether `entry` can be put back under `term`: the ledger does not
    /// hold the term, the entry counts at least one use, and the calendar
    /// has a year for its first and for its last use.
    pub open spec fn restorable(&self, term: Seq<char>, entry: Usage) -> bool {
        !self@.contains_key(term) && Self::entry_ok(entry)
    }

    /// Puts back the entry of `term` as it was written out, and says
    /// whether it did. An entry that cannot be put back leaves the ledger
    /// as it is.
    pub fn restore(&mut self, term: String, entry: WordEntry) -> (restored: bool)
        requires
            old(self).wf(),
        ensures
            final(self).wf(),
            restored == old(self).restorable(term@, entry@),
            restored ==> final(self)@ == old(self)@.insert(term@, entry@),
            restored ==> final(self).terms() == old(self).terms().push(term@),
            !restored ==> final(self)@ == old(self)@ && final(self).terms() == old(self).terms(),
    {
        if entry.num_uses == 0 || entry.first_use > i64::MAX as u64 || entry.last_use
            > i64::MAX as u64 {
            return false;
        }
        if self.data.find(term.as_str()).is_some() {
            return false;
        }
        if utc_year(entry.first_use as i64).is_none() || utc_year(entry.last_use as i64).is_none() {
            return false;
        }
        let ghost name = term@;
        self.data.insert_new(term, entry);
        assert forall|k: int| 0 <= k < self.data.spec_len() implies Self::entry_ok(
            (#[trigger] self.data.val_at(k))@,
        ) by {
            if k < old(self).data.spec_len() {
                assert(self.data.val_at(k) == old(self).data.val_at(k));
            }
        }
        assert(final(self)@ =~= old(self)@.insert(name, entry@));
        assert(self.terms() =~= old(self).terms().push(name));
        true
    }

    /// Records one use of each of `words`, in lower case, at `now` seconds
    /// since the Unix epoch, whatever the ledger holds: also when `now`
    /// lies before what it has recorded.
    pub fn record(&mut self, words: &Vec<String>, now: u64)
        requires
            old(self).wf(),
            has_year(now as nat),
        ensures
            final(self).wf(),
            final(self)@ == observed_all(old(self)@, lowercase_all(texts(words@)), now as nat),
    {
        let ghost terms = lowercase_all(texts(words@));
        let mut i: usize = 0;
        assert(stamped(terms.take(0), now as nat) =~= Seq::<Use>::empty());
        while i < words.len()
            invariant
                i <= words.len(),
                terms == lowercase_all(texts(words@)),
                has_year(now as nat),
                self.wf(),
                self@ == observed_all(old(self)@, terms.take(i as int), now as nat),
            decreases words.len() - i,
        {
            let ghost before = *self;
            let key = to_lowercase(words[i].as_str());
            assert(key@ == terms[i as int]);
            match self.data.find(key.as_str()) {
                Some(j) => {
                    let entry = self.data.value_mut(j);
                    if entry.num_uses < u64::MAX {
                        entry.num_uses = entry.num_uses + 1;
                    }
                    entry.last_use = now;
                },
                None => {
                    self.data.insert_new(
                        key,
                        WordEntry { first_use: now, last_use: now, num_uses: 1 },
                    );
                    assert forall|k: int| 0 <= k < self.data.spec_len() implies Self::entry_ok(
                        (#[trigger] self.data.val_at(k))@,
                    ) by {
                        if k < before.data.spec_len() {
                            assert(self.data.val_at(k) == before.data.val_at(k));
                        }
                    }
                },
            }
            proof {
                assert(stamped(terms.take(i + 1), now as nat).drop_last() =~= stamped(
                    terms.take(i as int),
                    now as nat,
                ));
                assert(self@ =~= observed(before@, terms[i as int], now as nat));
            }
            i += 1;
        }
        assert(terms.take(words.len() as int) =~= terms);
    }

    /// Records one use of each of `words` at `now` seconds since the Unix
    /// epoch if the calendar has a year for that time, and says whether it
    /// has. Otherwise the ledger stays as it is.
    pub fn seen_at(&mut self, words: &Vec<String>, now: u64) -> (recorded: bool)
        requires
            old(self).wf(),
        ensures
            final(self).wf(),
            recorded == has_year(now as nat),
            recorded ==> final(self)@ == observed_all(
                old(self)@,
                lowercase_all(texts(words@)),
                now as nat,
            ),
            !recorded ==> final(self)@ == old(self)@,
    {
        if now <= i64::MAX as u64 {
            if utc_year(now as i64).is_some() {
                self.record(words, now);
                return true;
            }
        }
        false
    }

    /// Records one use of each of `words` at the time of the system clock.
    /// When the clock cannot be read, or the calendar has no year for what
    /// it shows, the ledger stays as it is.
    pub fn seen(&mut self, words: &Vec<String>)
        requires
            old(self).wf(),
        ensures
            final(self).wf(),
            exists|shown: Option<nat>|
                final(self)@ == #[trigger] seen_when(
                    old(self)@,
                    lowercase_all(texts(words@)),
                    shown,
                ),
    {
        let ghost terms = lowercase_all(texts(words@));
        match now() {
            Some(nanos) => {
                self.seen_at(words, whole_seconds(nanos));
                assert(self@ == seen_when(old(self)@, terms, Some(nanos as nat)));
            },
            None => {
                assert(self@ == seen_when(old(self)@, terms, None));
            },
        }
    }

    /// Says at `now`, in seconds since the Unix epoch, how `term` was used,
    /// if it ever was. The term is looked up in lower case and named in the
    /// sentence as it was given.
    pub fn describe(&self, term: &str, now: u64) -> (text: Option<String>)
        requires
            self.wf(),
        ensures
            text is Some <==> self@.contains_key(lowercase(term@)),
            text is Some ==> (text->0)@ == description(
                term@,
                self@[lowercase(term@)],
                now as nat,
                year_of(self@[lowercase(term@)].first_use),
                year_of(self@[lowercase(term@)].last_use),
            ),
    {
        let key = to_lowercase(term);
        match self.data.find(key.as_str()) {
            Some(i) => {
                let entry = self.data.slot(i).val;
                assert(Self::entry_ok(self.data.val_at(i as int)@));
                let first_year = utc_year(entry.first_use as i64);
                let last_year = utc_year(entry.last_use as i64);
                match (first_year, last_year) {
                    (Some(first_year), Some(last_year)) => Some(
                        describe_usage(term, &entry, now, first_year, last_year),
                    ),
                    _ => None,
                }
            },
            None => None,
        }
    }

    /// Says how `word` was used, if it ever was, as seen from the time of
    /// the system clock. When the clock cannot be read the sentence is said
    /// as at the epoch.
    pub fn last_seen(&self, word: &str) -> (text: Option<String>)
        requires
            self.wf(),
        ensures
            text is Some <==> self@.contains_key(lowercase(word@)),
            text is Some ==> exists|now: nat|
                (text->0)@ == #[trigger] description(
                    word@,
                    self@[lowercase(word@)],
                    now,
                    year_of(self@[lowercase(word@)].first_use),
                    year_of(self@[lowercase(word@)].last_use),
                ),
    {
        let now = match now() {
            Some(nanos) => whole_seconds(nanos),
            None => 0,
        };
        self.describe(word, now)
    }
}

} // verus!
