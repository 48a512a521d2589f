//! Dictionary lookups: which of the definitions that came back is shown,
//! and how it is cut to fit a message.

use crate::text::{chars_of, first_line, leading_line, rfind_char};
use crate::trusted::{random_below, url_with_param, url_with_query};
use vstd::prelude::*;

verus! {

/// The most characters that the word, the separator and the definition may
/// take together.
pub const MAX_LEN: usize = 400;

/// One definition of a word, with the votes in its favour.
#[derive(Clone, Debug, PartialEq, Eq)]
pub struct Def {
    pub thumbs_up: u64,
    pub definition: String,
}

/// A definition as a number of votes and a text.
pub struct DefView {
    pub thumbs_up: nat,
    pub definition: Seq<char>,
}

impl View for Def {
    type V = DefView;

    open spec fn view(&self) -> DefView {
        DefView { thumbs_up: self.thumbs_up as nat, definition: self.definition@ }
    }
}

/// The views of `defs`, in order.
pub open spec fn def_views(defs: Seq<Def>) -> Seq<DefView> {
    defs.map_values(|d: Def| d@)
}

/// The votes of the first `n` of `defs`, added up.
pub open spec fn votes(defs: Seq<DefView>, n: int) -> nat
    decreases n,
{
    if n <= 0 {
        0
    } else {
        votes(defs, n - 1) + defs[n - 1].thumbs_up
    }
}

/// The votes of all of `defs`.
pub open spec fn all_votes(defs: Seq<DefView>) -> nat {
    votes(defs, defs.len() as int)
}

/// What a roll for one of `defs` is drawn below: the sum of the votes, or
/// the number of definitions when no definition has a vote.
pub open spec fn roll_bound(defs: Seq<DefView>) -> nat {
    if all_votes(defs) == 0 {
        defs.len()
    } else {
        all_votes(defs)
    }
}

/// Whether `roll` falls to the definition at `i`: into the `i`-th of the
/// stretches that the votes lay end to end, or, when no definition has a
/// vote, on `i` itself.
pub open spec fn falls_to(defs: Seq<DefView>, roll: nat, i: int) -> bool {
    &&& 0 <= i < defs.len()
    &&& if all_votes(defs) == 0 {
        roll == i
    } else {
        votes(defs, i) <= roll < votes(defs, i + 1)
    }
}

/// The definition to which `roll` falls.
pub open spec fn chosen(defs: Seq<DefView>, roll: nat) -> int {
    choose|i: int| falls_to(defs, roll, i)
}

/// Where a definition line is cut so that no more than `room` characters
/// are kept: at the last space that leaves no more, or at the start if
/// there is no such space.
pub open spec fn cut(line: Seq<char>, room: nat) -> int {
    let window = if room + 1 <= line.len() {
        line.take(room as int + 1)
    } else {
        line
    };
    match window.index_of_last(' ') {
        Some(i) => i,
        None => 0,
    }
}

/// The room that `word` and the separator leave for a definition.
pub open spec fn room(word: Seq<char>) -> nat {
    if word.len() + 2 <= MAX_LEN {
        (MAX_LEN - word.len() - 2) as nat
    } else {
        0
    }
}

/// The message for `word` with the definition line `line`: whole if it
/// fits, else cut at a space and marked as cut.
pub open spec fn entry_text(word: Seq<char>, line: Seq<char>) -> Seq<char> {
    if word.len() + 2 + line.len() <= MAX_LEN {
        word + ": "@ + line
    } else {
        word + ": "@ + line.take(cut(line, room(word))) + " ..."@
    }
}

/// The message for a lookup of `word` that brought `defs`, where `roll`
/// decides among several.
pub open spec fn lookup_text(word: Seq<char>, defs: Seq<DefView>, roll: nat) -> Seq<char> {
    if defs.len() == 0 {
        "no results for '"@ + word + "'"@
    } else if defs.len() == 1 {
        entry_text(word, first_line(defs[0].definition))
    } else {
        entry_text(word, first_line(defs[chosen(defs, roll)].definition))
    }
}

/// The votes add up without loss as more definitions are counted.
pub proof fn lemma_votes_grow(defs: Seq<DefView>, a: int, b: int)
    requires
        0 <= a <= b,
    ensures
        votes(defs, a) <= votes(defs, b),
    decreases b - a,
{
    if a < b {
        lemma_votes_grow(defs, a, b - 1);
    }
}

/// A roll falls to one definition only.
pub proof fn lemma_falls_to_one(defs: Seq<DefView>, roll: nat, i: int, j: int)
    requires
        falls_to(defs, roll, i),
        falls_to(defs, roll, j),
    ensures
        i == j,
{
    if i < j {
        lemma_votes_grow(defs, i + 1, j);
    }
    if j < i {
        lemma_votes_grow(defs, j + 1, i);
    }
}

/// A roll below the bound falls to a definition, and while any definition
/// has a vote, never to one without.
pub proof fn law_roll_falls_by_weight(defs: Seq<DefView>, roll: nat)
    requires
        roll < roll_bound(defs),
    ensures
        falls_to(defs, roll, chosen(defs, roll)),
        all_votes(defs) > 0 ==> defs[chosen(defs, roll)].thumbs_up > 0,
        forall|i: int| falls_to(defs, roll, i) ==> i == chosen(defs, roll),
{
    if all_votes(defs) == 0 {
        assert(falls_to(defs, roll, roll as int));
    } else {
        lemma_roll_lands(defs, roll, defs.len() as int);
    }
    assert forall|i: int| falls_to(defs, roll, i) implies i == chosen(defs, roll) by {
        lemma_falls_to_one(defs, roll, i, chosen(defs, roll));
    }
}

/// A roll below the votes of the first `n` definitions lands in the
/// stretch of one of them.
proof fn lemma_roll_lands(defs: Seq<DefView>, roll: nat, n: int)
    requires
        0 <= n <= defs.len(),
        roll < votes(defs, n),
        all_votes(defs) > 0,
    ensures
        exists|i: int| falls_to(defs, roll, i),
    decreases n,
{
    if roll >= votes(defs, n - 1) {
        assert(falls_to(defs, roll, n - 1));
    } else {
        lemma_roll_lands(defs, roll, n - 1);
    }
}

/// A cut leaves no more than the room, and a line is only ever cut in
/// front of a space, or down to nothing: no word is split.
pub proof fn law_cut_at_space(line: Seq<char>, room: nat)
    ensures
        0 <= cut(line, room) <= room,
        cut(line, room) <= line.len(),
        cut(line, room) == 0 || (cut(line, room) < line.len() && line[cut(line, room)] == ' '),
{
    let window = if room + 1 <= line.len() {
        line.take(room as int + 1)
    } else {
        line
    };
    window.index_of_last_ensures(' ');
}

/// A message whose word leaves room for the separator holds, before the
/// mark of a cut, no more than `MAX_LEN` characters.
pub proof fn law_entry_fits(word: Seq<char>, line: Seq<char>)
    requires
        word.len() + 2 <= MAX_LEN,
    ensures
        word.len() + 2 + line.len() <= MAX_LEN ==> entry_text(word, line) == word + ": "@ + line,
        word.len() + 2 + line.len() > MAX_LEN ==> entry_text(word, line) == word + ": "@
            + line.take(cut(line, room(word))) + " ..."@ && word.len() + 2 + line.take(
            cut(line, room(word)),
        ).len() <= MAX_LEN,
{
    law_cut_at_space(line, room(word));
}

/// With fewer than two definitions no roll decides anything: without any
/// the message says so, and a single one is shown, whole if it fits.
pub proof fn law_few_definitions_need_no_roll(word: Seq<char>, defs: Seq<DefView>, roll: nat)
    requires
        defs.len() < 2,
    ensures
        defs.len() == 0 ==> lookup_text(word, defs, roll) == "no results for '"@ + word + "'"@,
        defs.len() == 1 ==> lookup_text(word, defs, roll) == entry_text(
            word,
            first_line(defs[0].definition),
        ),
        defs.len() == 1 && word.len() + 2 + first_line(defs[0].definition).len() <= MAX_LEN
            ==> lookup_text(word, defs, roll) == word + ": "@ + first_line(defs[0].definition),
{
}

/// The votes of all of `defs`.
pub fn total_votes(defs: &Vec<Def>) -> (total: u128)
    ensures
        total == all_votes(def_views(defs@)),
{
    let ghost views = def_views(defs@);
    let mut total: u128 = 0;
    let mut i: usize = 0;
    while i < defs.len()
        invariant
            i <= defs.len(),
            views == def_views(defs@),
            total == votes(views, i as int),
            total <= i * u64::MAX,
        decreases defs.len() - i,
    {
        assert((i + 1) * u64::MAX == i * u64::MAX + u64::MAX) by (nonlinear_arith);
        assert(i * u64::MAX <= usize::MAX * u64::MAX) by (nonlinear_arith)
            requires
                i <= usize::MAX,
        ;
        assert(views[i as int].thumbs_up == defs[i as int].thumbs_up);
        total = total + defs[i].thumbs_up as u128;
        i += 1;
    }
    total
}

/// The definition to which `roll` falls.
pub fn pick(defs: &Vec<Def>, roll: u128) -> (i: usize)
    requires
        roll < roll_bound(def_views(defs@)),
    ensures
        i == chosen(def_views(defs@), roll as nat),
        falls_to(def_views(defs@), roll as nat, i as int),
{
    let ghost views = def_views(defs@);
    proof {
        law_roll_falls_by_weight(views, roll as nat);
    }
    let total = total_votes(defs);
    if total == 0 {
        assert(roll < defs.len()) by {
            assert(views.len() == defs.len());
        }
        assert(falls_to(views, roll as nat, roll as int));
        return roll as usize;
    }
    assert(defs.len() > 0) by {
        assert(views.len() == defs.len());
    }
    let mut below: u128 = 0;
    let mut i: usize = 0;
    while i + 1 < defs.len()
        invariant
            i < defs.len(),
            views == def_views(defs@),
            below == votes(views, i as int),
            below <= roll < total == all_votes(views),
            forall|j: int| falls_to(views, roll as nat, j) ==> j == chosen(views, roll as nat),
        decreases defs.len() - i,
    {
        assert(views[i as int].thumbs_up == defs[i as int].thumbs_up);
        proof {
            lemma_votes_grow(views, i + 1, defs.len() as int);
        }
        let above: u128 = below + defs[i].thumbs_up as u128;
        if roll < above {
            assert(falls_to(views, roll as nat, i as int));
            return i;
        }
        below = above;
        i += 1;
    }
    assert(falls_to(views, roll as nat, i as int));
    i
}

/// The message for `word` with the definition line `line`.
pub fn entry(word: &str, line: &str) -> (text: String)
    ensures
        text@ == entry_text(word@, line@),
{
    let word_len = word.unicode_len();
    let chars = chars_of(line);
    let mut text = String::from_str(word);
    text.append(": ");
    if word_len <= MAX_LEN - 2 && chars.len() <= MAX_LEN - 2 - word_len {
        text.append(line);
    } else {
        let room: usize = if word_len <= MAX_LEN - 2 {
            MAX_LEN - 2 - word_len
        } else {
            0
        };
        let end: usize = if room + 1 <= chars.len() {
            room + 1
        } else {
            chars.len()
        };
        assert(line@.take(end as int) == if room + 1 <= line@.len() {
            line@.take(room + 1)
        } else {
            line@
        });
        let at: usize = match rfind_char(&chars, end, ' ') {
            Some(i) => i,
            None => 0,
        };
        text.append(line.substring_char(0, at));
        text.append(" ...");
    }
    assert(text@ =~= entry_text(word@, line@));
    text
}

/// The message for a lookup of `word` that brought `defs`, where `roll`
/// decides among several.
pub fn lookup_reply(word: &str, defs: &Vec<Def>, roll: u128) -> (text: String)
    requires
        defs.len() >= 2 ==> roll < roll_bound(def_views(defs@)),
    ensures
        text@ == lookup_text(word@, def_views(defs@), roll as nat),
{
    if defs.len() == 0 {
        let mut text = String::from_str("no results for '");
        text.append(word);
        text.append("'");
        text
    } else {
        let i = if defs.len() == 1 {
            0
        } else {
            pick(defs, roll)
        };
        assert(def_views(defs@)[i as int].definition == defs[i as int].definition@);
        entry(word, leading_line(defs[i].definition.as_str()))
    }
}

/// The message for a lookup of `word` that brought `defs`. Among several
/// definitions one is drawn at random, each with a chance in proportion to
/// its votes, or with equal chances when none has a vote.
pub fn term(word: &str, defs: &Vec<Def>) -> (text: String)
    ensures
        defs.len() < 2 ==> text@ == lookup_text(word@, def_views(defs@), 0),
        defs.len() >= 2 ==> exists|roll: nat|
            roll < roll_bound(def_views(defs@)) && text@ == #[trigger] lookup_text(
                word@,
                def_views(defs@),
                roll,
            ),
{
    if defs.len() < 2 {
        lookup_reply(word, defs, 0)
    } else {
        let total = total_votes(defs);
        let bound: u128 = if total == 0 {
            defs.len() as u128
        } else {
            total
        };
        let roll = random_below(bound);
        lookup_reply(word, defs, roll)
    }
}

/// The message for a lookup that failed, where `detail` says how.
pub fn failure(detail: &str) -> (text: String)
    ensures
        text@ == "something went wrong: "@ + detail@,
{
    let mut text = String::from_str("something went wrong: ");
    text.append(detail);
    text
}

/// The address at which the definitions of `word` are asked for, if one
/// can be made of it.
pub fn lookup_url(word: &str) -> (url: Option<String>)
    ensures
        url is Some <==> url_with_query(
            "https://api.urbandictionary.com/v0/define"@,
            "term"@,
            word@,
        ) is Some,
        url is Some ==> (url->0)@ == url_with_query(
            "https://api.urbandictionary.com/v0/define"@,
            "term"@,
            word@,
        )->0,
{
    url_with_param("https://api.urbandictionary.com/v0/define", "term", word)
}

} // verus!
