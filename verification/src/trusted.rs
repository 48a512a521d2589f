//! The calls that leave this library: the clock, the calendar, the random
//! number generator, the word tokenizer, the URL builder and the text
//! generator. Each contract in this file is believed, not proved.

use chrono::Datelike;
use markov::Chain;
use rand::Rng;
use std::time::Duration;
use unicode_segmentation::UnicodeSegmentation;
use vstd::multiset::Multiset;
use vstd::prelude::*;

verus! {

/// The length of `d` in nanoseconds.
pub uninterp spec fn duration_nanos(d: Duration) -> u128;

/// The year of the proleptic Gregorian calendar, in UTC, into which the
/// second `secs` after the Unix epoch falls; `None` for a second that the
/// calendar of `chrono` does not reach.
pub uninterp spec fn calendar_year(secs: i64) -> Option<i32>;

/// The words of `text`: its pieces between the word boundaries of Unicode
/// Standard Annex 29 that hold a letter or a number, in order.
pub uninterp spec fn word_tokens(text: Seq<char>) -> Seq<Seq<char>>;

/// `text` in lower case, by the Unicode rules that `str::to_lowercase`
/// follows.
pub uninterp spec fn lowercase(text: Seq<char>) -> Seq<char>;

/// A text generator: a Markov chain of the crate `markov` over words. To
/// the proofs it is opaque; what it holds is seen only through
/// `chain_tokens` and `chain_grown`. The chain stands open because it is
/// read from disk and written back outside this library, and no function
/// here can take or give it: whoever puts a chain in answers for what
/// `JBot::new` asks of it.
#[verifier::external_body]
pub struct Generator {
    pub chain: Chain<String>,
}

/// The tokens that the chain of `generator` holds: each token as often as
/// the states of the chain count it as a successor, which is as often as
/// it was fed.
pub uninterp spec fn chain_tokens(generator: Generator) -> Multiset<Seq<char>>;

/// Whether the chain of `generator` is one that `Chain::new` made and that
/// only `Chain::feed_str` has changed since, or a true copy of such a
/// chain. Such a chain holds its start state and every state that a walk
/// can reach, and none of its tokens holds a space.
pub uninterp spec fn chain_grown(generator: Generator) -> bool;

/// The pieces of `text` between its spaces, as `str::split` gives them for
/// a space: one more than there are spaces, empty ones among them where
/// spaces meet or stand at an end.
pub open spec fn pieces(text: Seq<char>) -> Seq<Seq<char>>
    decreases text.len(),
{
    if text.len() == 0 {
        seq![Seq::<char>::empty()]
    } else if text.last() == ' ' {
        pieces(text.drop_last()).push(Seq::<char>::empty())
    } else {
        let before = pieces(text.drop_last());
        before.drop_last().push(before.last().push(text.last()))
    }
}

/// Whether every piece of `text` is one of `tokens`.
pub open spec fn made_of(tokens: Multiset<Seq<char>>, text: Seq<char>) -> bool {
    forall|i: int| 0 <= i < pieces(text).len() ==> tokens.count(#[trigger] pieces(text)[i]) > 0
}

/// The text of the URL that `url::Url::parse_with_params` makes of the URL
/// `base` and the single query parameter `key` with the value `value`;
/// `None` when `base` is no absolute URL.
pub uninterp spec fn url_with_query(base: Seq<char>, key: Seq<char>, value: Seq<char>) -> Option<
    Seq<char>,
>;

/// The texts of `words`, in order.
pub open spec fn texts(words: Seq<String>) -> Seq<Seq<char>> {
    words.map_values(|w: String| w@)
}

/// `chrono::DateTime::from_timestamp` with no nanoseconds, then
/// `Datelike::year`: the calendar year of a Unix time, which is a function
/// of the time alone.
#[verifier::external_body]
pub(crate) fn utc_year(secs: i64) -> (year: Option<i32>)
    ensures
        year == calendar_year(secs),
{
    match chrono::DateTime::from_timestamp(secs, 0) {
        Some(t) => Some(t.year()),
        None => None,
    }
}

/// `UnicodeSegmentation::unicode_words`: the words of `text`, each copied
/// into a `String`. They are a function of the text alone.
#[verifier::external_body]
pub(crate) fn unicode_words(text: &str) -> (words: Vec<String>)
    ensures
        texts(words@) == word_tokens(text@),
{
    text.unicode_words().map(String::from).collect()
}

/// `str::to_lowercase`: `text` in lower case, a function of the text
/// alone.
#[verifier::external_body]
pub(crate) fn to_lowercase(text: &str) -> (lower: String)
    ensures
        lower@ == lowercase(text@),
{
    text.to_lowercase()
}

/// `SystemTime::elapsed` on the Unix epoch: the time that the system clock
/// shows, as the span since the epoch, or `None` when the clock stands
/// before the epoch. Nothing is claimed of the span.
#[verifier::external_body]
pub(crate) fn since_epoch() -> (elapsed: Option<Duration>) {
    match std::time::UNIX_EPOCH.elapsed() {
        Ok(d) => Some(d),
        Err(_) => None,
    }
}

/// `Duration::as_nanos`: the length of `d` in nanoseconds, which is all
/// that a `Duration` holds.
#[verifier::external_body]
pub(crate) fn nanos_of(d: &Duration) -> (nanos: u128)
    ensures
        nanos == duration_nanos(*d),
{
    d.as_nanos()
}

/// `Rng::gen_range` on the thread's generator, from zero to `bound`: a
/// number below `bound`, which must be positive since the generator panics
/// on an empty range. Which number comes is left open.
#[verifier::external_body]
pub(crate) fn random_below(bound: u128) -> (roll: u128)
    requires
        bound > 0,
    ensures
        roll < bound,
{
    rand::thread_rng().gen_range(0, bound)
}

/// `url::Url::parse_with_params` with one parameter, then
/// `Url::into_string`: the text of the URL, a function of the three texts
/// alone.
#[verifier::external_body]
pub(crate) fn url_with_param(base: &str, key: &str, value: &str) -> (url: Option<String>)
    ensures
        url is Some <==> url_with_query(base@, key@, value@) is Some,
        url is Some ==> (url->0)@ == url_with_query(base@, key@, value@)->0,
{
    match url::Url::parse_with_params(base, &[(key, value)]) {
        Ok(url) => Some(url.into_string()),
        Err(_) => None,
    }
}

/// `Chain::new`: a chain of order one that holds its start state and no
/// token.
#[verifier::external_body]
pub(crate) fn chain_new() -> (generator: Generator)
    ensures
        chain_grown(generator),
        chain_tokens(generator) == Multiset::<Seq<char>>::empty(),
{
    Generator { chain: Chain::new() }
}

/// `Chain::feed_str`: splits `text` at its spaces and feeds the pieces to
/// the chain, each once. It adds the states that it passes, so a grown
/// chain stays one.
#[verifier::external_body]
pub(crate) fn chain_feed(generator: &mut Generator, text: &str)
    ensures
        chain_tokens(*final(generator)) == chain_tokens(*old(generator)).add(
            pieces(text@).to_multiset(),
        ),
        chain_grown(*old(generator)) ==> chain_grown(*final(generator)),
{
    generator.chain.feed_str(text);
}

/// `Chain::is_empty`: whether the start state of the chain has no
/// successor, which in a grown chain is to hold no token. The test looks
/// the start state up and panics where the map lacks it; a grown chain
/// holds it.
#[verifier::external_body]
pub(crate) fn chain_is_empty(generator: &Generator) -> (empty: bool)
    requires
        chain_grown(*generator),
    ensures
        empty == (chain_tokens(*generator).len() == 0),
{
    generator.chain.is_empty()
}

/// `Chain::generate_str`: a random walk through the chain from its start
/// state, its tokens joined by spaces. The walk looks up every state that
/// it comes to and draws among the successors of the start state, so it
/// panics on a chain that lacks a state or holds no token; a grown chain
/// that holds a token has both. Every token of the walk is one of the
/// chain, and as none holds a space, the pieces of the text are those
/// tokens. Which walk comes is left open.
#[verifier::external_body]
pub(crate) fn chain_generate(generator: &Generator) -> (text: String)
    requires
        chain_grown(*generator),
        chain_tokens(*generator).len() > 0,
    ensures
        made_of(chain_tokens(*generator), text@),
{
    generator.chain.generate_str()
}

} // verus!
