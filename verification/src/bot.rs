//! The bot itself: how a line is read as a command, what each command does
//! to the memos and the ledger, and what every event of the network is
//! answered with.
//!
//! The bot never sends anything. It appends what is to be sent to a list of
//! actions, which the caller carries out in order.

use crate::clock::now;
use crate::memo::{
    delivered, drained, memo_views, notified, Mailboxes, Memo, MemoView, Memos,
};
use crate::text::{
    after_prefix, decimal, law_split_once_of_joined, push_decimal, same_text, split, split_once,
    strip_prefix, trim, trimmed,
};
use crate::trusted::{
    chain_feed, chain_generate, chain_grown, chain_is_empty, chain_new, chain_tokens, lowercase,
    made_of, pieces, texts, unicode_words, url_with_query, word_tokens, Generator,
};
use crate::urbandict::{lookup_text, lookup_url};
use crate::words::{
    description, has_year, lowercase_all, observed_all, seconds, whole_seconds, year_of, Ledger,
    Words,
};
use vstd::multiset::Multiset;
use vstd::prelude::*;

verus! {

/// The least time between two reminders to one user, in nanoseconds: five
/// minutes.
pub const REMINDER_INTERVAL: u128 = 300_000_000_000;

/// What a command that lacks its argument is about.
#[derive(Clone, Copy, Debug, PartialEq, Eq)]
pub enum Topic {
    Memo,
    Word,
    Dict,
}

/// A line read as a command.
#[derive(Clone, Debug, PartialEq, Eq)]
pub enum Command {
    /// `memo read`: hand the waiting memos to the one who asks.
    MemoRead,
    /// `memo USER message`: leave a memo.
    MemoDeliver { to: String, text: String },
    /// `memo USER` without a message: nothing to do.
    MemoAddressOnly,
    /// `word TERM`: say how a word was used.
    Term { word: String },
    /// `dict TERM`: look a word up in the dictionary.
    Dictionary { term: String },
    /// `clear`: start the evaluator afresh.
    Clear,
    /// `help`: say what the bot is.
    Help,
    /// `markov`: let the generator speak. What it says is made of what it
    /// was fed; before it was fed anything, that is the empty text.
    Generate,
    /// A command without the argument it needs.
    Usage(Topic),
    /// Anything else: a line for the evaluator.
    Freeform { text: String },
}

/// A command over texts as sequences.
pub enum CommandView {
    MemoRead,
    MemoDeliver { to: Seq<char>, text: Seq<char> },
    MemoAddressOnly,
    Term { word: Seq<char> },
    Dictionary { term: Seq<char> },
    Clear,
    Help,
    Generate,
    Usage(Topic),
    Freeform { text: Seq<char> },
}

impl View for Command {
    type V = CommandView;

    open spec fn view(&self) -> CommandView {
        match *self {
            Command::MemoRead => CommandView::MemoRead,
            Command::MemoDeliver { to, text } => CommandView::MemoDeliver { to: to@, text: text@ },
            Command::MemoAddressOnly => CommandView::MemoAddressOnly,
            Command::Term { word } => CommandView::Term { word: word@ },
            Command::Dictionary { term } => CommandView::Dictionary { term: term@ },
            Command::Clear => CommandView::Clear,
            Command::Help => CommandView::Help,
            Command::Generate => CommandView::Generate,
            Command::Usage(topic) => CommandView::Usage(topic),
            Command::Freeform { text } => CommandView::Freeform { text: text@ },
        }
    }
}

/// Work that the caller finishes, since it needs the network or the
/// evaluator.
#[derive(Clone, Debug, PartialEq, Eq)]
pub enum Pending {
    /// Fetch the definitions of `word` from `url`; there is no `url` if
    /// none could be made of the word.
    Lookup { word: String, url: Option<String> },
    /// Give `line` to the evaluator.
    Evaluation { line: String },
}

/// Pending work over texts as sequences.
pub enum PendingView {
    Lookup { word: Seq<char>, url: Option<Seq<char>> },
    Evaluation { line: Seq<char> },
}

/// The text of `text`, if there is one.
pub open spec fn opt_text(text: Option<String>) -> Option<Seq<char>> {
    match text {
        Some(t) => Some(t@),
        None => None,
    }
}

impl View for Pending {
    type V = PendingView;

    open spec fn view(&self) -> PendingView {
        match *self {
            Pending::Lookup { word, url } => PendingView::Lookup { word: word@, url: opt_text(url) },
            Pending::Evaluation { line } => PendingView::Evaluation { line: line@ },
        }
    }
}

/// What a command is answered with.
#[derive(Clone, Debug, PartialEq, Eq)]
pub enum Response {
    /// A fixed hint.
    Info(&'static str),
    /// An answer that the caller has yet to work out.
    Deferred(Pending),
    /// No answer.
    Empty,
    /// An answer.
    Message(String),
    /// The report of a failure.
    Error(String),
}

/// A response over texts as sequences.
pub enum ResponseView {
    Info(Seq<char>),
    Deferred(PendingView),
    Empty,
    Message(Seq<char>),
    Error(Seq<char>),
}

impl View for Response {
    type V = ResponseView;

    open spec fn view(&self) -> ResponseView {
        match *self {
            Response::Info(text) => ResponseView::Info(text@),
            Response::Deferred(pending) => ResponseView::Deferred(pending@),
            Response::Empty => ResponseView::Empty,
            Response::Message(text) => ResponseView::Message(text@),
            Response::Error(text) => ResponseView::Error(text@),
        }
    }
}

/// How an answer travels: as a notice to a channel, or as a message to a
/// user.
#[derive(Clone, Copy, Debug, PartialEq, Eq)]
pub enum Route {
    Notice,
    Direct,
}

/// Something for the caller to do on the network or with the evaluator.
#[derive(Clone, Debug, PartialEq, Eq)]
pub enum Action {
    Notice { target: String, text: String },
    Privmsg { target: String, text: String },
    Pong { token: String },
    Nick { nickname: String },
    Identify,
    ResetEvaluator,
    /// Finish `pending` and send what comes of it to `target` by `route`.
    Resolve { route: Route, target: String, pending: Pending },
}

/// An action over texts as sequences.
pub enum ActionView {
    Notice { target: Seq<char>, text: Seq<char> },
    Privmsg { target: Seq<char>, text: Seq<char> },
    Pong { token: Seq<char> },
    Nick { nickname: Seq<char> },
    Identify,
    ResetEvaluator,
    Resolve { route: Route, target: Seq<char>, pending: PendingView },
}

impl View for Action {
    type V = ActionView;

    open spec fn view(&self) -> ActionView {
        match *self {
            Action::Notice { target, text } => ActionView::Notice { target: target@, text: text@ },
            Action::Privmsg { target, text } => ActionView::Privmsg {
                target: target@,
                text: text@,
            },
            Action::Pong { token } => ActionView::Pong { token: token@ },
            Action::Nick { nickname } => ActionView::Nick { nickname: nickname@ },
            Action::Identify => ActionView::Identify,
            Action::ResetEvaluator => ActionView::ResetEvaluator,
            Action::Resolve { route, target, pending } => ActionView::Resolve {
                route,
                target: target@,
                pending: pending@,
            },
        }
    }
}

/// The views of `actions`, in order.
pub open spec fn action_views(actions: Seq<Action>) -> Seq<ActionView> {
    actions.map_values(|a: Action| a@)
}

/// What the network reports.
#[derive(Clone, Debug, PartialEq, Eq)]
pub enum Event {
    /// `from` said `body` to `to`, a channel or a user.
    Privmsg { from: String, to: String, body: String },
    /// The server asks for a sign of life.
    Ping { token: String },
    /// `user` joined `channel`.
    Join { user: String, channel: String },
    /// The server refused the nickname: somebody else has it.
    NicknameInUse,
    /// Anything else.
    Other,
}

/// An event over texts as sequences.
pub enum EventView {
    Privmsg { from: Seq<char>, to: Seq<char>, body: Seq<char> },
    Ping { token: Seq<char> },
    Join { user: Seq<char>, channel: Seq<char> },
    NicknameInUse,
    Other,
}

impl View for Event {
    type V = EventView;

    open spec fn view(&self) -> EventView {
        match *self {
            Event::Privmsg { from, to, body } => EventView::Privmsg {
                from: from@,
                to: to@,
                body: body@,
            },
            Event::Ping { token } => EventView::Ping { token: token@ },
            Event::Join { user, channel } => EventView::Join { user: user@, channel: channel@ },
            Event::NicknameInUse => EventView::NicknameInUse,
            Event::Other => EventView::Other,
        }
    }
}

/// What the bot knows.
pub struct BotState {
    /// What a line in a channel starts with when it is meant for the bot.
    pub prefix: Seq<char>,
    pub nickname: Seq<char>,
    pub password: Seq<char>,
    pub memos: Mailboxes,
    pub ledger: Ledger,
    /// The tokens that the generator holds, each as often as it was fed.
    pub tokens: Multiset<Seq<char>>,
}

/// What a command comes to: the bot afterwards, what is to be sent at once,
/// and the response.
pub struct Outcome {
    pub state: BotState,
    pub sent: Seq<ActionView>,
    pub response: ResponseView,
}

/// How `text` reads as a command. The first word decides; it is cut off at
/// the first space.
pub open spec fn parse(text: Seq<char>) -> CommandView {
    let (first, rest) = split_once(text);
    if first == "memo"@ {
        match rest {
            Some(rest) => {
                let (second, message) = split_once(rest);
                if second == "read"@ {
                    CommandView::MemoRead
                } else {
                    match message {
                        Some(message) => CommandView::MemoDeliver { to: second, text: message },
                        None => CommandView::MemoAddressOnly,
                    }
                }
            },
            None => CommandView::Usage(Topic::Memo),
        }
    } else if first == "word"@ {
        match rest {
            Some(word) => CommandView::Term { word },
            None => CommandView::Usage(Topic::Word),
        }
    } else if first == "help"@ {
        CommandView::Help
    } else if first == "dict"@ {
        match rest {
            Some(term) => CommandView::Dictionary { term },
            None => CommandView::Usage(Topic::Dict),
        }
    } else if first == "clear"@ {
        CommandView::Clear
    } else if first == "markov"@ {
        CommandView::Generate
    } else {
        CommandView::Freeform { text }
    }
}

/// The hint for a command about `topic` that lacks its argument.
pub open spec fn usage(topic: Topic) -> Seq<char> {
    match topic {
        Topic::Memo => "usage: memo (read | USER message)"@,
        Topic::Word => "usage: word TERM"@,
        Topic::Dict => "usage: dict TERM"@,
    }
}

/// The line in which a memo is handed over.
pub open spec fn memo_line(memo: MemoView) -> Seq<char> {
    memo.from + ": "@ + memo.msg
}

/// The messages that hand `memos` to `user`, one for each.
pub open spec fn memo_messages(user: Seq<char>, memos: Seq<MemoView>) -> Seq<ActionView> {
    Seq::new(
        memos.len(),
        |i: int| ActionView::Privmsg { target: user, text: memo_line(memos[i]) },
    )
}

/// The reminder for `user`, for whom `count` memos wait.
pub open spec fn welcome(user: Seq<char>, count: nat) -> Seq<char> {
    "Welcome back "@ + user + ", you have "@ + decimal(count)
        + " memos. type `/msg j memo read` to read."@
}

/// What the bot comes to by the command `msg` of `user` at `now` seconds
/// since the Unix epoch, where `babble` is what the generator says if it is
/// asked. A generator that holds no token has nothing to say, and the
/// answer is the empty text.
pub open spec fn respond_model(
    s: BotState,
    user: Seq<char>,
    msg: Seq<char>,
    now: nat,
    babble: Seq<char>,
) -> Outcome {
    match parse(msg) {
        CommandView::MemoRead => Outcome {
            state: BotState { memos: drained(s.memos, user).0, ..s },
            sent: memo_messages(user, drained(s.memos, user).1),
            response: ResponseView::Empty,
        },
        CommandView::MemoDeliver { to, text } => Outcome {
            state: BotState {
                memos: delivered(s.memos, to, MemoView { from: user, msg: text }),
                ..s
            },
            sent: Seq::empty(),
            response: ResponseView::Message("added memo for "@ + to),
        },
        CommandView::MemoAddressOnly => Outcome {
            state: s,
            sent: Seq::empty(),
            response: ResponseView::Empty,
        },
        CommandView::Term { word } => Outcome {
            state: s,
            sent: Seq::empty(),
            response: if s.ledger.contains_key(lowercase(word)) {
                ResponseView::Message(
                    description(
                        word,
                        s.ledger[lowercase(word)],
                        now,
                        year_of(s.ledger[lowercase(word)].first_use),
                        year_of(s.ledger[lowercase(word)].last_use),
                    ),
                )
            } else {
                ResponseView::Info("was not seen yet"@)
            },
        },
        CommandView::Dictionary { term } => Outcome {
            state: s,
            sent: Seq::empty(),
            response: ResponseView::Deferred(
                PendingView::Lookup {
                    word: term,
                    url: url_with_query(
                        "https://api.urbandictionary.com/v0/define"@,
                        "term"@,
                        term,
                    ),
                },
            ),
        },
        CommandView::Clear => Outcome {
            state: s,
            sent: seq![ActionView::ResetEvaluator],
            response: ResponseView::Empty,
        },
        CommandView::Help => Outcome {
            state: s,
            sent: Seq::empty(),
            response: ResponseView::Info(
                "This is J, a bot written in Rust and maintained by sebk (see https://gitlab.com/sebk/j)"@,
            ),
        },
        CommandView::Generate => Outcome {
            state: s,
            sent: Seq::empty(),
            response: ResponseView::Message(
                if s.tokens.len() > 0 {
                    babble
                } else {
                    Seq::empty()
                },
            ),
        },
        CommandView::Usage(topic) => Outcome {
            state: s,
            sent: Seq::empty(),
            response: ResponseView::Info(usage(topic)),
        },
        CommandView::Freeform { text } => Outcome {
            state: s,
            sent: Seq::empty(),
            response: ResponseView::Deferred(PendingView::Evaluation { line: text }),
        },
    }
}

/// How `response` is sent to `target` by `route`: nothing for no answer,
/// a text at once, pending work for the caller to finish.
pub open spec fn routed(response: ResponseView, route: Route, target: Seq<char>) -> Seq<
    ActionView,
> {
    match response {
        ResponseView::Empty => Seq::empty(),
        ResponseView::Info(text) | ResponseView::Message(text) | ResponseView::Error(text) => seq![
            carried(route, target, text),
        ],
        ResponseView::Deferred(pending) => seq![ActionView::Resolve { route, target, pending }],
    }
}

/// The action that sends `text` to `target` by `route`.
pub open spec fn carried(route: Route, target: Seq<char>, text: Seq<char>) -> ActionView {
    match route {
        Route::Notice => ActionView::Notice { target, text },
        Route::Direct => ActionView::Privmsg { target, text },
    }
}

/// Whether `babble` is something that the generator can say in answer to
/// the command `msg`: if the command asks it to speak and it holds a token,
/// every piece of `babble` is one of its tokens.
pub open spec fn well_said(s: BotState, msg: Seq<char>, babble: Seq<char>) -> bool {
    parse(msg) is Generate && s.tokens.len() > 0 ==> made_of(s.tokens, babble)
}

/// Whether `babble` is something that the generator can say in answer to
/// `event`.
pub open spec fn well_answered(s: BotState, event: EventView, babble: Seq<char>) -> bool {
    match event {
        EventView::Privmsg { from, to, body } => match after_prefix(body, s.prefix) {
            Some(rest) => well_said(s, trimmed(rest), babble),
            None => to == s.nickname ==> well_said(s, body, babble),
        },
        _ => true,
    }
}

/// The bot after it overheard `body` at `now` seconds since the Unix
/// epoch: the words of `body` are recorded, if the calendar has a year for
/// the time, and the pieces of `body` between its spaces are fed to the
/// generator.
pub open spec fn overheard(s: BotState, body: Seq<char>, now: nat) -> BotState {
    BotState {
        ledger: if has_year(now) {
            observed_all(s.ledger, lowercase_all(word_tokens(body)), now)
        } else {
            s.ledger
        },
        tokens: s.tokens.add(pieces(body).to_multiset()),
        ..s
    }
}

/// What the bot comes to by `event` at `now` nanoseconds since the Unix
/// epoch, and what is to be sent, where `babble` is what the generator
/// says if it is asked.
pub open spec fn handle_model(s: BotState, event: EventView, now: nat, babble: Seq<char>) -> (
    BotState,
    Seq<ActionView>,
) {
    match event {
        EventView::Privmsg { from, to, body } => match after_prefix(body, s.prefix) {
            Some(rest) => {
                let o = respond_model(s, from, trimmed(rest), seconds(now), babble);
                (o.state, o.sent + routed(o.response, Route::Notice, to))
            },
            None => if to == s.nickname {
                let o = respond_model(s, from, body, seconds(now), babble);
                (o.state, o.sent + routed(o.response, Route::Direct, from))
            } else {
                (overheard(s, body, seconds(now)), Seq::empty())
            },
        },
        EventView::Ping { token } => (s, seq![ActionView::Pong { token }]),
        EventView::Join { user, channel } => {
            let (memos, count) = notified(s.memos, user, now, REMINDER_INTERVAL as nat);
            match count {
                Some(count) => (
                    BotState { memos, ..s },
                    seq![
                        ActionView::Privmsg { target: user, text: welcome(user, count) },
                        ActionView::Notice { target: channel, text: welcome(user, count) },
                    ],
                ),
                None => (s, Seq::empty()),
            }
        },
        EventView::NicknameInUse => (
            s,
            seq![
                ActionView::Nick { nickname: s.nickname + "_"@ },
                ActionView::Privmsg {
                    target: "NickServ"@,
                    text: "RECOVER "@ + s.nickname + " "@ + s.password,
                },
                ActionView::Identify,
            ],
        ),
        EventView::Other => (s, Seq::empty()),
    }
}

/// What the evaluator's result is answered with: its text, nothing if it
/// has none, or the report of its failure.
pub open spec fn evaluation_model(result: Result<Option<Seq<char>>, Seq<char>>) -> ResponseView {
    match result {
        Ok(Some(text)) => ResponseView::Message(text),
        Ok(None) => ResponseView::Empty,
        Err(report) => ResponseView::Error(report),
    }
}

/// A memo sent as `memo USER message` is left for that user in the name of
/// the sender, and confirmed; nothing else changes and nothing is sent at
/// once. The user's name holds no space and is not `read`.
pub proof fn law_memo_is_left_and_confirmed(
    s: BotState,
    user: Seq<char>,
    to: Seq<char>,
    text: Seq<char>,
    now: nat,
    babble: Seq<char>,
)
    requires
        !to.contains(' '),
        to != "read"@,
    ensures
        respond_model(s, user, "memo "@ + to + " "@ + text, now, babble) == (Outcome {
            state: BotState {
                memos: delivered(s.memos, to, MemoView { from: user, msg: text }),
                ..s
            },
            sent: Seq::empty(),
            response: ResponseView::Message("added memo for "@ + to),
        }),
        delivered(s.memos, to, MemoView { from: user, msg: text }).contains_key(to),
        delivered(s.memos, to, MemoView { from: user, msg: text })[to].entries.last() == (MemoView {
            from: user,
            msg: text,
        }),
{
    reveal_strlit("memo");
    reveal_strlit("memo ");
    reveal_strlit(" ");
    let rest = to + seq![' '] + text;
    let line = "memo "@ + to + " "@ + text;
    assert(line =~= "memo"@ + seq![' '] + rest);
    assert(!"memo"@.contains(' '));
    law_split_once_of_joined("memo"@, rest);
    law_split_once_of_joined(to, text);
}

/// A lookup sent as `dict TERM` changes nothing and is left to the caller,
/// with the address to ask; if nothing comes back from there, the answer
/// says so.
pub proof fn law_lookup_is_deferred(
    s: BotState,
    user: Seq<char>,
    term: Seq<char>,
    now: nat,
    babble: Seq<char>,
    roll: nat,
)
    ensures
        respond_model(s, user, "dict "@ + term, now, babble) == (Outcome {
            state: s,
            sent: Seq::empty(),
            response: ResponseView::Deferred(
                PendingView::Lookup {
                    word: term,
                    url: url_with_query(
                        "https://api.urbandictionary.com/v0/define"@,
                        "term"@,
                        term,
                    ),
                },
            ),
        }),
        lookup_text(term, Seq::empty(), roll) == "no results for '"@ + term + "'"@,
{
    reveal_strlit("dict");
    reveal_strlit("dict ");
    reveal_strlit("memo");
    reveal_strlit("word");
    reveal_strlit("help");
    assert("dict "@ + term =~= "dict"@ + seq![' '] + term);
    assert(!"dict"@.contains(' '));
    law_split_once_of_joined("dict"@, term);
    assert("dict"@[0] != "memo"@[0]);
    assert("dict"@[0] != "word"@[0]);
    assert("dict"@[0] != "help"@[0]);
}

/// A line that is overheard, neither opened by the bot's prefix nor sent to
/// the bot itself, is never answered and touches no memo; its words are
/// recorded at the second shown, whatever the ledger holds, if the calendar
/// has a year for it, and its pieces are fed to the generator.
pub proof fn law_overheard_is_not_answered(
    s: BotState,
    from: Seq<char>,
    to: Seq<char>,
    body: Seq<char>,
    now: nat,
    babble: Seq<char>,
)
    requires
        after_prefix(body, s.prefix) is None,
        to != s.nickname,
    ensures
        ({
            let after = handle_model(s, EventView::Privmsg { from, to, body }, now, babble);
            let terms = lowercase_all(word_tokens(body));
            let at = seconds(now);
            &&& after.1 == Seq::<ActionView>::empty()
            &&& after.0.memos == s.memos
            &&& after.0.tokens == s.tokens.add(pieces(body).to_multiset())
            &&& has_year(at) ==> after.0.ledger == observed_all(s.ledger, terms, at)
            &&& !has_year(at) ==> after.0.ledger == s.ledger
        }),
{
}

/// A user who was reminded on joining is not reminded again on joining
/// within the interval, whatever the channel.
pub proof fn law_rejoin_is_not_reminded(
    s: BotState,
    user: Seq<char>,
    channel: Seq<char>,
    again: Seq<char>,
    first: nat,
    second: nat,
    babble: Seq<char>,
)
    requires
        handle_model(s, EventView::Join { user, channel }, first, babble).1.len() > 0,
        second - first <= REMINDER_INTERVAL,
    ensures
        ({
            let reminded = handle_model(s, EventView::Join { user, channel }, first, babble).0;
            handle_model(reminded, EventView::Join { user, channel: again }, second, babble) == (
                reminded,
                Seq::<ActionView>::empty(),
            )
        }),
{
}

/// No event changes how the bot is called.
pub proof fn law_name_is_kept(s: BotState, event: EventView, now: nat, babble: Seq<char>)
    ensures
        handle_model(s, event, now, babble).0.prefix == s.prefix,
        handle_model(s, event, now, babble).0.nickname == s.nickname,
        handle_model(s, event, now, babble).0.password == s.password,
{
}

/// Reads `text` as a command.
pub fn parse_command(text: &str) -> (command: Command)
    ensures
        command@ == parse(text@),
{
    let (first, rest) = split(text);
    if same_text(first, "memo") {
        match rest {
            Some(rest) => {
                let (second, message) = split(rest);
                if same_text(second, "read") {
                    Command::MemoRead
                } else {
                    match message {
                        Some(message) => Command::MemoDeliver {
                            to: second.to_owned(),
                            text: message.to_owned(),
                        },
                        None => Command::MemoAddressOnly,
                    }
                }
            },
            None => Command::Usage(Topic::Memo),
        }
    } else if same_text(first, "word") {
        match rest {
            Some(word) => Command::Term { word: word.to_owned() },
            None => Command::Usage(Topic::Word),
        }
    } else if same_text(first, "help") {
        Command::Help
    } else if same_text(first, "dict") {
        match rest {
            Some(term) => Command::Dictionary { term: term.to_owned() },
            None => Command::Usage(Topic::Dict),
        }
    } else if same_text(first, "clear") {
        Command::Clear
    } else if same_text(first, "markov") {
        Command::Generate
    } else {
        Command::Freeform { text: text.to_owned() }
    }
}

/// The hint for a command about `topic` that lacks its argument.
pub fn usage_text(topic: Topic) -> (text: &'static str)
    ensures
        text@ == usage(topic),
{
    match topic {
        Topic::Memo => "usage: memo (read | USER message)",
        Topic::Word => "usage: word TERM",
        Topic::Dict => "usage: dict TERM",
    }
}

/// Appends `action` to `out`.
pub fn push_action(out: &mut Vec<Action>, action: Action)
    ensures
        action_views(final(out)@) == action_views(old(out)@).push(action@),
{
    out.push(action);
    assert(action_views(out@) =~= action_views(old(out)@).push(action@));
}

/// Appends to `out` the messages that hand `memos` to `user`.
pub fn send_memos(user: &str, memos: &Vec<Memo>, out: &mut Vec<Action>)
    ensures
        action_views(final(out)@) == action_views(old(out)@) + memo_messages(
            user@,
            memo_views(memos@),
        ),
{
    let ghost all = memo_messages(user@, memo_views(memos@));
    let mut i: usize = 0;
    assert(action_views(out@) =~= action_views(old(out)@) + all.take(0));
    while i < memos.len()
        invariant
            i <= memos.len(),
            all == memo_messages(user@, memo_views(memos@)),
            action_views(out@) == action_views(old(out)@) + all.take(i as int),
        decreases memos.len() - i,
    {
        let mut text = memos[i].from.clone();
        text.append(": ");
        text.append(memos[i].msg.as_str());
        assert(text@ == memo_line(memo_views(memos@)[i as int]));
        push_action(out, Action::Privmsg { target: user.to_owned(), text });
        assert(all.take(i + 1) =~= all.take(i as int).push(all[i as int]));
        i += 1;
    }
    assert(all.take(memos.len() as int) =~= all);
}

/// Appends to `out` what sends `response` to `target` by `route`.
pub fn send_response(response: Response, route: Route, target: &str, out: &mut Vec<Action>)
    ensures
        action_views(final(out)@) == action_views(old(out)@) + routed(response@, route, target@),
{
    let ghost before = action_views(out@);
    match response {
        Response::Empty => {
            assert(before + routed(response@, route, target@) =~= before);
        },
        Response::Info(text) => {
            let action = carry(route, target, text.to_owned());
            push_action(out, action);
            assert(before + routed(response@, route, target@) =~= before.push(action@));
        },
        Response::Message(text) => {
            let action = carry(route, target, text);
            push_action(out, action);
            assert(before + routed(response@, route, target@) =~= before.push(action@));
        },
        Response::Error(text) => {
            let action = carry(route, target, text);
            push_action(out, action);
            assert(before + routed(response@, route, target@) =~= before.push(action@));
        },
        Response::Deferred(pending) => {
            let action = Action::Resolve { route, target: target.to_owned(), pending };
            push_action(out, action);
            assert(before + routed(response@, route, target@) =~= before.push(action@));
        },
    }
}

/// The action that sends `text` to `target` by `route`.
pub fn carry(route: Route, target: &str, text: String) -> (action: Action)
    ensures
        action@ == carried(route, target@, text@),
{
    match route {
        Route::Notice => Action::Notice { target: target.to_owned(), text },
        Route::Direct => Action::Privmsg { target: target.to_owned(), text },
    }
}

/// The texts of an evaluator's result.
pub open spec fn result_texts(result: Result<Option<String>, String>) -> Result<
    Option<Seq<char>>,
    Seq<char>,
> {
    match result {
        Ok(text) => Ok(opt_text(text)),
        Err(report) => Err(report@),
    }
}

/// What the evaluator's result is answered with.
pub fn evaluated(result: Result<Option<String>, String>) -> (response: Response)
    ensures
        response@ == evaluation_model(result_texts(result)),
{
    match result {
        Ok(Some(text)) => Response::Message(text),
        Ok(None) => Response::Empty,
        Err(report) => Response::Error(report),
    }
}

/// The bot: its name on the network, the memos, the ledger of words and
/// the text generator.
pub struct JBot {
    prefix: String,
    nickname: String,
    password: String,
    words: Words,
    memos: Memos,
    chain: Generator,
}

impl View for JBot {
    type V = BotState;

    closed spec fn view(&self) -> BotState {
        BotState {
            prefix: self.prefix@,
            nickname: self.nickname@,
            password: self.password@,
            memos: self.memos@,
            ledger: self.words@,
            tokens: chain_tokens(self.chain),
        }
    }
}

impl JBot {
    /// The memos and the ledger are well formed, and the generator's chain
    /// is a grown one.
    pub closed spec fn wf(&self) -> bool {
        self.words.wf() && self.memos.wf() && chain_grown(self.chain)
    }

    /// A bot named `nickname` that starts out with `words`, `memos` and
    /// `chain`, a grown chain. It takes a line in a channel as meant for it
    /// when the line starts with its name and a colon.
    pub fn new(nickname: &str, password: &str, words: Words, memos: Memos, chain: Generator) -> (bot:
        JBot)
        requires
            words.wf(),
            memos.wf(),
            chain_grown(chain),
        ensures
            bot.wf(),
            bot@ == (BotState {
                prefix: nickname@ + ":"@,
                nickname: nickname@,
                password: password@,
                memos: memos@,
                ledger: words@,
                tokens: chain_tokens(chain),
            }),
    {
        let mut prefix = String::from_str(nickname);
        prefix.append(":");
        JBot {
            prefix,
            nickname: nickname.to_owned(),
            password: password.to_owned(),
            words,
            memos,
            chain,
        }
    }

    /// A bot named `nickname` that knows nothing yet: no memos, no words,
    /// and a generator that was never fed.
    pub fn fresh(nickname: &str, password: &str) -> (bot: JBot)
        ensures
            bot.wf(),
            bot@ == (BotState {
                prefix: nickname@ + ":"@,
                nickname: nickname@,
                password: password@,
                memos: Mailboxes::empty(),
                ledger: Ledger::empty(),
                tokens: Multiset::empty(),
            }),
    {
        JBot::new(nickname, password, Words::new(), Memos::new(), chain_new())
    }

    /// The ledger of words.
    pub fn words(&self) -> (words: &Words)
        requires
            self.wf(),
        ensures
            words.wf(),
            words@ == self@.ledger,
    {
        &self.words
    }

    /// The memos.
    pub fn memos(&self) -> (memos: &Memos)
        requires
            self.wf(),
        ensures
            memos.wf(),
            memos@ == self@.memos,
    {
        &self.memos
    }

    /// The text generator.
    pub fn chain(&self) -> (chain: &Generator)
        requires
            self.wf(),
        ensures
            chain_grown(*chain),
            chain_tokens(*chain) == self@.tokens,
    {
        &self.chain
    }

    /// Carries out the command `msg` of `user` at `now` seconds since the
    /// Unix epoch. What is to be sent at once is appended to `out`; the
    /// response is returned.
    pub fn respond_at(&mut self, user: &str, msg: &str, now: u64, out: &mut Vec<Action>) -> (response:
        Response)
        requires
            old(self).wf(),
        ensures
            final(self).wf(),
            exists|babble: Seq<char>|
                ({
                    let o = #[trigger] respond_model(old(self)@, user@, msg@, now as nat, babble);
                    &&& well_said(old(self)@, msg@, babble)
                    &&& final(self)@ == o.state
                    &&& action_views(final(out)@) == action_views(old(out)@) + o.sent
                    &&& response@ == o.response
                }),
    {
        let ghost before = action_views(out@);
        let ghost quiet = Seq::<char>::empty();
        assert(before + Seq::<ActionView>::empty() =~= before);
        match parse_command(msg) {
            Command::MemoRead => {
                let memos = self.memos.get_memos(user);
                send_memos(user, &memos, out);
                assert(respond_model(old(self)@, user@, msg@, now as nat, quiet).state == self@);
                Response::Empty
            },
            Command::MemoDeliver { to, text } => {
                let mut answer = String::from_str("added memo for ");
                answer.append(to.as_str());
                self.memos.add_memo(to.as_str(), Memo { from: user.to_owned(), msg: text });
                assert(respond_model(old(self)@, user@, msg@, now as nat, quiet).state == self@);
                Response::Message(answer)
            },
            Command::MemoAddressOnly => {
                assert(respond_model(old(self)@, user@, msg@, now as nat, quiet).state == self@);
                Response::Empty
            },
            Command::Term { word } => {
                assert(respond_model(old(self)@, user@, msg@, now as nat, quiet).state == self@);
                match self.words.describe(word.as_str(), now) {
                    Some(text) => Response::Message(text),
                    None => Response::Info("was not seen yet"),
                }
            },
            Command::Dictionary { term } => {
                assert(respond_model(old(self)@, user@, msg@, now as nat, quiet).state == self@);
                let url = lookup_url(term.as_str());
                Response::Deferred(Pending::Lookup { word: term, url })
            },
            Command::Clear => {
                push_action(out, Action::ResetEvaluator);
                assert(action_views(out@) =~= before + seq![ActionView::ResetEvaluator]);
                assert(respond_model(old(self)@, user@, msg@, now as nat, quiet).state == self@);
                Response::Empty
            },
            Command::Help => {
                assert(respond_model(old(self)@, user@, msg@, now as nat, quiet).state == self@);
                Response::Info(
                    "This is J, a bot written in Rust and maintained by sebk (see https://gitlab.com/sebk/j)",
                )
            },
            Command::Generate => {
                if chain_is_empty(&self.chain) {
                    assert(respond_model(old(self)@, user@, msg@, now as nat, quiet).state
                        == self@);
                    Response::Message(String::new())
                } else {
                    let text = chain_generate(&self.chain);
                    assert(respond_model(old(self)@, user@, msg@, now as nat, text@).state
                        == self@);
                    Response::Message(text)
                }
            },
            Command::Usage(topic) => {
                assert(respond_model(old(self)@, user@, msg@, now as nat, quiet).state == self@);
                Response::Info(usage_text(topic))
            },
            Command::Freeform { text } => {
                assert(respond_model(old(self)@, user@, msg@, now as nat, quiet).state == self@);
                Response::Deferred(Pending::Evaluation { line: text })
            },
        }
    }

    /// Carries out the command `msg` of `user` at the time of the system
    /// clock, or as at the epoch when the clock cannot be read.
    pub fn respond(&mut self, user: &str, msg: &str, out: &mut Vec<Action>) -> (response: Response)
        requires
            old(self).wf(),
        ensures
            final(self).wf(),
            exists|now: nat, babble: Seq<char>|
                ({
                    let o = #[trigger] respond_model(old(self)@, user@, msg@, now, babble);
                    &&& well_said(old(self)@, msg@, babble)
                    &&& final(self)@ == o.state
                    &&& action_views(final(out)@) == action_views(old(out)@) + o.sent
                    &&& response@ == o.response
                }),
    {
        let now = match now() {
            Some(nanos) => whole_seconds(nanos),
            None => 0,
        };
        self.respond_at(user, msg, now, out)
    }

    /// Takes in `event` at `now` nanoseconds since the Unix epoch and
    /// appends to `out` what is to be sent.
    pub fn handle_at(&mut self, event: &Event, now: u128, out: &mut Vec<Action>)
        requires
            old(self).wf(),
        ensures
            final(self).wf(),
            exists|babble: Seq<char>|
                well_answered(old(self)@, event@, babble) && (
                    final(self)@,
                    action_views(final(out)@),
                ) == (
                    (#[trigger] handle_model(old(self)@, event@, now as nat, babble)).0,
                    action_views(old(out)@) + handle_model(old(self)@, event@, now as nat, babble).1,
                ),
    {
        let ghost before = action_views(out@);
        let ghost quiet = Seq::<char>::empty();
        match event {
            Event::Privmsg { from, to, body } => {
                match strip_prefix(body.as_str(), self.prefix.as_str()) {
                    Some(rest) => {
                        let response = self.respond_at(
                            from.as_str(),
                            trim(rest),
                            whole_seconds(now),
                            out,
                        );
                        let ghost babble = choose|babble: Seq<char>|
                            {
                                let o = #[trigger] respond_model(
                                    old(self)@,
                                    from@,
                                    trimmed(rest@),
                                    seconds(now as nat),
                                    babble,
                                );
                                &&& well_said(old(self)@, trimmed(rest@), babble)
                                &&& self@ == o.state
                                &&& action_views(out@) == before + o.sent
                                &&& response@ == o.response
                            };
                        send_response(response, Route::Notice, to.as_str(), out);
                        assert(handle_model(old(self)@, event@, now as nat, babble).0 == self@);
                        assert(action_views(out@) =~= before + handle_model(
                            old(self)@,
                            event@,
                            now as nat,
                            babble,
                        ).1);
                    },
                    None => {
                        if same_text(to.as_str(), self.nickname.as_str()) {
                            let response = self.respond_at(
                                from.as_str(),
                                body.as_str(),
                                whole_seconds(now),
                                out,
                            );
                            let ghost babble = choose|babble: Seq<char>|
                                {
                                    let o = #[trigger] respond_model(
                                        old(self)@,
                                        from@,
                                        body@,
                                        seconds(now as nat),
                                        babble,
                                    );
                                    &&& well_said(old(self)@, body@, babble)
                                    &&& self@ == o.state
                                    &&& action_views(out@) == before + o.sent
                                    &&& response@ == o.response
                                };
                            send_response(response, Route::Direct, from.as_str(), out);
                            assert(handle_model(old(self)@, event@, now as nat, babble).0
                                == self@);
                            assert(action_views(out@) =~= before + handle_model(
                                old(self)@,
                                event@,
                                now as nat,
                                babble,
                            ).1);
                        } else {
                            let tokens = unicode_words(body.as_str());
                            assert(texts(tokens@).len() == tokens.len());
                            self.words.seen_at(&tokens, whole_seconds(now));
                            chain_feed(&mut self.chain, body.as_str());
                            assert(handle_model(old(self)@, event@, now as nat, quiet).0 == self@);
                            assert(action_views(out@) =~= before + handle_model(
                                old(self)@,
                                event@,
                                now as nat,
                                quiet,
                            ).1);
                        }
                    },
                }
            },
            Event::Ping { token } => {
                push_action(out, Action::Pong { token: token.clone() });
                assert(handle_model(old(self)@, event@, now as nat, quiet).0 == self@);
                assert(action_views(out@) =~= before + handle_model(
                    old(self)@,
                    event@,
                    now as nat,
                    quiet,
                ).1);
            },
            Event::Join { user, channel } => {
                match self.memos.notify_if_due(user.as_str(), now, REMINDER_INTERVAL) {
                    Some(count) => {
                        let mut text = String::from_str("Welcome back ");
                        text.append(user.as_str());
                        text.append(", you have ");
                        push_decimal(&mut text, count as u64);
                        text.append(" memos. type `/msg j memo read` to read.");
                        assert(text@ == welcome(user@, count as nat));
                        push_action(
                            out,
                            Action::Privmsg { target: user.clone(), text: text.clone() },
                        );
                        push_action(out, Action::Notice { target: channel.clone(), text });
                    },
                    None => {},
                }
                assert(handle_model(old(self)@, event@, now as nat, quiet).0 == self@);
                assert(action_views(out@) =~= before + handle_model(
                    old(self)@,
                    event@,
                    now as nat,
                    quiet,
                ).1);
            },
            Event::NicknameInUse => {
                let mut nickname = self.nickname.clone();
                nickname.append("_");
                let mut plea = String::from_str("RECOVER ");
                plea.append(self.nickname.as_str());
                plea.append(" ");
                plea.append(self.password.as_str());
                push_action(out, Action::Nick { nickname });
                push_action(
                    out,
                    Action::Privmsg { target: String::from_str("NickServ"), text: plea },
                );
                push_action(out, Action::Identify);
                assert(handle_model(old(self)@, event@, now as nat, quiet).0 == self@);
                assert(action_views(out@) =~= before + handle_model(
                    old(self)@,
                    event@,
                    now as nat,
                    quiet,
                ).1);
            },
            Event::Other => {
                assert(handle_model(old(self)@, event@, now as nat, quiet).0 == self@);
                assert(action_views(out@) =~= before + handle_model(
                    old(self)@,
                    event@,
                    now as nat,
                    quiet,
                ).1);
            },
        }
    }

    /// Takes in `event` at the time of the system clock, or as at the epoch
    /// when the clock cannot be read, and returns what is to be sent.
    pub fn handle_msg(&mut self, event: &Event) -> (out: Vec<Action>)
        requires
            old(self).wf(),
        ensures
            final(self).wf(),
            exists|now: nat, babble: Seq<char>|
                well_answered(old(self)@, event@, babble) && (final(self)@, action_views(out@))
                    == #[trigger] handle_model(old(self)@, event@, now, babble),
    {
        let now = match now() {
            Some(nanos) => nanos,
            None => 0,
        };
        let mut out: Vec<Action> = Vec::new();
        self.handle_at(event, now, &mut out);
        proof {
            let babble = choose|babble: Seq<char>|
                well_answered(old(self)@, event@, babble) && (self@, action_views(out@)) == (
                    (#[trigger] handle_model(old(self)@, event@, now as nat, babble)).0,
                    action_views(Seq::<Action>::empty()) + handle_model(
                        old(self)@,
                        event@,
                        now as nat,
                        babble,
                    ).1,
                );
            assert(action_views(Seq::<Action>::empty()) + handle_model(
                old(self)@,
                event@,
                now as nat,
                babble,
            ).1 =~= handle_model(old(self)@, event@, now as nat, babble).1);
        }
        out
    }
}

} // verus!
