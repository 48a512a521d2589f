//! The life of the connection: when to connect, when to hand events to the
//! bot, when to write the bot's state out, and when to stop.
//!
//! The supervisor decides; the caller acts. After every signal the caller
//! carries out the directive it is given, and goes on until the phase is
//! `ShuttingDown`.

use vstd::prelude::*;

verus! {

/// Where the connection stands.
#[derive(Clone, Copy, PartialEq, Eq, Structural, Debug)]
pub enum Phase {
    /// No connection. The next signal, whatever it is, starts an attempt.
    Disconnected,
    /// An attempt to connect is under way.
    Connecting,
    /// The connection is up and events are handed to the bot.
    Connected,
    /// The operator asked to stop. Nothing follows.
    ShuttingDown,
}

/// What happened outside.
#[derive(Clone, Copy, PartialEq, Eq, Structural, Debug)]
pub enum Signal {
    /// Time to go on, with nothing to report.
    Resume,
    /// The attempt to connect succeeded.
    Opened,
    /// The connection failed or was never made.
    Failed,
    /// An event arrived on the connection.
    Inbound,
    /// The operator asked to stop.
    Shutdown,
}

/// What the caller is to do next.
#[derive(Clone, Copy, PartialEq, Eq, Structural, Debug)]
pub enum Directive {
    /// Try to open the connection.
    Connect,
    /// Identify on the new connection and take up the bot's state.
    Begin,
    /// Hand the event to the bot and send what it answers.
    Dispatch,
    /// Write the bot's state out.
    Flush,
}

/// The phase after `signal` in `phase`, and the directive for the caller.
pub open spec fn next(phase: Phase, signal: Signal) -> (Phase, Option<Directive>) {
    match phase {
        Phase::Disconnected => (Phase::Connecting, Some(Directive::Connect)),
        Phase::Connecting => match signal {
            Signal::Opened => (Phase::Connected, Some(Directive::Begin)),
            Signal::Failed => (Phase::Disconnected, None),
            Signal::Shutdown => (Phase::ShuttingDown, None),
            _ => (Phase::Connecting, None),
        },
        Phase::Connected => match signal {
            Signal::Inbound => (Phase::Connected, Some(Directive::Dispatch)),
            Signal::Failed => (Phase::Disconnected, Some(Directive::Flush)),
            Signal::Shutdown => (Phase::ShuttingDown, Some(Directive::Flush)),
            _ => (Phase::Connected, None),
        },
        Phase::ShuttingDown => (Phase::ShuttingDown, None),
    }
}

/// The phase after `signals`, in order, from `phase`.
pub open spec fn phase_after(phase: Phase, signals: Seq<Signal>) -> Phase
    decreases signals.len(),
{
    if signals.len() == 0 {
        phase
    } else {
        next(phase_after(phase, signals.drop_last()), signals.last()).0
    }
}

/// The directive that the signal `signals[i]` brings in a run from
/// `phase`.
pub open spec fn directive_at(phase: Phase, signals: Seq<Signal>, i: int) -> Option<Directive> {
    next(phase_after(phase, signals.take(i)), signals[i]).1
}

/// How often a run of `signals` from `phase` is told to write the state
/// out.
pub open spec fn flushes(phase: Phase, signals: Seq<Signal>) -> nat
    decreases signals.len(),
{
    if signals.len() == 0 {
        0
    } else {
        let before = phase_after(phase, signals.drop_last());
        flushes(phase, signals.drop_last()) + if next(before, signals.last()).1 == Some(
            Directive::Flush,
        ) {
            1nat
        } else {
            0nat
        }
    }
}

/// How often a run of `signals` from `phase` leaves the phase `Connected`.
pub open spec fn exits(phase: Phase, signals: Seq<Signal>) -> nat
    decreases signals.len(),
{
    if signals.len() == 0 {
        0
    } else {
        let before = phase_after(phase, signals.drop_last());
        exits(phase, signals.drop_last()) + if before == Phase::Connected && next(
            before,
            signals.last(),
        ).0 != Phase::Connected {
            1nat
        } else {
            0nat
        }
    }
}

/// The state is written out when the connection is left, and only then.
pub proof fn law_flush_on_exit(phase: Phase, signal: Signal)
    ensures
        (next(phase, signal).1 == Some(Directive::Flush)) <==> (phase == Phase::Connected && next(
            phase,
            signal,
        ).0 != Phase::Connected),
{
}

/// In any run the state is written out exactly once for each time the
/// connection is left.
pub proof fn law_one_flush_per_exit(phase: Phase, signals: Seq<Signal>)
    ensures
        flushes(phase, signals) == exits(phase, signals),
    decreases signals.len(),
{
    if signals.len() > 0 {
        law_one_flush_per_exit(phase, signals.drop_last());
    }
}

/// Events are handed to the bot while the connection is up, and only then.
pub proof fn law_dispatch_while_connected(phase: Phase, signal: Signal)
    ensures
        (next(phase, signal).1 == Some(Directive::Dispatch)) <==> (phase == Phase::Connected
            && signal == Signal::Inbound),
        next(phase, signal).1 == Some(Directive::Dispatch) ==> next(phase, signal).0
            == Phase::Connected,
{
}

/// A lost connection is always tried again, whatever comes next; only the
/// operator's request stops the supervisor, and then for good.
pub proof fn law_retry_until_shutdown(phase: Phase, signal: Signal)
    ensures
        next(Phase::Disconnected, signal) == (Phase::Connecting, Some(Directive::Connect)),
        next(Phase::ShuttingDown, signal) == (Phase::ShuttingDown, None::<Directive>),
        next(phase, signal).0 == Phase::ShuttingDown ==> phase == Phase::ShuttingDown || signal
            == Signal::Shutdown,
        phase == Phase::Connected && signal == Signal::Shutdown ==> next(phase, signal).0
            == Phase::ShuttingDown,
{
}

/// Once the supervisor is shutting down, no run leads out of it.
pub proof fn law_shutdown_is_final(signals: Seq<Signal>)
    ensures
        phase_after(Phase::ShuttingDown, signals) == Phase::ShuttingDown,
    decreases signals.len(),
{
    if signals.len() > 0 {
        law_shutdown_is_final(signals.drop_last());
    }
}

/// The supervisor of one connection.
pub struct Supervisor {
    phase: Phase,
}

impl Supervisor {
    /// Where the connection stands.
    pub closed spec fn phase(&self) -> Phase {
        self.phase
    }

    /// A supervisor that has no connection yet.
    pub fn new() -> (supervisor: Supervisor)
        ensures
            supervisor.phase() == Phase::Disconnected,
    {
        Supervisor { phase: Phase::Disconnected }
    }

    /// Where the connection stands.
    pub fn current(&self) -> (phase: Phase)
        ensures
            phase == self.phase(),
    {
        self.phase
    }

    /// Whether the supervisor has stopped for good.
    pub fn finished(&self) -> (done: bool)
        ensures
            done == (self.phase() == Phase::ShuttingDown),
    {
        self.phase == Phase::ShuttingDown
    }

    /// Takes in `signal` and says what the caller is to do.
    pub fn step(&mut self, signal: Signal) -> (directive: Option<Directive>)
        ensures
            (final(self).phase(), directive) == next(old(self).phase(), signal),
    {
        let (phase, directive) = decide(self.phase, signal);
        self.phase = phase;
        directive
    }
}

/// The phase after `signal` in `phase`, and the directive for the caller.
pub fn decide(phase: Phase, signal: Signal) -> (step: (Phase, Option<Directive>))
    ensures
        step == next(phase, signal),
{
    match phase {
        Phase::Disconnected => (Phase::Connecting, Some(Directive::Connect)),
        Phase::Connecting => match signal {
            Signal::Opened => (Phase::Connected, Some(Directive::Begin)),
            Signal::Failed => (Phase::Disconnected, None),
            Signal::Shutdown => (Phase::ShuttingDown, None),
            _ => (Phase::Connecting, None),
        },
        Phase::Connected => match signal {
            Signal::Inbound => (Phase::Connected, Some(Directive::Dispatch)),
            Signal::Failed => (Phase::Disconnected, Some(Directive::Flush)),
            Signal::Shutdown => (Phase::ShuttingDown, Some(Directive::Flush)),
            _ => (Phase::Connected, None),
        },
        Phase::ShuttingDown => (Phase::ShuttingDown, None),
    }
}

} // verus!
