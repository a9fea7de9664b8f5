//! Establishing a session and keeping its one listener connection.
//!
//! Establishment is a fixed sequence of outside steps: create a private
//! connection pair, hand one end to the producer, bind the listener to the
//! other end. The caller performs each step and reports its outcome; the
//! session answers with the next action. The connection that results is kept
//! in a slot that holds at most one connection at a time.

use vstd::prelude::*;
use vstd::string::StringSliceAdditionalSpecFns;
use crate::error::DisplayError;

verus! {

/// The slot for the current listener connection of a session. `C` is
/// whatever stands for a connection; the slot never looks inside it.
pub struct ListenerSlot<C> {
    current: Option<C>,
}

/// The slot and the dropped connection after `connection` is installed.
pub open spec fn slot_install<C>(current: Option<C>, connection: C) -> (Option<C>, Option<C>) {
    (Some(connection), current)
}

/// The slot and the dropped connection after the slot is cleared.
pub open spec fn slot_clear<C>(current: Option<C>) -> (Option<C>, Option<C>) {
    (None, current)
}

impl<C> View for ListenerSlot<C> {
    type V = Option<C>;

    closed spec fn view(&self) -> Option<C> {
        self.current
    }
}

impl<C> ListenerSlot<C> {
    /// An empty slot.
    pub fn new() -> (slot: Self)
        ensures
            slot@ is None,
    {
        ListenerSlot { current: None }
    }

    /// Whether a connection is current.
    pub fn is_registered(&self) -> (registered: bool)
        ensures
            registered == self@ is Some,
    {
        self.current.is_some()
    }

    /// Makes `connection` the current one. The result is the connection that
    /// was current before, if there was one: the caller drops it, which
    /// closes it.
    pub fn install(&mut self, connection: C) -> (dropped: Option<C>)
        ensures
            (final(self)@, dropped) == slot_install(old(self)@, connection),
    {
        let dropped = self.current.take();
        self.current = Some(connection);
        dropped
    }

    /// Empties the slot, whatever it held. The result is the connection that
    /// was current, if there was one: the caller drops it.
    pub fn clear(&mut self) -> (dropped: Option<C>)
        ensures
            (final(self)@, dropped) == slot_clear(old(self)@),
    {
        self.current.take()
    }
}

/// Registering twice installs the second connection and drops the first,
/// and only the first: the connection that was current before the first
/// registration was dropped by the first, and nothing is dropped twice.
pub proof fn lemma_reregister_replaces_once<C>(current: Option<C>, first: C, second: C)
    ensures
        slot_install(current, first).1 == current,
        slot_install(slot_install(current, first).0, second).0 == Some(second),
        slot_install(slot_install(current, first).0, second).1 == Some(first),
{
}

/// Unregistering leaves the slot empty whatever it held, and unregistering
/// again changes nothing and drops nothing.
pub proof fn lemma_unregister_idempotent<C>(current: Option<C>)
    ensures
        slot_clear(current).0 is None,
        slot_clear(current).1 == current,
        slot_clear(slot_clear(current).0) == (None::<C>, None::<C>),
{
}

/// The decimal digits of `n` as ASCII bytes, most significant first, without
/// leading zeros.
pub open spec fn decimal_digits(n: nat) -> Seq<u8>
    decreases n,
{
    if n < 10 {
        seq![(48 + n) as u8]
    } else {
        decimal_digits(n / 10).push((48 + n % 10) as u8)
    }
}

/// The digits still to come in front of those already produced: none when
/// nothing is left of the number.
pub open spec fn leading_digits(n: nat) -> Seq<u8> {
    if n == 0 {
        Seq::empty()
    } else {
        decimal_digits(n)
    }
}

/// The object path of console `console_index` on the producer's bus, as
/// ASCII bytes.
pub open spec fn console_path(console_index: u32) -> Seq<u8> {
    "/org/qemu/Display1/Console_".spec_bytes() + decimal_digits(console_index as nat)
}

/// Appends the decimal digits of `n` to `out`.
pub fn push_decimal(out: &mut Vec<u8>, n: u32)
    ensures
        final(out)@ == old(out)@ + decimal_digits(n as nat),
{
    let mut rev: Vec<u8> = Vec::new();
    rev.push(48u8 + (n % 10) as u8);
    let mut m: u32 = n / 10;
    assert(decimal_digits(n as nat) =~= leading_digits(m as nat) + rev@.reverse());
    while m > 0
        invariant
            rev@.len() >= 1,
            decimal_digits(n as nat) == leading_digits(m as nat) + rev@.reverse(),
        decreases m,
    {
        let digit: u8 = 48u8 + (m % 10) as u8;
        let ghost before = rev@;
        rev.push(digit);
        assert(decimal_digits(m as nat) =~= leading_digits((m / 10) as nat).push(digit));
        assert(rev@.reverse() =~= seq![digit] + before.reverse());
        assert(leading_digits(m as nat) + before.reverse() =~= leading_digits((m / 10) as nat)
            + rev@.reverse());
        m = m / 10;
    }
    let ghost start = out@;
    let ghost digits = rev@.reverse();
    assert(decimal_digits(n as nat) =~= digits);
    let mut i: usize = rev.len();
    while i > 0
        invariant
            i <= rev@.len(),
            digits == rev@.reverse(),
            out@ == start + digits.take(rev@.len() - i),
        decreases i,
    {
        i = i - 1;
        out.push(rev[i]);
        assert(out@ =~= start + digits.take(rev@.len() - i));
    }
    assert(out@ =~= start + digits);
}

/// The object path under which the producer offers console `console_index`.
pub fn console_object_path(console_index: u32) -> (path: Vec<u8>)
    ensures
        path@ == console_path(console_index),
{
    let mut path = "/org/qemu/Display1/Console_".as_bytes_vec();
    push_decimal(&mut path, console_index);
    path
}

/// Where an establishment stands.
#[derive(Clone, Copy, Debug, PartialEq, Eq, Structural)]
pub enum EstablishPhase {
    /// The connection pair is being created.
    CreatingPair,
    /// One end is being handed to the producer.
    Registering,
    /// The listener is being bound to the retained end.
    Binding,
    /// The listener is bound and its connection is to be installed.
    Established,
    /// The establishment failed. A new one has to start from the beginning.
    Failed,
}

/// What the caller reports.
#[derive(Clone, Copy, Debug, PartialEq, Eq, Structural)]
pub enum EstablishEvent {
    PairCreated,
    PairFailed,
    Registered,
    RegistrationFailed,
    Bound,
    BindFailed,
}

/// What the caller is to do next.
#[derive(Clone, Copy, Debug, PartialEq, Eq, Structural)]
pub enum EstablishAction {
    /// Hand one end of the pair to the producer of console `console`.
    RegisterRemote { console: u32 },
    /// Bind the listener to the retained end.
    BindLocal,
    /// Install the bound connection as the current one.
    Install,
    /// Report `error` and install nothing. `handed_over` says whether the
    /// producer already holds its end of the pair: if so, its state may no
    /// longer match ours, and only a whole new establishment can mend that.
    Fail { error: DisplayError, handed_over: bool },
    /// The event does not belong to the current phase and changes nothing.
    Nothing,
}

/// The transition table.
pub open spec fn establish_transition(phase: EstablishPhase, console: u32, event: EstablishEvent) -> (
    EstablishPhase,
    EstablishAction,
) {
    match (phase, event) {
        (EstablishPhase::CreatingPair, EstablishEvent::PairCreated) => (
            EstablishPhase::Registering,
            EstablishAction::RegisterRemote { console },
        ),
        (EstablishPhase::CreatingPair, EstablishEvent::PairFailed) => (
            EstablishPhase::Failed,
            EstablishAction::Fail { error: DisplayError::TransportError, handed_over: false },
        ),
        (EstablishPhase::Registering, EstablishEvent::Registered) => (
            EstablishPhase::Binding,
            EstablishAction::BindLocal,
        ),
        (EstablishPhase::Registering, EstablishEvent::RegistrationFailed) => (
            EstablishPhase::Failed,
            EstablishAction::Fail { error: DisplayError::RegistrationError, handed_over: false },
        ),
        (EstablishPhase::Binding, EstablishEvent::Bound) => (
            EstablishPhase::Established,
            EstablishAction::Install,
        ),
        (EstablishPhase::Binding, EstablishEvent::BindFailed) => (
            EstablishPhase::Failed,
            EstablishAction::Fail { error: DisplayError::TransportError, handed_over: true },
        ),
        _ => (phase, EstablishAction::Nothing),
    }
}

/// The phase reached from `phase` after `events`, in order.
pub open spec fn establish_phase_after(
    phase: EstablishPhase,
    console: u32,
    events: Seq<EstablishEvent>,
) -> EstablishPhase
    decreases events.len(),
{
    if events.len() == 0 {
        phase
    } else {
        establish_phase_after(
            establish_transition(phase, console, events[0]).0,
            console,
            events.drop_first(),
        )
    }
}

/// How many times the caller is told to install a connection while `events`
/// are handled from `phase`.
pub open spec fn installs_requested(
    phase: EstablishPhase,
    console: u32,
    events: Seq<EstablishEvent>,
) -> nat
    decreases events.len(),
{
    if events.len() == 0 {
        0
    } else {
        let step = establish_transition(phase, console, events[0]);
        let here: nat = if step.1 is Install {
            1
        } else {
            0
        };
        here + installs_requested(step.0, console, events.drop_first())
    }
}

/// One attempt to establish a session with one console.
#[derive(Debug)]
pub struct Establishment {
    phase: EstablishPhase,
    console: u32,
}

impl Establishment {
    pub closed spec fn spec_phase(&self) -> EstablishPhase {
        self.phase
    }

    pub closed spec fn spec_console(&self) -> u32 {
        self.console
    }

    /// Starts an establishment with console `console_index`. The caller is
    /// to create the connection pair and report how that went.
    pub fn begin(console_index: u32) -> (attempt: Establishment)
        ensures
            attempt.spec_phase() == EstablishPhase::CreatingPair,
            attempt.spec_console() == console_index,
    {
        Establishment { phase: EstablishPhase::CreatingPair, console: console_index }
    }

    #[verifier::when_used_as_spec(spec_phase)]
    pub fn phase(&self) -> (phase: EstablishPhase)
        ensures
            phase == self.spec_phase(),
    {
        self.phase
    }

    /// The console that the session is for.
    #[verifier::when_used_as_spec(spec_console)]
    pub fn console(&self) -> (console: u32)
        ensures
            console == self.spec_console(),
    {
        self.console
    }

    /// Takes the caller's report and answers with the next action.
    pub fn step(&mut self, event: EstablishEvent) -> (action: EstablishAction)
        ensures
            (final(self).spec_phase(), action) == establish_transition(
                old(self).spec_phase(),
                old(self).spec_console(),
                event,
            ),
            final(self).spec_console() == old(self).spec_console(),
    {
        match (self.phase, event) {
            (EstablishPhase::CreatingPair, EstablishEvent::PairCreated) => {
                self.phase = EstablishPhase::Registering;
                EstablishAction::RegisterRemote { console: self.console }
            },
            (EstablishPhase::CreatingPair, EstablishEvent::PairFailed) => {
                self.phase = EstablishPhase::Failed;
                EstablishAction::Fail { error: DisplayError::TransportError, handed_over: false }
            },
            (EstablishPhase::Registering, EstablishEvent::Registered) => {
                self.phase = EstablishPhase::Binding;
                EstablishAction::BindLocal
            },
            (EstablishPhase::Registering, EstablishEvent::RegistrationFailed) => {
                self.phase = EstablishPhase::Failed;
                EstablishAction::Fail {
                    error: DisplayError::RegistrationError,
                    handed_over: false,
                }
            },
            (EstablishPhase::Binding, EstablishEvent::Bound) => {
                self.phase = EstablishPhase::Established;
                EstablishAction::Install
            },
            (EstablishPhase::Binding, EstablishEvent::BindFailed) => {
                self.phase = EstablishPhase::Failed;
                EstablishAction::Fail { error: DisplayError::TransportError, handed_over: true }
            },
            _ => EstablishAction::Nothing,
        }
    }
}

/// How many installs have been requested by the time `phase` is reached.
pub open spec fn installs_behind(phase: EstablishPhase) -> nat {
    if phase == EstablishPhase::Established {
        1
    } else {
        0
    }
}

/// Along any run, the installs requested are the difference between those
/// behind the last phase and those behind the first.
pub proof fn lemma_installs_along_run(
    phase: EstablishPhase,
    console: u32,
    events: Seq<EstablishEvent>,
)
    ensures
        installs_behind(phase) + installs_requested(phase, console, events) == installs_behind(
            establish_phase_after(phase, console, events),
        ),
    decreases events.len(),
{
    if events.len() > 0 {
        lemma_installs_along_run(
            establish_transition(phase, console, events[0]).0,
            console,
            events.drop_first(),
        );
    }
}

/// Whatever the caller reports and in whatever order, an establishment
/// installs at most one connection, installs one exactly when it ends
/// established, and installs none when it fails. A failure is flagged as
/// coming after the hand-over exactly when it is a failure to bind.
pub proof fn lemma_one_install_per_establishment(console: u32, events: Seq<EstablishEvent>)
    ensures
        installs_requested(EstablishPhase::CreatingPair, console, events) <= 1,
        installs_requested(EstablishPhase::CreatingPair, console, events) == 1
            <==> establish_phase_after(EstablishPhase::CreatingPair, console, events)
            == EstablishPhase::Established,
        forall|phase: EstablishPhase, event: EstablishEvent|
            (#[trigger] establish_transition(phase, console, event)).1 matches EstablishAction::Fail {
                handed_over,
                ..
            } ==> (handed_over <==> phase == EstablishPhase::Binding),
{
    lemma_installs_along_run(EstablishPhase::CreatingPair, console, events);
}

} // verus!
