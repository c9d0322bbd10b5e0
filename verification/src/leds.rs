//! Status LEDs: which of the red, yellow and green LEDs to light for each board state,
//! and for how long.
//!
//! | state       | pattern                                          |
//! | ----------- | ------------------------------------------------ |
//! | WaitingDhcp | yellow blinks, 400 ms on / 400 ms off            |
//! | ResolvingDns| yellow off for 200 ms, then on; each new signal of this state pulses it again |
//! | Running     | green solid                                      |
//! | SendFailed  | red blinks three times (150 ms on / 150 ms off), then Running |
//! | HardError   | red solid, for good                              |
//!
//! `LedController` is the decision logic: it says what to light and what to wait for,
//! and is told what ended the wait (a timeout or a new state signalled by the firmware).
use vstd::prelude::*;

verus! {

/// What the board is doing, as shown by the LEDs.
#[derive(Clone, Copy, Debug, PartialEq, Eq, Structural)]
pub enum BoardState {
    WaitingDhcp,
    /// Looking up the backend's address; signalled once per attempt.
    ResolvingDns,
    Running,
    SendFailed,
    HardError,
}

/// Levels of the three LEDs (`true` = lit).
#[derive(Clone, Copy, Debug, PartialEq, Eq, Structural)]
pub struct Leds {
    pub red: bool,
    pub yellow: bool,
    pub green: bool,
}

/// What ends the current LED pattern step.
#[derive(Clone, Copy, Debug, PartialEq, Eq, Structural)]
pub enum Wait {
    /// A new state signalled, or this many milliseconds, whichever comes first.
    SignalOrTimeout(u64),
    /// A new state signalled.
    Signal,
    /// This many milliseconds; signals are left pending.
    Timeout(u64),
}

/// What ended a wait.
#[derive(Clone, Copy, Debug, PartialEq, Eq, Structural)]
pub enum LedEvent {
    TimedOut,
    Signalled(BoardState),
}

/// The LED levels to set, then what to wait for.
#[derive(Clone, Copy, Debug, PartialEq, Eq, Structural)]
pub struct LedCommand {
    pub leds: Leds,
    pub wait: Wait,
}

/// Blink period while waiting for DHCP, in milliseconds.
pub const DHCP_BLINK_MS: u64 = 400;
/// How long yellow stays off at the start of each DNS attempt, in milliseconds.
pub const DNS_PULSE_OFF_MS: u64 = 200;
/// Blink period after a failed send, in milliseconds.
pub const FAIL_BLINK_MS: u64 = 150;
/// How long each wait lasts once in the hard-error state, in milliseconds.
pub const HARD_ERROR_WAIT_MS: u64 = 3_600_000;
/// Number of on/off phases of the failed-send pattern (three blinks).
pub const FAIL_PHASES: u8 = 6;

/// The controller: the state shown and the phase within its pattern.
#[derive(Clone, Copy, Debug)]
pub struct LedController {
    state: BoardState,
    phase: u8,
}

/// All three LEDs with only the ones named lit.
pub open spec fn leds_of(red: bool, yellow: bool, green: bool) -> Leds {
    Leds { red, yellow, green }
}

/// The command issued in `state` at `phase`.
pub open spec fn command_of(state: BoardState, phase: u8) -> LedCommand {
    match state {
        BoardState::WaitingDhcp => LedCommand {
            leds: leds_of(false, phase == 0, false),
            wait: Wait::SignalOrTimeout(DHCP_BLINK_MS),
        },
        BoardState::ResolvingDns => if phase == 0 {
            LedCommand { leds: leds_of(false, false, false), wait: Wait::SignalOrTimeout(DNS_PULSE_OFF_MS) }
        } else {
            LedCommand { leds: leds_of(false, true, false), wait: Wait::Signal }
        },
        BoardState::Running => LedCommand { leds: leds_of(false, false, true), wait: Wait::Signal },
        BoardState::SendFailed => LedCommand {
            leds: leds_of(phase % 2 == 0, false, false),
            wait: Wait::Timeout(FAIL_BLINK_MS),
        },
        BoardState::HardError => LedCommand {
            leds: leds_of(true, false, false),
            wait: Wait::Timeout(HARD_ERROR_WAIT_MS),
        },
    }
}

/// The (state, phase) after `event` ends the wait of `(state, phase)`.
///
/// A signal switches to the signalled state from its first phase, where the wait listens
/// for signals; a timeout advances the blink patterns; the failed-send pattern hands
/// over to Running after its last phase; hard error never changes. Events that the
/// current wait does not listen for change nothing.
pub open spec fn next_of(state: BoardState, phase: u8, event: LedEvent) -> (BoardState, u8) {
    match (state, event) {
        (BoardState::WaitingDhcp, LedEvent::Signalled(s)) => (s, 0),
        (BoardState::ResolvingDns, LedEvent::Signalled(s)) => (s, 0),
        (BoardState::Running, LedEvent::Signalled(s)) => (s, 0),
        (BoardState::WaitingDhcp, LedEvent::TimedOut) => (
            BoardState::WaitingDhcp,
            if phase == 0 { 1 } else { 0 },
        ),
        (BoardState::ResolvingDns, LedEvent::TimedOut) => (BoardState::ResolvingDns, 1),
        (BoardState::SendFailed, LedEvent::TimedOut) => if phase + 1 < FAIL_PHASES {
            (BoardState::SendFailed, (phase + 1) as u8)
        } else {
            (BoardState::Running, 0)
        },
        _ => (state, phase),
    }
}

/// Whether a (state, phase) pair can occur: the blink patterns stay within their phases.
pub open spec fn valid_phase(state: BoardState, phase: u8) -> bool {
    match state {
        BoardState::WaitingDhcp => phase < 2,
        BoardState::ResolvingDns => phase < 2,
        BoardState::SendFailed => phase < FAIL_PHASES,
        _ => phase == 0,
    }
}

/// Whether `wait` ends when a new state is signalled.
pub open spec fn listens(wait: Wait) -> bool {
    wait is Signal || wait is SignalOrTimeout
}

/// Number of LEDs lit.
pub open spec fn lit_count(leds: Leds) -> int {
    (if leds.red { 1int } else { 0 }) + (if leds.yellow { 1int } else { 0 }) + (if leds.green {
        1int
    } else {
        0
    })
}

/// The (state, phase) reached from `(state, phase)` through `events`, in order.
pub open spec fn run(state: BoardState, phase: u8, events: Seq<LedEvent>) -> (BoardState, u8)
    decreases events.len(),
{
    if events.len() == 0 {
        (state, phase)
    } else {
        let (s, p) = next_of(state, phase, events[0]);
        run(s, p, events.drop_first())
    }
}

impl LedController {
    #[verifier::type_invariant]
    spec fn inv(&self) -> bool {
        valid_phase(self.state, self.phase)
    }

    /// The state being shown.
    pub closed spec fn state(&self) -> BoardState {
        self.state
    }

    /// The phase within the state's pattern.
    pub closed spec fn phase(&self) -> u8 {
        self.phase
    }

    /// The controller at power-up: waiting for DHCP, yellow about to light.
    pub fn new() -> (r: Self)
        ensures
            r.state() == BoardState::WaitingDhcp,
            r.phase() == 0,
            valid_phase(r.state(), r.phase()),
    {
        LedController { state: BoardState::WaitingDhcp, phase: 0 }
    }

    /// What to light now and what to wait for.
    pub fn command(&self) -> (r: LedCommand)
        ensures
            r == command_of(self.state(), self.phase()),
            valid_phase(self.state(), self.phase()),
            lit_count(r.leds) <= 1,
    {
        proof { use_type_invariant(self); }
        match self.state {
            BoardState::WaitingDhcp => LedCommand {
                leds: Leds { red: false, yellow: self.phase == 0, green: false },
                wait: Wait::SignalOrTimeout(DHCP_BLINK_MS),
            },
            BoardState::ResolvingDns => if self.phase == 0 {
                LedCommand {
                    leds: Leds { red: false, yellow: false, green: false },
                    wait: Wait::SignalOrTimeout(DNS_PULSE_OFF_MS),
                }
            } else {
                LedCommand {
                    leds: Leds { red: false, yellow: true, green: false },
                    wait: Wait::Signal,
                }
            },
            BoardState::Running => LedCommand {
                leds: Leds { red: false, yellow: false, green: true },
                wait: Wait::Signal,
            },
            BoardState::SendFailed => LedCommand {
                leds: Leds { red: self.phase % 2 == 0, yellow: false, green: false },
                wait: Wait::Timeout(FAIL_BLINK_MS),
            },
            BoardState::HardError => LedCommand {
                leds: Leds { red: true, yellow: false, green: false },
                wait: Wait::Timeout(HARD_ERROR_WAIT_MS),
            },
        }
    }

    /// Moves on after `event` ended the wait of the current command.
    pub fn step(&mut self, event: LedEvent)
        ensures
            (final(self).state(), final(self).phase()) == next_of(
                old(self).state(),
                old(self).phase(),
                event,
            ),
            valid_phase(final(self).state(), final(self).phase()),
    {
        proof { use_type_invariant(&*self); }
        let (state, phase) = match (self.state, event) {
            (BoardState::WaitingDhcp, LedEvent::Signalled(s)) => (s, 0),
            (BoardState::ResolvingDns, LedEvent::Signalled(s)) => (s, 0),
            (BoardState::Running, LedEvent::Signalled(s)) => (s, 0),
            (BoardState::WaitingDhcp, LedEvent::TimedOut) => (
                BoardState::WaitingDhcp,
                if self.phase == 0 { 1 } else { 0 },
            ),
            (BoardState::ResolvingDns, LedEvent::TimedOut) => (BoardState::ResolvingDns, 1),
            (BoardState::SendFailed, LedEvent::TimedOut) => if self.phase + 1 < FAIL_PHASES {
                (BoardState::SendFailed, self.phase + 1)
            } else {
                (BoardState::Running, 0)
            },
            _ => (self.state, self.phase),
        };
        *self = LedController { state, phase };
    }
}

/// Law: every step of every pattern lights at most one LED.
pub proof fn lemma_at_most_one_led(state: BoardState, phase: u8)
    requires
        valid_phase(state, phase),
    ensures
        lit_count(command_of(state, phase).leds) <= 1,
{
}

/// Law: a signalled state is taken up, from the start of its pattern, whenever the
/// current wait listens for signals.
pub proof fn lemma_signal_adopted(state: BoardState, phase: u8, next: BoardState)
    requires
        listens(command_of(state, phase).wait),
    ensures
        next_of(state, phase, LedEvent::Signalled(next)) == (next, 0u8),
{
}

/// Law: the hard-error state is never left, and keeps only the red LED lit.
pub proof fn lemma_hard_error_absorbing(phase: u8, events: Seq<LedEvent>)
    ensures
        run(BoardState::HardError, phase, events) == (BoardState::HardError, phase),
        command_of(BoardState::HardError, phase).leds == leds_of(true, false, false),
        !listens(command_of(BoardState::HardError, phase).wait),
    decreases events.len(),
{
    if events.len() > 0 {
        lemma_hard_error_absorbing(phase, events.drop_first());
    }
}

/// Law: Running keeps the green LED lit until a new state is signalled.
pub proof fn lemma_running_until_signalled(phase: u8)
    requires
        valid_phase(BoardState::Running, phase),
    ensures
        command_of(BoardState::Running, phase).leds == leds_of(false, false, true),
        command_of(BoardState::Running, phase).wait == Wait::Signal,
        next_of(BoardState::Running, phase, LedEvent::TimedOut) == (BoardState::Running, phase),
{
}

/// Law: a failed send blinks red three times (on, off, on, off, on, off, 150 ms each),
/// then returns to Running with green lit.
pub proof fn lemma_send_failed_blinks_three_times()
    ensures
        run(BoardState::SendFailed, 0, Seq::new(6, |i: int| LedEvent::TimedOut)) == (
            BoardState::Running,
            0u8,
        ),
        forall|k: u8| #![trigger command_of(BoardState::SendFailed, k)]
            k < FAIL_PHASES ==> command_of(BoardState::SendFailed, k).leds == leds_of(
                k % 2 == 0,
                false,
                false,
            ) && command_of(BoardState::SendFailed, k).wait == Wait::Timeout(FAIL_BLINK_MS),
{
    lemma_fail_pattern_tail(0);
}

proof fn lemma_fail_pattern_tail(phase: u8)
    requires
        phase <= FAIL_PHASES,
    ensures
        run(BoardState::SendFailed, phase, Seq::new((FAIL_PHASES - phase) as nat, |i: int| LedEvent::TimedOut))
            == (if phase < FAIL_PHASES { (BoardState::Running, 0u8) } else { (BoardState::SendFailed, phase) }),
    decreases FAIL_PHASES - phase,
{
    let ev = Seq::new((FAIL_PHASES - phase) as nat, |i: int| LedEvent::TimedOut);
    if phase < FAIL_PHASES {
        assert(ev.len() > 0 && ev[0] == LedEvent::TimedOut);
    }
    if phase + 1 < FAIL_PHASES {
        lemma_fail_pattern_tail((phase + 1) as u8);
        assert(ev.drop_first() =~= Seq::new((FAIL_PHASES - (phase + 1)) as nat, |i: int| LedEvent::TimedOut));
        assert(next_of(BoardState::SendFailed, phase, LedEvent::TimedOut) == (BoardState::SendFailed, (phase + 1) as u8));
        assert(run(BoardState::SendFailed, phase, ev) == run(BoardState::SendFailed, (phase + 1) as u8, ev.drop_first()));
    } else if phase + 1 == FAIL_PHASES {
        assert(ev.drop_first().len() == 0);
        assert(next_of(BoardState::SendFailed, phase, LedEvent::TimedOut) == (BoardState::Running, 0u8));
        assert(run(BoardState::SendFailed, phase, ev) == run(BoardState::Running, 0u8, ev.drop_first()));
    }
}

/// Law: waiting for DHCP alternates yellow on and yellow off, 400 ms each, until a
/// state is signalled.
pub proof fn lemma_dhcp_blink(phase: u8)
    requires
        valid_phase(BoardState::WaitingDhcp, phase),
    ensures
        next_of(BoardState::WaitingDhcp, phase, LedEvent::TimedOut) == (
            BoardState::WaitingDhcp,
            (1 - phase) as u8,
        ),
        command_of(BoardState::WaitingDhcp, phase).leds == leds_of(false, phase == 0, false),
        command_of(BoardState::WaitingDhcp, phase).wait == Wait::SignalOrTimeout(DHCP_BLINK_MS),
{
}

/// Law: each signal of `ResolvingDns` (one per DNS attempt) gives one yellow pulse,
/// whenever the current wait listens for signals: all LEDs off for `DNS_PULSE_OFF_MS`,
/// then yellow on until the next signal. A signal during the off time starts the
/// pulse over.
pub proof fn lemma_dns_pulse(state: BoardState, phase: u8)
    requires
        listens(command_of(state, phase).wait),
    ensures
        next_of(state, phase, LedEvent::Signalled(BoardState::ResolvingDns)) == (
            BoardState::ResolvingDns,
            0u8,
        ),
        command_of(BoardState::ResolvingDns, 0).leds == leds_of(false, false, false),
        command_of(BoardState::ResolvingDns, 0).wait == Wait::SignalOrTimeout(DNS_PULSE_OFF_MS),
        next_of(BoardState::ResolvingDns, 0, LedEvent::TimedOut) == (BoardState::ResolvingDns, 1u8),
        command_of(BoardState::ResolvingDns, 1).leds == leds_of(false, true, false),
        command_of(BoardState::ResolvingDns, 1).wait == Wait::Signal,
        next_of(BoardState::ResolvingDns, 1, LedEvent::Signalled(BoardState::ResolvingDns)) == (
            BoardState::ResolvingDns,
            0u8,
        ),
{
}

} // verus!
