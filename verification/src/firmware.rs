//! The decisions of the firmware's main task.
//!
//! The task starts the watchdog, initialises the sensor, waits for the network, looks
//! up the backend's address (retrying every 5 s), then uploads readings, pausing half a
//! second after each upload. Each outcome it reports is an event; `main_step` answers
//! with what to do: which board state to signal to the LED task, what to do with the
//! watchdog, whether to stop, and how long to pause.
use vstd::prelude::*;
use crate::leds::BoardState;

verus! {

/// What the main task has just learned.
#[derive(Clone, Copy, Debug, PartialEq, Eq)]
pub enum MainEvent {
    /// The board has just started.
    Started,
    /// The sensor's initialisation finished: `true` when it succeeded.
    SensorInit(bool),
    /// DHCP gave the board an address.
    NetworkUp,
    /// A DNS lookup of the backend finished: `true` when it yielded an address.
    DnsAttempt(bool),
    /// An upload finished: `true` when the backend accepted it.
    Uploaded(bool),
}

/// What the main task does next.
#[derive(Clone, Copy, Debug, PartialEq, Eq)]
pub struct MainAction {
    /// Board state to signal to the LED task, if any.
    pub signal: Option<BoardState>,
    /// Start the watchdog.
    pub unleash_watchdog: bool,
    /// Feed the watchdog.
    pub pet_watchdog: bool,
    /// Leave the main task (the LED task keeps running).
    pub stop: bool,
    /// Pause before the next step, in milliseconds.
    pub pause_ms: u64,
}

/// Watchdog timeout, in microseconds (10 s).
pub const WATCHDOG_TIMEOUT_US: u32 = 10_000_000;
/// Pause between two uploads, in milliseconds.
pub const UPLOAD_PAUSE_MS: u64 = 500;
/// Pause after a DNS lookup that yielded no address, in milliseconds.
pub const DNS_RETRY_MS: u64 = 5000;

/// An action that only signals `signal`, feeds the watchdog when `pet` and pauses
/// `pause_ms`.
pub open spec fn plain_action(signal: Option<BoardState>, pet: bool, pause_ms: u64) -> MainAction {
    MainAction { signal, unleash_watchdog: false, pet_watchdog: pet, stop: false, pause_ms }
}

/// The answer to each event.
///
/// At start-up the watchdog is started at once, so that a hang at any later stage
/// (DHCP, DNS, uploads) resets the board. A failed sensor initialisation shows the hard
/// error and ends the task, leaving the watchdog unfed; a successful one goes on (the
/// LEDs keep showing that DHCP is awaited). Once the network is up the lookup of the
/// backend starts and yellow pulses. Each lookup feeds the watchdog; one that yields an
/// address shows the board runs, one that does not pulses yellow for the next attempt
/// and pauses for [`DNS_RETRY_MS`]. After each upload the task pauses for
/// [`UPLOAD_PAUSE_MS`]; a success feeds the watchdog, a failure shows the failed send
/// and leaves the watchdog unfed.
pub open spec fn main_action(e: MainEvent) -> MainAction {
    match e {
        MainEvent::Started => MainAction {
            signal: None,
            unleash_watchdog: true,
            pet_watchdog: false,
            stop: false,
            pause_ms: 0,
        },
        MainEvent::SensorInit(ok) => MainAction {
            signal: if ok { None } else { Some(BoardState::HardError) },
            unleash_watchdog: false,
            pet_watchdog: false,
            stop: !ok,
            pause_ms: 0,
        },
        MainEvent::NetworkUp => plain_action(Some(BoardState::ResolvingDns), false, 0),
        MainEvent::DnsAttempt(ok) => if ok {
            plain_action(Some(BoardState::Running), true, 0)
        } else {
            plain_action(Some(BoardState::ResolvingDns), true, DNS_RETRY_MS)
        },
        MainEvent::Uploaded(ok) => plain_action(
            if ok { None } else { Some(BoardState::SendFailed) },
            ok,
            UPLOAD_PAUSE_MS,
        ),
    }
}

/// Decides what the main task does after `e`.
pub fn main_step(e: MainEvent) -> (a: MainAction)
    ensures
        a == main_action(e),
        e == MainEvent::Started ==> a.unleash_watchdog && !a.stop,
        e == MainEvent::SensorInit(false) ==> a.signal == Some(BoardState::HardError) && a.stop,
        e == MainEvent::SensorInit(true) ==> a.signal is None && !a.stop,
        e == MainEvent::NetworkUp ==> a.signal == Some(BoardState::ResolvingDns),
        e matches MainEvent::DnsAttempt(ok) ==> a.pet_watchdog && a.pause_ms == (if ok { 0u64 } else { 5000u64 })
            && a.signal == Some(if ok { BoardState::Running } else { BoardState::ResolvingDns }),
        e matches MainEvent::Uploaded(ok) ==> a.pet_watchdog == ok && a.pause_ms == 500
            && a.signal == (if ok { None } else { Some(BoardState::SendFailed) }),
{
    let none = MainAction {
        signal: None,
        unleash_watchdog: false,
        pet_watchdog: false,
        stop: false,
        pause_ms: 0,
    };
    match e {
        MainEvent::Started => MainAction { unleash_watchdog: true, ..none },
        MainEvent::SensorInit(ok) => if ok {
            none
        } else {
            MainAction { signal: Some(BoardState::HardError), stop: true, ..none }
        },
        MainEvent::NetworkUp => MainAction { signal: Some(BoardState::ResolvingDns), ..none },
        MainEvent::DnsAttempt(ok) => if ok {
            MainAction { signal: Some(BoardState::Running), pet_watchdog: true, ..none }
        } else {
            MainAction {
                signal: Some(BoardState::ResolvingDns),
                pet_watchdog: true,
                pause_ms: DNS_RETRY_MS,
                ..none
            }
        },
        MainEvent::Uploaded(ok) => MainAction {
            signal: if ok { None } else { Some(BoardState::SendFailed) },
            pet_watchdog: ok,
            pause_ms: UPLOAD_PAUSE_MS,
            ..none
        },
    }
}

/// The actions that answer the network coming up, then the lookups whose outcomes are
/// `outcomes`, in order.
pub open spec fn dns_phase(outcomes: Seq<bool>) -> Seq<MainAction> {
    seq![main_action(MainEvent::NetworkUp)] + outcomes.map_values(
        |ok: bool| main_action(MainEvent::DnsAttempt(ok)),
    )
}

/// Law: the start-up lookup of the backend. When the first `k` lookups fail and the
/// next one succeeds, the task signals `ResolvingDns` once before each of the `k + 1`
/// attempts (one yellow pulse per attempt), feeds the watchdog once per attempt, waits
/// 5 s after each failure and none after the success, then signals `Running`; nothing
/// in the phase stops the task or restarts the watchdog.
pub proof fn lemma_dns_phase(k: nat)
    ensures
        ({
            let acts = dns_phase(Seq::new(k, |i: int| false).push(true));
            &&& acts.len() == k + 2
            &&& forall|i: int| 0 <= i <= k ==> #[trigger] acts[i].signal == Some(BoardState::ResolvingDns)
            &&& acts[k + 1int].signal == Some(BoardState::Running)
            &&& !acts[0].pet_watchdog && acts[0].pause_ms == 0
            &&& forall|i: int| 1 <= i <= k + 1 ==> #[trigger] acts[i].pet_watchdog
            &&& forall|i: int| 1 <= i <= k ==> #[trigger] acts[i].pause_ms == DNS_RETRY_MS
            &&& acts[k + 1int].pause_ms == 0
            &&& forall|i: int| 0 <= i < acts.len() ==> !(#[trigger] acts[i]).stop && !acts[i].unleash_watchdog
        }),
{
    let outcomes = Seq::new(k, |i: int| false).push(true);
    let acts = dns_phase(outcomes);
    assert forall|i: int| 1 <= i < acts.len() implies #[trigger] acts[i] == main_action(
        MainEvent::DnsAttempt(outcomes[i - 1]),
    ) by {}
}

} // verus!
