use lode_stm32h723::leds::{
    BoardState, LedCommand, LedController, LedEvent, Leds, Wait, DNS_PULSE_OFF_MS,
};

fn leds(red: bool, yellow: bool, green: bool) -> Leds {
    Leds { red, yellow, green }
}

#[test]
fn power_up_blinks_yellow() {
    let mut c = LedController::new();
    assert_eq!(c.command(), LedCommand { leds: leds(false, true, false), wait: Wait::SignalOrTimeout(400) });
    c.step(LedEvent::TimedOut);
    assert_eq!(c.command(), LedCommand { leds: leds(false, false, false), wait: Wait::SignalOrTimeout(400) });
    c.step(LedEvent::TimedOut);
    assert_eq!(c.command().leds, leds(false, true, false));
}

#[test]
fn running_is_green_until_signalled() {
    let mut c = LedController::new();
    c.step(LedEvent::Signalled(BoardState::Running));
    assert_eq!(c.command(), LedCommand { leds: leds(false, false, true), wait: Wait::Signal });
    c.step(LedEvent::TimedOut);
    assert_eq!(c.command().leds, leds(false, false, true));
}

#[test]
fn send_failed_blinks_red_three_times_then_runs() {
    let mut c = LedController::new();
    c.step(LedEvent::Signalled(BoardState::Running));
    c.step(LedEvent::Signalled(BoardState::SendFailed));
    let mut reds = Vec::new();
    for _ in 0..6 {
        let cmd = c.command();
        assert_eq!(cmd.wait, Wait::Timeout(150));
        assert!(!cmd.leds.yellow && !cmd.leds.green);
        reds.push(cmd.leds.red);
        c.step(LedEvent::TimedOut);
    }
    assert_eq!(reds, vec![true, false, true, false, true, false]);
    assert_eq!(c.command(), LedCommand { leds: leds(false, false, true), wait: Wait::Signal });
}

#[test]
fn hard_error_is_red_for_good() {
    let mut c = LedController::new();
    c.step(LedEvent::Signalled(BoardState::HardError));
    for _ in 0..10 {
        assert_eq!(c.command(), LedCommand { leds: leds(true, false, false), wait: Wait::Timeout(3_600_000) });
        c.step(LedEvent::TimedOut);
        c.step(LedEvent::Signalled(BoardState::Running));
    }
    assert_eq!(c.command().leds, leds(true, false, false));
}

#[test]
fn signal_during_dhcp_blink_restarts_pattern() {
    let mut c = LedController::new();
    c.step(LedEvent::TimedOut);
    c.step(LedEvent::Signalled(BoardState::WaitingDhcp));
    assert_eq!(c.command().leds, leds(false, true, false));
}

#[test]
fn each_dns_attempt_pulses_yellow_once() {
    let mut c = LedController::new();
    assert_eq!(DNS_PULSE_OFF_MS, 200);
    for _ in 0..3 {
        c.step(LedEvent::Signalled(BoardState::ResolvingDns));
        let off = c.command();
        assert_eq!(off.leds, leds(false, false, false));
        assert_eq!(off.wait, Wait::SignalOrTimeout(200));
        c.step(LedEvent::TimedOut);
        let on = c.command();
        assert_eq!(on.leds, leds(false, true, false));
        assert_eq!(on.wait, Wait::Signal);
        c.step(LedEvent::TimedOut);
        assert_eq!(c.command(), on);
    }
    c.step(LedEvent::Signalled(BoardState::Running));
    assert_eq!(c.command().leds, leds(false, false, true));
}
