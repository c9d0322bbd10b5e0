use lode_stm32h723::firmware::{
    main_step, MainAction, MainEvent, DNS_RETRY_MS, UPLOAD_PAUSE_MS, WATCHDOG_TIMEOUT_US,
};
use lode_stm32h723::leds::BoardState;

#[test]
fn failed_sensor_init_shows_hard_error_and_stops() {
    assert_eq!(
        main_step(MainEvent::SensorInit(false)),
        MainAction {
            signal: Some(BoardState::HardError),
            unleash_watchdog: false,
            pet_watchdog: false,
            stop: true,
            pause_ms: 0,
        }
    );
}

#[test]
fn successful_sensor_init_goes_on_quietly() {
    assert_eq!(
        main_step(MainEvent::SensorInit(true)),
        MainAction {
            signal: None,
            unleash_watchdog: false,
            pet_watchdog: false,
            stop: false,
            pause_ms: 0,
        }
    );
}

#[test]
fn start_unleashes_watchdog_at_once() {
    assert_eq!(WATCHDOG_TIMEOUT_US, 10_000_000);
    assert_eq!(
        main_step(MainEvent::Started),
        MainAction {
            signal: None,
            unleash_watchdog: true,
            pet_watchdog: false,
            stop: false,
            pause_ms: 0,
        }
    );
}

#[test]
fn network_up_starts_dns_lookup() {
    assert_eq!(
        main_step(MainEvent::NetworkUp),
        MainAction {
            signal: Some(BoardState::ResolvingDns),
            unleash_watchdog: false,
            pet_watchdog: false,
            stop: false,
            pause_ms: 0,
        }
    );
}

#[test]
fn failed_dns_lookup_pets_pulses_and_retries_in_five_seconds() {
    assert_eq!(DNS_RETRY_MS, 5000);
    assert_eq!(
        main_step(MainEvent::DnsAttempt(false)),
        MainAction {
            signal: Some(BoardState::ResolvingDns),
            unleash_watchdog: false,
            pet_watchdog: true,
            stop: false,
            pause_ms: 5000,
        }
    );
}

#[test]
fn successful_dns_lookup_pets_and_runs() {
    assert_eq!(
        main_step(MainEvent::DnsAttempt(true)),
        MainAction {
            signal: Some(BoardState::Running),
            unleash_watchdog: false,
            pet_watchdog: true,
            stop: false,
            pause_ms: 0,
        }
    );
}

#[test]
fn dns_phase_of_two_failures_then_success() {
    let events = [
        MainEvent::NetworkUp,
        MainEvent::DnsAttempt(false),
        MainEvent::DnsAttempt(false),
        MainEvent::DnsAttempt(true),
    ];
    let acts: Vec<MainAction> = events.iter().map(|e| main_step(*e)).collect();
    let pulses = acts.iter().filter(|a| a.signal == Some(BoardState::ResolvingDns)).count();
    let pets = acts.iter().filter(|a| a.pet_watchdog).count();
    let waited: u64 = acts.iter().map(|a| a.pause_ms).sum();
    assert_eq!((pulses, pets, waited), (3, 3, 10_000));
    assert_eq!(acts[3].signal, Some(BoardState::Running));
}

#[test]
fn successful_upload_feeds_watchdog() {
    assert_eq!(UPLOAD_PAUSE_MS, 500);
    assert_eq!(
        main_step(MainEvent::Uploaded(true)),
        MainAction {
            signal: None,
            unleash_watchdog: false,
            pet_watchdog: true,
            stop: false,
            pause_ms: 500,
        }
    );
}

#[test]
fn failed_upload_shows_failed_send_and_starves_watchdog() {
    assert_eq!(
        main_step(MainEvent::Uploaded(false)),
        MainAction {
            signal: Some(BoardState::SendFailed),
            unleash_watchdog: false,
            pet_watchdog: false,
            stop: false,
            pause_ms: 500,
        }
    );
}
