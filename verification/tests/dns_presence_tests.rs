use lode_stm32h723::dns::{resolve, resolve_with_retry, RetryStep};
use lode_stm32h723::presence::presence_update;

#[test]
fn resolve_takes_first_record() {
    let addrs = [[1u8, 2, 3, 4], [5, 6, 7, 8]];
    assert_eq!(resolve(Ok::<&[[u8; 4]], ()>(&addrs)), Some([1, 2, 3, 4]));
}

#[test]
fn resolve_fails_on_empty_or_error() {
    let none: [[u8; 4]; 0] = [];
    assert_eq!(resolve(Ok::<&[[u8; 4]], ()>(&none)), None);
    assert_eq!(resolve(Err::<&[[u8; 4]], &str>("timeout")), None);
}

#[test]
fn retry_until_resolved() {
    assert_eq!(resolve_with_retry(Some(7u32), 5), RetryStep::Resolved(7));
    assert_eq!(resolve_with_retry(None::<u32>, 5), RetryStep::RetryAfter(5));
}

#[test]
fn retry_waits_after_each_failure_then_stops() {
    let attempts = [None, None, None, Some(42u32), Some(7u32)];
    let mut steps = Vec::new();
    for a in attempts {
        let step = resolve_with_retry(a, 5);
        let done = matches!(step, RetryStep::Resolved(_));
        steps.push(step);
        if done {
            break;
        }
    }
    assert_eq!(
        steps,
        vec![
            RetryStep::RetryAfter(5),
            RetryStep::RetryAfter(5),
            RetryStep::RetryAfter(5),
            RetryStep::Resolved(42),
        ]
    );
}

#[test]
fn presence_publishes_only_decoded_frames() {
    assert_eq!(presence_update(Ok::<Option<u8>, ()>(Some(3))), Some(3));
    assert_eq!(presence_update(Ok::<Option<u8>, ()>(None)), None);
    assert_eq!(presence_update(Err::<Option<u8>, u8>(1)), None);
}
