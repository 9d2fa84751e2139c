use deimos::decoding::{attempt_again, DecodeErrors, DecodeFailure, FrameCursor, Retry, MAX_DECODE_ERRORS};

#[test]
fn decode_errors_are_retried_up_to_the_limit() {
    let mut errors = DecodeErrors::new();
    for _ in 0..MAX_DECODE_ERRORS {
        assert_eq!(errors.record(DecodeFailure::Decode), Retry::Again);
    }
    assert_eq!(errors.record(DecodeFailure::Decode), Retry::GiveUp);
    let mut fresh = DecodeErrors::new();
    assert_eq!(fresh.record(DecodeFailure::Other), Retry::GiveUp);
}

#[test]
fn attempts_per_packet() {
    assert!(attempt_again(0));
    assert!(attempt_again(2));
    assert!(!attempt_again(3));
}

#[test]
fn cursor_hands_out_samples_in_order() {
    let samples = [5i16, -3, 7];
    let mut cursor = FrameCursor::new();
    assert!(!cursor.needs_frame(3));
    assert_eq!(cursor.take(&samples), Some(5));
    assert_eq!(cursor.take(&samples), Some(-3));
    assert_eq!(cursor.take(&samples), Some(7));
    assert!(cursor.needs_frame(3));
    assert_eq!(cursor.take(&samples), None);
    cursor.restart();
    assert_eq!(cursor.take(&samples), Some(5));
    assert!(FrameCursor::new().needs_frame(0));
}
