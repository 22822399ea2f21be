use su_flows::clock::{millis_text, system_time, timestamp_response, ClockError};
use su_flows::height::{decimal_text, pad_height};

#[test]
fn height_is_zero_padded_to_twelve() {
    assert_eq!(pad_height(0), "000000000000");
    assert_eq!(pad_height(1234), "000000001234");
    assert_eq!(pad_height(999_999_999_999), "999999999999");
    assert_eq!(pad_height(1_000_000_000_000), "1000000000000");
}

#[test]
fn padded_heights_sort_as_numbers() {
    let hs: Vec<u128> = vec![0, 9, 10, 99, 100, 1_299_999, 1_300_000, 999_999_999_999];
    for w in hs.windows(2) {
        let a = pad_height(w[0]);
        let b = pad_height(w[1]);
        assert_eq!(a.len(), 12);
        assert!(a < b);
    }
}

#[test]
fn decimal_has_no_leading_zeros() {
    assert_eq!(decimal_text(0), "0");
    assert_eq!(decimal_text(1_700_000_000_123), "1700000000123");
    assert_eq!(decimal_text(u128::MAX), u128::MAX.to_string());
}

#[test]
fn millis_combine_seconds_and_fraction() {
    assert_eq!(millis_text(1_700_000_000, 123), Ok("1700000000123".to_string()));
    assert_eq!(millis_text(0, 0), Ok("0".to_string()));
    assert_eq!(millis_text(u64::MAX / 1000, 615), Ok(u64::MAX.to_string()));
    assert_eq!(millis_text(u64::MAX / 1000, 616), Err(ClockError::Overflow));
    assert_eq!(millis_text(u64::MAX, 0), Err(ClockError::Overflow));
}

#[test]
fn system_time_is_decimal_milliseconds() {
    let t = system_time().unwrap();
    assert!(!t.is_empty());
    assert!(t.chars().all(|c| c.is_ascii_digit()));
    assert!(t.parse::<u64>().unwrap() > 1_600_000_000_000);
}

#[test]
fn timestamp_object_quotes_both_fields() {
    let r = timestamp_response(&"1700000000123".to_string(), 1_300_000).unwrap();
    assert_eq!(r, "{\"block_height\":\"000001300000\",\"timestamp\":\"1700000000123\"}");
}

#[test]
fn timestamp_keeps_height_for_same_reading() {
    let a = timestamp_response(&"1700000000123".to_string(), 42).unwrap();
    let b = timestamp_response(&"1700000000124".to_string(), 42).unwrap();
    assert!(a.contains("\"block_height\":\"000000000042\""));
    assert!(b.contains("\"block_height\":\"000000000042\""));
    assert!(a < b);
}
