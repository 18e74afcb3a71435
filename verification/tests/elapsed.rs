use dactyl::NiceElapsed;
use std::time::Duration;

fn from_(num: u32, expected: &str) {
    assert_eq!(
        NiceElapsed::from(num).as_bytes(),
        expected.as_bytes(),
        "{} should be equivalent to {:?}, not {:?}",
        num,
        expected,
        NiceElapsed::from(num).as_str(),
    );
}

fn from_d_(num: Duration, expected: &str) {
    assert_eq!(
        NiceElapsed::from(num).as_bytes(),
        expected.as_bytes(),
        "{:?} should be equivalent to {:?}, not {:?}",
        num,
        expected,
        NiceElapsed::from(num).as_str(),
    );
}

#[test]
fn nice_elapsed_t_from() {
    from_(0, "0 seconds");
    from_(1, "1 second");
    from_(50, "50 seconds");

    from_(60, "1 minute");
    from_(61, "1 minute and 1 second");
    from_(100, "1 minute and 40 seconds");
    from_(2101, "35 minutes and 1 second");
    from_(2121, "35 minutes and 21 seconds");

    from_(3600, "1 hour");
    from_(3601, "1 hour and 1 second");
    from_(3602, "1 hour and 2 seconds");
    from_(3660, "1 hour and 1 minute");
    from_(3661, "1 hour, 1 minute, and 1 second");
    from_(3662, "1 hour, 1 minute, and 2 seconds");
    from_(3720, "1 hour and 2 minutes");
    from_(3721, "1 hour, 2 minutes, and 1 second");
    from_(3723, "1 hour, 2 minutes, and 3 seconds");
    from_(36001, "10 hours and 1 second");
    from_(36015, "10 hours and 15 seconds");
    from_(36060, "10 hours and 1 minute");
    from_(37732, "10 hours, 28 minutes, and 52 seconds");
    from_(37740, "10 hours and 29 minutes");

    from_(86400, "1 day");
    from_(86401, "1 day and 1 second");
    from_(86461, "1 day, 1 minute, and 1 second");
    from_(428_390, "4 days, 22 hours, 59 minutes, and 50 seconds");
    from_(878_428_390, "10,166 days, 23 hours, 53 minutes, and 10 seconds");
    from_(u32::MAX, "49,710 days, 6 hours, 28 minutes, and 15 seconds");
}

#[test]
fn nice_elapsed_t_from_duration() {
    from_d_(Duration::from_millis(0), "0 seconds");
    from_d_(Duration::from_millis(1), "0 seconds");
    from_d_(Duration::from_millis(10), "0.01 seconds");
    from_d_(Duration::from_millis(100), "0.10 seconds");
    from_d_(Duration::from_millis(1000), "1 second");
    from_d_(Duration::from_millis(50000), "50 seconds");
    from_d_(Duration::from_millis(50020), "50.02 seconds");

    from_d_(Duration::from_millis(60000), "1 minute");
    from_d_(Duration::from_millis(60001), "1 minute");
    from_d_(Duration::from_millis(60340), "1 minute and 0.34 seconds");
    from_d_(Duration::from_millis(61000), "1 minute and 1 second");
    from_d_(Duration::from_millis(61999), "1 minute and 1.99 seconds");
    from_d_(Duration::from_millis(2_101_000), "35 minutes and 1 second");
    from_d_(Duration::from_millis(2_101_050), "35 minutes and 1.05 seconds");
    from_d_(Duration::from_millis(2_121_000), "35 minutes and 21 seconds");
    from_d_(Duration::from_millis(2_121_820), "35 minutes and 21.82 seconds");
    from_d_(Duration::from_nanos(2_121_999_999_999), "35 minutes and 21.99 seconds");

    from_d_(Duration::from_millis(3_600_000), "1 hour");
    from_d_(Duration::from_millis(3_600_300), "1 hour and 0.30 seconds");
    from_d_(Duration::from_millis(3_660_000), "1 hour and 1 minute");
    from_d_(Duration::from_millis(3_661_000), "1 hour, 1 minute, and 1 second");
    from_d_(Duration::from_millis(3_661_100), "1 hour, 1 minute, and 1.10 seconds");
    from_d_(Duration::from_millis(37_732_000), "10 hours, 28 minutes, and 52 seconds");
    from_d_(Duration::from_millis(37_732_030), "10 hours, 28 minutes, and 52.03 seconds");
    from_d_(Duration::from_millis(37_740_000), "10 hours and 29 minutes");
    from_d_(Duration::from_millis(37_740_030), "10 hours, 29 minutes, and 0.03 seconds");

    from_d_(Duration::from_millis(428_390_000), "4 days, 22 hours, 59 minutes, and 50 seconds");
    from_d_(Duration::from_millis(428_390_999), "4 days, 22 hours, 59 minutes, and 50.99 seconds");
    from_d_(Duration::from_millis(878_428_390_999), "10,166 days, 23 hours, 53 minutes, and 10.99 seconds");
}

#[test]
fn mod_t_from() {
    from_(0, "0 seconds");
    from_(1, "1 second");
    from_(50, "50 seconds");

    from_(60, "1 minute");
    from_(61, "1 minute and 1 second");
    from_(100, "1 minute and 40 seconds");
    from_(2101, "35 minutes and 1 second");
    from_(2121, "35 minutes and 21 seconds");

    from_(3600, "1 hour");
    from_(3601, "1 hour and 1 second");
    from_(3602, "1 hour and 2 seconds");
    from_(3660, "1 hour and 1 minute");
    from_(3661, "1 hour, 1 minute, and 1 second");
    from_(3662, "1 hour, 1 minute, and 2 seconds");
    from_(3720, "1 hour and 2 minutes");
    from_(3721, "1 hour, 2 minutes, and 1 second");
    from_(3723, "1 hour, 2 minutes, and 3 seconds");
    from_(36001, "10 hours and 1 second");
    from_(36015, "10 hours and 15 seconds");
    from_(36060, "10 hours and 1 minute");
    from_(37732, "10 hours, 28 minutes, and 52 seconds");
    from_(37740, "10 hours and 29 minutes");

    from_(86400, "1 day");
    from_(86401, "1 day and 1 second");
    from_(86461, "1 day, 1 minute, and 1 second");
    from_(428_390, "4 days, 22 hours, 59 minutes, and 50 seconds");
    from_(878_428_390, "10,166 days, 23 hours, 53 minutes, and 10 seconds");
    from_(u32::MAX, "49,710 days, 6 hours, 28 minutes, and 15 seconds");
}

#[test]
fn mod_t_from_duration() {
    from_d_(Duration::from_millis(0), "0 seconds");
    from_d_(Duration::from_millis(1), "0 seconds");
    from_d_(Duration::from_millis(10), "0.01 seconds");
    from_d_(Duration::from_millis(100), "0.10 seconds");
    from_d_(Duration::from_millis(1000), "1 second");
    from_d_(Duration::from_millis(50000), "50 seconds");
    from_d_(Duration::from_millis(50020), "50.02 seconds");

    from_d_(Duration::from_millis(60000), "1 minute");
    from_d_(Duration::from_millis(60001), "1 minute");
    from_d_(Duration::from_millis(60340), "1 minute and 0.34 seconds");
    from_d_(Duration::from_millis(61000), "1 minute and 1 second");
    from_d_(Duration::from_millis(61999), "1 minute and 1.99 seconds");
    from_d_(Duration::from_millis(2_101_000), "35 minutes and 1 second");
    from_d_(Duration::from_millis(2_101_050), "35 minutes and 1.05 seconds");
    from_d_(Duration::from_millis(2_121_000), "35 minutes and 21 seconds");
    from_d_(Duration::from_millis(2_121_820), "35 minutes and 21.82 seconds");
    from_d_(Duration::from_nanos(2_121_999_999_999), "35 minutes and 21.99 seconds");

    from_d_(Duration::from_millis(3_600_000), "1 hour");
    from_d_(Duration::from_millis(3_600_300), "1 hour and 0.30 seconds");
    from_d_(Duration::from_millis(3_660_000), "1 hour and 1 minute");
    from_d_(Duration::from_millis(3_661_000), "1 hour, 1 minute, and 1 second");
    from_d_(Duration::from_millis(3_661_100), "1 hour, 1 minute, and 1.10 seconds");
    from_d_(Duration::from_millis(37_732_000), "10 hours, 28 minutes, and 52 seconds");
    from_d_(Duration::from_millis(37_732_030), "10 hours, 28 minutes, and 52.03 seconds");
    from_d_(Duration::from_millis(37_740_000), "10 hours and 29 minutes");
    from_d_(Duration::from_millis(37_740_030), "10 hours, 29 minutes, and 0.03 seconds");

    from_d_(Duration::from_millis(428_390_000), "4 days, 22 hours, 59 minutes, and 50 seconds");
    from_d_(Duration::from_millis(428_390_999), "4 days, 22 hours, 59 minutes, and 50.99 seconds");
    from_d_(Duration::from_millis(878_428_390_999), "10,166 days, 23 hours, 53 minutes, and 10.99 seconds");
}

#[test]
fn elapsed_chunks() {
    assert_eq!(NiceElapsed::hms(121), [0_u8, 2_u8, 1_u8]);
    assert_eq!(NiceElapsed::hms(0), [0_u8, 0_u8, 0_u8]);
    assert_eq!(NiceElapsed::hms(86_398), [23_u8, 59_u8, 58_u8]);
    assert_eq!(NiceElapsed::hms(86_399), [23_u8, 59_u8, 59_u8]);
    assert_eq!(NiceElapsed::hms(u32::MAX), [23_u8, 59_u8, 59_u8]);
    assert_eq!(NiceElapsed::dhms(1_123_321), (13_u16, 0_u8, 2_u8, 1_u8));
    assert_eq!(NiceElapsed::dhms(3661), (0_u16, 1_u8, 1_u8, 1_u8));
    assert_eq!(NiceElapsed::dhms(u32::MAX), (49_710_u16, 6_u8, 28_u8, 15_u8));

    // Every split adds back up to the total.
    for n in [0_u32, 59, 60, 3599, 3600, 86_399, 86_400, 1_000_000, u32::MAX] {
        let (d, h, m, s) = NiceElapsed::dhms(n);
        assert_eq!(u64::from(d) * 86_400 + u64::from(h) * 3600 + u64::from(m) * 60 + u64::from(s), u64::from(n));
    }
}

#[test]
fn elapsed_basics() {
    assert_eq!(NiceElapsed::min().as_str(), "0 seconds");
    assert_eq!(NiceElapsed::default().as_str(), "0 seconds");
    let nice = NiceElapsed::from(73_u32);
    assert_eq!(nice.as_str(), "1 minute and 13 seconds");
    assert_eq!(nice.len(), 23);
    assert!(!nice.is_empty());
    assert_eq!(String::from(nice), "1 minute and 13 seconds");
    assert_eq!(NiceElapsed::from(62_u64).as_bytes(), b"1 minute and 2 seconds");
    assert_eq!(NiceElapsed::from(62_usize), NiceElapsed::from(62_u32));
    assert_eq!(NiceElapsed::from(62_u128), NiceElapsed::from(62_u32));
    // Large values are capped to u32::MAX.
    assert_eq!(NiceElapsed::from(u64::MAX), NiceElapsed::from(u32::MAX));
    assert_eq!(NiceElapsed::from(u128::MAX), NiceElapsed::from(u32::MAX));
    assert_eq!(NiceElapsed::from_parts(1, 1, 1, 1, 50).as_str(), "1 day, 1 hour, 1 minute, and 1.50 seconds");
    assert_eq!(NiceElapsed::from_parts(2, 0, 0, 0, 0).as_str(), "2 days");
}

#[test]
fn elapsed_ordering_is_by_text() {
    // "1 minute" sorts before "2 seconds" as text.
    assert!(NiceElapsed::from(60_u32) < NiceElapsed::from(2_u32));
}

#[test]
fn elapsed_length_bounds() {
    let longest = NiceElapsed::from_parts(49_710, 23, 59, 59, 99);
    assert_eq!(longest.as_str(), "49,710 days, 23 hours, 59 minutes, and 59.99 seconds");
    assert_eq!(longest.len(), 52);
    for n in [0_u32, 1, 61, 3661, 86_400, u32::MAX] {
        let nice = NiceElapsed::from(n);
        assert!(1 <= nice.len() && nice.len() <= 52);
        assert_eq!(nice.len(), nice.as_bytes().len());
        assert_eq!(nice.len(), nice.as_str().len());
    }
}
