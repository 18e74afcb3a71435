use dactyl::NiceClock;
use std::time::Duration;

#[test]
fn clock_t_nice_clock() {
    let mut last = NiceClock::min();
    for h in 0..24_u32 {
        for m in 0..60_u32 {
            for s in 0..60_u32 {
                let total = s + m * 60 + h * 60 * 60;
                let clock = NiceClock::from(total);
                assert_eq!(clock.as_str(), format!("{h:02}:{m:02}:{s:02}"));

                // Check replacements too.
                if total == 0 {
                    assert_eq!(last, clock);
                } else {
                    assert_ne!(last, clock);
                }
                last.replace(total);
                assert_eq!(last, clock); // Should be the same now.

                // Check the bigger types.
                assert_eq!(clock, NiceClock::from(u64::from(total)));
                assert_eq!(clock, NiceClock::from(u128::from(total)));
            }
        }
    }

    // Check big saturating.
    assert_eq!(last, NiceClock::max());
    assert_eq!(last, NiceClock::from(i128::MAX));
    assert_eq!(last, NiceClock::from(i32::MAX));
    assert_eq!(last, NiceClock::from(i64::MAX));
    assert_eq!(last, NiceClock::from(isize::MAX));
    assert_eq!(last, NiceClock::from(u128::MAX));
    assert_eq!(last, NiceClock::from(u32::MAX));
    assert_eq!(last, NiceClock::from(u64::MAX));
    assert_eq!(last, NiceClock::from(usize::MAX));

    // Check negative saturating.
    last.replace(0);
    assert_eq!(last, NiceClock::min());
    assert_eq!(last, NiceClock::from(i8::MIN));
    assert_eq!(last, NiceClock::from(i16::MIN));
    assert_eq!(last, NiceClock::from(i32::MIN));
    assert_eq!(last, NiceClock::from(i64::MIN));
    assert_eq!(last, NiceClock::from(i128::MIN));
    assert_eq!(last, NiceClock::from(isize::MIN));
}

#[test]
fn clock_parts() {
    let clock = NiceClock::from(3661_u32);
    assert_eq!(clock.as_str(), "01:01:01");
    assert_eq!(clock.hours(), 1);
    assert_eq!(clock.minutes(), 1);
    assert_eq!(clock.seconds(), 1);
    assert_eq!(clock.len(), 8);
    assert!(!clock.is_empty());

    let clock = NiceClock::from(86_399_u32);
    assert_eq!((clock.hours(), clock.minutes(), clock.seconds()), (23, 59, 59));
    assert_eq!(<[u8; 8]>::from(clock), *b"23:59:59");
    assert_eq!(NiceClock::default().as_bytes(), b"00:00:00");
    assert_eq!(NiceClock::from(45_u8).as_str(), "00:00:45");
    assert_eq!(NiceClock::from(-5_i16).as_str(), "00:00:00");
    assert_eq!(NiceClock::from(4000_u16).as_str(), "01:06:40");
}

#[test]
fn clock_from_duration() {
    assert_eq!(NiceClock::from(Duration::from_millis(3_661_999)).as_str(), "01:01:01");
    assert_eq!(NiceClock::from(Duration::from_secs(1_000_000)).as_str(), "23:59:59");
}

#[test]
fn clock_ordering() {
    assert!(NiceClock::from(59_u32) < NiceClock::from(60_u32));
    assert!(NiceClock::max() > NiceClock::min());
}

#[test]
fn clock_from_duration_whole_seconds() {
    assert_eq!(NiceClock::from(Duration::from_millis(59_999)).as_str(), "00:00:59");
    assert_eq!(NiceClock::from(Duration::from_secs(86_399)).as_str(), "23:59:59");
    assert_eq!(NiceClock::from(Duration::ZERO).as_str(), "00:00:00");
}
