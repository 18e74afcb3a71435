use dactyl::{NiceFloat, NiceSeparator};

fn nice(num: f64) -> NiceFloat {
    NiceFloat::from_bits64(num.to_bits())
}

fn with_separator(num: f64, sep: NiceSeparator, dot: NiceSeparator) -> NiceFloat {
    NiceFloat::with_separator_bits(num.to_bits(), sep, dot)
}

#[test]
fn nice_float_t_nice() {
    // Some basic numbers.
    assert_eq!(nice(0_f64).as_str(), "0.00000000");
    assert_eq!(nice(-0_f64).as_str(), "0.00000000");
    assert_eq!(nice(-0.03_f64).as_str(), "-0.03000000");
    assert_eq!(nice(-10_f64).as_str(), "-10.00000000");
    assert_eq!(nice(1.03_f64).as_str(), "1.03000000");
    assert_eq!(nice(1.020_202_020_2_f64).as_str(), "1.02020202");
    assert_eq!(nice(-11_323.03_f64).as_str(), "-11,323.03000000");

    // Rounding.
    assert_eq!(nice(0.123_456_789_f64).as_str(), "0.12345679");
    assert_eq!(nice(1.000_000_046_f64).as_str(), "1.00000005");

    // Tie/Even Rounding.
    assert_eq!(nice(1.000_000_035_f64).as_str(), "1.00000004");
    assert_eq!(nice(1.000_000_044_f64).as_str(), "1.00000004");
    assert_eq!(nice(1.000_000_045_f64).as_str(), "1.00000004");
    assert_eq!(nice(1.000_000_055_f64).as_str(), "1.00000006");

    // Weird things.
    assert_eq!(nice(f64::NAN).as_str(), "NaN");
    assert_eq!(nice(f64::INFINITY).as_str(), "∞");
    assert_eq!(nice(f64::NEG_INFINITY).as_str(), "∞");
    assert_eq!(nice(1.0e-308_f64).as_str(), "0.00000000");
}

#[test]
fn nice_float_t_compact() {
    assert_eq!(nice(0_f64).compact_str(), "0");
    assert_eq!(
        with_separator(0_f64, NiceSeparator::Space, NiceSeparator::Space).compact_str(),
        "0",
    );
    assert_eq!(nice(0.010_200_3_f64).compact_str(), "0.0102003");
    assert_eq!(nice(0.000_000_01_f64).compact_str(), "0.00000001");
    assert_eq!(nice(0.000_000_001_f64).compact_str(), "0");

    // A few weird ones.
    assert_eq!(nice(f64::NAN).compact_str(), "NaN");
    assert_eq!(nice(f64::INFINITY).compact_str(), "∞");
    assert_eq!(
        with_separator(f64::NAN, NiceSeparator::Space, NiceSeparator::Space).compact_str(),
        "NaN",
    );
    assert_eq!(
        with_separator(f64::INFINITY, NiceSeparator::Space, NiceSeparator::Space).compact_str(),
        "∞",
    );
    assert_eq!(
        NiceFloat::overflow(true, NiceSeparator::Comma).compact_str(),
        "< -18,446,744,073,709,551,615",
    );
    assert_eq!(
        NiceFloat::overflow(false, NiceSeparator::Comma).compact_str(),
        "> 18,446,744,073,709,551,615",
    );
    assert_eq!(
        with_separator(f64::MIN, NiceSeparator::Underscore, NiceSeparator::Period).compact_str(),
        "< -18_446_744_073_709_551_615",
    );
    assert_eq!(
        with_separator(f64::MAX, NiceSeparator::Apostrophe, NiceSeparator::Period).compact_str(),
        "> 18'446'744'073'709'551'615",
    );
}

#[test]
fn nice_float_t_precise() {
    assert_eq!(nice(0_f64).precise_str(1), "0.0");
    assert_eq!(nice(0_f64).precise_str(0), "0");

    // A few weird ones.
    assert_eq!(NiceFloat::nan().precise_str(3), "NaN");
    assert_eq!(NiceFloat::infinity().precise_str(3), "∞");
    assert_eq!(
        NiceFloat::overflow(true, NiceSeparator::Comma).precise_str(3),
        "< -18,446,744,073,709,551,615",
    );
    assert_eq!(
        NiceFloat::overflow(false, NiceSeparator::Comma).precise_str(3),
        "> 18,446,744,073,709,551,615",
    );
    assert_eq!(
        with_separator(f64::MIN, NiceSeparator::Dash, NiceSeparator::Space).precise_str(3),
        "< -18-446-744-073-709-551-615",
    );
    assert_eq!(
        with_separator(f64::MAX, NiceSeparator::Dash, NiceSeparator::Space).precise_str(3),
        "> 18-446-744-073-709-551-615",
    );
}

#[test]
fn t_nice_float() {
    // Some basic numbers.
    assert_eq!(nice(0_f64).as_str(), "0.00000000");
    assert_eq!(nice(-0_f64).as_str(), "0.00000000");
    assert_eq!(nice(-10_f64).as_str(), "-10.00000000");
    assert_eq!(nice(1.03_f64).as_str(), "1.03000000");
    assert_eq!(nice(1.020_202_020_2_f64).as_str(), "1.02020202");
    assert_eq!(nice(-11_323.03_f64).as_str(), "-11,323.03000000");

    // Rounding.
    assert_eq!(nice(0.123_456_789_f64).as_str(), "0.12345679");
    assert_eq!(nice(1.000_000_046_f64).as_str(), "1.00000005");

    // Tie/Even Rounding.
    assert_eq!(nice(1.000_000_035_f64).as_str(), "1.00000004");
    assert_eq!(nice(1.000_000_044_f64).as_str(), "1.00000004");
    assert_eq!(nice(1.000_000_045_f64).as_str(), "1.00000004");
    assert_eq!(nice(1.000_000_055_f64).as_str(), "1.00000006");

    // Weird things.
    assert_eq!(nice(f64::NAN).as_str(), "NaN");
    assert_eq!(nice(f64::INFINITY).as_str(), "∞");
    assert_eq!(nice(f64::NEG_INFINITY).as_str(), "∞");
    assert_eq!(nice(1.0e-308_f64).as_str(), "0.00000000");
}

#[test]
fn t_has_dot() {
    // Basic things should have dots.
    assert!(nice(0_f64).has_dot());
    assert!(nice(1.234_f64).has_dot());
    assert!(with_separator(1.234_f64, NiceSeparator::Apostrophe, NiceSeparator::Comma).has_dot());

    assert!(!NiceFloat::nan().has_dot());
    assert!(!NiceFloat::infinity().has_dot());
    assert!(!NiceFloat::overflow(true, NiceSeparator::Comma).has_dot());
    assert!(!NiceFloat::overflow(false, NiceSeparator::Comma).has_dot());
    assert!(!with_separator(f64::MIN, NiceSeparator::Apostrophe, NiceSeparator::Comma).has_dot());
    assert!(!with_separator(f64::MAX, NiceSeparator::Apostrophe, NiceSeparator::Comma).has_dot());
}

#[test]
fn float_docs_examples() {
    assert_eq!(nice(1234.550_123_450_1_f64).as_str(), "1,234.55012345");
    let n = nice(12345.678_f64);
    assert_eq!(n.as_bytes(), b"12,345.67800000");
    assert_eq!(n.compact_bytes(), b"12,345.678");
    assert_eq!(n.precise_bytes(0), b"12,345");
    assert_eq!(n.precise_bytes(1), b"12,345.6");
    assert_eq!(n.precise_bytes(2), b"12,345.67");
    assert_eq!(n.precise_bytes(3), b"12,345.678");
    assert_eq!(n.precise_bytes(4), b"12,345.6780");
    assert_eq!(n.precise_bytes(7), b"12,345.6780000");
    assert_eq!(n.precise_bytes(8), b"12,345.67800000");
    assert_eq!(n.precise_str(5), "12,345.67800");
    assert_eq!(nice(12340.0).compact_bytes(), b"12,340");
    assert_eq!(nice(12345.678_333_333_3_f64).compact_bytes(), b"12,345.67833333");
    assert_eq!(
        with_separator(1234.5678_f64, NiceSeparator::Period, NiceSeparator::Comma).as_str(),
        "1.234,56780000",
    );
    assert_eq!(
        with_separator(0_f64, NiceSeparator::Comma, NiceSeparator::Space).as_str(),
        "0 00000000",
    );
    assert_eq!(nice(f64::MAX).as_str(), "> 18,446,744,073,709,551,615");
    assert_eq!(nice(-f64::MAX).as_str(), "< -18,446,744,073,709,551,615");
    assert_eq!(NiceFloat::zero().as_str(), "0.00000000");
    assert_eq!(NiceFloat::default(), NiceFloat::zero());
    assert_eq!(NiceFloat::nan().len(), 3);
    assert_eq!(NiceFloat::infinity().len(), 3);
    assert!(!NiceFloat::nan().is_empty());
    assert_eq!(String::from(nice(2.5_f64)), "2.50000000");
}

#[test]
fn float_integers_and_carry() {
    // Exactly representable integers, up to the top of u64.
    assert_eq!(nice(1_000_000_f64).as_str(), "1,000,000.00000000");
    assert_eq!(nice(9_007_199_254_740_992_f64).as_str(), "9,007,199,254,740,992.00000000");
    assert_eq!(nice(9_223_372_036_854_775_808_f64).as_str(), "9,223,372,036,854,775,808.00000000");
    // 2^64 no longer fits.
    assert_eq!(nice(18_446_744_073_709_551_616_f64).as_str(), "> 18,446,744,073,709,551,615");
    // A fraction that rounds up to a whole carries into the integer part.
    assert_eq!(nice(0.999_999_999_9_f64).as_str(), "1.00000000");
    assert_eq!(nice(2.999_999_999_9_f64).as_str(), "3.00000000");
}

#[test]
fn float_from_f32_bits() {
    assert_eq!(NiceFloat::from_bits32(0_f32.to_bits()).as_str(), "0.00000000");
    assert_eq!(NiceFloat::from_bits32(1.5_f32.to_bits()).as_str(), "1.50000000");
    assert_eq!(NiceFloat::from_bits32((-2.25_f32).to_bits()).as_str(), "-2.25000000");
    assert_eq!(NiceFloat::from_bits32(f32::NAN.to_bits()).as_str(), "NaN");
    assert_eq!(NiceFloat::from_bits32(f32::INFINITY.to_bits()).as_str(), "∞");
    assert_eq!(NiceFloat::from_bits32(f32::MAX.to_bits()).as_str(), "> 18,446,744,073,709,551,615");
    assert_eq!(NiceFloat::from_bits32(1024_f32.to_bits()).as_str(), "1,024.00000000");
}
