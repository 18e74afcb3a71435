use dactyl::nice::nice_u8::inner_from;
use dactyl::{NiceSeparator, NiceU16, NiceU32, NiceU64, NiceU8};
use dactyl::traits::BytesToUnsigned;
use num_format::{Locale, ToFormattedString};
use std::collections::HashSet;

#[test]
fn nice_u8_t_nice() {
    // Explicitly check default, min, and max.
    assert_eq!(NiceU8::default(), NiceU8::from(0));
    assert_eq!(NiceU8::min(), NiceU8::from(0));
    assert_eq!(NiceU8::max(), NiceU8::from(u8::MAX));

    let mut last = NiceU8::max();
    for i in u8::MIN..=u8::MAX {
        let istr = i.to_string();
        let nice = NiceU8::from(i);

        assert_eq!(istr, nice.as_str());
        assert_eq!(istr.as_bytes(), nice.as_bytes());
        assert_eq!(istr.len(), nice.len());

        // This should not equal the last value!
        assert_ne!(nice, last);

        // Now it should!
        last.replace(i);
        assert_eq!(nice, last);
    }
}

#[test]
fn t_inner_from() {
    for i in u8::MIN..=u8::MAX {
        let (inner, from) = inner_from(i);
        assert_eq!(
            std::str::from_utf8(inner.as_slice()).ok(),
            Some(format!("{i:03}")).as_deref(),
        );
        assert_eq!(i.to_string().len(), 3 - from as usize);
    }
}

#[test]
fn t_nice_u8() {
    assert_eq!(NiceU8::default(), NiceU8::from(0_u8));

    // Strings come from bytes, so this implicitly tests both.
    let mut last = NiceU8::empty();
    for i in 0..=u8::MAX {
        let nice = NiceU8::from(i);
        assert_eq!(nice.as_str(), format!("{i}"));
        assert_eq!(nice.len(), nice.as_str().len());
        assert_eq!(nice.len(), nice.as_bytes().len());
        assert!(!nice.is_empty());

        // Replacement should yield the same thing.
        assert_ne!(nice, last);
        last.replace(i);
        assert_eq!(nice, last);
    }

    // Make sure back to zero works.
    last.replace(0);
    assert_eq!(last.as_str(), "0");

    // Test the defaults too.
    assert_eq!(NiceU8::empty().as_bytes(), <&[u8]>::default());
    assert_eq!(NiceU8::empty().as_str(), "");
    assert!(NiceU8::empty().is_empty());

    // Test some Option variants.
    let foo: Option<u8> = None;
    assert_eq!(NiceU8::default(), NiceU8::from(foo));
    let foo = Some(13_u8);
    assert_eq!(NiceU8::from(13_u8), NiceU8::from(foo));

    // Check ordering too.
    let one = NiceU8::from(10_u8);
    let two = NiceU8::from(90_u8);
    assert_eq!(one.cmp(&two), std::cmp::Ordering::Less);
    assert_eq!(one.cmp(&one), std::cmp::Ordering::Equal);
    assert_eq!(two.cmp(&one), std::cmp::Ordering::Greater);
}

#[test]
fn t_nice_u8_pad2() {
    for i in 0..=u8::MAX {
        assert_eq!(NiceU8::from(i).as_str2(), format!("{i:02}"));
    }

    // Test the default.
    assert_eq!(NiceU8::empty().as_str2(), "00");
}

#[test]
fn t_nice_u8_pad3() {
    for i in 0..=u8::MAX {
        assert_eq!(NiceU8::from(i).as_str3(), format!("{i:03}"));
    }

    // Test the default.
    assert_eq!(NiceU8::empty().as_str3(), "000");
}

#[test]
fn nice_u8_t_as() {
    let num = NiceU8::from(253_u8);
    assert_eq!(num.as_str(), String::from(num));
    assert_eq!(num.as_bytes(), Vec::<u8>::from(num));
}

#[test]
fn nice_u16_t_as() {
    let num = NiceU16::from(1234_u16);
    assert_eq!(num.as_str(), String::from(num));
    assert_eq!(num.as_bytes(), Vec::<u8>::from(num));
}

#[test]
fn nice_u32_t_as() {
    let num = NiceU32::from(12_345_678_u32);
    assert_eq!(num.as_str(), String::from(num));
    assert_eq!(num.as_bytes(), Vec::<u8>::from(num));
}

#[test]
fn nice_u64_t_as() {
    let num = NiceU64::from(12_345_678_912_345_u64);
    assert_eq!(num.as_str(), String::from(num));
    assert_eq!(num.as_bytes(), Vec::<u8>::from(num));
}

#[test]
fn nice_u16_all_values_match_num_format() {
    assert_eq!(NiceU16::default(), NiceU16::from(0_u16));
    let mut last = NiceU16::empty();
    for i in 0..=u16::MAX {
        let nice = NiceU16::from(i);
        assert_eq!(nice.as_str(), i.to_formatted_string(&Locale::en));
        assert_eq!(nice.len(), nice.as_str().len());
        assert!(!nice.is_empty());
        assert_ne!(nice, last);
        last.replace(i);
        assert_eq!(nice, last);
    }
    last.replace(0);
    assert_eq!(last.as_str(), "0");
}

#[test]
fn nice_u32_u64_edges() {
    assert_eq!(NiceU32::from(0_u32).as_str(), "0");
    assert_eq!(NiceU32::from(999_u32).as_str(), "999");
    assert_eq!(NiceU32::from(1000_u32).as_str(), "1,000");
    assert_eq!(NiceU32::from(u32::MAX).as_str(), "4,294,967,295");
    assert_eq!(NiceU64::from(u64::MAX).as_str(), "18,446,744,073,709,551,615");
    assert_eq!(NiceU64::from(1_000_000_usize).as_str(), "1,000,000");
    assert_eq!(NiceU64::min().as_str(), "0");
    assert_eq!(NiceU64::max().as_str(), "18,446,744,073,709,551,615");
    assert_eq!(NiceU32::max().as_str(), "4,294,967,295");
    assert_eq!(NiceU16::max().as_str(), "65,535");
    let none: Option<u64> = None;
    assert_eq!(NiceU64::from(none).as_str(), "0");
    let some: Option<usize> = Some(12_345);
    assert_eq!(NiceU64::from(some).as_str(), "12,345");
}

#[test]
fn nice_with_separator() {
    assert_eq!(NiceU16::with_separator(12_345, NiceSeparator::Underscore).as_str(), "12_345");
    assert_eq!(NiceU32::with_separator(1_234_567, NiceSeparator::Period).as_str(), "1.234.567");
    assert_eq!(NiceU64::with_separator(1_234_567, NiceSeparator::Space).as_str(), "1 234 567");
    assert_eq!(NiceU64::with_separator(1_234_567, NiceSeparator::Apostrophe).as_str(), "1'234'567");
    assert_eq!(NiceU64::with_separator(1_234_567, NiceSeparator::Dash).as_str(), "1-234-567");
    assert_eq!(NiceU64::with_separator(999, NiceSeparator::Dash).as_str(), "999");

    // Replacing keeps the separator.
    let mut nice = NiceU32::with_separator(1_000, NiceSeparator::Underscore);
    nice.replace(4_000_000);
    assert_eq!(nice.as_str(), "4_000_000");
}

#[test]
fn nice_ordering_is_by_text() {
    // Ordering compares the text, so "9" sorts after "10".
    let nine = NiceU16::from(9_u16);
    let ten = NiceU16::from(10_u16);
    assert_eq!(nine.cmp(&ten), std::cmp::Ordering::Greater);
    assert_eq!(ten.order(&nine), -1);
    assert_eq!(ten.order(&ten), 0);
}

#[test]
fn nice_partial_ord() {
    assert!(NiceU16::from(10_u16) < NiceU16::from(9_u16));
    assert!(NiceU64::from(1_000_u64) > NiceU64::from(1_u64));
    assert!(NiceU8::from(7_u8) <= NiceU8::from(7_u8));
    assert_eq!(NiceU32::from(5_u32).partial_cmp(&NiceU32::from(6_u32)), Some(std::cmp::Ordering::Less));
}

#[test]
fn nice_u8_padded_bytes() {
    assert_eq!(NiceU8::from(7_u8).as_bytes2(), b"07");
    assert_eq!(NiceU8::from(7_u8).as_bytes3(), b"007");
    assert_eq!(NiceU8::from(42_u8).as_bytes2(), b"42");
    assert_eq!(NiceU8::from(200_u8).as_bytes2(), b"200");
    assert_eq!(NiceU8::from(200_u8).as_bytes3(), b"200");
}

#[test]
fn nice_text_reads_back() {
    for n in [0_u64, 7, 999, 1_000, 65_535, 1_234_567_890, u64::MAX] {
        let nice = NiceU64::from(n);
        let stripped: Vec<u8> = nice.as_bytes().iter().copied().filter(|b| *b != b',').collect();
        assert_eq!(u64::btou(&stripped), Some(n));
    }
}

#[test]
fn nice_hash_by_text() {
    let mut set: HashSet<NiceU16> = HashSet::new();
    assert!(set.insert(NiceU16::from(1_000_u16)));
    assert!(!set.insert(NiceU16::from(1_000_u16)));
    assert!(set.insert(NiceU16::from(999_u16)));
    let thousand = NiceU16::from(1_000_u16);
    let s: &str = thousand.as_ref();
    assert_eq!(s, "1,000");
    assert_eq!(&*NiceU16::from(1_000_u16), b"1,000");
}
