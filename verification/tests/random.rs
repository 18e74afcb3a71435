use dactyl::traits::{BytesToSigned, BytesToUnsigned, HexToUnsigned};
use dactyl::{NiceElapsed, NiceU32, NiceU64};
use num_format::{Locale, ToFormattedString};

const SAMPLE_SIZE: usize = 20_000;

#[test]
fn random_nice_u32_u64() {
    let mut rng = fastrand::Rng::new();
    for _ in 0..SAMPLE_SIZE {
        let a = rng.u32(..);
        assert_eq!(NiceU32::from(a).as_str(), a.to_formatted_string(&Locale::en));
        let b = rng.u64(..);
        assert_eq!(NiceU64::from(b).as_str(), b.to_formatted_string(&Locale::en));
    }
}

#[test]
fn random_parse_round_trips() {
    let mut rng = fastrand::Rng::new();
    for _ in 0..SAMPLE_SIZE {
        let a = rng.u64(..);
        assert_eq!(u64::btou(a.to_string().as_bytes()), Some(a));
        assert_eq!(u64::htou(format!("{a:x}").as_bytes()), Some(a));
        let b = rng.i64(..);
        assert_eq!(i64::btoi(b.to_string().as_bytes()), Some(b));
        let c = rng.u128(..);
        assert_eq!(u128::btou(c.to_string().as_bytes()), Some(c));
        assert_eq!(u128::htou(format!("{c:X}").as_bytes()), Some(c));
    }
}

#[test]
fn random_elapsed_parts() {
    let mut rng = fastrand::Rng::new();
    for _ in 0..SAMPLE_SIZE {
        let n = rng.u32(..);
        let (d, h, m, s) = NiceElapsed::dhms(n);
        assert_eq!(u64::from(d) * 86_400 + u64::from(h) * 3600 + u64::from(m) * 60 + u64::from(s), u64::from(n));
        assert!(h < 24 && m < 60 && s < 60);
    }
}
