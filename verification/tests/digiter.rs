use dactyl::Digiter;

#[test]
fn t_digiter_u8() {
    // Zero is a no.
    assert!(Digiter::<u8>::new(0).is_none());

    // Everything else should be happy!
    for i in 1..=u8::MAX {
        let expected = i.to_string();
        let Some(mut iter) = Digiter::<u8>::new(i) else {
            panic!("Digiter::new failed with {i}_u8");
        };
        assert_eq!(iter.len(), expected.len(), "Digiter::len invalid for {i}_u8");
        let mut digits = Vec::new();
        while let Some(d) = iter.next() {
            digits.push(d);
        }
        digits.reverse();
        assert_eq!(std::str::from_utf8(digits.as_slice()).unwrap(), expected.as_str());
    }
}

#[test]
fn digiter_wider() {
    assert!(Digiter::<u64>::new(0).is_none());
    for n in [1_u64, 9, 10, 99, 100, 12_345, u64::MAX] {
        let mut iter = Digiter::<u64>::new(n).unwrap();
        assert_eq!(iter.len(), n.to_string().len());
        let mut digits = Vec::new();
        while let Some(d) = iter.next() {
            digits.push(d);
        }
        assert_eq!(iter.len(), 0);
        assert_eq!(iter.next(), None);
        digits.reverse();
        assert_eq!(String::from_utf8(digits).unwrap(), n.to_string());
    }
    let mut iter = Digiter::<u16>::new(u16::MAX).unwrap();
    assert_eq!(iter.next(), Some(b'5'));
    assert_eq!(iter.len(), 4);
    let iter = Digiter::<u32>::new(4_000_000_000).unwrap();
    assert_eq!(iter.len(), 10);
}
