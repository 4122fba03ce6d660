use mycelium::seqno::SeqNo;

#[test]
fn successor_is_newer() {
    for a in [0u16, 1, 100, 0x7fff, 0x8000, 0xfffe, 0xffff] {
        let next: u16 = a.wrapping_add(1);
        assert!(SeqNo(a).newer(SeqNo(next)), "{next} must be newer than {a}");
        assert!(!SeqNo(next).newer(SeqNo(a)), "{a} must not be newer than {next}");
    }
}

#[test]
fn midpoint_is_not_newer() {
    for a in [0u16, 5, 0x7fff, 0x8000, 0xffff] {
        let opposite: u16 = a.wrapping_add(0x8000);
        assert!(!SeqNo(a).newer(SeqNo(opposite)), "midpoint from {a} must not be newer");
    }
}

#[test]
fn comparison_is_circular() {
    // Just inside the window on either side of the wraparound.
    assert!(SeqNo(0xffff).newer(SeqNo(0)));
    assert!(SeqNo(0xfff0).newer(SeqNo(0x10)));
    assert!(!SeqNo(0x10).newer(SeqNo(0xfff0)));
    // Equal numbers are never newer than themselves.
    assert!(!SeqNo(7).newer(SeqNo(7)));
    // The largest strictly-newer distance.
    assert!(SeqNo(0).newer(SeqNo(0x7fff)));
    assert!(!SeqNo(0).newer(SeqNo(0x8000)));
}

#[test]
fn next_wraps_at_the_top() {
    assert_eq!(SeqNo(0).next(), SeqNo(1));
    assert_eq!(SeqNo(0xffff).next(), SeqNo(0));
}
