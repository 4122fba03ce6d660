use mycelium::subnet::{Addr, Subnet};

#[test]
fn construction_clears_host_bits() {
    let s = Subnet::new(Addr { hi: 0x0200_0000_0000_1234, lo: 0xffff_ffff_ffff_ffff }, 48);
    assert_eq!(s.addr, Addr { hi: 0x0200_0000_0000_0000, lo: 0 });
    assert_eq!(s.prefix_len, 48);

    let t = Subnet::new(Addr { hi: 0x0200_0000_0000_1234, lo: 0xffff_ffff_ffff_ffff }, 96);
    assert_eq!(t.addr, Addr { hi: 0x0200_0000_0000_1234, lo: 0xffff_ffff_0000_0000 });
}

#[test]
fn containment_follows_the_prefix() {
    let s = Subnet::new(Addr { hi: 0x0200_0000_0000_0000, lo: 0 }, 48);
    assert!(s.contains(Addr { hi: 0x0200_0000_0000_0001, lo: 99 }));
    assert!(!s.contains(Addr { hi: 0x0200_0001_0000_0000, lo: 0 }));

    // The empty prefix contains every address.
    let any = Subnet::new(Addr { hi: 77, lo: 77 }, 0);
    assert!(any.contains(Addr { hi: u64::MAX, lo: u64::MAX }));
    assert!(any.contains(Addr { hi: 0, lo: 0 }));

    // A full-length prefix contains exactly its own address.
    let host = Subnet::new(Addr { hi: 1, lo: 2 }, 128);
    assert!(host.contains(Addr { hi: 1, lo: 2 }));
    assert!(!host.contains(Addr { hi: 1, lo: 3 }));
}

#[test]
fn subnets_compare_by_prefix() {
    let a = Subnet::new(Addr { hi: 8, lo: 0xff }, 64);
    let b = Subnet::new(Addr { hi: 8, lo: 0xaa }, 64);
    let c = Subnet::new(Addr { hi: 8, lo: 0 }, 65);
    assert_eq!(a, b);
    assert_ne!(a, c);
}
