use mycelium::codec::{ControlPacket, DecodeError, Hello, Ihu, RouterId, Update};
use mycelium::metric::Metric;
use mycelium::seqno::SeqNo;
use mycelium::subnet::{Addr, Subnet};

fn round_trip(p: &ControlPacket) {
    let bytes = p.encode();
    let (decoded, consumed) = ControlPacket::decode(&bytes, 0).expect("well-formed packet decodes");
    assert_eq!(consumed, bytes.len());
    assert_eq!(&decoded, p);
}

#[test]
fn hello_round_trip() {
    round_trip(&ControlPacket::Hello(Hello { seqno: SeqNo(0), interval: 0 }));
    round_trip(&ControlPacket::Hello(Hello { seqno: SeqNo(65535), interval: 400 }));
    round_trip(&ControlPacket::Hello(Hello { seqno: SeqNo(0x1234), interval: 0xfedc }));
}

#[test]
fn ihu_round_trip() {
    round_trip(&ControlPacket::Ihu(Ihu {
        metric: Metric::Value(25),
        interval: 1000,
        dest_address: None,
    }));
    round_trip(&ControlPacket::Ihu(Ihu {
        metric: Metric::Infinite,
        interval: 0,
        dest_address: Some(Addr { hi: 0x0200_0000_0000_0001, lo: 0xdead_beef_0123_4567 }),
    }));
}

#[test]
fn update_round_trip() {
    let subnet = Subnet::new(Addr { hi: 0x0200_aabb_ccdd_0000, lo: 0 }, 64);
    round_trip(&ControlPacket::Update(Update {
        interval: 60,
        seqno: SeqNo(5),
        metric: Metric::Value(3),
        subnet,
        router_id: RouterId(0x1122_3344_5566_7788),
    }));
    round_trip(&ControlPacket::Update(Update {
        interval: 0,
        seqno: SeqNo(65535),
        metric: Metric::Infinite,
        subnet: Subnet::new(Addr { hi: u64::MAX, lo: u64::MAX }, 128),
        router_id: RouterId(0),
    }));
    round_trip(&ControlPacket::Update(Update {
        interval: 9,
        seqno: SeqNo(1),
        metric: Metric::Value(65534),
        subnet: Subnet::new(Addr { hi: 1, lo: 1 }, 0),
        router_id: RouterId(u64::MAX),
    }));
}

#[test]
fn skip_record_round_trip() {
    round_trip(&ControlPacket::Skip { tag: 0, body: vec![] });
    round_trip(&ControlPacket::Skip { tag: 200, body: vec![1, 2, 3, 4, 5] });
    round_trip(&ControlPacket::Skip { tag: 9, body: vec![0xff; 255] });
}

#[test]
fn wire_layout_is_tag_length_body_big_endian() {
    let hello = ControlPacket::Hello(Hello { seqno: SeqNo(0x0102), interval: 0x0304 });
    assert_eq!(hello.encode(), vec![4, 4, 1, 2, 3, 4]);

    let ihu = ControlPacket::Ihu(Ihu {
        metric: Metric::Infinite,
        interval: 0x00ff,
        dest_address: None,
    });
    assert_eq!(ihu.encode(), vec![5, 4, 0xff, 0xff, 0, 0xff]);

    let skip = ControlPacket::Skip { tag: 77, body: vec![1, 2] };
    assert_eq!(skip.encode(), vec![77, 2, 1, 2]);
}

#[test]
fn unknown_tag_decodes_to_skip() {
    // Forward compatibility: an unknown tag is kept opaque, not an error.
    let buf = vec![42u8, 3, 9, 8, 7];
    let (decoded, consumed) = ControlPacket::decode(&buf, 0).expect("unknown tag is skipped");
    assert_eq!(consumed, 5);
    assert_eq!(decoded, ControlPacket::Skip { tag: 42, body: vec![9, 8, 7] });
}

#[test]
fn concatenated_packets_decode_in_turn() {
    let first = ControlPacket::Hello(Hello { seqno: SeqNo(7), interval: 20 });
    let second = ControlPacket::Ihu(Ihu {
        metric: Metric::Value(2),
        interval: 30,
        dest_address: None,
    });
    let mut frame = first.encode();
    frame.extend_from_slice(&second.encode());

    let (p1, n1) = ControlPacket::decode(&frame, 0).expect("first packet decodes");
    assert_eq!(p1, first);
    let (p2, n2) = ControlPacket::decode(&frame, n1).expect("second packet decodes");
    assert_eq!(p2, second);
    assert_eq!(n1 + n2, frame.len());
}

#[test]
fn truncated_buffers_yield_truncated() {
    // Too short for even a header.
    assert_eq!(ControlPacket::decode(&vec![], 0), Err(DecodeError::Truncated));
    assert_eq!(ControlPacket::decode(&vec![4u8], 0), Err(DecodeError::Truncated));
    // Declared length overruns the buffer.
    assert_eq!(ControlPacket::decode(&vec![4u8, 4, 0, 0], 0), Err(DecodeError::Truncated));
    // Every proper prefix of a valid encoding is truncated.
    let p = ControlPacket::Update(Update {
        interval: 60,
        seqno: SeqNo(5),
        metric: Metric::Value(3),
        subnet: Subnet::new(Addr { hi: 0x0200_aabb_ccdd_0000, lo: 0 }, 64),
        router_id: RouterId(77),
    });
    let bytes = p.encode();
    for n in 0..bytes.len() {
        let prefix: Vec<u8> = bytes[..n].to_vec();
        assert_eq!(ControlPacket::decode(&prefix, 0), Err(DecodeError::Truncated));
    }
}

#[test]
fn malformed_known_bodies_yield_truncated() {
    // A Hello with the wrong body length.
    assert_eq!(ControlPacket::decode(&vec![4u8, 2, 0, 0], 0), Err(DecodeError::Truncated));
    // An IHU with a body length that fits neither form.
    assert_eq!(
        ControlPacket::decode(&vec![5u8, 5, 0, 0, 0, 0, 0], 0),
        Err(DecodeError::Truncated)
    );
    // An Update with a prefix length over 128.
    let subnet = Subnet::new(Addr { hi: 3, lo: 0 }, 64);
    let good = ControlPacket::Update(Update {
        interval: 1,
        seqno: SeqNo(1),
        metric: Metric::Value(1),
        subnet,
        router_id: RouterId(1),
    })
    .encode();
    let mut bad = good.clone();
    bad[8] = 200; // the prefix length byte
    assert_eq!(ControlPacket::decode(&bad, 0), Err(DecodeError::Truncated));
    // An Update whose prefix address has host bits set.
    let mut bad2 = good;
    bad2[24] = 0xff; // a byte past the 64-bit prefix
    assert_eq!(ControlPacket::decode(&bad2, 0), Err(DecodeError::Truncated));
}
