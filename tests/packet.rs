use aether_lib::acknowledgement::{Acknowledgement, AcknowledgementList};
use aether_lib::error::AetherError;
use aether_lib::packet::{self, PType, Packet, PacketFlags};

#[test]
fn range_test() {
    let pack = packet::Packet::new(PType::Data, 0);
    assert!(pack.ack.ack_begin <= pack.ack.ack_end.into());
    assert!(pack.ack.miss_count as u32 <= (pack.ack.ack_end as u32 - pack.ack.ack_begin));
}

#[test]
fn compile_test() {
    let mut pack = packet::Packet::new(PType::Data, 32850943);
    let mut ack_list = AcknowledgementList::new(329965);
    ack_list.insert(329966).unwrap();
    ack_list.insert(329967).unwrap();
    ack_list.insert(329969).unwrap();
    ack_list.insert(329970).unwrap();

    pack.add_ack(ack_list.get());
    pack.append_payload(vec![1, 2, 3, 4, 5, 6, 7, 8, 9, 10]);
    let compiled = pack.compile();

    let pack_out = packet::Packet::parse(&compiled).unwrap();

    assert_eq!(pack.sequence, pack_out.sequence);

    assert_eq!(pack.flags.p_type, pack_out.flags.p_type);
    assert_eq!(pack.flags.ack, pack_out.flags.ack);
    assert_eq!(pack.flags.enc, pack_out.flags.enc);

    assert_eq!(pack.ack.ack_begin, pack_out.ack.ack_begin);
    assert_eq!(pack.ack.ack_end, pack_out.ack.ack_end);
    assert_eq!(pack.ack.miss_count, pack_out.ack.miss_count);
    assert_eq!(pack.ack.miss, pack_out.ack.miss);

    assert_eq!(pack.payload, pack_out.payload);
}

#[test]
fn codec_round_trip_with_literal_summary() {
    let mut pack = Packet::new(PType::Data, 32_850_943);
    pack.add_ack(Acknowledgement { ack_begin: 329_965, ack_end: 5, miss_count: 1, miss: vec![3] });
    pack.append_payload((1..=10).collect());
    let bytes = pack.compile();
    assert_eq!(bytes.len(), 11 + 1 + 10);
    assert_eq!(&bytes[0..4], &[0x01, 0xF5, 0x43, 0xFF]);
    assert_eq!(&bytes[4..8], &[0x00, 0x05, 0x08, 0xED]);
    assert_eq!(bytes[8], 5);
    assert_eq!(bytes[9], 0b0000_1000);
    assert_eq!(bytes[10], 1);
    assert_eq!(bytes[11], 3);
    let out = Packet::parse(&bytes).unwrap();
    assert_eq!(out.flags, pack.flags);
    assert_eq!(out.sequence, 32_850_943);
    assert_eq!(out.ack.ack_begin, 329_965);
    assert_eq!(out.ack.ack_end, 5);
    assert_eq!(out.ack.miss_count, 1);
    assert_eq!(out.ack.miss, vec![3]);
    assert_eq!(out.payload, (1..=10).collect::<Vec<u8>>());
    assert!(!out.is_meta);
}

#[test]
fn every_kind_survives_the_wire() {
    for t in [PType::Data, PType::AckOnly, PType::Initiation, PType::KeyExchange, PType::Extended] {
        for (ack, enc) in [(false, false), (true, false), (false, true), (true, true)] {
            let flags = PacketFlags { p_type: t, ack, enc };
            assert_eq!(PacketFlags::from_byte(flags.get_byte()), flags);
        }
    }
    assert_eq!(PacketFlags { p_type: PType::KeyExchange, ack: true, enc: true }.get_byte(), 0x7C);
    assert_eq!(PType::from_code(3), PType::Extended);
    assert_eq!(PType::Extended.code(), 15);
}

#[test]
fn short_datagrams_are_refused() {
    assert_eq!(Packet::parse(&vec![0; 10]).unwrap_err(), AetherError::ParseError);
    let mut bytes = vec![0u8; 11];
    bytes[10] = 2;
    assert_eq!(Packet::parse(&bytes).unwrap_err(), AetherError::ParseError);
    bytes.push(1);
    bytes.push(2);
    let p = Packet::parse(&bytes).unwrap();
    assert_eq!(p.ack.miss, vec![1, 2]);
    assert!(p.payload.is_empty());
}

#[test]
fn set_meta_and_enc_flags() {
    let mut p = Packet::new(PType::Extended, 0);
    p.set_meta(packet::PacketMeta { delay_ms: 7, retry_count: -1 });
    assert!(p.is_meta);
    assert_eq!(p.meta.delay_ms, 7);
    p.set_enc(true);
    assert!(p.flags.enc);
}

#[test]
fn kind_and_flag_conversions() {
    assert_eq!(u8::from(PType::KeyExchange), 7);
    assert_eq!(u8::from(PType::Data), 0);
    assert_eq!(PType::from(2u8), PType::Initiation);
    assert_eq!(PType::from(9u8), PType::Extended);
    let flags = PacketFlags::from(0x18u8);
    assert_eq!(flags, PacketFlags { p_type: PType::AckOnly, ack: true, enc: false });
}
