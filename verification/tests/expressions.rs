use netlink_packet_core::{DefaultNla, Emitable};
use nftables_expr::error::ExprError;
use nftables_expr::expression::cmp::Cmp;
use nftables_expr::expression::immediate::Immediate;
use nftables_expr::expression::meta::Meta;
use nftables_expr::expression::payload::Payload;
use nftables_expr::nla::{nlas_buffer_len, RawNla, NLA_F_NESTED, NLA_F_NET_BYTEORDER, NLA_TYPE_MASK};
use nftables_expr::register::Register;

fn emitted_cmp(c: &Cmp) -> Vec<u8> {
    let mut buf = vec![0xaa; c.value_len()];
    c.emit_value(&mut buf);
    buf
}

#[test]
fn flag_constants_match_netlink() {
    assert_eq!(NLA_F_NESTED, netlink_packet_core::NLA_F_NESTED);
    assert_eq!(NLA_F_NET_BYTEORDER, netlink_packet_core::NLA_F_NET_BYTEORDER);
    assert_eq!(NLA_TYPE_MASK, netlink_packet_core::NLA_TYPE_MASK);
}

#[test]
fn register_numbers() {
    assert_eq!(Register::from_u32(0), Register::Verdict);
    assert_eq!(Register::from_u32(1), Register::Reg1);
    assert_eq!(Register::from_u32(4), Register::Reg4);
    assert_eq!(Register::from_u32(5), Register::Other(5));
    assert_eq!(Register::from_u32(8), Register::Reg32(0));
    assert_eq!(Register::from_u32(23), Register::Reg32(15));
    assert_eq!(Register::from_u32(24), Register::Other(24));
    for n in [0u32, 1, 2, 3, 4, 5, 7, 8, 9, 22, 23, 24, 1000, u32::MAX] {
        assert_eq!(Register::from_u32(n).to_u32(), n);
        let r: Register = n.into();
        let back: u32 = r.into();
        assert_eq!(back, n);
    }
}

#[test]
fn cmp_kinds_and_lengths() {
    assert_eq!(Cmp::Unspecified.kind(), 0);
    assert_eq!(Cmp::SourceRegister(Register::Reg1).kind(), 1);
    assert_eq!(Cmp::Op(3).kind(), 2);
    assert_eq!(Cmp::Data(vec![]).kind(), 3 | 0x8000);
    assert_eq!(Cmp::Other(RawNla { kind: 0x4009, value: vec![1] }).kind(), 0x4009);
    assert_eq!(Cmp::Unspecified.value_len(), 0);
    assert_eq!(Cmp::Op(3).value_len(), 4);
    let data = Cmp::Data(vec![
        RawNla { kind: 1, value: vec![1, 2, 3] },
        RawNla { kind: 2, value: vec![1, 2, 3, 4] },
    ]);
    assert_eq!(data.value_len(), 8 + 8);
    assert!(data.is_nested());
    assert!(!Cmp::Op(1).is_nested());
    assert!(Cmp::Other(RawNla { kind: 0x8007, value: vec![] }).is_nested());
}

#[test]
fn cmp_source_register_is_big_endian() {
    let c = Cmp::SourceRegister(Register::Reg32(1));
    assert_eq!(emitted_cmp(&c), vec![0, 0, 0, 9]);
    assert_eq!(Cmp::parse(1, &[0, 0, 0, 9]), Ok(Cmp::SourceRegister(Register::Reg32(1))));
}

#[test]
fn cmp_op_is_host_order() {
    let c = Cmp::Op(0x01020304);
    assert_eq!(emitted_cmp(&c), 0x01020304u32.to_ne_bytes().to_vec());
    assert_eq!(Cmp::parse(2, &0x01020304u32.to_ne_bytes()), Ok(Cmp::Op(0x01020304)));
}

#[test]
fn cmp_emit_leaves_rest_of_buffer() {
    let mut buf = vec![0xee; 6];
    Cmp::Op(7).emit_value(&mut buf);
    assert_eq!(&buf[..4], &7u32.to_ne_bytes());
    assert_eq!(&buf[4..], &[0xee, 0xee]);
}

#[test]
fn cmp_data_roundtrip() {
    let attrs = vec![
        RawNla { kind: 1, value: vec![0xde, 0xad, 0xbe] },
        RawNla { kind: 2 | 0x4000, value: vec![] },
        RawNla { kind: 3, value: vec![1, 2, 3, 4, 5, 6, 7, 8] },
    ];
    let c = Cmp::Data(attrs.clone());
    let bytes = emitted_cmp(&c);
    assert_eq!(bytes.len(), 8 + 4 + 12);
    // first attribute: length 7, type 1, value, one byte of zero padding
    assert_eq!(&bytes[0..2], &7u16.to_ne_bytes());
    assert_eq!(&bytes[2..4], &1u16.to_ne_bytes());
    assert_eq!(&bytes[4..8], &[0xde, 0xad, 0xbe, 0]);
    assert_eq!(&bytes[10..12], &0x4002u16.to_ne_bytes());
    assert_eq!(Cmp::parse(c.kind(), &bytes), Ok(c));
}

#[test]
fn cmp_data_agrees_with_netlink_emission() {
    let nlas = vec![DefaultNla::new(5, vec![9, 9]), DefaultNla::new(6 | 0x8000, vec![1, 2, 3, 4])];
    let mut expected = vec![0u8; nlas.as_slice().buffer_len()];
    nlas.as_slice().emit(&mut expected);
    let c = Cmp::Data(vec![
        RawNla { kind: 5, value: vec![9, 9] },
        RawNla { kind: 6 | 0x8000, value: vec![1, 2, 3, 4] },
    ]);
    assert_eq!(emitted_cmp(&c), expected);
}

#[test]
fn cmp_parse_errors() {
    assert_eq!(Cmp::parse(1, &[1, 2, 3]), Err(ExprError::InvalidNumber { kind: 1, received: 3 }));
    assert_eq!(Cmp::parse(2, &[1, 2, 3, 4, 5]), Err(ExprError::InvalidNumber { kind: 2, received: 5 }));
    // a header that frames more bytes than there are
    let mut bad = 12u16.to_ne_bytes().to_vec();
    bad.extend_from_slice(&1u16.to_ne_bytes());
    bad.extend_from_slice(&[1, 2]);
    match Cmp::parse(3 | 0x8000, &bad) {
        Err(ExprError::InvalidNestedData { kind, cause }) => {
            assert_eq!(kind, 3);
            assert!(!cause.is_empty());
        }
        other => panic!("unexpected {:?}", other),
    }
    // a cut-short header
    assert!(matches!(Cmp::parse(3, &[4, 0]), Err(ExprError::InvalidNestedData { kind: 3, .. })));
}

#[test]
fn cmp_unspecified_and_other() {
    assert_eq!(Cmp::parse(0, &[1, 2, 3]), Ok(Cmp::Unspecified));
    assert_eq!(
        Cmp::parse(0x8009, &[1, 2, 3]),
        Ok(Cmp::Other(RawNla { kind: 0x8009, value: vec![1, 2, 3] }))
    );
    let other = Cmp::Other(RawNla { kind: 9, value: vec![4, 5, 6] });
    let mut buf = vec![0; 3];
    other.emit_value(&mut buf);
    assert_eq!(buf, vec![4, 5, 6]);
}

#[test]
fn cmp_empty_data() {
    assert_eq!(Cmp::parse(3, &[]), Ok(Cmp::Data(vec![])));
    assert_eq!(Cmp::Data(vec![]).value_len(), 0);
}

#[test]
fn immediate_attributes() {
    let d = Immediate::DestinationRegister(Register::Verdict);
    assert_eq!(d.kind(), 1);
    assert_eq!(d.value_len(), 4);
    let mut buf = vec![0xff; 4];
    d.emit_value(&mut buf);
    assert_eq!(buf, vec![0, 0, 0, 0]);
    assert_eq!(Immediate::parse(1, &[0, 0, 0, 2]), Ok(Immediate::DestinationRegister(Register::Reg2)));
    let data = Immediate::Data(vec![RawNla { kind: 1, value: vec![0, 0, 0, 1] }]);
    assert_eq!(data.kind(), 2 | 0x8000);
    assert!(data.is_nested());
    let mut buf = vec![0; data.value_len()];
    data.emit_value(&mut buf);
    assert_eq!(buf.len(), 8);
    assert_eq!(Immediate::parse(data.kind(), &buf), Ok(data));
    assert_eq!(Immediate::parse(3, &[7]), Ok(Immediate::Other(RawNla { kind: 3, value: vec![7] })));
    assert_eq!(
        Immediate::parse(1, &[0, 0]),
        Err(ExprError::InvalidNumber { kind: 1, received: 2 })
    );
}

#[test]
fn meta_attributes() {
    assert_eq!(Meta::Key(3).kind(), 2);
    assert_eq!(Meta::SourceRegister(Register::Reg1).kind(), 3);
    let mut buf = vec![0; 4];
    Meta::Key(0x0a0b0c0d).emit_value(&mut buf);
    assert_eq!(buf, 0x0a0b0c0du32.to_ne_bytes().to_vec());
    assert_eq!(Meta::parse(2, &buf), Ok(Meta::Key(0x0a0b0c0d)));
    Meta::SourceRegister(Register::Reg4).emit_value(&mut buf);
    assert_eq!(buf, vec![0, 0, 0, 4]);
    assert_eq!(Meta::parse(3, &buf), Ok(Meta::SourceRegister(Register::Reg4)));
    assert_eq!(Meta::parse(1, &[0, 0, 0, 24]), Ok(Meta::DestinationRegister(Register::Other(24))));
    assert_eq!(Meta::parse(2, &[]), Err(ExprError::InvalidNumber { kind: 2, received: 0 }));
    assert_eq!(Meta::parse(4, &[1]), Ok(Meta::Other(RawNla { kind: 4, value: vec![1] })));
    assert_eq!(Meta::Unspecified.value_len(), 0);
}

#[test]
fn payload_attributes() {
    let cases = vec![
        (Payload::Base(1), 2u16),
        (Payload::Offset(14), 3),
        (Payload::Len(4), 4),
        (Payload::CsumType(1), 6),
        (Payload::CsumOffset(10), 7),
        (Payload::CsumFlags(1), 8),
    ];
    for (p, kind) in cases {
        assert_eq!(p.kind(), kind);
        assert_eq!(p.value_len(), 4);
        let mut buf = vec![0; 4];
        p.emit_value(&mut buf);
        assert_eq!(Payload::parse(kind, &buf), Ok(p));
    }
    let mut buf = vec![0; 4];
    Payload::Offset(14).emit_value(&mut buf);
    assert_eq!(buf, 14u32.to_ne_bytes().to_vec());
    Payload::SourceRegister(Register::Reg3).emit_value(&mut buf);
    assert_eq!(buf, vec![0, 0, 0, 3]);
    assert_eq!(Payload::parse(5, &buf), Ok(Payload::SourceRegister(Register::Reg3)));
    assert_eq!(Payload::parse(1, &[0, 0, 0, 10]), Ok(Payload::DestinationRegister(Register::Reg32(2))));
    assert_eq!(Payload::parse(9, &[]), Ok(Payload::Other(RawNla { kind: 9, value: vec![] })));
    assert_eq!(Payload::parse(8, &[1, 2]), Err(ExprError::InvalidNumber { kind: 8, received: 2 }));
    assert_eq!(Payload::parse(0x4000, &[1]), Ok(Payload::Unspecified));
}

#[test]
fn nested_buffer_length() {
    let nlas = vec![
        RawNla { kind: 1, value: vec![] },
        RawNla { kind: 1, value: vec![1] },
        RawNla { kind: 1, value: vec![1, 2, 3, 4, 5] },
    ];
    assert_eq!(nlas_buffer_len(&nlas), 4 + 8 + 12);
}

#[test]
fn reemitting_a_parsed_attribute_gives_its_payload() {
    let payloads: Vec<(u16, Vec<u8>)> = vec![
        (1, vec![0, 0, 0, 9]),
        (2, vec![1, 2, 3, 4]),
        (0x4005, vec![5, 6]),
    ];
    for (kind, bytes) in payloads {
        let c = Cmp::parse(kind, &bytes).unwrap();
        assert_eq!(c.kind() & NLA_TYPE_MASK, kind & NLA_TYPE_MASK);
        assert_eq!(emitted_cmp(&c), bytes);
    }
    // nested data comes back with its padding zeroed
    let mut framed = 5u16.to_ne_bytes().to_vec();
    framed.extend_from_slice(&1u16.to_ne_bytes());
    framed.extend_from_slice(&[9, 7, 7, 7]);
    let c = Cmp::parse(3, &framed).unwrap();
    assert_eq!(c, Cmp::Data(vec![RawNla { kind: 1, value: vec![9] }]));
    assert_eq!(&emitted_cmp(&c)[4..], &[9, 0, 0, 0]);
}

#[test]
fn flag_bits_do_not_change_decoding() {
    let value = 77u32.to_ne_bytes();
    for kind in 0u16..=8 {
        assert_eq!(Payload::parse(kind, &value), Payload::parse(kind | 0x4000, &value));
        assert_eq!(Payload::parse(kind, &value[..2]), Payload::parse(kind | 0xc000, &value[..2]));
    }
    assert_eq!(Meta::parse(2, &value), Meta::parse(2 | 0x8000, &value));
    assert_eq!(Cmp::parse(2, &value), Cmp::parse(2 | 0x4000, &value));
    assert_eq!(Immediate::parse(1, &value), Immediate::parse(1 | 0xc000, &value));
}

#[test]
fn nested_error_cause_is_the_framing_message() {
    let mut bad = 12u16.to_ne_bytes().to_vec();
    bad.extend_from_slice(&1u16.to_ne_bytes());
    bad.extend_from_slice(&[1, 2]);
    let expected = netlink_packet_core::NlasIterator::new(&bad[..])
        .find_map(|r| r.err())
        .expect("the bytes do not frame")
        .to_string();
    match Immediate::parse(2, &bad) {
        Err(ExprError::InvalidNestedData { kind, cause }) => {
            assert_eq!(kind, 2);
            assert_eq!(cause, expected);
        }
        other => panic!("unexpected {:?}", other),
    }
}
