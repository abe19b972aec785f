//! Raw event framing, meta-operation wire layout, and event record
//! default tests.

use retis::bindings::{ovs_operation_event, upcall_batch, user_upcall_info};
use retis::filter::parse_mask;
use retis::meta::{MetaCmp, MetaLoad, MetaOp, MetaTarget, PTR_BIT, SIGN_BIT};
use retis::raw_event::{build_raw_event, build_raw_section, RawSection, RAW_EVENT_DATA_SIZE};

#[test]
fn section_framing() {
    let mut event: Vec<u8> = Vec::new();
    let mut data = vec![0xaa, 0xbb, 0xcc];
    build_raw_section(&mut event, 7, 2, &mut data);
    assert_eq!(event, vec![7, 2, 3, 0, 0xaa, 0xbb, 0xcc]);
    assert!(data.is_empty());

    // sections concatenate in order
    let mut more = vec![0x11];
    build_raw_section(&mut event, 1, 9, &mut more);
    assert_eq!(&event[7..], &[1, 9, 1, 0, 0x11]);
}

#[test]
fn event_record_layout() {
    let mut sections = vec![
        RawSection { owner: 1, data_type: 2, data: vec![5, 6] },
        RawSection { owner: 3, data_type: 4, data: vec![7] },
    ];
    let raw = build_raw_event(&mut sections);
    assert_eq!(raw.len(), RAW_EVENT_DATA_SIZE + 2);
    // occupied size: two headers of four bytes plus the payloads
    assert_eq!(u16::from_le_bytes(raw[0..2].try_into().unwrap()), 11);
    assert_eq!(&raw[2..13], &[1, 2, 2, 0, 5, 6, 3, 4, 1, 0, 7]);
    // zero padding to the fixed capacity
    assert!(raw[13..].iter().all(|&b| b == 0));
}

#[test]
fn empty_event_is_padding_only() {
    let mut sections: Vec<RawSection> = Vec::new();
    let raw = build_raw_event(&mut sections);
    assert_eq!(raw.len(), RAW_EVENT_DATA_SIZE + 2);
    assert!(raw.iter().all(|&b| b == 0));
}

#[test]
fn meta_op_wire_records() {
    let load = MetaLoad { kind: PTR_BIT | SIGN_BIT | 3, nmemb: 2, offt: 0x1234, bf_size: 5, mask: 0x0102030405060708 };
    let bytes = MetaOp::Load(load).to_bytes();
    assert_eq!(bytes.len(), 40);
    assert_eq!(bytes[0], PTR_BIT | SIGN_BIT | 3);
    assert_eq!(bytes[1], 2);
    assert_eq!(u16::from_le_bytes(bytes[2..4].try_into().unwrap()), 0x1234);
    assert_eq!(bytes[4], 5);
    assert_eq!(&bytes[5..8], &[0, 0, 0]);
    assert_eq!(u64::from_le_bytes(bytes[8..16].try_into().unwrap()), 0x0102030405060708);
    assert!(bytes[16..].iter().all(|&b| b == 0));

    let mut md = vec![0u8; 32];
    md[0] = 0x61;
    md[1] = 0x62;
    let tgt = MetaTarget { md, sz: 2, cmp: 5 };
    let bytes = MetaOp::Target(tgt).to_bytes();
    assert_eq!(bytes.len(), 40);
    assert_eq!(&bytes[0..2], &[0x61, 0x62]);
    assert!(bytes[2..32].iter().all(|&b| b == 0));
    assert_eq!(bytes[32], 2);
    assert_eq!(bytes[33], 5);
    assert!(bytes[34..40].iter().all(|&b| b == 0));
}

#[test]
fn cmp_codes() {
    assert_eq!(MetaCmp::from_str("=="), Some(MetaCmp::Eq));
    assert_eq!(MetaCmp::from_str("!="), Some(MetaCmp::Ne));
    assert_eq!(MetaCmp::from_str("<"), Some(MetaCmp::Lt));
    assert_eq!(MetaCmp::from_str("<="), Some(MetaCmp::Le));
    assert_eq!(MetaCmp::from_str(">"), Some(MetaCmp::Gt));
    assert_eq!(MetaCmp::from_str(">="), Some(MetaCmp::Ge));
    assert_eq!(MetaCmp::from_str("=>"), None);
    let codes: Vec<u8> = [MetaCmp::Eq, MetaCmp::Gt, MetaCmp::Lt, MetaCmp::Ge, MetaCmp::Le, MetaCmp::Ne]
        .into_iter()
        .map(|c| c.code())
        .collect();
    assert_eq!(codes, vec![0, 1, 2, 3, 4, 5]);
}

#[test]
fn event_record_defaults() {
    let e = ovs_operation_event::default();
    assert_eq!((e.batch_ts, e.queue_id, e.batch_idx, e.type_), (0, 0, 0, 0));
    let u = user_upcall_info::default();
    assert_eq!((u.queue_id, u.skip_event, u.processed_ops), (0, false, 0));
    let b = upcall_batch::default();
    assert_eq!(b.leader_ts, 0);
    assert!(!b.processing);
    assert_eq!(b.current_upcall, 0);
    assert_eq!(b.total, 0);
    assert!(b.upcalls.iter().all(|u| u.queue_id == 0 && !u.skip_event && u.processed_ops == 0));
}

#[test]
fn mask_parser() {
    assert_eq!(parse_mask("0xff").unwrap(), 0xff);
    assert_eq!(parse_mask("0b101").unwrap(), 5);
    assert_eq!(parse_mask("42").unwrap(), 42);
    assert_eq!(parse_mask("~0x0").unwrap(), !0);
    assert_eq!(parse_mask("~0b10").unwrap(), !2);
    assert_eq!(parse_mask("0xffffffffffffffff").unwrap(), u64::MAX);
    assert!(parse_mask("0").is_err());
    assert!(parse_mask("~0xffffffffffffffff").is_err());
    assert!(parse_mask("0x").is_err());
    assert!(parse_mask("pebbles").is_err());
    assert!(parse_mask("0x10000000000000000").is_err());
}
