//! Filter compiler tests over a kernel-like type database snapshot:
//! `sk_buff` with `mark` at byte offset 168, `pkt_type` as a 3-bit
//! bitfield at bit offset 1024, `dev` as a pointer at byte offset 16,
//! `dev->name` as `char[16]` at offset 0 of the device, and `_nfct` as an
//! unsigned-long-typed pointer at bit offset 832.

use retis::filter::{FilterErrorKind, FilterMeta};
use retis::meta::{MetaLoad, MetaOp, KIND_CHAR, KIND_INT, PTR_BIT};
use retis::typedb::{Member, TypeDb, TypeNode};

fn member(name: &str, bit_offset: u32, bitfield_size: Option<u32>, type_id: u32) -> Member {
    Member { name: name.to_string(), bit_offset, bitfield_size, type_id }
}

/// Builds the test snapshot. Type identifiers are assigned in insertion
/// order, starting at 1.
fn test_db() -> TypeDb {
    let mut db = TypeDb::new();
    // 1: unsigned char
    db.add(TypeNode::Int { name: "unsigned char".to_string(), size: 1, signed: false }).unwrap();
    // 2: unsigned int
    db.add(TypeNode::Int { name: "unsigned int".to_string(), size: 4, signed: false }).unwrap();
    // 3: int
    db.add(TypeNode::Int { name: "int".to_string(), size: 4, signed: true }).unwrap();
    // 4: unsigned long
    db.add(TypeNode::Int { name: "unsigned long".to_string(), size: 8, signed: false }).unwrap();
    // 5: typedef u32 -> unsigned int
    db.add(TypeNode::Typedef { name: "u32".to_string(), to: 2 }).unwrap();
    // 6: char[16]
    db.add(TypeNode::Array { elem: 1, nelems: 16 }).unwrap();
    // 7: char[48]
    db.add(TypeNode::Array { elem: 1, nelems: 48 }).unwrap();
    // 8: int *
    db.add(TypeNode::Ptr { to: 3 }).unwrap();
    // 9: struct net_device *
    db.add(TypeNode::Ptr { to: 10 }).unwrap();
    // 10: struct net_device
    db.add(TypeNode::Struct {
        name: "net_device".to_string(),
        members: vec![
            member("name", 0, None, 6),
            member("mtu", 1600, None, 2),
            member("pcpu_refcnt", 2048, None, 8),
        ],
    })
    .unwrap();
    // 11: struct sk_buff
    db.add(TypeNode::Struct {
        name: "sk_buff".to_string(),
        members: vec![
            member("dev", 128, Some(0), 9),
            member("ifindex", 256, Some(0), 3),
            member("cb", 320, Some(0), 7),
            member("_nfct", 832, Some(0), 4),
            member("len", 896, Some(0), 2),
            member("mac_len", 928, Some(0), 2),
            member("pkt_type", 1024, Some(3), 1),
            member("cloned", 1027, Some(1), 1),
            member("mark", 1344, Some(0), 2),
        ],
    })
    .unwrap();
    // 12: struct nf_conn
    db.add(TypeNode::Struct {
        name: "nf_conn".to_string(),
        members: vec![member("mark", 1344, Some(0), 2)],
    })
    .unwrap();
    db
}

fn load_of(op: &MetaOp) -> MetaLoad {
    *op.load_ref().expect("expected a load operation")
}

#[test]
fn meta_negative_generic() {
    let db = test_db();
    // sk_buff is mandatory.
    assert!(FilterMeta::from_string(&db, "dev.mark == 0xc0de").is_err());
    // unsupported type (struct)
    assert!(FilterMeta::from_string(&db, "sk_buff.dev == 0xbad").is_err());
    // pointers to int are not supported
    assert!(FilterMeta::from_string(&db, "sk_buff.dev.pcpu_refcnt == 0xbad").is_err());
}

#[test]
fn meta_negative_filter_u32() {
    let db = test_db();
    assert!(FilterMeta::from_string(&db, "sk_buff.mark == -1").is_err());
    // u32::MAX + 1 is an allowed value for u32 (user has to specify values inside the range).
    assert!(FilterMeta::from_string(&db, "sk_buff.mark == 4294967296").is_ok());
}

#[test]
fn meta_filter_cast() {
    let db = test_db();
    // Casting a field smaller than a pointer is not allowed
    assert!(FilterMeta::from_string(&db, "sk_buff.cloned:~0x0:nf_conn").is_err());
    assert!(FilterMeta::from_string(&db, "sk_buff.len:~0x0:nf_conn").is_err());
    assert!(FilterMeta::from_string(&db, "sk_buff.mac_len:~0x0:nf_conn").is_err());
    // Arrays cannot be casted
    assert!(FilterMeta::from_string(&db, "sk_buff.cb:~0x0:nf_conn").is_err());
    // Cast to non-walkable types is not allowed
    assert!(FilterMeta::from_string(&db, "sk_buff._nfct:~0x0:u32.mark").is_err());
    // Casting a leaf is not allowed
    assert!(FilterMeta::from_string(&db, "sk_buff._nfct.mark:~0x0:nf_conn").is_err());

    let filter = FilterMeta::from_string(&db, "sk_buff._nfct:~0x0:nf_conn.mark").unwrap();
    // Two for loads and one for the target
    assert_eq!(filter.0.len(), 3);
    // '_nfct' bits_offset=832
    assert_eq!(
        load_of(&filter.0[1]),
        MetaLoad { kind: PTR_BIT, nmemb: 0, offt: 104, bf_size: 0, mask: !0 }
    );
    // STRUCT 'nf_conn': 'mark' bits_offset=1344
    assert_eq!(
        load_of(&filter.0[2]),
        MetaLoad { kind: KIND_INT, nmemb: 0, offt: 168, bf_size: 0, mask: 0 }
    );
}

#[test]
fn meta_filter_u32() {
    let db = test_db();
    let ops = [("==", 0u8), ("!=", 5), ("<", 2), ("<=", 4), (">", 1), (">=", 3)];
    for (op_str, code) in ops {
        let filter = FilterMeta::from_string(&db, &format!("sk_buff.mark {op_str} 0xc0de")).unwrap();
        assert_eq!(filter.0.len(), 2);
        let meta_load = load_of(&filter.0[1]);
        assert!(!meta_load.is_arr());
        assert!(!meta_load.is_ptr());
        assert!(!meta_load.is_signed());
        assert!(meta_load.is_int());
        assert_eq!(meta_load.offt, 168);

        let meta_target = filter.0[0].target_ref().unwrap();
        assert_eq!(meta_target.cmp, code);
        assert_eq!(meta_target.sz, 4);
        let target = u64::from_ne_bytes(meta_target.md[..8].try_into().unwrap());
        assert_eq!(target, 0xc0de);
    }
}

#[test]
fn meta_filter_bitfields() {
    let db = test_db();
    let ops = [("==", 0u8), ("!=", 5), ("<", 2), ("<=", 4), (">", 1), (">=", 3)];
    for (op_str, code) in ops {
        let filter =
            FilterMeta::from_string(&db, &format!("sk_buff.pkt_type {op_str} 1")).unwrap();
        assert_eq!(filter.0.len(), 2);
        let meta_load = load_of(&filter.0[1]);
        assert!(!meta_load.is_arr());
        assert!(!meta_load.is_ptr());
        assert!(!meta_load.is_signed());
        assert!(meta_load.is_byte());
        assert_eq!(meta_load.bf_size, 3);
        // Offset in bits for bitfields
        assert_eq!(meta_load.offt, 1024);

        let meta_target = filter.0[0].target_ref().unwrap();
        assert_eq!(meta_target.cmp, code);
        assert_eq!(meta_target.sz, 1);
        let target = u64::from_ne_bytes(meta_target.md[..8].try_into().unwrap());
        assert_eq!(target, 1);
    }
}

#[test]
fn meta_filter_string() {
    let db = test_db();
    for (op_str, code) in [("==", 0u8), ("!=", 5)] {
        let filter =
            FilterMeta::from_string(&db, &format!("sk_buff.dev.name {op_str} 'dummy0'")).unwrap();
        assert_eq!(filter.0.len(), 3);
        let meta_load = load_of(&filter.0[1]);
        assert!(!meta_load.is_num());
        assert!(!meta_load.is_arr());
        assert!(meta_load.is_ptr());
        assert_eq!(meta_load.offt, 16);

        let meta_load = load_of(&filter.0[2]);
        assert!(!meta_load.is_ptr());
        assert!(meta_load.is_byte());
        assert_eq!(meta_load.nmemb, 16);
        assert_eq!(meta_load.offt, 0);

        let meta_target = filter.0[0].target_ref().unwrap();
        assert_eq!(meta_target.cmp, code);
        assert_eq!(meta_target.sz, 6);
        let target_str = std::str::from_utf8(&meta_target.md)
            .unwrap()
            .trim_end_matches(char::from(0));
        assert_eq!(target_str, "dummy0");
    }
}

#[test]
fn meta_negative_filter_string() {
    let db = test_db();
    for op_str in ["==", "!=", "<", "<=", ">", ">="] {
        // Target string must be quoted.
        assert!(FilterMeta::from_string(&db, &format!("sk_buff.dev.name {op_str} dummy0")).is_err());
        // Only equality comparisons are allowed for strings.
        if op_str != "==" && op_str != "!=" {
            let e = FilterMeta::from_string(&db, &format!("sk_buff.dev.name {op_str} 'dummy0'"))
                .unwrap_err();
            assert_eq!(e.kind, FilterErrorKind::OperatorNotSupported);
        }
        // Target value must be a string.
        let e = FilterMeta::from_string(&db, &format!("sk_buff.mark {op_str} 'dummy0'"))
            .unwrap_err();
        assert_eq!(e.kind, FilterErrorKind::RvalShape);
    }
}

#[test]
fn meta_filter_lhs_only() {
    let db = test_db();
    // pointer to a struct cannot terminate a filter
    assert!(FilterMeta::from_string(&db, "sk_buff.dev").is_err());
    // a bare string field has no numeric zero to compare against
    assert!(FilterMeta::from_string(&db, "sk_buff.dev.name").is_err());
    // plain scalars compare as `!= 0` with an all-zero target
    for field in ["mark", "ifindex", "cloned"] {
        let filter = FilterMeta::from_string(&db, &format!("sk_buff.{field}")).unwrap();
        let meta_target = filter.0[0].target_ref().unwrap();
        assert_eq!(meta_target.cmp, 5);
        assert!(meta_target.md.iter().all(|&x| x == 0));
    }
}

#[test]
fn meta_filter_masks() {
    let db = test_db();
    assert!(FilterMeta::from_string(&db, "sk_buff.dev.name:~0x00").is_err());
    let l = load_of(&FilterMeta::from_string(&db, "sk_buff.dev:~0x00.mtu").unwrap().0[1]);
    assert_eq!(l, MetaLoad { kind: PTR_BIT, nmemb: 0, offt: 16, bf_size: 0, mask: !0x00 });
    let l = load_of(&FilterMeta::from_string(&db, "sk_buff.mark:0xff").unwrap().0[1]);
    assert_eq!(l, MetaLoad { kind: KIND_INT, nmemb: 0, offt: 168, bf_size: 0, mask: 0xff });
    assert!(FilterMeta::from_string(&db, "sk_buff.mark:0x0").is_err());
    assert!(FilterMeta::from_string(&db, "sk_buff.mark:~0xffffffffffffffff").is_err());
    assert!(FilterMeta::from_string(&db, "sk_buff.mark:0b00").is_err());
    assert!(FilterMeta::from_string(&db, "sk_buff.mark:0").is_err());
    // masks are refused on signed members
    assert!(FilterMeta::from_string(&db, "sk_buff.ifindex:0xbad").is_err());
    let l = load_of(&FilterMeta::from_string(&db, "sk_buff.pkt_type:0x2").unwrap().0[1]);
    assert_eq!(l, MetaLoad { kind: KIND_CHAR, nmemb: 0, offt: 1024, bf_size: 3, mask: 0x2 });
    let l = load_of(&FilterMeta::from_string(&db, "sk_buff.pkt_type:0b10").unwrap().0[1]);
    assert_eq!(l, MetaLoad { kind: KIND_CHAR, nmemb: 0, offt: 1024, bf_size: 3, mask: 0x2 });
    let l = load_of(&FilterMeta::from_string(&db, "sk_buff.pkt_type:~0b10").unwrap().0[1]);
    assert_eq!(l, MetaLoad { kind: KIND_CHAR, nmemb: 0, offt: 1024, bf_size: 3, mask: !0x2 });
}

#[test]
fn meta_error_kinds() {
    let db = test_db();
    // root must be sk_buff
    let e = FilterMeta::from_string(&db, "dev.mark == 1").unwrap_err();
    assert_eq!(e.kind, FilterErrorKind::InvalidSyntax);
    // signed literal on an unsigned field
    let e = FilterMeta::from_string(&db, "sk_buff.mark == -1").unwrap_err();
    assert_eq!(e.kind, FilterErrorKind::RvalRange);
    // mask must be nonzero after complement
    let e = FilterMeta::from_string(&db, "sk_buff.mark:0x0").unwrap_err();
    assert_eq!(e.kind, FilterErrorKind::UnsupportedMask);
    // cast of a sub-pointer-sized field
    let e = FilterMeta::from_string(&db, "sk_buff.cloned:~0x0:nf_conn").unwrap_err();
    assert_eq!(e.kind, FilterErrorKind::UnsupportedCast);
    // unknown member
    let e = FilterMeta::from_string(&db, "sk_buff.nonesuch == 1").unwrap_err();
    assert_eq!(e.kind, FilterErrorKind::FieldNotFound);
    // unknown root type
    let empty = TypeDb::new();
    let e = FilterMeta::from_string(&empty, "sk_buff.mark == 1").unwrap_err();
    assert_eq!(e.kind, FilterErrorKind::UnknownType);
    // unknown operator
    let e = FilterMeta::from_string(&db, "sk_buff.mark <> 1").unwrap_err();
    assert_eq!(e.kind, FilterErrorKind::OperatorNotSupported);
    // a filter of two tokens has no place in the grammar
    let e = FilterMeta::from_string(&db, "sk_buff.mark ==").unwrap_err();
    assert_eq!(e.kind, FilterErrorKind::InvalidSyntax);
}

#[test]
fn program_shape_invariants() {
    let db = test_db();
    // Every accepted program: one target first, loads after, within the
    // table; pointer loads are consumed; masks only on pointer or
    // unsigned loads; ordering operators only against plain scalars.
    for f in [
        "sk_buff.mark == 0xc0de",
        "sk_buff.pkt_type >= 1",
        "sk_buff.dev.name == 'dummy0'",
        "sk_buff._nfct:~0x0:nf_conn.mark",
        "sk_buff.dev:~0x00.mtu",
        "sk_buff.mark",
    ] {
        let filter = FilterMeta::from_string(&db, f).unwrap();
        let n = filter.0.len();
        assert!((2..=32).contains(&n));
        assert!(filter.0[0].target_ref().is_some());
        for i in 1..n {
            let l = load_of(&filter.0[i]);
            if l.mask != 0 {
                assert!(l.is_ptr() || (l.is_num() && !l.is_signed()));
            }
            if i < n - 1 {
                // a dereference followed by its consumer
                assert_eq!(l.kind, PTR_BIT);
                assert!(filter.0[i + 1].load_ref().is_some());
            }
        }
        let t = filter.0[0].target_ref().unwrap();
        if (1..=4).contains(&t.cmp) {
            let last = load_of(&filter.0[n - 1]);
            assert!(!last.is_ptr() && last.nmemb == 0);
        }
    }
}

#[test]
fn compilation_is_deterministic() {
    let db = test_db();
    for f in ["sk_buff.mark == 0xc0de", "sk_buff.dev.name != 'eth0'", "sk_buff.pkt_type >= 1"] {
        let a = FilterMeta::from_string(&db, f).unwrap();
        let b = FilterMeta::from_string(&db, f).unwrap();
        assert_eq!(a.0, b.0);
        assert_eq!(a.to_bytes(), b.to_bytes());
    }
}

#[test]
fn program_wire_layout() {
    let db = test_db();
    let filter = FilterMeta::from_string(&db, "sk_buff.mark == 0xc0de").unwrap();
    let bytes = filter.to_bytes();
    assert_eq!(bytes.len(), 2 * 40);
    // target record: 32 operand bytes, size, operator, padding
    assert_eq!(u64::from_le_bytes(bytes[0..8].try_into().unwrap()), 0xc0de);
    assert!(bytes[8..32].iter().all(|&b| b == 0));
    assert_eq!(bytes[32], 4); // operand size
    assert_eq!(bytes[33], 0); // equality
    assert!(bytes[34..40].iter().all(|&b| b == 0));
    // load record: kind, nmemb, offset, bitfield size, mask
    assert_eq!(bytes[40], KIND_INT);
    assert_eq!(bytes[41], 0);
    assert_eq!(u16::from_le_bytes(bytes[42..44].try_into().unwrap()), 168);
    assert_eq!(bytes[44], 0);
    assert!(bytes[45..48].iter().all(|&b| b == 0));
    assert_eq!(u64::from_le_bytes(bytes[48..56].try_into().unwrap()), 0);
    assert!(bytes[56..80].iter().all(|&b| b == 0));
}

#[test]
fn anonymous_members_resolve() {
    // an anonymous inner struct contributes its offset and stays
    // transparent to field resolution
    let mut db = TypeDb::new();
    // 1: unsigned int
    db.add(TypeNode::Int { name: "unsigned int".to_string(), size: 4, signed: false }).unwrap();
    // 2: anonymous inner struct holding `inner_mark` at bit 32
    db.add(TypeNode::Struct {
        name: "".to_string(),
        members: vec![member("inner_mark", 32, None, 1)],
    })
    .unwrap();
    // 3: sk_buff embedding the anonymous struct at bit 64
    db.add(TypeNode::Struct {
        name: "sk_buff".to_string(),
        members: vec![member("", 64, None, 2)],
    })
    .unwrap();
    let filter = FilterMeta::from_string(&db, "sk_buff.inner_mark == 7").unwrap();
    assert_eq!(filter.0.len(), 2);
    let l = load_of(&filter.0[1]);
    // 64 + 32 bits = 12 bytes
    assert_eq!(l.offt, 12);
    assert!(l.is_int());
}

#[test]
fn bare_cast_filter_target() {
    // a bare left-hand side with a cast compares as `!= 0`: the target
    // orders nothing and carries all-zero operand bytes
    let db = test_db();
    let filter = FilterMeta::from_string(&db, "sk_buff._nfct:~0x0:nf_conn.mark").unwrap();
    let t = filter.0[0].target_ref().unwrap();
    assert_eq!(t.cmp, 5);
    assert!(t.md.iter().all(|&b| b == 0));
    assert_eq!(t.sz, 4);
}

#[test]
fn repeated_hex_prefixes_collapse() {
    // every leading `0x` of a right-hand token is stripped before the
    // hexadecimal digits are read
    let db = test_db();
    let filter = FilterMeta::from_string(&db, "sk_buff.mark == 0x0xff").unwrap();
    let t = filter.0[0].target_ref().unwrap();
    assert_eq!(u64::from_le_bytes(t.md[..8].try_into().unwrap()), 0xff);
}
