//! Meta-operation model and its stable binary layout.
//!
//! A compiled filter program is a sequence of [`MetaOp`] records. Each
//! record is either a [`MetaLoad`] (read a field of the inspected
//! structure) or a [`MetaTarget`] (the right-hand comparison operand).
//! On the wire both occupy one fixed 40-byte record so the in-kernel
//! interpreter can index a uniform table.

use vstd::bytes::*;
use vstd::prelude::*;

verus! {

/// Upper bound on the number of operations of one filter program,
/// the target record included.
pub const META_OPS_MAX: usize = 32;

/// Size of the comparison operand buffer of a target record.
pub const META_TARGET_MAX: usize = 32;

/// Size of one meta-operation record on the wire.
pub const META_OP_BYTES: usize = 40;

/// Bit of [`MetaLoad::kind`] marking a pointer load (dereference).
pub const PTR_BIT: u8 = 0x40;

/// Bit of [`MetaLoad::kind`] marking a signed scalar.
pub const SIGN_BIT: u8 = 0x80;

/// Scalar type codes held in the low five bits of [`MetaLoad::kind`].
pub const KIND_CHAR: u8 = 1;

pub const KIND_SHORT: u8 = 2;

pub const KIND_INT: u8 = 3;

pub const KIND_LONG: u8 = 4;

/// Zero padding of the given length.
pub open spec fn spec_zeros(n: int) -> Seq<u8> {
    Seq::new(n as nat, |i: int| 0u8)
}

/// Appends zero bytes until the buffer holds `n` of them.
pub fn pad_zeros(v: &mut Vec<u8>, n: usize)
    requires
        old(v)@.len() <= n,
    ensures
        final(v)@ == old(v)@ + spec_zeros(n - old(v)@.len()),
{
    let ghost base = v@;
    while v.len() < n
        invariant
            base.len() <= v@.len() <= n,
            v@ == base + spec_zeros(v@.len() - base.len()),
        decreases n - v@.len(),
    {
        v.push(0);
        proof {
            assert(v@ =~= base + spec_zeros(v@.len() - base.len()));
        }
    }
    proof {
        assert(v@ =~= base + spec_zeros(n - base.len()));
    }
}

/// Comparison operator of a filter, in the encoding shared with the
/// in-kernel interpreter.
#[derive(Clone, Copy, Debug, PartialEq, Eq, Structural)]
pub enum MetaCmp {
    Eq,
    Gt,
    Lt,
    Ge,
    Le,
    Ne,
}

/// The wire code of each comparison operator.
pub open spec fn spec_cmp_code(c: MetaCmp) -> u8 {
    match c {
        MetaCmp::Eq => 0,
        MetaCmp::Gt => 1,
        MetaCmp::Lt => 2,
        MetaCmp::Ge => 3,
        MetaCmp::Le => 4,
        MetaCmp::Ne => 5,
    }
}

/// The comparison operator denoted by a filter operator token, if any.
pub open spec fn spec_cmp_of(s: Seq<char>) -> Option<MetaCmp> {
    if s == "=="@ {
        Some(MetaCmp::Eq)
    } else if s == ">"@ {
        Some(MetaCmp::Gt)
    } else if s == "<"@ {
        Some(MetaCmp::Lt)
    } else if s == ">="@ {
        Some(MetaCmp::Ge)
    } else if s == "<="@ {
        Some(MetaCmp::Le)
    } else if s == "!="@ {
        Some(MetaCmp::Ne)
    } else {
        None
    }
}

/// `c` orders its operands (rather than testing mere equality).
pub open spec fn spec_cmp_is_ordering(c: MetaCmp) -> bool {
    c == MetaCmp::Gt || c == MetaCmp::Lt || c == MetaCmp::Ge || c == MetaCmp::Le
}

impl MetaCmp {
    /// Exact wire code of the operator.
    pub fn code(self) -> (r: u8)
        ensures
            r == spec_cmp_code(self),
    {
        match self {
            MetaCmp::Eq => 0,
            MetaCmp::Gt => 1,
            MetaCmp::Lt => 2,
            MetaCmp::Ge => 3,
            MetaCmp::Le => 4,
            MetaCmp::Ne => 5,
        }
    }

    /// Parses an operator token; `None` for an unknown operator.
    pub fn from_str(op: &str) -> (r: Option<MetaCmp>)
        ensures
            r == spec_cmp_of(op@),
    {
        if crate::scan::str_eq(op, "==") {
            Some(MetaCmp::Eq)
        } else if crate::scan::str_eq(op, ">") {
            Some(MetaCmp::Gt)
        } else if crate::scan::str_eq(op, "<") {
            Some(MetaCmp::Lt)
        } else if crate::scan::str_eq(op, ">=") {
            Some(MetaCmp::Ge)
        } else if crate::scan::str_eq(op, "<=") {
            Some(MetaCmp::Le)
        } else if crate::scan::str_eq(op, "!=") {
            Some(MetaCmp::Ne)
        } else {
            None
        }
    }
}

/// One load operation: read a scalar, pointer, or char array at `offt`
/// within the structure currently under inspection.
#[derive(Clone, Copy, Debug, PartialEq, Eq, Structural)]
pub struct MetaLoad {
    /// Low five bits: scalar type code (1=byte, 2=short, 4-byte int is 3,
    /// 4=long); bit 6: pointer; bit 7: signed.
    pub kind: u8,
    /// Number of array elements; nonzero only for char arrays.
    pub nmemb: u8,
    /// Byte offset when `bf_size` is zero, bit offset otherwise.
    pub offt: u16,
    /// Bitfield width in bits; zero for plain fields.
    pub bf_size: u8,
    /// Mask applied after the load; zero for no mask.
    pub mask: u64,
}

impl MetaLoad {
    /// The scalar type code of the load.
    pub open spec fn spec_code(self) -> u8 {
        self.kind & 0x1f
    }

    pub open spec fn spec_is_byte(self) -> bool {
        self.spec_code() == KIND_CHAR
    }

    pub open spec fn spec_is_short(self) -> bool {
        self.spec_code() == KIND_SHORT
    }

    pub open spec fn spec_is_int(self) -> bool {
        self.spec_code() == KIND_INT
    }

    pub open spec fn spec_is_long(self) -> bool {
        self.spec_code() == KIND_LONG
    }

    pub open spec fn spec_is_num(self) -> bool {
        self.spec_is_byte() || self.spec_is_short() || self.spec_is_int() || self.spec_is_long()
    }

    pub open spec fn spec_is_ptr(self) -> bool {
        self.kind & PTR_BIT != 0
    }

    pub open spec fn spec_is_signed(self) -> bool {
        self.kind & SIGN_BIT != 0
    }

    pub open spec fn spec_is_arr(self) -> bool {
        self.nmemb > 0
    }

    #[verifier::when_used_as_spec(spec_is_byte)]
    pub fn is_byte(self) -> (r: bool)
        ensures
            r == self.spec_is_byte(),
    {
        self.kind & 0x1f == KIND_CHAR
    }

    #[verifier::when_used_as_spec(spec_is_short)]
    pub fn is_short(self) -> (r: bool)
        ensures
            r == self.spec_is_short(),
    {
        self.kind & 0x1f == KIND_SHORT
    }

    #[verifier::when_used_as_spec(spec_is_int)]
    pub fn is_int(self) -> (r: bool)
        ensures
            r == self.spec_is_int(),
    {
        self.kind & 0x1f == KIND_INT
    }

    #[verifier::when_used_as_spec(spec_is_long)]
    pub fn is_long(self) -> (r: bool)
        ensures
            r == self.spec_is_long(),
    {
        self.kind & 0x1f == KIND_LONG
    }

    #[verifier::when_used_as_spec(spec_is_num)]
    pub fn is_num(self) -> (r: bool)
        ensures
            r == self.spec_is_num(),
    {
        self.is_byte() || self.is_short() || self.is_int() || self.is_long()
    }

    #[verifier::when_used_as_spec(spec_is_ptr)]
    pub fn is_ptr(self) -> (r: bool)
        ensures
            r == self.spec_is_ptr(),
    {
        self.kind & PTR_BIT != 0
    }

    #[verifier::when_used_as_spec(spec_is_signed)]
    pub fn is_signed(self) -> (r: bool)
        ensures
            r == self.spec_is_signed(),
    {
        self.kind & SIGN_BIT != 0
    }

    #[verifier::when_used_as_spec(spec_is_arr)]
    pub fn is_arr(self) -> (r: bool)
        ensures
            r == self.spec_is_arr(),
    {
        self.nmemb > 0
    }
}

/// Packs a scalar type code and the pointer and sign flags into a load
/// `kind` byte whose parts remain separately readable.
pub proof fn lemma_kind_pack(code: u8, pf: u8, sf: u8)
    requires
        code <= 31,
        pf == 0 || pf == 0x40,
        sf == 0 || sf == 0x80,
    ensures
        (code | pf | sf) & 0x1f == code,
        (code | pf | sf) & 0x40 == pf,
        (code | pf | sf) & 0x80 == sf,
{
    assert((code | pf | sf) & 0x1f == code && (code | pf | sf) & 0x40 == pf && (code | pf | sf)
        & 0x80 == sf) by (bit_vector)
        requires
            code <= 31,
            pf == 0 || pf == 0x40,
            sf == 0 || sf == 0x80,
    ;
}

/// The right-hand comparison operand of a filter program.
#[derive(Clone, Debug, PartialEq, Eq)]
pub struct MetaTarget {
    /// Operand bytes; always [`META_TARGET_MAX`] of them.
    pub md: Vec<u8>,
    /// Number of meaningful bytes of `md`.
    pub sz: u8,
    /// Comparison operator code, as [`spec_cmp_code`] gives it.
    pub cmp: u8,
}

impl MetaTarget {
    /// A target record always carries a full-size operand buffer.
    pub open spec fn wf(self) -> bool {
        self.md@.len() == META_TARGET_MAX
    }
}

/// One meta-operation of a compiled filter program.
#[derive(Clone, Debug, PartialEq, Eq)]
pub enum MetaOp {
    Load(MetaLoad),
    Target(MetaTarget),
}

impl MetaOp {
    pub open spec fn wf(self) -> bool {
        match self {
            MetaOp::Load(_) => true,
            MetaOp::Target(t) => t.wf(),
        }
    }

    /// The load record inside the operation, when it is one.
    pub fn load_ref(&self) -> (r: Option<&MetaLoad>)
        ensures
            match r {
                Some(l) => self matches MetaOp::Load(x) && l == x,
                None => self matches MetaOp::Target(_),
            },
    {
        match self {
            MetaOp::Load(l) => Some(l),
            MetaOp::Target(_) => None,
        }
    }

    /// The target record inside the operation, when it is one.
    pub fn target_ref(&self) -> (r: Option<&MetaTarget>)
        ensures
            match r {
                Some(t) => self matches MetaOp::Target(x) && t == x,
                None => self matches MetaOp::Load(_),
            },
    {
        match self {
            MetaOp::Load(_) => None,
            MetaOp::Target(t) => Some(t),
        }
    }
}

/// Wire bytes of a load record: the five fields at their fixed offsets,
/// integers in little-endian order, zero padding up to the record size.
pub open spec fn spec_load_bytes(l: MetaLoad) -> Seq<u8> {
    seq![l.kind, l.nmemb] + spec_u16_to_le_bytes(l.offt) + seq![l.bf_size, 0u8, 0u8, 0u8]
        + spec_u64_to_le_bytes(l.mask) + Seq::new(24, |i: int| 0u8)
}

/// Wire bytes of a target record: the operand buffer, the operand size,
/// the operator code, zero padding up to the record size.
pub open spec fn spec_target_bytes(t: MetaTarget) -> Seq<u8> {
    t.md@ + seq![t.sz, t.cmp] + Seq::new(6, |i: int| 0u8)
}

/// Wire bytes of one meta-operation record.
pub open spec fn spec_op_bytes(op: MetaOp) -> Seq<u8> {
    match op {
        MetaOp::Load(l) => spec_load_bytes(l),
        MetaOp::Target(t) => spec_target_bytes(t),
    }
}

impl MetaOp {
    /// Serializes the operation into its fixed-size wire record, exactly
    /// as the in-kernel interpreter reads it.
    pub fn to_bytes(&self) -> (r: Vec<u8>)
        requires
            self.wf(),
        ensures
            r@ == spec_op_bytes(*self),
            r@.len() == META_OP_BYTES,
    {
        let mut out: Vec<u8> = Vec::new();
        match self {
            MetaOp::Load(l) => {
                out.push(l.kind);
                out.push(l.nmemb);
                let mut offt_bytes = u16_to_le_bytes(l.offt);
                out.append(&mut offt_bytes);
                out.push(l.bf_size);
                out.push(0);
                out.push(0);
                out.push(0);
                let mut mask_bytes = u64_to_le_bytes(l.mask);
                out.append(&mut mask_bytes);
                let mut i: usize = 0;
                while i < 24
                    invariant
                        out@.len() == 16 + i,
                        i <= 24,
                        out@ == seq![l.kind, l.nmemb] + spec_u16_to_le_bytes(l.offt)
                            + seq![l.bf_size, 0u8, 0u8, 0u8] + spec_u64_to_le_bytes(l.mask)
                            + Seq::new(i as nat, |j: int| 0u8),
                    decreases 24 - i,
                {
                    out.push(0);
                    proof {
                        assert(Seq::new((i + 1) as nat, |j: int| 0u8) =~= Seq::new(
                            i as nat,
                            |j: int| 0u8,
                        ).push(0u8));
                        assert(out@ =~= seq![l.kind, l.nmemb] + spec_u16_to_le_bytes(l.offt)
                            + seq![l.bf_size, 0u8, 0u8, 0u8] + spec_u64_to_le_bytes(l.mask)
                            + Seq::new((i + 1) as nat, |j: int| 0u8));
                    }
                    i += 1;
                }
                proof {
                    vstd::bytes::lemma_auto_spec_u16_to_from_le_bytes();
                    vstd::bytes::lemma_auto_spec_u64_to_from_le_bytes();
                }
            },
            MetaOp::Target(t) => {
                let mut k: usize = 0;
                while k < META_TARGET_MAX
                    invariant
                        t.wf(),
                        k <= META_TARGET_MAX,
                        out@ == t.md@.subrange(0, k as int),
                    decreases META_TARGET_MAX - k,
                {
                    out.push(t.md[k]);
                    proof {
                        assert(out@ =~= t.md@.subrange(0, k + 1 as int));
                    }
                    k += 1;
                }
                out.push(t.sz);
                out.push(t.cmp);
                let mut i: usize = 0;
                while i < 6
                    invariant
                        t.wf(),
                        out@.len() == 34 + i,
                        i <= 6,
                        out@ == t.md@ + seq![t.sz, t.cmp] + Seq::new(i as nat, |j: int| 0u8),
                    decreases 6 - i,
                {
                    out.push(0);
                    proof {
                        assert(out@ =~= t.md@ + seq![t.sz, t.cmp] + Seq::new(
                            (i + 1) as nat,
                            |j: int| 0u8,
                        ));
                    }
                    i += 1;
                }
            },
        }
        proof {
            assert(out@ =~= spec_op_bytes(*self));
        }
        out
    }
}

} // verus!
