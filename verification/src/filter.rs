//! The metadata filter compiler: parses a filter expression such as
//! `sk_buff.dev.name == 'dummy0'` or `sk_buff._nfct:~0x0:nf_conn.mark == 5`,
//! walks the kernel type database to resolve field offsets through pointer
//! indirection, bitfields, arrays, typedefs, enums, anonymous inner records,
//! explicit casts and bitmasks, and emits the compact load/compare program
//! that the in-kernel interpreter runs against a live structure pointer.

use crate::meta::{
    pad_zeros, spec_cmp_code, spec_cmp_is_ordering, spec_cmp_of, spec_zeros, MetaCmp, MetaLoad,
    MetaOp, MetaTarget, KIND_CHAR, KIND_INT, KIND_LONG, KIND_SHORT, META_OPS_MAX, META_TARGET_MAX,
    PTR_BIT, SIGN_BIT,
};
use crate::scan::{
    all_digits, all_digits_exec, digits_val, parse_u64_body, parse_u64_radix, spec_split,
    spec_u64_shape_ok, spec_u64_value, split_char, str_eq,
};
use crate::typedb::{Member, TypeDb, TypeNode};
use vstd::prelude::*;
use vstd::string::*;

verus! {

/// The kinds of failure the filter compiler reports. Nothing is recovered
/// internally: every error surfaces to the caller.
#[derive(Clone, Copy, Debug, PartialEq, Eq, Structural)]
pub enum FilterErrorKind {
    /// The filter string does not follow the surface grammar, or its
    /// left-hand side does not start at the supported root type.
    InvalidSyntax,
    /// A type name did not resolve in the type database.
    UnknownType,
    /// A member name was not found in the record under inspection.
    FieldNotFound,
    /// A type that the compiler cannot load or walk through.
    UnsupportedType,
    /// A cast on an unsuitable node: a leaf, a field narrower than a
    /// pointer, or a cast target that is no plain record.
    UnsupportedCast,
    /// An ill-formed or zero mask, or a mask on a member that takes none.
    UnsupportedMask,
    /// More than one pointer indirection within a single step.
    PointerOfPointer,
    /// A right-hand value of the wrong shape for the compared field.
    RvalShape,
    /// A right-hand value outside the range the compared field can hold.
    RvalRange,
    /// A comparison operator that the compared field does not support.
    OperatorNotSupported,
    /// The compiled program would exceed the operation table.
    ProgramTooLong,
}

/// A filter compilation error: its kind, and the filter fragment or type
/// name it concerns.
#[derive(Clone, Debug)]
pub struct FilterError {
    pub kind: FilterErrorKind,
    pub what: String,
}

impl FilterError {
    /// Builds an error of the given kind about the given fragment.
    pub fn new(kind: FilterErrorKind, what: &str) -> (r: FilterError)
        ensures
            r.kind == kind,
            r.what@ == what@,
    {
        FilterError { kind, what: what.to_owned() }
    }
}

/// One dotted segment of a filter's left-hand side:
/// `member[:mask[:cast]]`.
pub struct LhsNode {
    pub member: String,
    pub mask: u64,
    pub cast: Option<String>,
}

/// A right-hand comparison value, classified by its surface form.
pub enum Rval {
    Dec(String),
    Hex(String),
    Str(String),
}

/// The token is a quoted string: at least two characters, the same quote
/// character at both ends.
pub open spec fn spec_quoted(s: Seq<char>) -> bool {
    s.len() >= 2 && ((s[0] == '"' && s[s.len() - 1] == '"') || (s[0] == '\'' && s[s.len() - 1]
        == '\''))
}

/// The token starts with the hexadecimal prefix.
pub open spec fn spec_starts_0x(s: Seq<char>) -> bool {
    s.len() >= 2 && s[0] == '0' && s[1] == 'x'
}

/// Every leading `0x` prefix removed, one after the other.
pub open spec fn spec_trim_0x(s: Seq<char>) -> Seq<char>
    decreases s.len(),
{
    if spec_starts_0x(s) {
        spec_trim_0x(s.subrange(2, s.len() as int))
    } else {
        s
    }
}

impl Rval {
    /// Classifies a right-hand token: a quoted string keeps its inner
    /// characters, a `0x`-prefixed token is hexadecimal with all leading
    /// `0x` prefixes dropped, anything else counts as decimal.
    pub fn from_str(rval: &str) -> (r: Rval)
        ensures
            spec_quoted(rval@) ==> (r matches Rval::Str(v) && v@ == rval@.subrange(
                1,
                rval@.len() - 1,
            )),
            !spec_quoted(rval@) && spec_starts_0x(rval@) ==> (r matches Rval::Hex(v) && v@
                == spec_trim_0x(rval@)),
            !spec_quoted(rval@) && !spec_starts_0x(rval@) ==> (r matches Rval::Dec(v) && v@
                == rval@),
    {
        let n = rval.unicode_len();
        if n >= 2 {
            let first = rval.get_char(0);
            let last = rval.get_char(n - 1);
            if (first == '"' && last == '"') || (first == '\'' && last == '\'') {
                return Rval::Str(rval.substring_char(1, n - 1).to_owned());
            }
        }
        let mut cur: &str = rval;
        loop
            invariant
                spec_trim_0x(cur@) == spec_trim_0x(rval@),
            ensures
                cur@ == spec_trim_0x(rval@),
            decreases cur@.len(),
        {
            let m = cur.unicode_len();
            if m >= 2 && cur.get_char(0) == '0' && cur.get_char(1) == 'x' {
                cur = cur.substring_char(2, m);
            } else {
                proof {
                    assert(!spec_starts_0x(cur@));
                    assert(spec_trim_0x(cur@) == cur@);
                }
                break ;
            }
        }
        proof {
            assert(cur@ == spec_trim_0x(rval@));
        }
        if spec_starts_0x_exec(rval) {
            Rval::Hex(cur.to_owned())
        } else {
            Rval::Dec(rval.to_owned())
        }
    }
}

/// Exact executable form of [`spec_starts_0x`].
fn spec_starts_0x_exec(s: &str) -> (r: bool)
    ensures
        r == spec_starts_0x(s@),
{
    let n = s.unicode_len();
    n >= 2 && s.get_char(0) == '0' && s.get_char(1) == 'x'
}

/// What a mask token denotes: an optional complement marker, a radix
/// prefix (`0x`, `0b`, or none for decimal), a digit body whose value must
/// fit in 64 bits, and a result that must be nonzero after the optional
/// complement.
pub open spec fn spec_parse_mask(s: Seq<char>) -> Option<u64> {
    let (neg, t) = if s.len() > 0 && s[0] == '~' {
        (true, s.subrange(1, s.len() as int))
    } else {
        (false, s)
    };
    let (radix, body) = if t.len() >= 2 && t[0] == '0' && t[1] == 'x' {
        (16int, t.subrange(2, t.len() as int))
    } else if t.len() >= 2 && t[0] == '0' && t[1] == 'b' {
        (2int, t.subrange(2, t.len() as int))
    } else {
        (10int, t)
    };
    if !spec_u64_shape_ok(body, radix) || spec_u64_value(body, radix) > u64::MAX {
        None
    } else {
        let v = spec_u64_value(body, radix) as u64;
        let m = if neg {
            !v
        } else {
            v
        };
        if m == 0 {
            None
        } else {
            Some(m)
        }
    }
}

/// Parses a mask token: `[~](0x<hex> | 0b<bin> | <decimal>)`, rejecting a
/// mask of zero after the optional complement.
pub fn parse_mask(el: &str) -> (r: Result<u64, FilterError>)
    ensures
        match r {
            Ok(v) => spec_parse_mask(el@) == Some(v),
            Err(e) => spec_parse_mask(el@) is None && e.kind == FilterErrorKind::UnsupportedMask,
        },
{
    let n = el.unicode_len();
    let (neg, t) = if n > 0 && el.get_char(0) == '~' {
        (true, el.substring_char(1, n))
    } else {
        (false, el)
    };
    let tn = t.unicode_len();
    let (radix, body) = if tn >= 2 && t.get_char(0) == '0' && t.get_char(1) == 'x' {
        (16u32, t.substring_char(2, tn))
    } else if tn >= 2 && t.get_char(0) == '0' && t.get_char(1) == 'b' {
        (2u32, t.substring_char(2, tn))
    } else {
        (10u32, t)
    };
    let v = match parse_u64_body(body, radix) {
        Ok(v) => v,
        Err(_) => {
            return Err(FilterError::new(FilterErrorKind::UnsupportedMask, el));
        },
    };
    let m = if neg {
        !v
    } else {
        v
    };
    if m == 0 {
        return Err(FilterError::new(FilterErrorKind::UnsupportedMask, el));
    }
    Ok(m)
}

/// A parsed node matches its `member[:mask[:cast]]` source text.
pub open spec fn spec_lhs_node_matches(n: LhsNode, piece: Seq<char>) -> bool {
    let parts = spec_split(piece, ':');
    &&& n.member@ == parts[0]
    &&& (parts.len() >= 2 ==> Some(n.mask) == spec_parse_mask(parts[1]))
    &&& (parts.len() < 2 ==> n.mask == 0)
    &&& (parts.len() == 3 ==> (n.cast matches Some(c) && c@ == parts[2]))
    &&& (parts.len() != 3 ==> n.cast is None)
}

/// One node of the left-hand side is acceptable: the root node is the
/// supported starting type and carries neither mask nor cast, a mask token
/// parses, and a node has at most three parts.
pub open spec fn spec_node_ok(piece: Seq<char>, first: bool) -> bool {
    let parts = spec_split(piece, ':');
    &&& (first ==> parts[0] == "sk_buff"@)
    &&& (parts.len() >= 2 ==> !first && spec_parse_mask(parts[1]) is Some)
    &&& parts.len() <= 3
}

/// The left-hand side is acceptable: at least two dotted nodes, each of
/// them well formed.
pub open spec fn spec_lhs_ok(lhs: Seq<char>) -> bool {
    let pieces = spec_split(lhs, '.');
    &&& pieces.len() >= 2
    &&& (forall|i: int| 0 <= i < pieces.len() ==> spec_node_ok(#[trigger] pieces[i], i == 0))
}

/// The filter string parses: either `LHS OP RHS` with a known operator, or
/// a bare `LHS`, the left-hand side well formed either way.
pub open spec fn spec_parse_ok(f: Seq<char>) -> bool {
    let toks = spec_split(f, ' ');
    if toks.len() == 3 {
        spec_lhs_ok(toks[0]) && spec_cmp_of(toks[1]) is Some
    } else if toks.len() == 1 {
        spec_lhs_ok(toks[0])
    } else {
        false
    }
}

/// Splits a filter string into its left-hand nodes, comparison operator
/// and right-hand token. A bare left-hand side compares as `!= 0`.
/// Succeeds exactly when [`spec_parse_ok`] holds of the string.
pub fn parse_filter(filter: &str) -> (r: Result<(Vec<LhsNode>, MetaCmp, String), FilterError>)
    ensures
        r is Ok <==> spec_parse_ok(filter@),
        match r {
            Ok((nodes, op, rhs)) => {
                let toks = spec_split(filter@, ' ');
                let pieces = spec_split(toks[0], '.');
                &&& nodes@.len() == pieces.len()
                &&& pieces.len() >= 2
                &&& (forall|i: int|
                    0 <= i < pieces.len() ==> spec_lhs_node_matches(
                        #[trigger] nodes@[i],
                        pieces[i],
                    ))
                &&& nodes@[0].member@ == "sk_buff"@
                &&& nodes@[0].mask == 0
                &&& nodes@[0].cast is None
                &&& if toks.len() == 3 {
                    spec_cmp_of(toks[1]) == Some(op) && rhs@ == toks[2]
                } else {
                    op == MetaCmp::Ne && rhs@ == "0"@
                }
            },
            Err(e) => e.kind == FilterErrorKind::InvalidSyntax || e.kind
                == FilterErrorKind::UnsupportedMask || e.kind
                == FilterErrorKind::OperatorNotSupported,
        },
{
    let toks = split_char(filter, ' ');
    proof {
        crate::scan::lemma_split_len(filter@, ' ');
    }
    let lhs_s: &String = if toks.len() == 3 || toks.len() == 1 {
        &toks[0]
    } else {
        return Err(FilterError::new(FilterErrorKind::InvalidSyntax, filter));
    };
    proof {
        assert(toks@.map_values(|p: String| p@)[0] == toks@[0]@);
        assert(lhs_s@ == spec_split(filter@, ' ')[0]);
    }
    let pieces = split_char(lhs_s.as_str(), '.');
    let n_pieces = pieces.len();
    let mut nodes: Vec<LhsNode> = Vec::new();
    let mut i: usize = 0;
    while i < n_pieces
        invariant
            toks@.len() == 3 || toks@.len() == 1,
            toks@.map_values(|p: String| p@) == spec_split(filter@, ' '),
            lhs_s@ == spec_split(filter@, ' ')[0],
            n_pieces == pieces@.len(),
            pieces@.map_values(|p: String| p@) == spec_split(lhs_s@, '.'),
            i <= n_pieces,
            nodes@.len() == i,
            forall|j: int|
                0 <= j < i ==> spec_lhs_node_matches(
                    #[trigger] nodes@[j],
                    spec_split(lhs_s@, '.')[j],
                ),
            forall|j: int| 0 <= j < i ==> spec_node_ok(spec_split(lhs_s@, '.')[j], j == 0),
            i >= 1 ==> nodes@[0].member@ == "sk_buff"@ && nodes@[0].mask == 0 && nodes@[0].cast
                is None,
        decreases n_pieces - i,
    {
        let parts = split_char(pieces[i].as_str(), ':');
        proof {
            crate::scan::lemma_split_len(pieces@[i as int]@, ':');
        }
        let first = i == 0;
        proof {
            assert(pieces@.map_values(|p: String| p@)[i as int] == pieces@[i as int]@);
            assert(parts@.map_values(|p: String| p@) == spec_split(pieces@[i as int]@, ':'));
        }
        if first && !str_eq(parts[0].as_str(), "sk_buff") {
            proof {
                assert(!spec_node_ok(spec_split(lhs_s@, '.')[0], true));
                assert(!spec_lhs_ok(lhs_s@));
                assert(!spec_parse_ok(filter@));
            }
            return Err(FilterError::new(FilterErrorKind::InvalidSyntax, filter));
        }
        let mask: u64 = if parts.len() >= 2 {
            if first {
                proof {
                    assert(!spec_node_ok(spec_split(lhs_s@, '.')[0], true));
                    assert(!spec_lhs_ok(lhs_s@));
                    assert(!spec_parse_ok(filter@));
                }
                return Err(FilterError::new(FilterErrorKind::InvalidSyntax, filter));
            }
            match parse_mask(parts[1].as_str()) {
                Ok(m) => m,
                Err(e) => {
                    return Err(e);
                },
            }
        } else {
            0
        };
        if parts.len() > 3 {
            return Err(FilterError::new(FilterErrorKind::InvalidSyntax, filter));
        }
        let cast: Option<String> = if parts.len() == 3 {
            Some(parts[2].clone())
        } else {
            None
        };
        let member = parts[0].clone();
        nodes.push(LhsNode { member, mask, cast });
        i += 1;
    }
    if nodes.len() <= 1 {
        return Err(FilterError::new(FilterErrorKind::InvalidSyntax, filter));
    }
    let (op, rhs): (MetaCmp, String) = if toks.len() == 3 {
        match MetaCmp::from_str(toks[1].as_str()) {
            Some(op) => (op, toks[2].clone()),
            None => {
                return Err(FilterError::new(FilterErrorKind::OperatorNotSupported, filter));
            },
        }
    } else {
        (MetaCmp::Ne, "0".to_owned())
    };
    Ok((nodes, op, rhs))
}

/// How the member walk steps across a field of the given type, found where
/// [`spec_walk_node`] describes: the exact offset, bitfield width and type
/// of the first member of that name, recursing through anonymous inner
/// records while accumulating their bit offsets.
pub open spec fn spec_walk_node(
    db: TypeDb,
    id: u32,
    name: Seq<char>,
    offset: u32,
    fuel: nat,
) -> Option<(u32, Option<u32>, u32)>
    decreases fuel, 1int, 0int,
{
    match db.spec_node(id) {
        Some(TypeNode::Struct { members, .. }) => spec_walk_members(
            db,
            members@,
            0,
            name,
            offset,
            fuel,
        ),
        Some(TypeNode::Union { members, .. }) => spec_walk_members(
            db,
            members@,
            0,
            name,
            offset,
            fuel,
        ),
        _ => None,
    }
}

/// The member walk from member `k` on: the first member named `name` wins;
/// an anonymous inner record is searched recursively; an anonymous member
/// of any other type ends the whole search empty-handed.
pub open spec fn spec_walk_members(
    db: TypeDb,
    members: Seq<Member>,
    k: int,
    name: Seq<char>,
    offset: u32,
    fuel: nat,
) -> Option<(u32, Option<u32>, u32)>
    decreases fuel, 0int, 2 * (members.len() - k) + 1,
{
    if k < 0 || k >= members.len() {
        None
    } else {
        let m = members[k];
        if m.name@ == name {
            if offset + m.bit_offset > u32::MAX || (m.type_id != 0 && db.spec_node(m.type_id)
                is None) {
                None
            } else {
                Some(((offset + m.bit_offset) as u32, m.bitfield_size, m.type_id))
            }
        } else if m.name@.len() == 0 {
            match db.spec_node(m.type_id) {
                Some(TypeNode::Struct { .. }) => spec_walk_anon(db, members, k, name, offset, fuel),
                Some(TypeNode::Union { .. }) => spec_walk_anon(db, members, k, name, offset, fuel),
                _ => None,
            }
        } else {
            spec_walk_members(db, members, k + 1, name, offset, fuel)
        }
    }
}

/// The anonymous-record case of the member walk: search inside, fall back
/// to the following members when the inner search misses.
pub open spec fn spec_walk_anon(
    db: TypeDb,
    members: Seq<Member>,
    k: int,
    name: Seq<char>,
    offset: u32,
    fuel: nat,
) -> Option<(u32, Option<u32>, u32)>
    decreases fuel, 0int, 2 * (members.len() - k),
{
    if !(0 <= k < members.len()) {
        None
    } else {
        let m = members[k];
        if fuel == 0 || offset + m.bit_offset > u32::MAX {
            None
        } else {
            match spec_walk_node(
                db,
                m.type_id,
                name,
                (offset + m.bit_offset) as u32,
                (fuel - 1) as nat,
            ) {
                Some(res) => Some(res),
                None => spec_walk_members(db, members, k + 1, name, offset, fuel),
            }
        }
    }
}

/// Finds a member by name inside a record type, exactly as
/// [`spec_walk_node`] describes. Returns the member's accumulated bit
/// offset, its bitfield width and its type.
pub fn walk_node(db: &TypeDb, id: u32, name: &str, offset: u32, fuel: usize) -> (r: Option<
    (u32, Option<u32>, u32),
>)
    ensures
        r == spec_walk_node(*db, id, name@, offset, fuel as nat),
    decreases fuel, 1int, 0int,
{
    match db.node(id) {
        Some(n) => match n {
            TypeNode::Struct { members, .. } => walk_members(db, members, 0, name, offset, fuel),
            TypeNode::Union { members, .. } => walk_members(db, members, 0, name, offset, fuel),
            _ => None,
        },
        None => None,
    }
}

fn walk_members(
    db: &TypeDb,
    members: &Vec<Member>,
    k: usize,
    name: &str,
    offset: u32,
    fuel: usize,
) -> (r: Option<(u32, Option<u32>, u32)>)
    ensures
        r == spec_walk_members(*db, members@, k as int, name@, offset, fuel as nat),
    decreases fuel, 0int, members@.len() - k,
{
    if k >= members.len() {
        return None;
    }
    let m = &members[k];
    if str_eq(m.name.as_str(), name) {
        if m.bit_offset > u32::MAX - offset {
            return None;
        }
        let noff = offset + m.bit_offset;
        if m.type_id != 0 && db.node(m.type_id).is_none() {
            return None;
        }
        Some((noff, m.bitfield_size, m.type_id))
    } else if m.name.as_str().is_empty() {
        let inner_is_record = match db.node(m.type_id) {
            Some(TypeNode::Struct { .. }) => true,
            Some(TypeNode::Union { .. }) => true,
            _ => false,
        };
        if !inner_is_record {
            return None;
        }
        proof {
            assert(spec_walk_members(*db, members@, k as int, name@, offset, fuel as nat)
                == spec_walk_anon(*db, members@, k as int, name@, offset, fuel as nat));
        }
        if fuel == 0 || m.bit_offset > u32::MAX - offset {
            proof {
                assert(spec_walk_anon(*db, members@, k as int, name@, offset, fuel as nat)
                    is None);
            }
            return None;
        }
        match walk_node(db, m.type_id, name, offset + m.bit_offset, fuel - 1) {
            Some(res) => Some(res),
            None => walk_members(db, members, k + 1, name, offset, fuel),
        }
    } else {
        walk_members(db, members, k + 1, name, offset, fuel)
    }
}

/// How one type behaves when the walk looks for the next walkable type.
#[derive(Clone, Copy, Debug, PartialEq, Eq, Structural)]
pub enum WalkStep {
    /// A record: the walk can continue into its members.
    Record,
    /// One pointer indirection: a pointer, or a pointer-sized integer
    /// under an explicit cast.
    Indirect,
    /// A transparent kind the walk skips over.
    Transparent,
    /// A type the walk cannot step through.
    Stop,
}

/// Size of a kernel pointer in bytes; an integer of this size can be cast
/// to a pointer type.
pub const PTR_SIZE: u32 = 8;

/// How the walk treats the type `id` resolves to.
pub open spec fn spec_step_kind(db: TypeDb, id: u32, casted: bool) -> WalkStep {
    match db.spec_node(id) {
        Some(TypeNode::Int { size, .. }) => if casted && size == PTR_SIZE {
            WalkStep::Indirect
        } else {
            WalkStep::Stop
        },
        Some(TypeNode::Ptr { .. }) => WalkStep::Indirect,
        Some(TypeNode::Struct { .. }) => WalkStep::Record,
        Some(TypeNode::Union { .. }) => WalkStep::Record,
        Some(TypeNode::Typedef { .. }) => WalkStep::Transparent,
        Some(TypeNode::Const { .. }) => WalkStep::Transparent,
        Some(TypeNode::Volatile { .. }) => WalkStep::Transparent,
        Some(TypeNode::Restrict { .. }) => WalkStep::Transparent,
        Some(TypeNode::DeclTag { .. }) => WalkStep::Transparent,
        Some(TypeNode::TypeTag { .. }) => WalkStep::Transparent,
        _ => WalkStep::Stop,
    }
}

fn step_kind_of(db: &TypeDb, id: u32, casted: bool) -> (k: WalkStep)
    ensures
        k == spec_step_kind(*db, id, casted),
{
    match db.node(id) {
        Some(n) => match n {
            TypeNode::Int { size, .. } => if casted && *size == PTR_SIZE {
                WalkStep::Indirect
            } else {
                WalkStep::Stop
            },
            TypeNode::Ptr { .. } => WalkStep::Indirect,
            TypeNode::Struct { .. } => WalkStep::Record,
            TypeNode::Union { .. } => WalkStep::Record,
            TypeNode::Typedef { .. } => WalkStep::Transparent,
            TypeNode::Const { .. } => WalkStep::Transparent,
            TypeNode::Volatile { .. } => WalkStep::Transparent,
            TypeNode::Restrict { .. } => WalkStep::Transparent,
            TypeNode::DeclTag { .. } => WalkStep::Transparent,
            TypeNode::TypeTag { .. } => WalkStep::Transparent,
            _ => WalkStep::Stop,
        },
        None => WalkStep::Stop,
    }
}

/// The type `id` chains to, if any.
pub open spec fn spec_chain_next_of(db: TypeDb, id: u32) -> Option<u32> {
    match db.spec_node(id) {
        Some(n) => n.spec_chain_next(),
        None => None,
    }
}

/// One more pointer indirection; the count saturates at two, beyond which
/// compilation fails in any case.
pub open spec fn spec_bump_ind(ind: u32, k: WalkStep) -> u32 {
    if k == WalkStep::Indirect {
        if ind < 2 {
            (ind + 1) as u32
        } else {
            ind
        }
    } else {
        ind
    }
}

/// The chain search for the next walkable type: skip transparent kinds,
/// count indirections, stop at a record; anything else fails.
pub open spec fn spec_nw_chain(db: TypeDb, id: u32, ind: u32, fuel: nat) -> Option<(u32, u32)>
    decreases fuel,
{
    if fuel == 0 {
        None
    } else {
        let k = spec_step_kind(db, id, false);
        if k == WalkStep::Record {
            Some((ind, id))
        } else if k == WalkStep::Stop {
            None
        } else {
            match spec_chain_next_of(db, id) {
                Some(nid) => spec_nw_chain(db, nid, spec_bump_ind(ind, k), (fuel - 1) as nat),
                None => None,
            }
        }
    }
}

/// The next walkable type from `id`, with the number of pointer
/// indirections on the way (saturated at two). A type that is already a
/// record needs no steps; under a cast the chain is not followed and the
/// starting type itself is returned with its indirection count.
pub open spec fn spec_next_walkable(db: TypeDb, id: u32, casted: bool) -> Option<(u32, u32)> {
    let k0 = spec_step_kind(db, id, casted);
    if k0 == WalkStep::Record {
        Some((0, id))
    } else if k0 == WalkStep::Stop {
        None
    } else {
        let ind0: u32 = if k0 == WalkStep::Indirect {
            1
        } else {
            0
        };
        if casted {
            Some((ind0, id))
        } else {
            match spec_chain_next_of(db, id) {
                Some(nid) => spec_nw_chain(db, nid, ind0, db.spec_len()),
                None => None,
            }
        }
    }
}

/// Finds the next walkable type exactly as [`spec_next_walkable`]
/// describes. A failure under a cast concerns the cast; one without
/// concerns the walked type.
pub fn next_walkable(db: &TypeDb, id: u32, casted: bool, what: &str) -> (r: Result<
    (u32, u32),
    FilterError,
>)
    ensures
        match r {
            Ok(p) => spec_next_walkable(*db, id, casted) == Some(p),
            Err(e) => spec_next_walkable(*db, id, casted) is None && e.kind == (if casted {
                FilterErrorKind::UnsupportedCast
            } else {
                FilterErrorKind::UnsupportedType
            }),
        },
{
    let kind = if casted {
        FilterErrorKind::UnsupportedCast
    } else {
        FilterErrorKind::UnsupportedType
    };
    let k0 = step_kind_of(db, id, casted);
    if k0 == WalkStep::Record {
        return Ok((0, id));
    }
    if k0 == WalkStep::Stop {
        return Err(FilterError::new(kind, what));
    }
    let ind0: u32 = if k0 == WalkStep::Indirect {
        1
    } else {
        0
    };
    if casted {
        return Ok((ind0, id));
    }
    let mut cur: u32 = match db.node(id) {
        Some(n) => match n.chain_next() {
            Some(nid) => nid,
            None => {
                return Err(FilterError::new(kind, what));
            },
        },
        None => {
            return Err(FilterError::new(kind, what));
        },
    };
    let mut ind: u32 = ind0;
    let mut fuel: usize = db.len();
    loop
        invariant
            !casted,
            kind == FilterErrorKind::UnsupportedType,
            fuel <= db.spec_len(),
            spec_next_walkable(*db, id, casted) == spec_nw_chain(*db, cur, ind, fuel as nat),
        decreases fuel,
    {
        if fuel == 0 {
            return Err(FilterError::new(kind, what));
        }
        let k = step_kind_of(db, cur, false);
        if k == WalkStep::Record {
            return Ok((ind, cur));
        }
        if k == WalkStep::Stop {
            return Err(FilterError::new(kind, what));
        }
        let nid = match db.node(cur) {
            Some(n) => match n.chain_next() {
                Some(nid) => nid,
                None => {
                    return Err(FilterError::new(kind, what));
                },
            },
            None => {
                return Err(FilterError::new(kind, what));
            },
        };
        if k == WalkStep::Indirect && ind < 2 {
            ind = ind + 1;
        }
        cur = nid;
        fuel = fuel - 1;
    }
}

/// The scalar shape accumulated while scanning the type chain of a
/// terminal load: its type code, pointer and sign flags, and array length.
#[derive(Clone, Copy, Debug, PartialEq, Eq, Structural)]
pub struct LoadShape {
    pub code: u8,
    pub ptr: bool,
    pub signed: bool,
    pub nmemb: u8,
}

/// The shape of a load before any chain node is seen.
pub open spec fn spec_shape_init() -> LoadShape {
    LoadShape { code: 0, ptr: false, signed: false, nmemb: 0 }
}

/// How one chain node changes the load shape; `None` for a node the
/// compiler cannot load: a pointer behind a pointer, an array of more than
/// 255 elements, a pointer or array of anything but bytes, an integer of
/// an unsupported size, or a record.
pub open spec fn spec_scan_step(n: TypeNode, st: LoadShape) -> Option<LoadShape> {
    match n {
        TypeNode::Ptr { .. } => if st.ptr {
            None
        } else {
            Some(LoadShape { ptr: true, ..st })
        },
        TypeNode::Array { nelems, .. } => if st.ptr || nelems > 255 {
            None
        } else {
            Some(LoadShape { nmemb: nelems as u8, ..st })
        },
        TypeNode::Enum { signed, .. } => if st.ptr {
            None
        } else {
            Some(LoadShape { code: KIND_INT, signed: st.signed || signed, ..st })
        },
        TypeNode::Enum64 { signed, .. } => if st.ptr {
            None
        } else {
            Some(LoadShape { code: KIND_LONG, signed: st.signed || signed, ..st })
        },
        TypeNode::Int { size, signed, .. } => {
            let code: u8 = if size == 8 {
                KIND_LONG
            } else if size == 4 {
                KIND_INT
            } else if size == 2 {
                KIND_SHORT
            } else if size == 1 {
                KIND_CHAR
            } else {
                0
            };
            if code == 0 {
                None
            } else if code != KIND_CHAR && (st.nmemb > 0 || st.ptr) {
                None
            } else {
                Some(LoadShape { code, signed: st.signed || signed, ..st })
            }
        },
        TypeNode::Typedef { .. } => Some(st),
        TypeNode::Const { .. } => Some(st),
        TypeNode::Volatile { .. } => Some(st),
        TypeNode::Restrict { .. } => Some(st),
        TypeNode::DeclTag { .. } => Some(st),
        TypeNode::TypeTag { .. } => Some(st),
        _ => None,
    }
}

/// Exact executable form of [`spec_scan_step`].
fn scan_step(n: &TypeNode, st: LoadShape) -> (r: Option<LoadShape>)
    ensures
        r == spec_scan_step(*n, st),
{
    match n {
        TypeNode::Ptr { .. } => if st.ptr {
            None
        } else {
            Some(LoadShape { ptr: true, ..st })
        },
        TypeNode::Array { nelems, .. } => if st.ptr || *nelems > 255 {
            None
        } else {
            Some(LoadShape { nmemb: *nelems as u8, ..st })
        },
        TypeNode::Enum { signed, .. } => if st.ptr {
            None
        } else {
            Some(LoadShape { code: KIND_INT, signed: st.signed || *signed, ..st })
        },
        TypeNode::Enum64 { signed, .. } => if st.ptr {
            None
        } else {
            Some(LoadShape { code: KIND_LONG, signed: st.signed || *signed, ..st })
        },
        TypeNode::Int { size, signed, .. } => {
            let code: u8 = if *size == 8 {
                KIND_LONG
            } else if *size == 4 {
                KIND_INT
            } else if *size == 2 {
                KIND_SHORT
            } else if *size == 1 {
                KIND_CHAR
            } else {
                0
            };
            if code == 0 {
                None
            } else if code != KIND_CHAR && (st.nmemb > 0 || st.ptr) {
                None
            } else {
                Some(LoadShape { code, signed: st.signed || *signed, ..st })
            }
        },
        TypeNode::Typedef { .. } => Some(st),
        TypeNode::Const { .. } => Some(st),
        TypeNode::Volatile { .. } => Some(st),
        TypeNode::Restrict { .. } => Some(st),
        TypeNode::DeclTag { .. } => Some(st),
        TypeNode::TypeTag { .. } => Some(st),
        _ => None,
    }
}

/// The load shape of a type: the whole chain from `id` folded through
/// [`spec_scan_step`]; `None` when any node cannot be loaded, when the
/// chain runs into `void` or beyond the table, or when it does not end
/// within the fuel.
pub open spec fn spec_scan_chain(db: TypeDb, id: u32, st: LoadShape, fuel: nat) -> Option<LoadShape>
    decreases fuel,
{
    if fuel == 0 {
        None
    } else {
        match db.spec_node(id) {
            None => None,
            Some(n) => match spec_scan_step(n, st) {
                None => None,
                Some(st2) => match n.spec_chain_next() {
                    None => Some(st2),
                    Some(nid) => spec_scan_chain(db, nid, st2, (fuel - 1) as nat),
                },
            },
        }
    }
}

/// A completed chain scan always ends at a scalar: the code is one of the
/// four sizes, and a pointer load is always byte-shaped (a pointer to
/// anything else is refused during the scan).
pub proof fn lemma_scan_shape(db: TypeDb, id: u32, st: LoadShape, fuel: nat)
    ensures
        match spec_scan_chain(db, id, st, fuel) {
            Some(sh) => 1 <= sh.code <= 4 && (sh.ptr ==> sh.code == KIND_CHAR),
            None => true,
        },
    decreases fuel,
{
    if fuel > 0 {
        match db.spec_node(id) {
            None => {},
            Some(n) => {
                match spec_scan_step(n, st) {
                    None => {},
                    Some(st2) => {
                        match n.spec_chain_next() {
                            None => {},
                            Some(nid) => {
                                lemma_scan_shape(db, nid, st2, (fuel - 1) as nat);
                            },
                        }
                    },
                }
            },
        }
    }
}

/// The kind byte a load shape packs to.
pub open spec fn spec_pack_kind(sh: LoadShape) -> u8 {
    sh.code | (if sh.ptr {
        PTR_BIT
    } else {
        0
    }) | (if sh.signed {
        SIGN_BIT
    } else {
        0
    })
}

/// What emitting a terminal load yields: the chain is scanned for the
/// load's shape; a nonzero mask is only accepted on pointer or unsigned
/// numeric loads; the bitfield width must fit eight bits and the offset
/// sixteen; a plain field's bit offset becomes a byte offset.
pub open spec fn spec_emit_load(db: TypeDb, id: u32, offt: u32, bfs: u32, mask: u64) -> Result<
    MetaLoad,
    FilterErrorKind,
> {
    match spec_scan_chain(db, id, spec_shape_init(), db.spec_len()) {
        None => Err(FilterErrorKind::UnsupportedType),
        Some(sh) => {
            if mask > 0 && !(sh.ptr || !sh.signed) {
                Err(FilterErrorKind::UnsupportedMask)
            } else if bfs > 255 || offt > 65535 {
                Err(FilterErrorKind::UnsupportedType)
            } else {
                Ok(
                    MetaLoad {
                        kind: spec_pack_kind(sh),
                        nmemb: sh.nmemb,
                        offt: if bfs == 0 {
                            (offt / 8) as u16
                        } else {
                            offt as u16
                        },
                        bf_size: bfs as u8,
                        mask,
                    },
                )
            }
        },
    }
}

/// Emits the terminal load of a filter program, exactly as
/// [`spec_emit_load`] describes.
pub fn emit_load(db: &TypeDb, id: u32, offt: u32, bfs: u32, mask: u64, what: &str) -> (r: Result<
    MetaLoad,
    FilterError,
>)
    ensures
        match r {
            Ok(l) => {
                &&& spec_emit_load(*db, id, offt, bfs, mask) == Ok::<MetaLoad, FilterErrorKind>(l)
                &&& 1 <= l.spec_code() <= 4
                &&& (l.spec_is_ptr() ==> l.spec_code() == KIND_CHAR)
                &&& l.mask == mask
                &&& (mask != 0 ==> l.spec_is_ptr() || (l.spec_is_num() && !l.spec_is_signed()))
                &&& (bfs > 0 ==> l.offt == offt && l.bf_size == bfs)
                &&& (bfs == 0 ==> l.offt == offt / 8 && l.bf_size == 0)
            },
            Err(e) => (spec_emit_load(*db, id, offt, bfs, mask) matches Err(k) && e.kind == k),
        },
{
    let mut st = LoadShape { code: 0, ptr: false, signed: false, nmemb: 0 };
    let mut cur: u32 = id;
    let mut fuel: usize = db.len();
    loop
        invariant
            fuel <= db.spec_len(),
            spec_scan_chain(*db, id, spec_shape_init(), db.spec_len()) == spec_scan_chain(
                *db,
                cur,
                st,
                fuel as nat,
            ),
        ensures
            spec_scan_chain(*db, id, spec_shape_init(), db.spec_len()) == Some(st),
        decreases fuel,
    {
        if fuel == 0 {
            return Err(FilterError::new(FilterErrorKind::UnsupportedType, what));
        }
        let n = match db.node(cur) {
            Some(n) => n,
            None => {
                return Err(FilterError::new(FilterErrorKind::UnsupportedType, what));
            },
        };
        st = match scan_step(n, st) {
            Some(st2) => st2,
            None => {
                return Err(FilterError::new(FilterErrorKind::UnsupportedType, what));
            },
        };
        match n.chain_next() {
            None => {
                break ;
            },
            Some(nid) => {
                cur = nid;
                fuel = fuel - 1;
            },
        }
    }
    let sh = st;
    proof {
        lemma_scan_shape(*db, id, spec_shape_init(), db.spec_len());
    }
    if mask > 0 && !(sh.ptr || !sh.signed) {
        return Err(FilterError::new(FilterErrorKind::UnsupportedMask, what));
    }
    if bfs > 255 || offt > 65535 {
        return Err(FilterError::new(FilterErrorKind::UnsupportedType, what));
    }
    let pf: u8 = if sh.ptr {
        PTR_BIT
    } else {
        0
    };
    let sf: u8 = if sh.signed {
        SIGN_BIT
    } else {
        0
    };
    let kind: u8 = sh.code | pf | sf;
    proof {
        crate::meta::lemma_kind_pack(sh.code, pf, sf);
    }
    let out_offt: u16 = if bfs == 0 {
        (offt as u16) / 8
    } else {
        offt as u16
    };
    Ok(MetaLoad { kind, nmemb: sh.nmemb, offt: out_offt, bf_size: bfs as u8, mask })
}

/// Emits an intermediate pointer load: a dereference at a byte offset,
/// with the node's mask applied to the loaded pointer.
pub fn emit_load_ptr(offt: u32, mask: u64, what: &str) -> (r: Result<MetaLoad, FilterError>)
    ensures
        match r {
            Ok(l) => offt / 8 <= 65535 && l == (MetaLoad {
                kind: PTR_BIT,
                nmemb: 0,
                offt: (offt / 8) as u16,
                bf_size: 0,
                mask,
            }),
            Err(e) => offt / 8 > 65535 && e.kind == FilterErrorKind::UnsupportedType,
        },
{
    let b = offt / 8;
    if b > 65535 {
        return Err(FilterError::new(FilterErrorKind::UnsupportedType, what));
    }
    Ok(MetaLoad { kind: PTR_BIT, nmemb: 0, offt: b as u16, bf_size: 0, mask })
}

/// A right-hand token's classified content: the surface form together
/// with the characters it contributes.
pub enum RvalForm {
    Dec(Seq<char>),
    Hex(Seq<char>),
    Str(Seq<char>),
}

/// The content of a classified right-hand value.
pub open spec fn spec_rval_form(rv: Rval) -> RvalForm {
    match rv {
        Rval::Dec(s) => RvalForm::Dec(s@),
        Rval::Hex(s) => RvalForm::Hex(s@),
        Rval::Str(s) => RvalForm::Str(s@),
    }
}

/// How a right-hand token classifies: quoted strings keep their inner
/// characters, `0x`-prefixed tokens are hexadecimal with every leading
/// prefix dropped, anything else counts as decimal.
pub open spec fn spec_classify_rval(tok: Seq<char>) -> RvalForm {
    if spec_quoted(tok) {
        RvalForm::Str(tok.subrange(1, tok.len() - 1))
    } else if spec_starts_0x(tok) {
        RvalForm::Hex(spec_trim_0x(tok))
    } else {
        RvalForm::Dec(tok)
    }
}

/// What a numeric right-hand token denotes against a load of the given
/// signedness: the 64-bit comparison image (negative values in two's
/// complement), or whether the token fails by shape or by range. A
/// negative literal is refused outright on an unsigned load.
pub open spec fn spec_numeric_form(rv: RvalForm, signed: bool) -> Result<u64, FilterErrorKind> {
    match rv {
        RvalForm::Str(_) => Err(FilterErrorKind::RvalShape),
        RvalForm::Hex(s) => if !spec_u64_shape_ok(s, 16) {
            Err(FilterErrorKind::RvalShape)
        } else if spec_u64_value(s, 16) > u64::MAX {
            Err(FilterErrorKind::RvalRange)
        } else {
            Ok(spec_u64_value(s, 16) as u64)
        },
        RvalForm::Dec(s) => if s.len() > 0 && s[0] == '-' {
            if !signed {
                Err(FilterErrorKind::RvalRange)
            } else {
                let d = s.subrange(1, s.len() as int);
                if d.len() == 0 || !all_digits(d, 10) {
                    Err(FilterErrorKind::RvalShape)
                } else if digits_val(d, 10) > 0x8000000000000000 {
                    Err(FilterErrorKind::RvalRange)
                } else if digits_val(d, 10) == 0 {
                    Ok(0u64)
                } else {
                    Ok((0x10000000000000000 - digits_val(d, 10)) as u64)
                }
            }
        } else if !spec_u64_shape_ok(s, 10) {
            Err(FilterErrorKind::RvalShape)
        } else if spec_u64_value(s, 10) > u64::MAX {
            Err(FilterErrorKind::RvalRange)
        } else {
            Ok(spec_u64_value(s, 10) as u64)
        },
    }
}

/// [`spec_numeric_form`] over a classified value.
pub open spec fn spec_numeric_rval(rv: Rval, signed: bool) -> Result<u64, FilterErrorKind> {
    spec_numeric_form(spec_rval_form(rv), signed)
}

/// Reads a numeric right-hand token, exactly as [`spec_numeric_rval`]
/// describes.
fn numeric_rval(rv: &Rval, signed: bool, what: &str) -> (r: Result<u64, FilterError>)
    ensures
        match r {
            Ok(v) => spec_numeric_rval(*rv, signed) == Ok::<u64, FilterErrorKind>(v),
            Err(e) => (spec_numeric_rval(*rv, signed) matches Err(k) && e.kind == k),
        },
{
    match rv {
        Rval::Str(_) => Err(FilterError::new(FilterErrorKind::RvalShape, what)),
        Rval::Hex(s) => match parse_u64_body(s.as_str(), 16) {
            Ok(v) => Ok(v),
            Err(overflow) => Err(
                FilterError::new(
                    if overflow {
                        FilterErrorKind::RvalRange
                    } else {
                        FilterErrorKind::RvalShape
                    },
                    what,
                ),
            ),
        },
        Rval::Dec(s) => {
            let n = s.as_str().unicode_len();
            if n > 0 && s.as_str().get_char(0) == '-' {
                if !signed {
                    return Err(FilterError::new(FilterErrorKind::RvalRange, what));
                }
                let d = s.as_str().substring_char(1, n);
                if d.unicode_len() == 0 || !all_digits_exec(d, 10) {
                    return Err(FilterError::new(FilterErrorKind::RvalShape, what));
                }
                match parse_u64_radix(d, 10) {
                    None => {
                        // all digits, so the magnitude overflows 64 bits
                        Err(FilterError::new(FilterErrorKind::RvalRange, what))
                    },
                    Some(m) => {
                        if m > 0x8000000000000000 {
                            return Err(FilterError::new(FilterErrorKind::RvalRange, what));
                        }
                        if m == 0 {
                            Ok(0)
                        } else {
                            Ok((u64::MAX - m) + 1)
                        }
                    },
                }
            } else {
                match parse_u64_body(s.as_str(), 10) {
                    Ok(v) => Ok(v),
                    Err(overflow) => Err(
                        FilterError::new(
                            if overflow {
                                FilterErrorKind::RvalRange
                            } else {
                                FilterErrorKind::RvalShape
                            },
                            what,
                        ),
                    ),
                }
            }
        },
    }
}

/// The number of bytes a load of the given type code compares.
pub open spec fn spec_width(code: u8) -> u8 {
    if code == KIND_CHAR {
        1
    } else if code == KIND_SHORT {
        2
    } else if code == KIND_INT {
        4
    } else {
        8
    }
}

/// What the target record of a filter holds: for a pointer or array load,
/// the bytes of a quoted string of at most 31 bytes, compared only for
/// equality; for a numeric load, the 64-bit comparison image in the byte
/// order of this machine, sized by the load's width.
pub open spec fn spec_emit_target_form(lmo: MetaLoad, rv: RvalForm, cmp: MetaCmp) -> Result<
    (Seq<u8>, u8, u8),
    FilterErrorKind,
> {
    if lmo.spec_is_ptr() || lmo.nmemb > 0 {
        if spec_cmp_is_ordering(cmp) {
            Err(FilterErrorKind::OperatorNotSupported)
        } else {
            match rv {
                RvalForm::Str(s) => {
                    let b = vstd::utf8::encode_utf8(s);
                    if b.len() >= META_TARGET_MAX {
                        Err(FilterErrorKind::RvalRange)
                    } else {
                        Ok(
                            (
                                b + spec_zeros(META_TARGET_MAX - b.len()),
                                b.len() as u8,
                                spec_cmp_code(cmp),
                            ),
                        )
                    }
                },
                _ => Err(FilterErrorKind::RvalShape),
            }
        }
    } else {
        match spec_numeric_form(rv, lmo.spec_is_signed()) {
            Err(k) => Err(k),
            Ok(v) => Ok(
                (
                    vstd::bytes::spec_u64_to_le_bytes(v) + spec_zeros(24),
                    spec_width(lmo.spec_code()),
                    spec_cmp_code(cmp),
                ),
            ),
        }
    }
}

/// [`spec_emit_target_form`] over a classified value.
pub open spec fn spec_emit_target(lmo: MetaLoad, rv: Rval, cmp: MetaCmp) -> Result<
    (Seq<u8>, u8, u8),
    FilterErrorKind,
> {
    spec_emit_target_form(lmo, spec_rval_form(rv), cmp)
}

/// Builds the target record of a filter program, exactly as
/// [`spec_emit_target`] describes.
pub fn emit_target(lmo: &MetaLoad, rval: Rval, cmp_op: MetaCmp, what: &str) -> (r: Result<
    MetaTarget,
    FilterError,
>)
    requires
        1 <= lmo.spec_code() <= 4,
    ensures
        match r {
            Ok(t) => {
                &&& spec_emit_target(*lmo, rval, cmp_op) == Ok::<(Seq<u8>, u8, u8), FilterErrorKind>(
                    (t.md@, t.sz, t.cmp),
                )
                &&& t.wf()
                &&& t.cmp == spec_cmp_code(cmp_op)
                &&& (spec_cmp_is_ordering(cmp_op) ==> !lmo.spec_is_ptr() && lmo.nmemb == 0)
            },
            Err(e) => (spec_emit_target(*lmo, rval, cmp_op) matches Err(k) && e.kind == k),
        },
{
    if lmo.is_ptr() || lmo.nmemb > 0 {
        if !(cmp_op == MetaCmp::Eq || cmp_op == MetaCmp::Ne) {
            return Err(FilterError::new(FilterErrorKind::OperatorNotSupported, what));
        }
        match rval {
            Rval::Str(val) => {
                let mut md = val.as_str().as_bytes_vec();
                if md.len() >= META_TARGET_MAX {
                    return Err(FilterError::new(FilterErrorKind::RvalRange, what));
                }
                let sz = md.len() as u8;
                pad_zeros(&mut md, META_TARGET_MAX);
                Ok(MetaTarget { md, sz, cmp: cmp_op.code() })
            },
            _ => Err(FilterError::new(FilterErrorKind::RvalShape, what)),
        }
    } else {
        let v = match numeric_rval(&rval, lmo.is_signed(), what) {
            Ok(v) => v,
            Err(e) => {
                return Err(e);
            },
        };
        let mut md = vstd::bytes::u64_to_le_bytes(v);
        pad_zeros(&mut md, META_TARGET_MAX);
        let sz: u8 = if lmo.is_byte() {
            1
        } else if lmo.is_short() {
            2
        } else if lmo.is_int() {
            4
        } else {
            8
        };
        Ok(MetaTarget { md, sz, cmp: cmp_op.code() })
    }
}

/// A pure dereference load: the pointer bit alone, no scalar code, no
/// array, no bitfield. The walk emits one per pointer indirection.
pub open spec fn spec_is_deref_load(op: MetaOp) -> bool {
    op matches MetaOp::Load(l) && l.kind == PTR_BIT && l.nmemb == 0 && l.bf_size == 0
}

/// A load's mask is legal: nonzero only on a pointer load or an unsigned
/// numeric load.
pub open spec fn spec_mask_ok(l: MetaLoad) -> bool {
    l.mask != 0 ==> l.spec_is_ptr() || (l.spec_is_num() && !l.spec_is_signed())
}

/// The kind byte of a pure dereference load reads back as a pointer with
/// neither scalar code nor sign.
pub proof fn lemma_deref_kind()
    ensures
        PTR_BIT & 0x1f == 0,
        PTR_BIT & 0x40 == 0x40,
        PTR_BIT & 0x80 == 0,
{
    assert(0x40u8 & 0x1f == 0 && 0x40u8 & 0x40 == 0x40 && 0x40u8 & 0x80 == 0) by (bit_vector);
}

/// A well-formed compiled filter program:
/// - it holds the target record and at least one load, and fits the
///   operation table;
/// - the target comes first; everything after it is a load;
/// - every load before the last is a pure dereference, so every pointer
///   load there is consumed by a later load;
/// - the final load is scalar-shaped;
/// - an ordering comparison never stands against a pointer or array load;
/// - every nonzero mask sits on a pointer or unsigned numeric load.
pub open spec fn spec_valid_program(ops: Seq<MetaOp>) -> bool {
    &&& 2 <= ops.len() <= META_OPS_MAX
    &&& (ops[0] matches MetaOp::Target(t) && t.wf() && t.cmp <= 5)
    &&& (forall|i: int| 1 <= i < ops.len() ==> ops[i] is Load)
    &&& (forall|i: int| 1 <= i < ops.len() - 1 ==> spec_is_deref_load(#[trigger] ops[i]))
    &&& (ops[ops.len() - 1] matches MetaOp::Load(l) && 1 <= l.spec_code() <= 4)
    &&& ((ops[0] matches MetaOp::Target(t) && 1 <= t.cmp <= 4) ==> (ops[ops.len() - 1] matches
        MetaOp::Load(l) && !l.spec_is_ptr() && l.nmemb == 0))
    &&& (forall|i: int|
        1 <= i < ops.len() ==> ((#[trigger] ops[i]) matches MetaOp::Load(l) && spec_mask_ok(l)))
}

/// The comparison operator a filter string uses: the operator token of a
/// three-token filter, inequality against zero for a bare left-hand side.
pub open spec fn spec_filter_op(f: Seq<char>) -> MetaCmp {
    let toks = spec_split(f, ' ');
    if toks.len() == 3 {
        match spec_cmp_of(toks[1]) {
            Some(c) => c,
            None => MetaCmp::Ne,
        }
    } else {
        MetaCmp::Ne
    }
}

/// A compiled metadata filter: the ordered meta-operations the in-kernel
/// interpreter executes against a structure pointer.
#[derive(Debug)]
pub struct FilterMeta(pub Vec<MetaOp>);

/// A type node can anchor a walk as the root: only a plain record can.
pub open spec fn spec_is_root_kind(db: TypeDb, id: u32) -> bool {
    db.spec_node(id) matches Some(TypeNode::Struct { .. })
}

/// The first named candidate that resolves to a record type: the result
/// is the least identifier of that name and kind, so the choice is a
/// function of the database and the name alone.
fn find_first_struct(db: &TypeDb, ids: &Vec<u32>, name: &str) -> (r: Option<u32>)
    requires
        forall|k: int| 0 <= k < ids@.len() ==> db.spec_named(#[trigger] ids@[k], name@),
        forall|k1: int, k2: int| 0 <= k1 < k2 < ids@.len() ==> ids@[k1] < ids@[k2],
        forall|id: u32|
            1 <= id <= db.spec_len() && db.spec_named(id, name@) ==> ids@.contains(id),
    ensures
        match r {
            Some(id) => db.spec_named(id, name@) && spec_is_root_kind(*db, id) && forall|j: u32|
                j < id && db.spec_named(j, name@) ==> !spec_is_root_kind(*db, j),
            None => forall|j: u32| db.spec_named(j, name@) ==> !spec_is_root_kind(*db, j),
        },
{
    let mut k: usize = 0;
    while k < ids.len()
        invariant
            k <= ids@.len(),
            forall|k2: int| 0 <= k2 < ids@.len() ==> db.spec_named(#[trigger] ids@[k2], name@),
            forall|k1: int, k2: int| 0 <= k1 < k2 < ids@.len() ==> ids@[k1] < ids@[k2],
            forall|id: u32|
                1 <= id <= db.spec_len() && db.spec_named(id, name@) ==> ids@.contains(id),
            forall|k2: int| 0 <= k2 < k ==> !spec_is_root_kind(*db, #[trigger] ids@[k2]),
        decreases ids@.len() - k,
    {
        let id = ids[k];
        let hit = match db.node(id) {
            Some(TypeNode::Struct { .. }) => true,
            _ => false,
        };
        if hit {
            proof {
                lemma_earlier_candidates_scanned(*db, ids@, k as int, name@);
            }
            return Some(id);
        }
        k += 1;
    }
    proof {
        assert forall|j: u32| db.spec_named(j, name@) implies !spec_is_root_kind(*db, j) by {
            assert(1 <= j <= db.spec_len());
            assert(ids@.contains(j));
            let k2 = choose|k2: int| 0 <= k2 < ids@.len() && ids@[k2] == j;
            assert(!spec_is_root_kind(*db, ids@[k2]));
        }
    }
    None
}

/// Any named identifier below the candidate at position `k` sits at an
/// earlier position of the sorted, complete candidate list.
proof fn lemma_earlier_candidates_scanned(db: TypeDb, ids: Seq<u32>, k: int, name: Seq<char>)
    requires
        0 <= k < ids.len(),
        forall|k2: int| 0 <= k2 < ids.len() ==> db.spec_named(#[trigger] ids[k2], name),
        forall|k1: int, k2: int| 0 <= k1 < k2 < ids.len() ==> ids[k1] < ids[k2],
        forall|id: u32| 1 <= id <= db.spec_len() && db.spec_named(id, name) ==> ids.contains(id),
    ensures
        forall|j: u32|
            j < ids[k] && db.spec_named(j, name) ==> exists|k2: int|
                0 <= k2 < k && ids[k2] == j,
{
    assert forall|j: u32| j < ids[k] && db.spec_named(j, name) implies exists|k2: int|
        0 <= k2 < k && ids[k2] == j by {
        assert(1 <= j <= db.spec_len());
        assert(ids.contains(j));
        let k2 = choose|k2: int| 0 <= k2 < ids.len() && ids[k2] == j;
        if k2 > k {
            assert(ids[k] < ids[k2]);
        } else if k2 == k {
            assert(ids[k2] == ids[k]);
        }
    }
}

/// A type node can be the target of a cast: a record, or a typedef whose
/// chain is then followed.
pub open spec fn spec_is_cast_kind(db: TypeDb, id: u32) -> bool {
    ||| db.spec_node(id) matches Some(TypeNode::Struct { .. })
    ||| db.spec_node(id) matches Some(TypeNode::Union { .. })
    ||| db.spec_node(id) matches Some(TypeNode::Typedef { .. })
}

/// The first named candidate a cast may target: the least identifier of
/// that name and of a castable kind, so the choice is a function of the
/// database and the name alone.
fn find_first_cast_target(db: &TypeDb, ids: &Vec<u32>, name: &str) -> (r: Option<u32>)
    requires
        forall|k: int| 0 <= k < ids@.len() ==> db.spec_named(#[trigger] ids@[k], name@),
        forall|k1: int, k2: int| 0 <= k1 < k2 < ids@.len() ==> ids@[k1] < ids@[k2],
        forall|id: u32|
            1 <= id <= db.spec_len() && db.spec_named(id, name@) ==> ids@.contains(id),
    ensures
        match r {
            Some(id) => db.spec_named(id, name@) && spec_is_cast_kind(*db, id) && forall|j: u32|
                j < id && db.spec_named(j, name@) ==> !spec_is_cast_kind(*db, j),
            None => forall|j: u32| db.spec_named(j, name@) ==> !spec_is_cast_kind(*db, j),
        },
{
    let mut k: usize = 0;
    while k < ids.len()
        invariant
            k <= ids@.len(),
            forall|k2: int| 0 <= k2 < ids@.len() ==> db.spec_named(#[trigger] ids@[k2], name@),
            forall|k1: int, k2: int| 0 <= k1 < k2 < ids@.len() ==> ids@[k1] < ids@[k2],
            forall|id: u32|
                1 <= id <= db.spec_len() && db.spec_named(id, name@) ==> ids@.contains(id),
            forall|k2: int| 0 <= k2 < k ==> !spec_is_cast_kind(*db, #[trigger] ids@[k2]),
        decreases ids@.len() - k,
    {
        let id = ids[k];
        let hit = match db.node(id) {
            Some(TypeNode::Struct { .. }) => true,
            Some(TypeNode::Union { .. }) => true,
            Some(TypeNode::Typedef { .. }) => true,
            _ => false,
        };
        if hit {
            proof {
                lemma_earlier_candidates_scanned(*db, ids@, k as int, name@);
            }
            return Some(id);
        }
        k += 1;
    }
    proof {
        assert forall|j: u32| db.spec_named(j, name@) implies !spec_is_cast_kind(*db, j) by {
            assert(1 <= j <= db.spec_len());
            assert(ids@.contains(j));
            let k2 = choose|k2: int| 0 <= k2 < ids@.len() && ids@[k2] == j;
            assert(!spec_is_cast_kind(*db, ids@[k2]));
        }
    }
    None
}

impl FilterMeta {
    /// Compiles a filter string against a type database snapshot into a
    /// filter program.
    ///
    /// On success the program satisfies every structural invariant of
    /// [`spec_valid_program`], its target record carries the filter's
    /// comparison operator, and the program is exactly what
    /// [`spec_compile`] describes, so compilation is a function of the
    /// snapshot and the string alone. A string that does not parse is
    /// always refused, and for one that parses, failure and its kind are
    /// exactly those of [`spec_compile`].
    pub fn from_string(db: &TypeDb, fstring: &str) -> (r: Result<FilterMeta, FilterError>)
        ensures
            match r {
                Ok(fm) => {
                    &&& spec_valid_program(fm.0@)
                    &&& spec_parse_ok(fstring@)
                    &&& (fm.0@[0] matches MetaOp::Target(t) && t.cmp == spec_cmp_code(
                        spec_filter_op(fstring@),
                    ))
                    &&& spec_program_matches(*db, fstring@, fm.0@)
                },
                Err(e) => if spec_parse_ok(fstring@) {
                    spec_compile(*db, fstring@) matches Err(k) && e.kind == k
                } else {
                    e.kind == FilterErrorKind::InvalidSyntax || e.kind
                        == FilterErrorKind::UnsupportedMask || e.kind
                        == FilterErrorKind::OperatorNotSupported
                },
            },
            !spec_parse_ok(fstring@) ==> r is Err,
    {
        let (fields, op, rval_s) = match parse_filter(fstring) {
            Ok(x) => x,
            Err(e) => {
                return Err(e);
            },
        };
        let ghost toks = spec_split(fstring@, ' ');
        let ghost pieces = spec_split(toks[0], '.');
        proof {
            assert(fields@[0].member@ == spec_node_member(pieces[0]));
        }
        let ids = db.resolve_types_by_name(fields[0].member.as_str());
        let root = match find_first_struct(db, &ids, fields[0].member.as_str()) {
            Some(id) => id,
            None => {
                proof {
                    lemma_first_scan_none(*db, 1, fields@[0].member@, false);
                }
                return Err(FilterError::new(FilterErrorKind::UnknownType, fstring));
            },
        };
        proof {
            lemma_first_scan_some(*db, 1, fields@[0].member@, false, root);
        }
        let mut cur: u32 = root;
        let mut offt: u32 = 0;
        let mut stored_offset: u32 = 0;
        let mut stored_bf: u32 = 0;
        let mut mask: u64 = 0;
        let mut ops: Vec<MetaOp> = Vec::new();
        let ghost mut gderefs: Seq<MetaLoad> = Seq::empty();
        let nf = fields.len();
        let mut i: usize = 1;
        while i < nf
            invariant
                1 <= i <= nf,
                nf == fields@.len(),
                nf == pieces.len(),
                toks == spec_split(fstring@, ' '),
                pieces == spec_split(toks[0], '.'),
                spec_parse_ok(fstring@),
                spec_first_of_kind(*db, 1, spec_node_member(pieces[0]), false) == Some(root),
                forall|j: int|
                    0 <= j < nf ==> spec_lhs_node_matches(#[trigger] fields@[j], pieces[j]),
                ops@.len() < i,
                ops@.len() == gderefs.len(),
                forall|j: int|
                    0 <= j < gderefs.len() ==> ops@[j] == MetaOp::Load(#[trigger] gderefs[j]),
                forall|j: int|
                    0 <= j < ops@.len() ==> spec_is_deref_load(#[trigger] ops@[j]) && (ops@[j]
                        matches MetaOp::Load(l) && spec_mask_ok(l)),
                spec_walk_fields(*db, pieces, 1, root, 0, 0, 0, 0, Seq::empty())
                    == spec_walk_fields(
                    *db,
                    pieces,
                    i as int,
                    cur,
                    offt,
                    stored_offset,
                    stored_bf,
                    mask,
                    gderefs,
                ),
            decreases nf - i,
        {
            let ghost pre_cur = cur;
            let ghost pre_offt = offt;
            let ghost pre_so = stored_offset;
            let ghost pre_sbf = stored_bf;
            let ghost pre_mask = mask;
            let ghost pre_derefs = gderefs;
            let field = &fields[i];
            let ghost gm = spec_node_member(pieces[i as int]);
            let ghost gmask = spec_node_mask(pieces[i as int]);
            let ghost gcast = spec_node_cast(pieces[i as int]);
            proof {
                assert(spec_lhs_node_matches(fields@[i as int], pieces[i as int]));
                assert(fields@[i as int].member@ == gm);
                assert(fields@[i as int].mask == gmask);
                assert(match fields@[i as int].cast {
                    Some(c) => gcast == Some(c@),
                    None => gcast is None,
                });
            }
            let walk = walk_node(db, cur, field.member.as_str(), offt, db.len());
            let (offset, bfs, snode_id) = match walk {
                Some(x) => x,
                None => {
                    proof {
                        assert(spec_compile(*db, fstring@) matches Err(k) && k
                            == FilterErrorKind::FieldNotFound);
                    }
                    return Err(
                        FilterError::new(FilterErrorKind::FieldNotFound, field.member.as_str()),
                    );
                },
            };
            let ghost gsbf2: u32 = match bfs {
                Some(b) => b,
                None => pre_sbf,
            };
            if i < nf - 1 {
                let casted = field.cast.is_some();
                let (ind, x) = match next_walkable(db, snode_id, casted, field.member.as_str()) {
                    Ok(p) => p,
                    Err(e) => {
                        proof {
                            assert(spec_compile(*db, fstring@) matches Err(k) && e.kind == k);
                        }
                        return Err(e);
                    },
                };
                if ind == 1 {
                    offt = 0;
                    let l = match emit_load_ptr(offset, field.mask, field.member.as_str()) {
                        Ok(l) => l,
                        Err(e) => {
                            proof {
                                assert(spec_compile(*db, fstring@) matches Err(k) && e.kind == k);
                            }
                            return Err(e);
                        },
                    };
                    proof {
                        lemma_deref_kind();
                        gderefs = gderefs.push(l);
                    }
                    ops.push(MetaOp::Load(l));
                } else if ind > 1 {
                    proof {
                        assert(spec_compile(*db, fstring@) matches Err(k) && k
                            == FilterErrorKind::PointerOfPointer);
                    }
                    return Err(
                        FilterError::new(FilterErrorKind::PointerOfPointer, field.member.as_str()),
                    );
                } else {
                    if field.mask != 0 {
                        proof {
                            assert(spec_compile(*db, fstring@) matches Err(k) && k
                                == FilterErrorKind::UnsupportedMask);
                        }
                        return Err(
                            FilterError::new(FilterErrorKind::UnsupportedMask, field.member.as_str()),
                        );
                    }
                    offt = offset;
                }
                proof {
                    // the step so far: the walk at this node hands the
                    // cast handling the indirection result and the state
                    assert(spec_walk_fields(
                        *db,
                        pieces,
                        i as int,
                        pre_cur,
                        pre_offt,
                        pre_so,
                        pre_sbf,
                        pre_mask,
                        pre_derefs,
                    ) == spec_walk_cast(
                        *db,
                        pieces,
                        i as int,
                        gcast,
                        x,
                        offt,
                        offset,
                        gsbf2,
                        pre_mask,
                        gderefs,
                    ));
                }
                match &field.cast {
                    Some(tgt) => {
                        let tids = db.resolve_types_by_name(tgt.as_str());
                        let tid = match find_first_cast_target(db, &tids, tgt.as_str()) {
                            Some(t) => t,
                            None => {
                                proof {
                                    lemma_first_scan_none(*db, 1, tgt@, true);
                                    assert(spec_compile(*db, fstring@) matches Err(k) && k
                                        == FilterErrorKind::UnknownType);
                                }
                                return Err(
                                    FilterError::new(FilterErrorKind::UnknownType, tgt.as_str()),
                                );
                            },
                        };
                        proof {
                            lemma_first_scan_some(*db, 1, tgt@, true, tid);
                        }
                        let nw = match next_walkable(db, tid, false, tgt.as_str()) {
                            Ok(p) => p,
                            Err(_) => {
                                proof {
                                    assert(spec_compile(*db, fstring@) matches Err(k) && k
                                        == FilterErrorKind::UnsupportedCast);
                                }
                                return Err(
                                    FilterError::new(FilterErrorKind::UnsupportedCast, tgt.as_str()),
                                );
                            },
                        };
                        if nw.0 > 0 {
                            proof {
                                assert(spec_compile(*db, fstring@) matches Err(k) && k
                                    == FilterErrorKind::UnsupportedCast);
                            }
                            return Err(
                                FilterError::new(FilterErrorKind::UnsupportedCast, tgt.as_str()),
                            );
                        }
                        cur = nw.1;
                    },
                    None => {
                        cur = x;
                    },
                }
            } else {
                if field.cast.is_some() {
                    proof {
                        assert(spec_compile(*db, fstring@) matches Err(k) && k
                            == FilterErrorKind::UnsupportedCast);
                    }
                    return Err(
                        FilterError::new(FilterErrorKind::UnsupportedCast, field.member.as_str()),
                    );
                }
                cur = snode_id;
                mask = field.mask;
            }
            stored_offset = offset;
            if let Some(b) = bfs {
                stored_bf = b;
            }
            proof {
                // one spec step of the walk matches what this iteration
                // did to the state
                assert(spec_walk_node(*db, pre_cur, gm, pre_offt, db.spec_len()) == Some(
                    (offset, bfs, snode_id),
                ));
                assert(spec_walk_fields(
                    *db,
                    pieces,
                    i as int,
                    pre_cur,
                    pre_offt,
                    pre_so,
                    pre_sbf,
                    pre_mask,
                    pre_derefs,
                ) == spec_walk_fields(
                    *db,
                    pieces,
                    i as int + 1,
                    cur,
                    offt,
                    stored_offset,
                    stored_bf,
                    mask,
                    gderefs,
                ));
            }
            i += 1;
        }
        let lmo = match emit_load(db, cur, stored_offset, stored_bf, mask, fstring) {
            Ok(l) => l,
            Err(e) => {
                proof {
                    assert(spec_compile(*db, fstring@) matches Err(k) && e.kind == k);
                }
                return Err(e);
            },
        };
        let ghost derefs = ops@;
        ops.push(MetaOp::Load(lmo));
        if ops.len() >= META_OPS_MAX {
            proof {
                assert(spec_compile(*db, fstring@) matches Err(k) && k
                    == FilterErrorKind::ProgramTooLong);
            }
            return Err(FilterError::new(FilterErrorKind::ProgramTooLong, fstring));
        }
        let rv = Rval::from_str(rval_s.as_str());
        let ghost rv_snapshot = rv;
        let tgt = match emit_target(&lmo, rv, op, fstring) {
            Ok(t) => t,
            Err(e) => {
                proof {
                    assert(spec_rval_form(rv_snapshot) == spec_classify_rval(rval_s@));
                    assert(spec_compile(*db, fstring@) matches Err(k) && e.kind == k);
                }
                return Err(e);
            },
        };
        let ghost tgt_snapshot = tgt;
        ops.insert(0, MetaOp::Target(tgt));
        proof {
            let s = ops@;
            let prev = derefs.push(MetaOp::Load(lmo));
            assert(s == prev.insert(0, MetaOp::Target(tgt_snapshot)));
            assert(s.len() == prev.len() + 1);
            assert(s[0] == MetaOp::Target(tgt_snapshot));
            assert forall|j: int| 1 <= j < s.len() implies s[j] == prev[j - 1] by {}
            assert(s[s.len() - 1] == MetaOp::Load(lmo));
            assert(forall|j: int| 1 <= j < s.len() - 1 ==> spec_is_deref_load(#[trigger] s[j]));
            assert(spec_mask_ok(lmo));
            assert(spec_cmp_code(op) <= 5) by {
                match op {
                    MetaCmp::Eq => {},
                    MetaCmp::Gt => {},
                    MetaCmp::Lt => {},
                    MetaCmp::Ge => {},
                    MetaCmp::Le => {},
                    MetaCmp::Ne => {},
                }
            }
            if 1 <= tgt_snapshot.cmp <= 4 {
                assert(spec_cmp_is_ordering(op)) by {
                    match op {
                        MetaCmp::Eq => {},
                        MetaCmp::Gt => {},
                        MetaCmp::Lt => {},
                        MetaCmp::Ge => {},
                        MetaCmp::Le => {},
                        MetaCmp::Ne => {},
                    }
                }
            }
            assert(spec_valid_program(s));
            assert(spec_filter_op(fstring@) == op);
            assert(spec_walk_fields(*db, pieces, 1, root, 0, 0, 0, 0, Seq::empty()) == Ok::<
                (u32, u32, u32, u64, Seq<MetaLoad>),
                FilterErrorKind,
            >((cur, stored_offset, stored_bf, mask, gderefs)));
            assert(spec_rval_form(rv_snapshot) == spec_classify_rval(rval_s@));
            assert(spec_compile(*db, fstring@) == Ok::<
                (Seq<MetaLoad>, MetaLoad, (Seq<u8>, u8, u8)),
                FilterErrorKind,
            >((gderefs, lmo, (tgt_snapshot.md@, tgt_snapshot.sz, tgt_snapshot.cmp))));
            assert(spec_program_matches(*db, fstring@, s));
        }
        Ok(FilterMeta(ops))
    }

    /// Serializes the whole program for publication to the in-kernel
    /// table: each operation as one fixed-size record, in program order.
    pub fn to_bytes(&self) -> (r: Vec<u8>)
        requires
            spec_valid_program(self.0@),
        ensures
            r@.len() == self.0@.len() * crate::meta::META_OP_BYTES,
            forall|i: int|
                0 <= i < self.0@.len() ==> r@.subrange(40 * i, 40 * i + 40)
                    == crate::meta::spec_op_bytes(#[trigger] self.0@[i]),
    {
        let mut out: Vec<u8> = Vec::new();
        let n = self.0.len();
        let mut k: usize = 0;
        while k < n
            invariant
                spec_valid_program(self.0@),
                n == self.0@.len(),
                k <= n,
                out@.len() == k * crate::meta::META_OP_BYTES,
                forall|i: int|
                    0 <= i < k ==> out@.subrange(40 * i, 40 * i + 40) == crate::meta::spec_op_bytes(
                        #[trigger] self.0@[i],
                    ),
            decreases n - k,
        {
            let op = &self.0[k];
            proof {
                if k == 0 {
                    assert(self.0@[0] matches MetaOp::Target(t) && t.wf());
                } else {
                    assert(self.0@[k as int] is Load);
                }
            }
            let ghost prev = out@;
            let mut rec = op.to_bytes();
            out.append(&mut rec);
            proof {
                assert forall|i: int|
                    0 <= i < k + 1 implies out@.subrange(40 * i, 40 * i + 40)
                    == crate::meta::spec_op_bytes(#[trigger] self.0@[i]) by {
                    if i < k {
                        assert(out@.subrange(40 * i, 40 * i + 40) =~= prev.subrange(
                            40 * i,
                            40 * i + 40,
                        ));
                    } else {
                        assert(out@.subrange(40 * i, 40 * i + 40) =~= crate::meta::spec_op_bytes(
                            self.0@[i],
                        ));
                    }
                }
            }
            k += 1;
        }
        out
    }
}

/// The first identifier, scanning upwards from `id`, that carries the
/// name and, depending on `cast`, a root or cast-target kind.
pub open spec fn spec_first_of_kind(db: TypeDb, id: u32, name: Seq<char>, cast: bool) -> Option<
    u32,
>
    decreases db.spec_len() + 1 - id,
{
    if id < 1 || id > db.spec_len() {
        None
    } else if db.spec_named(id, name) && (if cast {
        spec_is_cast_kind(db, id)
    } else {
        spec_is_root_kind(db, id)
    }) {
        Some(id)
    } else if id == 0xffff_ffff {
        None
    } else {
        spec_first_of_kind(db, (id + 1) as u32, name, cast)
    }
}

/// A candidate characterized as the least named identifier of the wanted
/// kind is what the scan finds.
proof fn lemma_first_scan_some(db: TypeDb, i: u32, name: Seq<char>, cast: bool, m: u32)
    requires
        1 <= i <= m,
        db.spec_named(m, name),
        if cast {
            spec_is_cast_kind(db, m)
        } else {
            spec_is_root_kind(db, m)
        },
        forall|j: u32|
            j < m && db.spec_named(j, name) ==> !(if cast {
                spec_is_cast_kind(db, j)
            } else {
                spec_is_root_kind(db, j)
            }),
    ensures
        spec_first_of_kind(db, i, name, cast) == Some(m),
    decreases m - i,
{
    assert(1 <= m <= db.spec_len());
    if i < m {
        lemma_first_scan_some(db, (i + 1) as u32, name, cast, m);
    }
}

/// When no named identifier has the wanted kind, the scan finds nothing.
proof fn lemma_first_scan_none(db: TypeDb, i: u32, name: Seq<char>, cast: bool)
    requires
        i >= 1,
        forall|j: u32|
            db.spec_named(j, name) ==> !(if cast {
                spec_is_cast_kind(db, j)
            } else {
                spec_is_root_kind(db, j)
            }),
    ensures
        spec_first_of_kind(db, i, name, cast) is None,
    decreases db.spec_len() + 1 - i,
{
    if !(i < 1 || i > db.spec_len()) && i != 0xffff_ffff {
        lemma_first_scan_none(db, (i + 1) as u32, name, cast);
    }
}

/// The member name of one dotted node of a left-hand side.
pub open spec fn spec_node_member(piece: Seq<char>) -> Seq<char> {
    spec_split(piece, ':')[0]
}

/// The mask of one dotted node; zero when the node carries none. Only
/// meaningful for nodes that parse.
pub open spec fn spec_node_mask(piece: Seq<char>) -> u64 {
    let parts = spec_split(piece, ':');
    if parts.len() >= 2 {
        match spec_parse_mask(parts[1]) {
            Some(m) => m,
            None => 0,
        }
    } else {
        0
    }
}

/// The cast target of one dotted node, if it carries one.
pub open spec fn spec_node_cast(piece: Seq<char>) -> Option<Seq<char>> {
    let parts = spec_split(piece, ':');
    if parts.len() == 3 {
        Some(parts[2])
    } else {
        None
    }
}

/// The walk over the left-hand nodes from node `i` on, carrying the
/// current type, the running offset, the last member's offset and
/// bitfield width, the terminal mask, and the dereference loads emitted
/// so far; exactly the walk [`FilterMeta::from_string`] performs.
pub open spec fn spec_walk_fields(
    db: TypeDb,
    pieces: Seq<Seq<char>>,
    i: int,
    cur: u32,
    offt: u32,
    so: u32,
    sbf: u32,
    mask: u64,
    derefs: Seq<MetaLoad>,
) -> Result<(u32, u32, u32, u64, Seq<MetaLoad>), FilterErrorKind>
    decreases pieces.len() - i, 1int,
{
    if i < 0 || i >= pieces.len() {
        Ok((cur, so, sbf, mask, derefs))
    } else {
        let member = spec_node_member(pieces[i]);
        let fmask = spec_node_mask(pieces[i]);
        let cast = spec_node_cast(pieces[i]);
        match spec_walk_node(db, cur, member, offt, db.spec_len()) {
            None => Err(FilterErrorKind::FieldNotFound),
            Some(w) => {
                let sbf2 = match w.1 {
                    Some(b) => b,
                    None => sbf,
                };
                if i < pieces.len() - 1 {
                    match spec_next_walkable(db, w.2, cast is Some) {
                        None => Err(
                            if cast is Some {
                                FilterErrorKind::UnsupportedCast
                            } else {
                                FilterErrorKind::UnsupportedType
                            },
                        ),
                        Some(nw) => {
                            if nw.0 == 1 {
                                if w.0 / 8 > 65535 {
                                    Err(FilterErrorKind::UnsupportedType)
                                } else {
                                    let l = MetaLoad {
                                        kind: PTR_BIT,
                                        nmemb: 0,
                                        offt: (w.0 / 8) as u16,
                                        bf_size: 0,
                                        mask: fmask,
                                    };
                                    spec_walk_cast(
                                        db,
                                        pieces,
                                        i,
                                        cast,
                                        nw.1,
                                        0,
                                        w.0,
                                        sbf2,
                                        mask,
                                        derefs.push(l),
                                    )
                                }
                            } else if nw.0 > 1 {
                                Err(FilterErrorKind::PointerOfPointer)
                            } else if fmask != 0 {
                                Err(FilterErrorKind::UnsupportedMask)
                            } else {
                                spec_walk_cast(
                                    db,
                                    pieces,
                                    i,
                                    cast,
                                    nw.1,
                                    w.0,
                                    w.0,
                                    sbf2,
                                    mask,
                                    derefs,
                                )
                            }
                        },
                    }
                } else {
                    if cast is Some {
                        Err(FilterErrorKind::UnsupportedCast)
                    } else {
                        spec_walk_fields(db, pieces, i + 1, w.2, offt, w.0, sbf2, fmask, derefs)
                    }
                }
            },
        }
    }
}

/// The cast step between two nodes: no cast continues at the next
/// walkable type; a cast re-anchors the walk at the cast target, which
/// must resolve and must not alias through a pointer.
pub open spec fn spec_walk_cast(
    db: TypeDb,
    pieces: Seq<Seq<char>>,
    i: int,
    cast: Option<Seq<char>>,
    x: u32,
    offt2: u32,
    so2: u32,
    sbf2: u32,
    mask: u64,
    derefs: Seq<MetaLoad>,
) -> Result<(u32, u32, u32, u64, Seq<MetaLoad>), FilterErrorKind>
    decreases pieces.len() - i, 0int,
{
    if i < 0 || i >= pieces.len() {
        Ok((x, so2, sbf2, mask, derefs))
    } else {
        match cast {
            Some(tgt) => match spec_first_of_kind(db, 1, tgt, true) {
                None => Err(FilterErrorKind::UnknownType),
                Some(tid) => match spec_next_walkable(db, tid, false) {
                    None => Err(FilterErrorKind::UnsupportedCast),
                    Some(nw2) => if nw2.0 > 0 {
                        Err(FilterErrorKind::UnsupportedCast)
                    } else {
                        spec_walk_fields(db, pieces, i + 1, nw2.1, offt2, so2, sbf2, mask, derefs)
                    },
                },
            },
            None => spec_walk_fields(db, pieces, i + 1, x, offt2, so2, sbf2, mask, derefs),
        }
    }
}

/// What compiling a parsed filter yields: the dereference loads of the
/// walk, the terminal load, and the target record's content; or the
/// error. Meaningful for strings that parse ([`spec_parse_ok`]).
pub open spec fn spec_compile(db: TypeDb, f: Seq<char>) -> Result<
    (Seq<MetaLoad>, MetaLoad, (Seq<u8>, u8, u8)),
    FilterErrorKind,
> {
    let toks = spec_split(f, ' ');
    let pieces = spec_split(toks[0], '.');
    let rtok = if toks.len() == 3 {
        toks[2]
    } else {
        "0"@
    };
    match spec_first_of_kind(db, 1, spec_node_member(pieces[0]), false) {
        None => Err(FilterErrorKind::UnknownType),
        Some(root) => match spec_walk_fields(db, pieces, 1, root, 0, 0, 0, 0, Seq::empty()) {
            Err(k) => Err(k),
            Ok(st) => match spec_emit_load(db, st.0, st.1, st.2, st.3) {
                Err(k) => Err(k),
                Ok(lmo) => if st.4.len() + 2 > META_OPS_MAX {
                    Err(FilterErrorKind::ProgramTooLong)
                } else {
                    match spec_emit_target_form(lmo, spec_classify_rval(rtok), spec_filter_op(f)) {
                        Err(k) => Err(k),
                        Ok(t) => Ok((st.4, lmo, t)),
                    }
                },
            },
        },
    }
}

/// The operations `ops` are the program that compiling `f` against `db`
/// yields: the target record first, the dereference loads in walk order,
/// the terminal load last.
pub open spec fn spec_program_matches(db: TypeDb, f: Seq<char>, ops: Seq<MetaOp>) -> bool {
    match spec_compile(db, f) {
        Err(_) => false,
        Ok(d) => {
            &&& ops.len() == d.0.len() + 2
            &&& (ops[0] matches MetaOp::Target(t) && t.md@ == d.2.0 && t.sz == d.2.1 && t.cmp
                == d.2.2)
            &&& (forall|j: int| 0 <= j < d.0.len() ==> ops[j + 1] == MetaOp::Load(#[trigger] d.0[j]))
            &&& ops[ops.len() - 1] == MetaOp::Load(d.1)
        },
    }
}

/// Compilation is deterministic: for one type database snapshot and one
/// filter string, any two compiled programs are identical record for
/// record on the wire.
pub proof fn lemma_compilation_deterministic(
    db: TypeDb,
    f: Seq<char>,
    ops1: Seq<MetaOp>,
    ops2: Seq<MetaOp>,
)
    requires
        spec_program_matches(db, f, ops1),
        spec_program_matches(db, f, ops2),
    ensures
        ops1.len() == ops2.len(),
        forall|i: int|
            0 <= i < ops1.len() ==> crate::meta::spec_op_bytes(ops1[i]) == crate::meta::spec_op_bytes(
                ops2[i],
            ),
{
    let d = spec_compile(db, f)->Ok_0;
    assert forall|i: int|
        0 <= i < ops1.len() implies crate::meta::spec_op_bytes(ops1[i])
        == crate::meta::spec_op_bytes(ops2[i]) by {
        if i == 0 {
            let t1 = ops1[0]->Target_0;
            let t2 = ops2[0]->Target_0;
            assert(crate::meta::spec_target_bytes(t1) =~= crate::meta::spec_target_bytes(t2));
        } else if i < ops1.len() - 1 {
            assert(ops1[i] == MetaOp::Load(d.0[i - 1]));
            assert(ops2[i] == MetaOp::Load(d.0[i - 1]));
        }
    }
}

/// Every compiled program holds exactly one target record, at index zero,
/// and at least one load after it, and fits the operation table.
pub proof fn lemma_program_shape(ops: Seq<MetaOp>)
    requires
        spec_valid_program(ops),
    ensures
        2 <= ops.len() <= META_OPS_MAX,
        ops[0] is Target,
        forall|i: int| 1 <= i < ops.len() ==> ops[i] is Load,
{
}

/// No dangling dereference: every pure dereference load of a compiled
/// program is followed by a further load that consumes the loaded
/// pointer. (The final load can itself carry the pointer flag, for a
/// pointer to characters; there the string comparison is the consumer.)
pub proof fn lemma_no_dangling_deref(ops: Seq<MetaOp>, i: int)
    requires
        spec_valid_program(ops),
        1 <= i < ops.len(),
        spec_is_deref_load(ops[i]),
    ensures
        exists|j: int| i < j < ops.len() && ops[j] is Load,
{
    lemma_deref_kind();
    assert(!spec_is_deref_load(ops[ops.len() - 1]));
    assert(i < ops.len() - 1);
    assert(ops[ops.len() - 1] is Load);
}

/// An ordering comparison is never emitted against a pointer or array
/// load: whenever the target record orders, the final load is a plain
/// scalar.
pub proof fn lemma_ordering_needs_numeric(ops: Seq<MetaOp>)
    requires
        spec_valid_program(ops),
        (ops[0] matches MetaOp::Target(t) && 1 <= t.cmp <= 4),
    ensures
        (ops[ops.len() - 1] matches MetaOp::Load(l) && !l.spec_is_ptr() && l.nmemb == 0),
{
}

/// A nonzero mask only ever sits on a pointer load or an unsigned numeric
/// load.
pub proof fn lemma_mask_discipline(ops: Seq<MetaOp>, i: int)
    requires
        spec_valid_program(ops),
        1 <= i < ops.len(),
    ensures
        (ops[i] matches MetaOp::Load(l) && spec_mask_ok(l)),
{
}

/// String round trip: the meaningful bytes of a string target are exactly
/// the bytes of the quoted right-hand value.
pub proof fn lemma_string_target_round_trip(
    lmo: MetaLoad,
    s: String,
    cmp: MetaCmp,
    md: Seq<u8>,
    sz: u8,
    c: u8,
)
    requires
        spec_emit_target(lmo, Rval::Str(s), cmp) == Ok::<(Seq<u8>, u8, u8), FilterErrorKind>(
            (md, sz, c),
        ),
        lmo.spec_is_ptr() || lmo.nmemb > 0,
    ensures
        sz < META_TARGET_MAX,
        md.subrange(0, sz as int) == vstd::utf8::encode_utf8(s@),
{
    let b = vstd::utf8::encode_utf8(s@);
    assert(md.subrange(0, sz as int) =~= b);
}

} // verus!
