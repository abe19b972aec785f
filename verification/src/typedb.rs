//! Model of the running kernel's self-described type information, as the
//! filter compiler consumes it: records and unions with members at bit
//! offsets, sized integers, pointers, arrays, enums, and the transparent
//! kinds (typedef, const, volatile, restrict, tags) that chain to another
//! type.
//!
//! Types are held in a table and referred to by identifier. Identifier 0
//! stands for `void` and has no entry; an identifier beyond the table also
//! resolves to nothing, exactly like a dangling reference in the kernel's
//! type section.

use vstd::prelude::*;

verus! {

/// One member of a record or union. An empty name marks an anonymous
/// inner record whose members are addressed through the parent.
#[derive(Clone, Debug)]
pub struct Member {
    pub name: String,
    /// Offset of the member from the start of the record, in bits.
    pub bit_offset: u32,
    /// Bitfield width in bits. `Some(0)` marks a plain member of a record
    /// that carries bitfield information; `None` one of a record that
    /// carries none.
    pub bitfield_size: Option<u32>,
    /// The member's type.
    pub type_id: u32,
}

/// One node of the type graph.
#[derive(Clone, Debug)]
pub enum TypeNode {
    Int { name: String, size: u32, signed: bool },
    Ptr { to: u32 },
    Array { elem: u32, nelems: u32 },
    Struct { name: String, members: Vec<Member> },
    Union { name: String, members: Vec<Member> },
    Enum { name: String, signed: bool },
    Enum64 { name: String, signed: bool },
    Typedef { name: String, to: u32 },
    Const { to: u32 },
    Volatile { to: u32 },
    Restrict { to: u32 },
    DeclTag { to: u32 },
    TypeTag { to: u32 },
}

impl TypeNode {
    /// The name under which the node can be resolved, if it has one.
    pub open spec fn spec_name(self) -> Option<Seq<char>> {
        match self {
            TypeNode::Int { name, .. } => Some(name@),
            TypeNode::Struct { name, .. } => Some(name@),
            TypeNode::Union { name, .. } => Some(name@),
            TypeNode::Enum { name, .. } => Some(name@),
            TypeNode::Enum64 { name, .. } => Some(name@),
            TypeNode::Typedef { name, .. } => Some(name@),
            _ => None,
        }
    }

    /// The type the node refers to, for the kinds that chain to another
    /// type; scalar and record kinds end the chain.
    pub open spec fn spec_chain_next(self) -> Option<u32> {
        match self {
            TypeNode::Ptr { to } => Some(to),
            TypeNode::Array { elem, .. } => Some(elem),
            TypeNode::Typedef { to, .. } => Some(to),
            TypeNode::Const { to } => Some(to),
            TypeNode::Volatile { to } => Some(to),
            TypeNode::Restrict { to } => Some(to),
            TypeNode::DeclTag { to } => Some(to),
            TypeNode::TypeTag { to } => Some(to),
            _ => None,
        }
    }

    /// The node's resolvable name, exactly as [`TypeNode::spec_name`]
    /// gives it.
    pub fn name_of(&self) -> (r: Option<&String>)
        ensures
            match r {
                Some(s) => self.spec_name() == Some(s@),
                None => self.spec_name() is None,
            },
    {
        match self {
            TypeNode::Int { name, .. } => Some(name),
            TypeNode::Struct { name, .. } => Some(name),
            TypeNode::Union { name, .. } => Some(name),
            TypeNode::Enum { name, .. } => Some(name),
            TypeNode::Enum64 { name, .. } => Some(name),
            TypeNode::Typedef { name, .. } => Some(name),
            _ => None,
        }
    }

    /// Exact executable form of [`TypeNode::spec_chain_next`].
    pub fn chain_next(&self) -> (r: Option<u32>)
        ensures
            r == self.spec_chain_next(),
    {
        match self {
            TypeNode::Ptr { to } => Some(*to),
            TypeNode::Array { elem, .. } => Some(*elem),
            TypeNode::Typedef { to, .. } => Some(*to),
            TypeNode::Const { to } => Some(*to),
            TypeNode::Volatile { to } => Some(*to),
            TypeNode::Restrict { to } => Some(*to),
            TypeNode::DeclTag { to } => Some(*to),
            TypeNode::TypeTag { to } => Some(*to),
            _ => None,
        }
    }
}

/// A read-only snapshot of the kernel's type database.
#[derive(Clone, Debug)]
pub struct TypeDb {
    pub types: Vec<TypeNode>,
}

impl TypeDb {
    /// The node a type identifier resolves to; `None` for `void` (0) and
    /// for identifiers beyond the table.
    pub open spec fn spec_node(self, id: u32) -> Option<TypeNode> {
        if 1 <= id && id <= self.types@.len() {
            Some(self.types@[id - 1])
        } else {
            None
        }
    }

    /// Identifier `id` resolves to a node named `name`.
    pub open spec fn spec_named(self, id: u32, name: Seq<char>) -> bool {
        match self.spec_node(id) {
            Some(n) => n.spec_name() == Some(name),
            None => false,
        }
    }

    /// Number of types in the table; valid identifiers are `1..=len`.
    pub open spec fn spec_len(self) -> nat {
        self.types@.len()
    }

    pub fn new() -> (db: TypeDb)
        ensures
            db.spec_len() == 0,
    {
        TypeDb { types: Vec::new() }
    }

    /// Number of types in the table.
    pub fn len(&self) -> (n: usize)
        ensures
            n == self.spec_len(),
    {
        self.types.len()
    }

    /// Adds a node to the table and returns its identifier. Fails only
    /// when the table cannot grow further.
    pub fn add(&mut self, node: TypeNode) -> (r: Option<u32>)
        ensures
            match r {
                Some(id) => {
                    &&& id == old(self).spec_len() + 1
                    &&& final(self).spec_len() == old(self).spec_len() + 1
                    &&& final(self).spec_node(id) == Some(node)
                    &&& forall|j: u32| j != id ==> final(self).spec_node(j) == old(
                        self,
                    ).spec_node(j)
                },
                None => *final(self) == *old(self),
            },
    {
        if self.types.len() >= 0xffff_fffe {
            return None;
        }
        self.types.push(node);
        Some(self.types.len() as u32)
    }

    /// Resolves a type identifier to its node.
    pub fn node(&self, id: u32) -> (r: Option<&TypeNode>)
        ensures
            match r {
                Some(n) => self.spec_node(id) == Some(*n),
                None => self.spec_node(id) is None,
            },
    {
        if id >= 1 && (id as usize) <= self.types.len() {
            Some(&self.types[id as usize - 1])
        } else {
            None
        }
    }

    /// All identifiers that resolve to a node with the given name, in
    /// increasing order: exactly the candidates the kernel type database
    /// offers for a name.
    pub fn resolve_types_by_name(&self, name: &str) -> (r: Vec<u32>)
        ensures
            forall|k: int| 0 <= k < r@.len() ==> self.spec_named(#[trigger] r@[k], name@),
            forall|k1: int, k2: int| 0 <= k1 < k2 < r@.len() ==> r@[k1] < r@[k2],
            forall|id: u32|
                1 <= id <= self.spec_len() && self.spec_named(id, name@) ==> r@.contains(id),
    {
        let mut out: Vec<u32> = Vec::new();
        let n = self.types.len();
        // Identifiers are 32-bit; entries beyond the last referable one
        // cannot be named.
        let n = if n > 0xffff_ffff { 0xffff_ffff } else { n };
        let mut i: usize = 0;
        while i < n
            invariant
                n <= self.spec_len(),
                n <= 0xffff_ffff,
                self.spec_len() > 0xffff_ffff ==> n == 0xffff_ffff,
                self.spec_len() <= 0xffff_ffff ==> n == self.spec_len(),
                i <= n,
                forall|k: int| 0 <= k < out@.len() ==> self.spec_named(#[trigger] out@[k], name@),
                forall|k1: int, k2: int| 0 <= k1 < k2 < out@.len() ==> out@[k1] < out@[k2],
                forall|k: int| 0 <= k < out@.len() ==> out@[k] <= i,
                forall|id: u32| 1 <= id <= i && self.spec_named(id, name@) ==> out@.contains(id),
            decreases n - i,
        {
            let node_name: Option<&String> = self.types[i].name_of();
            let mut pushed = false;
            if let Some(nn) = node_name {
                if crate::scan::str_eq(nn.as_str(), name) {
                    pushed = true;
                    let ghost prev = out@;
                    out.push((i + 1) as u32);
                    proof {
                        broadcast use vstd::seq_lib::lemma_seq_contains_after_push;

                        assert(out@ == prev.push((i + 1) as u32));
                        assert(self.spec_named((i + 1) as u32, name@));
                    }
                }
            }
            proof {
                if !pushed {
                    assert(!self.spec_named((i + 1) as u32, name@));
                }
            }
            i += 1;
        }
        out
    }
}

} // verus!
