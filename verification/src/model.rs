//! The mathematical model of a decoded type graph: what every contract of
//! this crate speaks about.

use vstd::prelude::*;
use crate::error::BtfError;
use crate::kind::BtfKind;
use crate::types::BtfDatasecVar;
use crate::types::BtfFwdKind;
use crate::types::BtfIntEncoding;
use crate::types::BtfVarLinkage;
use crate::types::TypeId;

verus! {

/// A member of a struct or union.
pub struct Member {
    pub name: Seq<char>,
    pub type_id: TypeId,
    /// Offset from the start of the aggregate, in bits.
    pub bit_offset: u32,
    /// Width in bits if the member is a bitfield, else 0.
    pub bit_size: u8,
}

/// An enumerator of a 32-bit enum.
pub struct EnumValue {
    pub name: Seq<char>,
    pub value: i32,
}

/// An enumerator of a 64-bit enum.
pub struct Enum64Value {
    pub name: Seq<char>,
    pub value: u64,
}

/// A parameter of a function prototype.
pub struct Param {
    pub name: Seq<char>,
    pub type_id: TypeId,
}

/// Name, declared size and members of a struct or union.
pub struct Composite {
    pub name: Seq<char>,
    pub size: u32,
    pub members: Seq<Member>,
}

/// One node of the type graph.
#[allow(inconsistent_fields)]
pub enum Node {
    Void,
    Int { name: Seq<char>, bits: u8, offset: u8, encoding: BtfIntEncoding },
    Ptr { pointee_type: TypeId },
    Array { nelems: u32, index_type_id: TypeId, val_type_id: TypeId },
    Struct(Composite),
    Union(Composite),
    Enum { name: Seq<char>, size: u32, values: Seq<EnumValue> },
    Fwd { name: Seq<char>, kind: BtfFwdKind },
    Typedef { name: Seq<char>, type_id: TypeId },
    Volatile { type_id: TypeId },
    Const { type_id: TypeId },
    Restrict { type_id: TypeId },
    Func { name: Seq<char>, type_id: TypeId },
    FuncProto { ret_type_id: TypeId, params: Seq<Param> },
    Var { name: Seq<char>, type_id: TypeId, linkage: BtfVarLinkage },
    Datasec { name: Seq<char>, size: u32, vars: Seq<BtfDatasecVar> },
    Float { name: Seq<char>, size: u32 },
    DeclTag { name: Seq<char>, type_id: TypeId, component_idx: i32 },
    TypeTag { name: Seq<char>, type_id: TypeId },
    Enum64 { name: Seq<char>, size: u32, signed: bool, values: Seq<Enum64Value> },
}

impl Node {
    /// The kind of this node.
    pub open spec fn kind(self) -> BtfKind {
        match self {
            Node::Void => BtfKind::Void,
            Node::Int { .. } => BtfKind::Int,
            Node::Ptr { .. } => BtfKind::Ptr,
            Node::Array { .. } => BtfKind::Array,
            Node::Struct(_) => BtfKind::Struct,
            Node::Union(_) => BtfKind::Union,
            Node::Enum { .. } => BtfKind::Enum,
            Node::Fwd { .. } => BtfKind::Fwd,
            Node::Typedef { .. } => BtfKind::Typedef,
            Node::Volatile { .. } => BtfKind::Volatile,
            Node::Const { .. } => BtfKind::Const,
            Node::Restrict { .. } => BtfKind::Restrict,
            Node::Func { .. } => BtfKind::Func,
            Node::FuncProto { .. } => BtfKind::FuncProto,
            Node::Var { .. } => BtfKind::Var,
            Node::Datasec { .. } => BtfKind::DataSec,
            Node::Float { .. } => BtfKind::Float,
            Node::DeclTag { .. } => BtfKind::DeclTag,
            Node::TypeTag { .. } => BtfKind::TypeTag,
            Node::Enum64 { .. } => BtfKind::Enum64,
        }
    }

    /// The node's own name; empty for the kinds that carry none.
    pub open spec fn name(self) -> Seq<char> {
        match self {
            Node::Int { name, .. } => name,
            Node::Struct(c) => c.name,
            Node::Union(c) => c.name,
            Node::Enum { name, .. } => name,
            Node::Fwd { name, .. } => name,
            Node::Typedef { name, .. } => name,
            Node::Func { name, .. } => name,
            Node::Var { name, .. } => name,
            Node::Datasec { name, .. } => name,
            Node::Float { name, .. } => name,
            Node::DeclTag { name, .. } => name,
            Node::TypeTag { name, .. } => name,
            Node::Enum64 { name, .. } => name,
            _ => Seq::empty(),
        }
    }

    /// Volatile, Const, Restrict and TypeTag wrap another type without
    /// changing its representation.
    pub open spec fn is_mod(self) -> bool {
        self is Volatile || self is Const || self is Restrict || self is TypeTag
    }

    /// Whether this is an enum of either width.
    pub open spec fn is_any_enum(self) -> bool {
        self is Enum || self is Enum64
    }

    /// Whether this is a struct or a union.
    pub open spec fn is_composite(self) -> bool {
        self is Struct || self is Union
    }

    /// Whether both nodes are of one kind, or both are enums.
    pub open spec fn is_core_compat(self, other: Node) -> bool {
        self.kind() == other.kind() || (self.is_any_enum() && other.is_any_enum())
    }

    /// The type that a modifier or typedef stands for.
    pub open spec fn wrapped(self) -> Option<TypeId> {
        match self {
            Node::Volatile { type_id } => Some(type_id),
            Node::Const { type_id } => Some(type_id),
            Node::Restrict { type_id } => Some(type_id),
            Node::Typedef { type_id, .. } => Some(type_id),
            Node::TypeTag { type_id, .. } => Some(type_id),
            _ => None,
        }
    }

    /// The single type that this node refers to through its type field, for
    /// the kinds whose record stores one there.
    pub open spec fn referenced(self) -> Option<TypeId> {
        match self {
            Node::Ptr { pointee_type } => Some(pointee_type),
            Node::Typedef { type_id, .. } => Some(type_id),
            Node::Volatile { type_id } => Some(type_id),
            Node::Const { type_id } => Some(type_id),
            Node::Restrict { type_id } => Some(type_id),
            Node::Func { type_id, .. } => Some(type_id),
            Node::FuncProto { ret_type_id, .. } => Some(ret_type_id),
            Node::Var { type_id, .. } => Some(type_id),
            Node::DeclTag { type_id, .. } => Some(type_id),
            Node::TypeTag { type_id, .. } => Some(type_id),
            _ => None,
        }
    }

    /// Whether every type id stored in this node is below `count`.
    pub open spec fn refs_below(self, count: nat) -> bool {
        match self {
            Node::Array { index_type_id, val_type_id, .. } => {
                index_type_id.0 < count && val_type_id.0 < count
            },
            Node::Struct(c) => members_below(c.members, count),
            Node::Union(c) => members_below(c.members, count),
            Node::FuncProto { ret_type_id, params } => {
                ret_type_id.0 < count && params_below(params, count)
            },
            Node::Datasec { vars, .. } => slots_below(vars, count),
            _ => match self.referenced() {
                Some(id) => id.0 < count,
                None => true,
            },
        }
    }
}

/// Whether the type of every member is below `count`.
pub open spec fn members_below(members: Seq<Member>, count: nat) -> bool {
    forall|i: int| 0 <= i < members.len() ==> (#[trigger] members[i]).type_id.0 < count
}

/// Whether the type of every parameter is below `count`.
pub open spec fn params_below(params: Seq<Param>, count: nat) -> bool {
    forall|i: int| 0 <= i < params.len() ==> (#[trigger] params[i]).type_id.0 < count
}

/// Whether the type of every slot is below `count`.
pub open spec fn slots_below(vars: Seq<BtfDatasecVar>, count: nat) -> bool {
    forall|i: int| 0 <= i < vars.len() ==> (#[trigger] vars[i]).type_id.0 < count
}

/// A decoded type graph: the table of nodes, addressed by type id, and the
/// pointer size of the target.
pub struct Graph {
    pub types: Seq<Node>,
    pub ptr_size: u32,
}

impl Graph {
    /// The node with the given id.
    pub open spec fn lookup(self, id: TypeId) -> Result<Node, BtfError> {
        if id.0 < self.types.len() {
            Ok(self.types[id.0 as int])
        } else {
            Err(BtfError::NotFound)
        }
    }

    /// Id 0 is Void, the pointer size is known, every type has an id, and
    /// every type id stored in a node names a node of the table.
    pub open spec fn wf(self) -> bool {
        &&& 1 <= self.types.len() <= u32::MAX
        &&& self.types[0] is Void
        &&& self.ptr_size != 0
        &&& forall|i: int|
            0 <= i < self.types.len() ==> (#[trigger] self.types[i]).refs_below(self.types.len())
    }
}

} // verus!
