//! The executable representation of decoded types.

use vstd::prelude::*;
use crate::error::BtfError;
use crate::kind::BtfKind;
use crate::model::Composite;
use crate::model::Enum64Value;
use crate::model::EnumValue;
use crate::model::Member;
use crate::model::Node;
use crate::model::Param;

verus! {

/// The id of a type: its index in the table of decoded types. Id 0 is Void.
#[derive(Debug, Clone, Copy, PartialEq, Eq, Structural, PartialOrd, Ord, Hash)]
pub struct TypeId(pub u32);

impl From<u32> for TypeId {
    fn from(s: u32) -> (r: TypeId) {
        TypeId(s)
    }
}

impl vstd::std_specs::convert::FromSpecImpl<u32> for TypeId {
    open spec fn obeys_from_spec() -> bool {
        true
    }

    open spec fn from_spec(s: u32) -> TypeId {
        TypeId(s)
    }
}

impl From<TypeId> for u32 {
    fn from(t: TypeId) -> (r: u32) {
        t.0
    }
}

impl vstd::std_specs::convert::FromSpecImpl<TypeId> for u32 {
    open spec fn obeys_from_spec() -> bool {
        true
    }

    open spec fn from_spec(t: TypeId) -> u32 {
        t.0
    }
}

/// How the bits of an integer type are to be read.
#[derive(Debug, Clone, Copy, PartialEq, Eq, Structural)]
pub enum BtfIntEncoding {
    /// No encoding bit is set: an unsigned integer.
    Plain,
    Signed,
    Char,
    Bool,
}

impl BtfIntEncoding {
    /// The encoding that the encoding bits of an integer record stand for:
    /// none set, or the one for signed, char or bool.
    pub open spec fn of_bits(bits: u8) -> Option<BtfIntEncoding> {
        if bits == 0 {
            Some(BtfIntEncoding::Plain)
        } else if bits == 1 {
            Some(BtfIntEncoding::Signed)
        } else if bits == 2 {
            Some(BtfIntEncoding::Char)
        } else if bits == 4 {
            Some(BtfIntEncoding::Bool)
        } else {
            None
        }
    }

    /// Decodes the encoding bits of an integer record; exactly one bit, or
    /// none, may be set.
    pub fn try_from_primitive(bits: u8) -> (r: Result<BtfIntEncoding, BtfError>)
        ensures
            r == match BtfIntEncoding::of_bits(bits) {
                Some(e) => Ok::<BtfIntEncoding, BtfError>(e),
                None => Err(BtfError::FormatError),
            },
    {
        match bits {
            0 => Ok(BtfIntEncoding::Plain),
            1 => Ok(BtfIntEncoding::Signed),
            2 => Ok(BtfIntEncoding::Char),
            4 => Ok(BtfIntEncoding::Bool),
            _ => Err(BtfError::FormatError),
        }
    }
}

/// Whether a forward declaration announces a struct or a union.
#[derive(Debug, Clone, Copy, PartialEq, Eq, Structural)]
pub enum BtfFwdKind {
    Struct,
    Union,
}

/// The linkage of a variable.
#[derive(Debug, Clone, Copy, PartialEq, Eq, Structural)]
pub enum BtfVarLinkage {
    Static,
    GlobalAlloc,
    GlobalExtern,
}

impl BtfVarLinkage {
    /// The linkage that a number stands for.
    pub open spec fn of_number(number: u32) -> Option<BtfVarLinkage> {
        if number == 0 {
            Some(BtfVarLinkage::Static)
        } else if number == 1 {
            Some(BtfVarLinkage::GlobalAlloc)
        } else if number == 2 {
            Some(BtfVarLinkage::GlobalExtern)
        } else {
            None
        }
    }

    /// Decodes the linkage word of a variable record.
    pub fn try_from_primitive(number: u32) -> (r: Result<BtfVarLinkage, BtfError>)
        ensures
            r == match BtfVarLinkage::of_number(number) {
                Some(l) => Ok::<BtfVarLinkage, BtfError>(l),
                None => Err(BtfError::FormatError),
            },
    {
        match number {
            0 => Ok(BtfVarLinkage::Static),
            1 => Ok(BtfVarLinkage::GlobalAlloc),
            2 => Ok(BtfVarLinkage::GlobalExtern),
            _ => Err(BtfError::FormatError),
        }
    }
}

/// An integer type.
#[derive(Debug, Clone, PartialEq, Eq)]
pub struct BtfInt {
    pub name: String,
    pub bits: u8,
    pub offset: u8,
    pub encoding: BtfIntEncoding,
}

/// A pointer.
#[derive(Debug, Clone, Copy, PartialEq, Eq)]
pub struct BtfPtr {
    pub pointee_type: TypeId,
}

/// An array of `nelems` elements.
#[derive(Debug, Clone, Copy, PartialEq, Eq)]
pub struct BtfArray {
    pub nelems: u32,
    pub index_type_id: TypeId,
    pub val_type_id: TypeId,
}

/// A member of a struct or union. `bit_size` is 0 unless the member is a
/// bitfield.
#[derive(Debug, Clone, PartialEq, Eq)]
pub struct BtfMember {
    pub name: String,
    pub type_id: TypeId,
    pub bit_offset: u32,
    pub bit_size: u8,
}

/// A struct or a union: which of the two, the variant of `BtfType` says.
#[derive(Debug, Clone, PartialEq, Eq)]
pub struct BtfComposite {
    pub name: String,
    pub size: u32,
    pub members: Vec<BtfMember>,
}

/// An enumerator of a 32-bit enum.
#[derive(Debug, Clone, PartialEq, Eq)]
pub struct BtfEnumValue {
    pub name: String,
    pub value: i32,
}

/// An enum whose values fit 32 bits.
#[derive(Debug, Clone, PartialEq, Eq)]
pub struct BtfEnum {
    pub name: String,
    pub size: u32,
    pub values: Vec<BtfEnumValue>,
}

/// An enumerator of a 64-bit enum.
#[derive(Debug, Clone, PartialEq, Eq)]
pub struct BtfEnum64Value {
    pub name: String,
    pub value: u64,
}

/// An enum whose values take 64 bits.
#[derive(Debug, Clone, PartialEq, Eq)]
pub struct BtfEnum64 {
    pub name: String,
    pub size: u32,
    pub signed: bool,
    pub values: Vec<BtfEnum64Value>,
}

/// A forward declaration.
#[derive(Debug, Clone, PartialEq, Eq)]
pub struct BtfFwd {
    pub name: String,
    pub kind: BtfFwdKind,
}

/// A typedef.
#[derive(Debug, Clone, PartialEq, Eq)]
pub struct BtfTypedef {
    pub name: String,
    pub type_id: TypeId,
}

/// The `volatile` qualifier.
#[derive(Debug, Clone, Copy, PartialEq, Eq)]
pub struct BtfVolatile {
    pub type_id: TypeId,
}

/// The `const` qualifier.
#[derive(Debug, Clone, Copy, PartialEq, Eq)]
pub struct BtfConst {
    pub type_id: TypeId,
}

/// The `restrict` qualifier.
#[derive(Debug, Clone, Copy, PartialEq, Eq)]
pub struct BtfRestrict {
    pub type_id: TypeId,
}

/// A function; `type_id` is its prototype.
#[derive(Debug, Clone, PartialEq, Eq)]
pub struct BtfFunc {
    pub name: String,
    pub type_id: TypeId,
}

/// A parameter of a function prototype.
#[derive(Debug, Clone, PartialEq, Eq)]
pub struct BtfFuncParam {
    pub name: String,
    pub type_id: TypeId,
}

/// A function prototype.
#[derive(Debug, Clone, PartialEq, Eq)]
pub struct BtfFuncProto {
    pub ret_type_id: TypeId,
    pub params: Vec<BtfFuncParam>,
}

/// A global variable.
#[derive(Debug, Clone, PartialEq, Eq)]
pub struct BtfVar {
    pub name: String,
    pub type_id: TypeId,
    pub linkage: BtfVarLinkage,
}

/// One variable slot of a data section.
#[derive(Debug, Clone, Copy, PartialEq, Eq, Structural)]
pub struct BtfDatasecVar {
    pub type_id: TypeId,
    pub offset: u32,
    pub size: u32,
}

/// A data section: the variables it holds and where.
#[derive(Debug, Clone, PartialEq, Eq)]
pub struct BtfDatasec {
    pub name: String,
    pub size: u32,
    pub vars: Vec<BtfDatasecVar>,
}

/// A floating-point type of `size` bytes.
#[derive(Debug, Clone, PartialEq, Eq)]
pub struct BtfFloat {
    pub name: String,
    pub size: u32,
}

/// A tag on a declaration, or on its member or parameter number
/// `component_idx`; -1 tags the declaration itself.
#[derive(Debug, Clone, PartialEq, Eq)]
pub struct BtfDeclTag {
    pub name: String,
    pub type_id: TypeId,
    pub component_idx: i32,
}

/// A tag on a type.
#[derive(Debug, Clone, PartialEq, Eq)]
pub struct BtfTypeTag {
    pub name: String,
    pub type_id: TypeId,
}

/// A decoded type, one variant per kind.
#[derive(Debug, Clone, PartialEq, Eq)]
pub enum BtfType {
    Void,
    Int(BtfInt),
    Ptr(BtfPtr),
    Array(BtfArray),
    Struct(BtfComposite),
    Union(BtfComposite),
    Enum(BtfEnum),
    Fwd(BtfFwd),
    Typedef(BtfTypedef),
    Volatile(BtfVolatile),
    Const(BtfConst),
    Restrict(BtfRestrict),
    Func(BtfFunc),
    FuncProto(BtfFuncProto),
    Var(BtfVar),
    Datasec(BtfDatasec),
    Float(BtfFloat),
    DeclTag(BtfDeclTag),
    TypeTag(BtfTypeTag),
    Enum64(BtfEnum64),
}

impl View for BtfMember {
    type V = Member;

    open spec fn view(&self) -> Member {
        Member {
            name: self.name@,
            type_id: self.type_id,
            bit_offset: self.bit_offset,
            bit_size: self.bit_size,
        }
    }
}

impl View for BtfEnumValue {
    type V = EnumValue;

    open spec fn view(&self) -> EnumValue {
        EnumValue { name: self.name@, value: self.value }
    }
}

impl View for BtfEnum64Value {
    type V = Enum64Value;

    open spec fn view(&self) -> Enum64Value {
        Enum64Value { name: self.name@, value: self.value }
    }
}

impl View for BtfFuncParam {
    type V = Param;

    open spec fn view(&self) -> Param {
        Param { name: self.name@, type_id: self.type_id }
    }
}

impl View for BtfComposite {
    type V = Composite;

    open spec fn view(&self) -> Composite {
        Composite {
            name: self.name@,
            size: self.size,
            members: self.members@.map_values(|m: BtfMember| m@),
        }
    }
}

impl View for BtfType {
    type V = Node;

    open spec fn view(&self) -> Node {
        match *self {
            BtfType::Void => Node::Void,
            BtfType::Int(t) => Node::Int {
                name: t.name@,
                bits: t.bits,
                offset: t.offset,
                encoding: t.encoding,
            },
            BtfType::Ptr(t) => Node::Ptr { pointee_type: t.pointee_type },
            BtfType::Array(t) => Node::Array {
                nelems: t.nelems,
                index_type_id: t.index_type_id,
                val_type_id: t.val_type_id,
            },
            BtfType::Struct(t) => Node::Struct(t@),
            BtfType::Union(t) => Node::Union(t@),
            BtfType::Enum(t) => Node::Enum {
                name: t.name@,
                size: t.size,
                values: t.values@.map_values(|v: BtfEnumValue| v@),
            },
            BtfType::Fwd(t) => Node::Fwd { name: t.name@, kind: t.kind },
            BtfType::Typedef(t) => Node::Typedef { name: t.name@, type_id: t.type_id },
            BtfType::Volatile(t) => Node::Volatile { type_id: t.type_id },
            BtfType::Const(t) => Node::Const { type_id: t.type_id },
            BtfType::Restrict(t) => Node::Restrict { type_id: t.type_id },
            BtfType::Func(t) => Node::Func { name: t.name@, type_id: t.type_id },
            BtfType::FuncProto(t) => Node::FuncProto {
                ret_type_id: t.ret_type_id,
                params: t.params@.map_values(|p: BtfFuncParam| p@),
            },
            BtfType::Var(t) => Node::Var { name: t.name@, type_id: t.type_id, linkage: t.linkage },
            BtfType::Datasec(t) => Node::Datasec { name: t.name@, size: t.size, vars: t.vars@ },
            BtfType::Float(t) => Node::Float { name: t.name@, size: t.size },
            BtfType::DeclTag(t) => Node::DeclTag {
                name: t.name@,
                type_id: t.type_id,
                component_idx: t.component_idx,
            },
            BtfType::TypeTag(t) => Node::TypeTag { name: t.name@, type_id: t.type_id },
            BtfType::Enum64(t) => Node::Enum64 {
                name: t.name@,
                size: t.size,
                signed: t.signed,
                values: t.values@.map_values(|v: BtfEnum64Value| v@),
            },
        }
    }
}

impl BtfType {
    /// This type's kind.
    pub fn kind(&self) -> (r: BtfKind)
        ensures
            r == self@.kind(),
    {
        match self {
            BtfType::Void => BtfKind::Void,
            BtfType::Int(_) => BtfKind::Int,
            BtfType::Ptr(_) => BtfKind::Ptr,
            BtfType::Array(_) => BtfKind::Array,
            BtfType::Struct(_) => BtfKind::Struct,
            BtfType::Union(_) => BtfKind::Union,
            BtfType::Enum(_) => BtfKind::Enum,
            BtfType::Fwd(_) => BtfKind::Fwd,
            BtfType::Typedef(_) => BtfKind::Typedef,
            BtfType::Volatile(_) => BtfKind::Volatile,
            BtfType::Const(_) => BtfKind::Const,
            BtfType::Restrict(_) => BtfKind::Restrict,
            BtfType::Func(_) => BtfKind::Func,
            BtfType::FuncProto(_) => BtfKind::FuncProto,
            BtfType::Var(_) => BtfKind::Var,
            BtfType::Datasec(_) => BtfKind::DataSec,
            BtfType::Float(_) => BtfKind::Float,
            BtfType::DeclTag(_) => BtfKind::DeclTag,
            BtfType::TypeTag(_) => BtfKind::TypeTag,
            BtfType::Enum64(_) => BtfKind::Enum64,
        }
    }

    /// This type's own name, for the kinds that have one.
    pub(crate) fn name_string(&self) -> (r: Option<&String>)
        ensures
            match r {
                Some(s) => s@ == self@.name(),
                None => self@.name().len() == 0,
            },
    {
        match self {
            BtfType::Int(t) => Some(&t.name),
            BtfType::Struct(t) => Some(&t.name),
            BtfType::Union(t) => Some(&t.name),
            BtfType::Enum(t) => Some(&t.name),
            BtfType::Fwd(t) => Some(&t.name),
            BtfType::Typedef(t) => Some(&t.name),
            BtfType::Func(t) => Some(&t.name),
            BtfType::Var(t) => Some(&t.name),
            BtfType::Datasec(t) => Some(&t.name),
            BtfType::Float(t) => Some(&t.name),
            BtfType::DeclTag(t) => Some(&t.name),
            BtfType::TypeTag(t) => Some(&t.name),
            BtfType::Enum64(t) => Some(&t.name),
            _ => None,
        }
    }

    /// This type's name, if it has one that is not empty.
    pub fn name(&self) -> (r: Option<&str>)
        ensures
            match r {
                Some(s) => s@ == self@.name() && s@.len() > 0,
                None => self@.name().len() == 0,
            },
    {
        match self.name_string() {
            Some(s) => {
                if s.as_str().is_empty() {
                    None
                } else {
                    Some(s.as_str())
                }
            },
            None => None,
        }
    }

    /// Whether this is a modifier: volatile, const, restrict or a type
    /// tag.
    pub fn is_mod(&self) -> (r: bool)
        ensures
            r == self@.is_mod(),
    {
        match self {
            BtfType::Volatile(_) => true,
            BtfType::Const(_) => true,
            BtfType::Restrict(_) => true,
            BtfType::TypeTag(_) => true,
            _ => false,
        }
    }

    /// Whether this is an enum of either width.
    pub fn is_any_enum(&self) -> (r: bool)
        ensures
            r == self@.is_any_enum(),
    {
        match self {
            BtfType::Enum(_) => true,
            BtfType::Enum64(_) => true,
            _ => false,
        }
    }

    /// Whether this type and `other` are of the same kind, or both enums.
    pub fn is_core_compat(&self, other: &BtfType) -> (r: bool)
        ensures
            r == self@.is_core_compat(other@),
    {
        self.kind() == other.kind() || (self.is_any_enum() && other.is_any_enum())
    }

    /// Whether this is a struct or a union.
    pub fn is_composite(&self) -> (r: bool)
        ensures
            r == self@.is_composite(),
    {
        match self {
            BtfType::Struct(_) => true,
            BtfType::Union(_) => true,
            _ => false,
        }
    }
}

} // verus!
