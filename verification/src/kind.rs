use vstd::prelude::*;
use crate::error::BtfError;

verus! {

/// The kind of a BTF type, as encoded in bits 24 to 28 of a record's info
/// word.
#[derive(Debug, Clone, Copy, PartialEq, Eq, Structural)]
pub enum BtfKind {
    Void,
    Int,
    Ptr,
    Array,
    Struct,
    Union,
    Enum,
    Fwd,
    Typedef,
    Volatile,
    Const,
    Restrict,
    Func,
    FuncProto,
    Var,
    DataSec,
    Float,
    DeclTag,
    TypeTag,
    Enum64,
}

impl BtfKind {
    /// The number that stands for this kind in the binary encoding.
    pub open spec fn tag(self) -> u32 {
        match self {
            BtfKind::Void => 0,
            BtfKind::Int => 1,
            BtfKind::Ptr => 2,
            BtfKind::Array => 3,
            BtfKind::Struct => 4,
            BtfKind::Union => 5,
            BtfKind::Enum => 6,
            BtfKind::Fwd => 7,
            BtfKind::Typedef => 8,
            BtfKind::Volatile => 9,
            BtfKind::Const => 10,
            BtfKind::Restrict => 11,
            BtfKind::Func => 12,
            BtfKind::FuncProto => 13,
            BtfKind::Var => 14,
            BtfKind::DataSec => 15,
            BtfKind::Float => 16,
            BtfKind::DeclTag => 17,
            BtfKind::TypeTag => 18,
            BtfKind::Enum64 => 19,
        }
    }

    /// The kind that `number` stands for, if it stands for one.
    pub open spec fn of_tag(number: u32) -> Option<BtfKind> {
        if number == 0 {
            Some(BtfKind::Void)
        } else if number == 1 {
            Some(BtfKind::Int)
        } else if number == 2 {
            Some(BtfKind::Ptr)
        } else if number == 3 {
            Some(BtfKind::Array)
        } else if number == 4 {
            Some(BtfKind::Struct)
        } else if number == 5 {
            Some(BtfKind::Union)
        } else if number == 6 {
            Some(BtfKind::Enum)
        } else if number == 7 {
            Some(BtfKind::Fwd)
        } else if number == 8 {
            Some(BtfKind::Typedef)
        } else if number == 9 {
            Some(BtfKind::Volatile)
        } else if number == 10 {
            Some(BtfKind::Const)
        } else if number == 11 {
            Some(BtfKind::Restrict)
        } else if number == 12 {
            Some(BtfKind::Func)
        } else if number == 13 {
            Some(BtfKind::FuncProto)
        } else if number == 14 {
            Some(BtfKind::Var)
        } else if number == 15 {
            Some(BtfKind::DataSec)
        } else if number == 16 {
            Some(BtfKind::Float)
        } else if number == 17 {
            Some(BtfKind::DeclTag)
        } else if number == 18 {
            Some(BtfKind::TypeTag)
        } else if number == 19 {
            Some(BtfKind::Enum64)
        } else {
            None
        }
    }

    /// Decodes a kind tag. Numbers above 19 name no kind and are a format
    /// error.
    pub fn try_from_primitive(number: u32) -> (r: Result<BtfKind, BtfError>)
        ensures
            r == match BtfKind::of_tag(number) {
                Some(k) => Ok::<BtfKind, BtfError>(k),
                None => Err(BtfError::FormatError),
            },
    {
        match number {
            0 => Ok(BtfKind::Void),
            1 => Ok(BtfKind::Int),
            2 => Ok(BtfKind::Ptr),
            3 => Ok(BtfKind::Array),
            4 => Ok(BtfKind::Struct),
            5 => Ok(BtfKind::Union),
            6 => Ok(BtfKind::Enum),
            7 => Ok(BtfKind::Fwd),
            8 => Ok(BtfKind::Typedef),
            9 => Ok(BtfKind::Volatile),
            10 => Ok(BtfKind::Const),
            11 => Ok(BtfKind::Restrict),
            12 => Ok(BtfKind::Func),
            13 => Ok(BtfKind::FuncProto),
            14 => Ok(BtfKind::Var),
            15 => Ok(BtfKind::DataSec),
            16 => Ok(BtfKind::Float),
            17 => Ok(BtfKind::DeclTag),
            18 => Ok(BtfKind::TypeTag),
            19 => Ok(BtfKind::Enum64),
            _ => Err(BtfError::FormatError),
        }
    }
}

impl From<BtfKind> for u32 {
    fn from(kind: BtfKind) -> (r: u32) {
        match kind {
            BtfKind::Void => 0,
            BtfKind::Int => 1,
            BtfKind::Ptr => 2,
            BtfKind::Array => 3,
            BtfKind::Struct => 4,
            BtfKind::Union => 5,
            BtfKind::Enum => 6,
            BtfKind::Fwd => 7,
            BtfKind::Typedef => 8,
            BtfKind::Volatile => 9,
            BtfKind::Const => 10,
            BtfKind::Restrict => 11,
            BtfKind::Func => 12,
            BtfKind::FuncProto => 13,
            BtfKind::Var => 14,
            BtfKind::DataSec => 15,
            BtfKind::Float => 16,
            BtfKind::DeclTag => 17,
            BtfKind::TypeTag => 18,
            BtfKind::Enum64 => 19,
        }
    }
}

impl vstd::std_specs::convert::FromSpecImpl<BtfKind> for u32 {
    open spec fn obeys_from_spec() -> bool {
        true
    }

    open spec fn from_spec(kind: BtfKind) -> u32 {
        kind.tag()
    }
}

/// Encoding and decoding a kind tag are inverse to each other.
pub proof fn lemma_kind_tag_roundtrip(kind: BtfKind, number: u32)
    ensures
        BtfKind::of_tag(kind.tag()) == Some(kind),
        BtfKind::of_tag(number) matches Some(k) ==> k.tag() == number,
        kind.tag() <= 19,
{
}

/// The element count in the low 16 bits of an info word.
pub open spec fn spec_vlen(info: u32) -> u32 {
    info & 0xffff
}

/// The flag in bit 31 of an info word.
pub open spec fn spec_kind_flag(info: u32) -> bool {
    (info >> 31) == 1
}

/// The kind tag in bits 24 to 28 of an info word.
pub open spec fn spec_kind(info: u32) -> u32 {
    (info >> 24) & 0x1f
}

/// Number of trailing elements that follow a record with this info word.
pub fn get_vlen(info: u32) -> (r: u32)
    ensures
        r == spec_vlen(info),
        r == info % 0x1_0000,
{
    assert(info & 0xffff == info % 0x1_0000) by (bit_vector);
    info & 0xffff
}

/// Whether the kind flag of this info word is set.
pub fn get_kind_flag(info: u32) -> (r: bool)
    ensures
        r == spec_kind_flag(info),
        r == (info >= 0x8000_0000),
{
    assert(((info >> 31) == 1) == (info >= 0x8000_0000)) by (bit_vector);
    (info >> 31) == 1
}

/// The kind tag of this info word, always below 32.
pub fn get_kind(info: u32) -> (r: u32)
    ensures
        r == spec_kind(info),
        r == (info / 0x100_0000) % 32,
{
    assert((info >> 24) & 0x1f == (info / 0x100_0000) % 32) by (bit_vector);
    (info >> 24) & 0x1f
}

} // verus!
