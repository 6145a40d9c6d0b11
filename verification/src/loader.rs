//! Decoding the records of a type section.

use vstd::prelude::*;
use vstd::slice::slice_subrange;
use vstd::string::*;
use crate::error::BtfError;
use crate::kind::get_kind;
use crate::kind::get_kind_flag;
use crate::kind::get_vlen;
use crate::kind::spec_kind;
use crate::kind::spec_kind_flag;
use crate::kind::spec_vlen;
use crate::kind::BtfKind;
use crate::model::Composite;
use crate::model::Enum64Value;
use crate::model::EnumValue;
use crate::model::Member;
use crate::model::Node;
use crate::model::Param;
use crate::text::decimal;
use crate::text::push_decimal;
use crate::types::BtfArray;
use crate::types::BtfComposite;
use crate::types::BtfConst;
use crate::types::BtfDatasec;
use crate::types::BtfDatasecVar;
use crate::types::BtfDeclTag;
use crate::types::BtfEnum;
use crate::types::BtfEnum64;
use crate::types::BtfEnum64Value;
use crate::types::BtfEnumValue;
use crate::types::BtfFloat;
use crate::types::BtfFunc;
use crate::types::BtfFuncParam;
use crate::types::BtfFuncProto;
use crate::types::BtfFwd;
use crate::types::BtfFwdKind;
use crate::types::BtfInt;
use crate::types::BtfIntEncoding;
use crate::types::BtfMember;
use crate::types::BtfPtr;
use crate::types::BtfRestrict;
use crate::types::BtfType;
use crate::types::BtfTypeTag;
use crate::types::BtfTypedef;
use crate::types::BtfVar;
use crate::types::BtfVarLinkage;
use crate::types::BtfVolatile;
use crate::types::TypeId;
use crate::wire::as_signed;
use crate::wire::read_str;
use crate::wire::read_u32;
use crate::wire::str_at;
use crate::wire::to_signed;
use crate::wire::word_at;

verus! {

/// The three words that every type record starts with.
#[derive(Debug, Clone, Copy, PartialEq, Eq, Structural)]
pub struct TypeHeader {
    /// Offset of the type's name in the string table.
    pub name_off: u32,
    /// Element count, kind and kind flag.
    pub info: u32,
    /// The size of the type or the id of the type it refers to, depending
    /// on the kind.
    pub size_or_type: u32,
}

/// A decoded record, and how many anonymous types have been named up to
/// and including it.
pub struct Decoded {
    pub node: Node,
    pub anon: nat,
}

/// A name, and how many anonymous types have been named once it is given.
pub struct Named {
    pub name: Seq<char>,
    pub anon: nat,
}

/// The name given to the `number`th type that has none of its own.
pub open spec fn anon_name(number: nat) -> Seq<char> {
    "__anon_"@ + decimal(number)
}

/// The header at the start of `data`.
pub open spec fn header_at(data: Seq<u8>) -> Result<TypeHeader, BtfError> {
    match (word_at(data, 0), word_at(data, 4), word_at(data, 8)) {
        (Ok(name_off), Ok(info), Ok(size_or_type)) => Ok(
            TypeHeader { name_off, info, size_or_type },
        ),
        _ => Err(BtfError::FormatError),
    }
}

/// The first `count` items of `item`, or the error of the first that has
/// one.
pub open spec fn collect<T>(count: nat, item: spec_fn(int) -> Result<T, BtfError>) -> Result<
    Seq<T>,
    BtfError,
>
    decreases count,
{
    if count == 0 {
        Ok(Seq::empty())
    } else {
        match collect(((count - 1) as nat), item) {
            Err(e) => Err(e),
            Ok(before) => match item(count - 1) {
                Err(e) => Err(e),
                Ok(x) => Ok(before.push(x)),
            },
        }
    }
}

/// An error among the first items is the error of the whole list.
pub proof fn lemma_collect_err<T>(
    at: nat,
    count: nat,
    item: spec_fn(int) -> Result<T, BtfError>,
)
    requires
        at <= count,
        collect(at, item) is Err,
    ensures
        collect(count, item) == collect(at, item),
    decreases count - at,
{
    if at < count {
        lemma_collect_err((at), (count - 1) as nat, item);
    }
}

/// The name at `name_off`, or the next synthesized name if that is empty.
pub open spec fn name_or_anon(strings: Seq<u8>, name_off: u32, anon: nat) -> Result<
    Named,
    BtfError,
> {
    match str_at(strings, name_off as int) {
        Err(e) => Err(e),
        Ok(name) => if name.len() == 0 {
            Ok(Named { name: anon_name(anon + 1), anon: anon + 1 })
        } else {
            Ok(Named { name, anon })
        },
    }
}

/// Member `index` of a struct or union, 12 bytes each. With the kind flag
/// the offset word holds the bitfield size in its top byte.
pub open spec fn member_at(strings: Seq<u8>, extra: Seq<u8>, index: int, bits: bool) -> Result<
    Member,
    BtfError,
> {
    match (
        word_at(extra, index * 12),
        word_at(extra, index * 12 + 4),
        word_at(extra, index * 12 + 8),
    ) {
        (Ok(name_off), Ok(type_id), Ok(offset)) => match str_at(strings, name_off as int) {
            Err(e) => Err(e),
            Ok(name) => Ok(
                Member {
                    name,
                    type_id: TypeId(type_id),
                    bit_offset: if bits {
                        offset & 0xffffff
                    } else {
                        offset
                    },
                    bit_size: if bits {
                        (offset >> 24) as u8
                    } else {
                        0
                    },
                },
            ),
        },
        _ => Err(BtfError::FormatError),
    }
}

/// The first `count` members.
pub open spec fn members_at(strings: Seq<u8>, extra: Seq<u8>, count: nat, bits: bool) -> Result<
    Seq<Member>,
    BtfError,
> {
    collect(count, |i: int| member_at(strings, extra, i, bits))
}

/// Enumerator `index` of an enum, 8 bytes each.
pub open spec fn enum_value_at(strings: Seq<u8>, extra: Seq<u8>, index: int) -> Result<
    EnumValue,
    BtfError,
> {
    match (word_at(extra, index * 8), word_at(extra, index * 8 + 4)) {
        (Ok(name_off), Ok(value)) => match str_at(strings, name_off as int) {
            Err(e) => Err(e),
            Ok(name) => Ok(EnumValue { name, value: as_signed(value) }),
        },
        _ => Err(BtfError::FormatError),
    }
}

/// The first `count` enumerators of an enum.
pub open spec fn enum_values_at(strings: Seq<u8>, extra: Seq<u8>, count: nat) -> Result<
    Seq<EnumValue>,
    BtfError,
> {
    collect(count, |i: int| enum_value_at(strings, extra, i))
}

/// The 64-bit number with the given halves.
pub open spec fn join_halves(hi: u32, lo: u32) -> u64 {
    (hi * 0x1_0000_0000 + lo) as u64
}

/// Enumerator `index` of a 64-bit enum, 12 bytes each: name, low half,
/// high half.
pub open spec fn enum64_value_at(strings: Seq<u8>, extra: Seq<u8>, index: int) -> Result<
    Enum64Value,
    BtfError,
> {
    match (
        word_at(extra, index * 12),
        word_at(extra, index * 12 + 4),
        word_at(extra, index * 12 + 8),
    ) {
        (Ok(name_off), Ok(lo), Ok(hi)) => match str_at(strings, name_off as int) {
            Err(e) => Err(e),
            Ok(name) => Ok(Enum64Value { name, value: join_halves(hi, lo) }),
        },
        _ => Err(BtfError::FormatError),
    }
}

/// The first `count` enumerators of a 64-bit enum.
pub open spec fn enum64_values_at(strings: Seq<u8>, extra: Seq<u8>, count: nat) -> Result<
    Seq<Enum64Value>,
    BtfError,
> {
    collect(count, |i: int| enum64_value_at(strings, extra, i))
}

/// Parameter `index` of a function prototype, 8 bytes each.
pub open spec fn param_at(strings: Seq<u8>, extra: Seq<u8>, index: int) -> Result<
    Param,
    BtfError,
> {
    match (word_at(extra, index * 8), word_at(extra, index * 8 + 4)) {
        (Ok(name_off), Ok(type_id)) => match str_at(strings, name_off as int) {
            Err(e) => Err(e),
            Ok(name) => Ok(Param { name, type_id: TypeId(type_id) }),
        },
        _ => Err(BtfError::FormatError),
    }
}

/// The first `count` parameters.
pub open spec fn params_at(strings: Seq<u8>, extra: Seq<u8>, count: nat) -> Result<
    Seq<Param>,
    BtfError,
> {
    collect(count, |i: int| param_at(strings, extra, i))
}

/// Slot `index` of a data section, 12 bytes each: type, offset, size.
pub open spec fn slot_at(extra: Seq<u8>, index: int) -> Result<BtfDatasecVar, BtfError> {
    match (
        word_at(extra, index * 12),
        word_at(extra, index * 12 + 4),
        word_at(extra, index * 12 + 8),
    ) {
        (Ok(type_id), Ok(offset), Ok(size)) => Ok(
            BtfDatasecVar { type_id: TypeId(type_id), offset, size },
        ),
        _ => Err(BtfError::FormatError),
    }
}

/// The first `count` slots.
pub open spec fn slots_at(extra: Seq<u8>, count: nat) -> Result<Seq<BtfDatasecVar>, BtfError> {
    collect(count, |i: int| slot_at(extra, i))
}

/// An integer: its extra word holds encoding, bit offset and bit width.
pub open spec fn int_at(strings: Seq<u8>, h: TypeHeader, extra: Seq<u8>) -> Result<
    Node,
    BtfError,
> {
    match (word_at(extra, 0), str_at(strings, h.name_off as int)) {
        (Ok(word), Ok(name)) => match BtfIntEncoding::of_bits(((word >> 24) & 0xf) as u8) {
            None => Err(BtfError::FormatError),
            Some(encoding) => Ok(
                Node::Int {
                    name,
                    bits: (word & 0xff) as u8,
                    offset: ((word >> 16) & 0xff) as u8,
                    encoding,
                },
            ),
        },
        _ => Err(BtfError::FormatError),
    }
}

/// An array: element type, index type and length follow the header.
pub open spec fn array_at(extra: Seq<u8>) -> Result<Node, BtfError> {
    match (word_at(extra, 0), word_at(extra, 4), word_at(extra, 8)) {
        (Ok(val), Ok(index), Ok(nelems)) => Ok(
            Node::Array { nelems, index_type_id: TypeId(index), val_type_id: TypeId(val) },
        ),
        _ => Err(BtfError::FormatError),
    }
}

/// A struct or union. One without a name gets the next synthesized name.
pub open spec fn composite_at(strings: Seq<u8>, h: TypeHeader, extra: Seq<u8>, anon: nat)
    -> Result<(Composite, nat), BtfError> {
    match (
        name_or_anon(strings, h.name_off, anon),
        members_at(strings, extra, spec_vlen(h.info) as nat, spec_kind_flag(h.info)),
    ) {
        (Ok(named), Ok(members)) => Ok(
            (Composite { name: named.name, size: h.size_or_type, members }, named.anon),
        ),
        _ => Err(BtfError::FormatError),
    }
}

/// An enum. One without a name gets the next synthesized name.
pub open spec fn enum_at(strings: Seq<u8>, h: TypeHeader, extra: Seq<u8>, anon: nat) -> Result<
    Decoded,
    BtfError,
> {
    match (
        name_or_anon(strings, h.name_off, anon),
        enum_values_at(strings, extra, spec_vlen(h.info) as nat),
    ) {
        (Ok(named), Ok(values)) => Ok(
            Decoded {
                node: Node::Enum { name: named.name, size: h.size_or_type, values },
                anon: named.anon,
            },
        ),
        _ => Err(BtfError::FormatError),
    }
}

/// A 64-bit enum, signed if the kind flag is set. One without a name gets
/// the next synthesized name.
pub open spec fn enum64_at(strings: Seq<u8>, h: TypeHeader, extra: Seq<u8>, anon: nat) -> Result<
    Decoded,
    BtfError,
> {
    match (
        name_or_anon(strings, h.name_off, anon),
        enum64_values_at(strings, extra, spec_vlen(h.info) as nat),
    ) {
        (Ok(named), Ok(values)) => Ok(
            Decoded {
                node: Node::Enum64 {
                    name: named.name,
                    size: h.size_or_type,
                    signed: spec_kind_flag(h.info),
                    values,
                },
                anon: named.anon,
            },
        ),
        _ => Err(BtfError::FormatError),
    }
}

/// A function prototype: the header names the return type, the
/// parameters follow.
pub open spec fn func_proto_at(strings: Seq<u8>, h: TypeHeader, extra: Seq<u8>) -> Result<
    Node,
    BtfError,
> {
    match params_at(strings, extra, spec_vlen(h.info) as nat) {
        Err(e) => Err(e),
        Ok(params) => Ok(Node::FuncProto { ret_type_id: TypeId(h.size_or_type), params }),
    }
}

/// A variable: its linkage follows the header.
pub open spec fn var_at(strings: Seq<u8>, h: TypeHeader, extra: Seq<u8>) -> Result<
    Node,
    BtfError,
> {
    match (word_at(extra, 0), str_at(strings, h.name_off as int)) {
        (Ok(word), Ok(name)) => match BtfVarLinkage::of_number(word) {
            None => Err(BtfError::FormatError),
            Some(linkage) => Ok(Node::Var { name, type_id: TypeId(h.size_or_type), linkage }),
        },
        _ => Err(BtfError::FormatError),
    }
}

/// A data section: its slots follow the header.
pub open spec fn datasec_at(strings: Seq<u8>, h: TypeHeader, extra: Seq<u8>) -> Result<
    Node,
    BtfError,
> {
    match (slots_at(extra, spec_vlen(h.info) as nat), str_at(strings, h.name_off as int)) {
        (Ok(vars), Ok(name)) => Ok(Node::Datasec { name, size: h.size_or_type, vars }),
        _ => Err(BtfError::FormatError),
    }
}

/// A declaration tag: the number of the tagged component follows the
/// header.
pub open spec fn decl_tag_at(strings: Seq<u8>, h: TypeHeader, extra: Seq<u8>) -> Result<
    Node,
    BtfError,
> {
    match (word_at(extra, 0), str_at(strings, h.name_off as int)) {
        (Ok(word), Ok(name)) => Ok(
            Node::DeclTag {
                name,
                type_id: TypeId(h.size_or_type),
                component_idx: as_signed(word),
            },
        ),
        _ => Err(BtfError::FormatError),
    }
}

/// A record of one of the kinds whose header says everything but the name.
pub open spec fn named_at(strings: Seq<u8>, h: TypeHeader, kind: BtfKind) -> Result<
    Node,
    BtfError,
> {
    match str_at(strings, h.name_off as int) {
        Err(e) => Err(e),
        Ok(name) => match kind {
            BtfKind::Float => Ok(Node::Float { name, size: h.size_or_type }),
            BtfKind::Fwd => Ok(
                Node::Fwd {
                    name,
                    kind: if spec_kind_flag(h.info) {
                        BtfFwdKind::Union
                    } else {
                        BtfFwdKind::Struct
                    },
                },
            ),
            BtfKind::Typedef => Ok(Node::Typedef { name, type_id: TypeId(h.size_or_type) }),
            BtfKind::Func => Ok(Node::Func { name, type_id: TypeId(h.size_or_type) }),
            BtfKind::TypeTag => Ok(Node::TypeTag { name, type_id: TypeId(h.size_or_type) }),
            _ => Err(BtfError::FormatError),
        },
    }
}

/// A record that names no anonymous type.
pub open spec fn keep_count(r: Result<Node, BtfError>, anon: nat) -> Result<Decoded, BtfError> {
    match r {
        Ok(node) => Ok(Decoded { node, anon }),
        Err(e) => Err(e),
    }
}

/// The record at the start of `data`, when `anon` anonymous types have
/// been named before it. Every malformed record is a format error: one cut
/// short, one of an unknown kind or of kind Void, one with a name outside
/// the string table.
#[verifier::opaque]
pub open spec fn node_at(strings: Seq<u8>, data: Seq<u8>, anon: nat) -> Result<Decoded, BtfError> {
    match header_at(data) {
        Err(e) => Err(e),
        Ok(h) => {
            let extra = data.subrange(12, data.len() as int);
            match BtfKind::of_tag(spec_kind(h.info)) {
                None => Err(BtfError::FormatError),
                Some(kind) => match kind {
                    BtfKind::Void => Err(BtfError::FormatError),
                    BtfKind::Int => keep_count(int_at(strings, h, extra), anon),
                    BtfKind::Ptr => Ok(
                        Decoded { node: Node::Ptr { pointee_type: TypeId(h.size_or_type) }, anon },
                    ),
                    BtfKind::Array => keep_count(array_at(extra), anon),
                    BtfKind::Struct => match composite_at(strings, h, extra, anon) {
                        Err(e) => Err(e),
                        Ok(c) => Ok(Decoded { node: Node::Struct(c.0), anon: c.1 }),
                    },
                    BtfKind::Union => match composite_at(strings, h, extra, anon) {
                        Err(e) => Err(e),
                        Ok(c) => Ok(Decoded { node: Node::Union(c.0), anon: c.1 }),
                    },
                    BtfKind::Enum => enum_at(strings, h, extra, anon),
                    BtfKind::Enum64 => enum64_at(strings, h, extra, anon),
                    BtfKind::Volatile => Ok(
                        Decoded { node: Node::Volatile { type_id: TypeId(h.size_or_type) }, anon },
                    ),
                    BtfKind::Const => Ok(
                        Decoded { node: Node::Const { type_id: TypeId(h.size_or_type) }, anon },
                    ),
                    BtfKind::Restrict => Ok(
                        Decoded { node: Node::Restrict { type_id: TypeId(h.size_or_type) }, anon },
                    ),
                    BtfKind::FuncProto => keep_count(func_proto_at(strings, h, extra), anon),
                    BtfKind::Var => keep_count(var_at(strings, h, extra), anon),
                    BtfKind::DataSec => keep_count(datasec_at(strings, h, extra), anon),
                    BtfKind::DeclTag => keep_count(decl_tag_at(strings, h, extra), anon),
                    _ => keep_count(named_at(strings, h, kind), anon),
                },
            }
        },
    }
}

/// The number of bytes that the record of `node` takes in the type
/// section.
pub open spec fn record_len(node: Node) -> nat {
    match node {
        Node::Void => 0,
        Node::Int { .. } => 16,
        Node::Var { .. } => 16,
        Node::DeclTag { .. } => 16,
        Node::Array { .. } => 24,
        Node::Struct(c) => 12 + c.members.len() * 12,
        Node::Union(c) => 12 + c.members.len() * 12,
        Node::Enum { values, .. } => 12 + values.len() * 8,
        Node::Enum64 { values, .. } => 12 + values.len() * 12,
        Node::FuncProto { params, .. } => 12 + params.len() * 8,
        Node::Datasec { vars, .. } => 12 + vars.len() * 12,
        _ => 12,
    }
}

/// The records that fill `data`, one after the other, when `anon`
/// anonymous types have been named before them.
pub open spec fn records(strings: Seq<u8>, data: Seq<u8>, anon: nat) -> Result<
    Seq<Node>,
    BtfError,
>
    decreases data.len(),
{
    if data.len() == 0 {
        Ok(Seq::empty())
    } else {
        match node_at(strings, data, anon) {
            Err(e) => Err(e),
            Ok(d) => {
                let len = record_len(d.node);
                if len == 0 || len > data.len() {
                    Err(BtfError::FormatError)
                } else {
                    match records(strings, data.subrange(len as int, data.len() as int), d.anon) {
                        Err(e) => Err(e),
                        Ok(rest) => Ok(seq![d.node] + rest),
                    }
                }
            },
        }
    }
}

/// The table of types that a type section and its string table describe:
/// Void, then the section's records in order. Types without a name are
/// named `__anon_1`, `__anon_2` and so on, in the order of their records.
pub open spec fn type_table(strings: Seq<u8>, data: Seq<u8>) -> Result<Seq<Node>, BtfError> {
    match records(strings, data, 0) {
        Err(e) => Err(e),
        Ok(nodes) => Ok(seq![Node::Void] + nodes),
    }
}

/// The types so far, followed by what the rest of the section holds.
spec fn followed_by(types: Seq<Node>, rest: Result<Seq<Node>, BtfError>) -> Result<
    Seq<Node>,
    BtfError,
> {
    match rest {
        Ok(r) => Ok(types + r),
        Err(e) => Err(e),
    }
}

/// One record more decoded: the types so far and the rest of the section
/// are the types with that record and the rest behind it.
proof fn lemma_records_step(strings: Seq<u8>, rest: Seq<u8>, anon: nat, before: Seq<Node>)
    requires
        rest.len() > 0,
    ensures
        match node_at(strings, rest, anon) {
            Err(e) => followed_by(before, records(strings, rest, anon)) == Err::<
                Seq<Node>,
                BtfError,
            >(e),
            Ok(d) => 12 <= record_len(d.node) <= rest.len() ==> followed_by(
                before,
                records(strings, rest, anon),
            ) == followed_by(
                before.push(d.node),
                records(
                    strings,
                    rest.subrange(record_len(d.node) as int, rest.len() as int),
                    d.anon,
                ),
            ),
        },
{
    match node_at(strings, rest, anon) {
        Err(_) => {},
        Ok(d) => {
            let len = record_len(d.node);
            if 12 <= len <= rest.len() {
                match records(strings, rest.subrange(len as int, rest.len() as int), d.anon) {
                    Ok(r) => {
                        assert(before.push(d.node) + r =~= before + (seq![d.node] + r));
                    },
                    Err(_) => {},
                }
            }
        },
    }
}

/// Decodes the records of a type section, naming anonymous types as it
/// meets them.
pub struct BtfLoader {
    /// How many anonymous types have been named.
    anon_count: u64,
}

impl BtfLoader {
    /// Decodes all types of a type section.
    pub fn load(type_data: &[u8], string_table: &[u8]) -> (r: Result<Vec<BtfType>, BtfError>)
        ensures
            match r {
                Ok(types) => type_table(string_table@, type_data@) == Ok::<Seq<Node>, BtfError>(
                    types@.map_values(|t: BtfType| t@),
                ),
                Err(e) => type_table(string_table@, type_data@) == Err::<Seq<Node>, BtfError>(e),
            },
    {
        let mut slf = BtfLoader { anon_count: 0 };
        slf.load_now(type_data, string_table)
    }

    fn load_now(&mut self, type_data: &[u8], string_table: &[u8]) -> (r: Result<
        Vec<BtfType>,
        BtfError,
    >)
        requires
            old(self).anon_count == 0,
        ensures
            match r {
                Ok(types) => type_table(string_table@, type_data@) == Ok::<Seq<Node>, BtfError>(
                    types@.map_values(|t: BtfType| t@),
                ),
                Err(e) => type_table(string_table@, type_data@) == Err::<Seq<Node>, BtfError>(e),
            },
    {
        let mut off: usize = 0;
        let mut types: Vec<BtfType> = Vec::new();
        types.push(BtfType::Void);
        proof {
            assert(types@.map_values(|t: BtfType| t@) =~= seq![Node::Void]);
            assert(type_data@.subrange(0, type_data@.len() as int) =~= type_data@);
        }
        while off < type_data.len()
            invariant
                off <= type_data@.len(),
                self.anon_count * 12 <= off,
                type_table(string_table@, type_data@) == followed_by(
                    types@.map_values(|t: BtfType| t@),
                    records(
                        string_table@,
                        type_data@.subrange(off as int, type_data@.len() as int),
                        self.anon_count as nat,
                    ),
                ),
            decreases type_data@.len() - off,
        {
            let ghost before = types@.map_values(|t: BtfType| t@);
            let ghost rest = type_data@.subrange(off as int, type_data@.len() as int);
            let ghost anon = self.anon_count as nat;
            proof {
                lemma_records_step(string_table@, rest, anon, before);
            }
            let t: BtfType = self.load_type(
                string_table,
                slice_subrange(type_data, off, type_data.len()),
            )?;
            let size: usize = Self::type_size(&t);
            proof {
                assert(rest.subrange(size as int, rest.len() as int) =~= type_data@.subrange(
                    off + size,
                    type_data@.len() as int,
                ));
            }
            off = off + size;
            types.push(t);
            proof {
                assert(types@.map_values(|t: BtfType| t@) =~= before.push(t@));
            }
        }
        proof {
            let all = types@.map_values(|t: BtfType| t@);
            assert(all + Seq::<Node>::empty() =~= all);
        }
        Ok(types)
    }

    fn load_type(&mut self, string_table: &[u8], data: &[u8]) -> (r: Result<BtfType, BtfError>)
        requires
            old(self).anon_count < u64::MAX,
        ensures
            match r {
                Ok(t) => {
                    &&& node_at(string_table@, data@, old(self).anon_count as nat) == Ok::<
                        Decoded,
                        BtfError,
                    >(Decoded { node: t@, anon: final(self).anon_count as nat })
                    &&& 12 <= record_len(t@) <= data@.len()
                    &&& final(self).anon_count <= old(self).anon_count + 1
                },
                Err(e) => node_at(string_table@, data@, old(self).anon_count as nat) == Err::<
                    Decoded,
                    BtfError,
                >(e) && final(self).anon_count == old(self).anon_count,
            },
    {
        reveal(node_at);
        let t = TypeHeader {
            name_off: read_u32(data, 0)?,
            info: read_u32(data, 4)?,
            size_or_type: read_u32(data, 8)?,
        };
        let extra: &[u8] = slice_subrange(data, 12, data.len());
        let kind: BtfKind = BtfKind::try_from_primitive(get_kind(t.info))?;
        match kind {
            BtfKind::Void => Err(BtfError::FormatError),
            BtfKind::Int => Self::load_int(string_table, &t, extra),
            BtfKind::Float => Self::load_float(string_table, &t),
            BtfKind::Ptr => Ok(BtfType::Ptr(BtfPtr { pointee_type: TypeId(t.size_or_type) })),
            BtfKind::Array => Self::load_array(extra),
            BtfKind::Struct => self.load_struct(string_table, &t, extra),
            BtfKind::Union => self.load_union(string_table, &t, extra),
            BtfKind::Enum => self.load_enum(string_table, &t, extra),
            BtfKind::Enum64 => self.load_enum64(string_table, &t, extra),
            BtfKind::Fwd => Self::load_fwd(string_table, &t),
            BtfKind::Typedef => Ok(
                BtfType::Typedef(
                    BtfTypedef {
                        name: Self::get_btf_str(string_table, t.name_off as usize)?,
                        type_id: TypeId(t.size_or_type),
                    },
                ),
            ),
            BtfKind::Volatile => Ok(
                BtfType::Volatile(BtfVolatile { type_id: TypeId(t.size_or_type) }),
            ),
            BtfKind::Const => Ok(BtfType::Const(BtfConst { type_id: TypeId(t.size_or_type) })),
            BtfKind::Restrict => Ok(
                BtfType::Restrict(BtfRestrict { type_id: TypeId(t.size_or_type) }),
            ),
            BtfKind::Func => Ok(
                BtfType::Func(
                    BtfFunc {
                        name: Self::get_btf_str(string_table, t.name_off as usize)?,
                        type_id: TypeId(t.size_or_type),
                    },
                ),
            ),
            BtfKind::FuncProto => Self::load_func_proto(string_table, &t, extra),
            BtfKind::Var => Self::load_var(string_table, &t, extra),
            BtfKind::DataSec => Self::load_datasec(string_table, &t, extra),
            BtfKind::DeclTag => Self::load_decl_tag(string_table, &t, extra),
            BtfKind::TypeTag => Ok(
                BtfType::TypeTag(
                    BtfTypeTag {
                        name: Self::get_btf_str(string_table, t.name_off as usize)?,
                        type_id: TypeId(t.size_or_type),
                    },
                ),
            ),
        }
    }

    fn load_int(string_table: &[u8], t: &TypeHeader, extra: &[u8]) -> (r: Result<
        BtfType,
        BtfError,
    >)
        ensures
            match r {
                Ok(n) => int_at(string_table@, *t, extra@) == Ok::<Node, BtfError>(n@)
                    && record_len(n@) == 16 && extra@.len() >= 4,
                Err(e) => int_at(string_table@, *t, extra@) == Err::<Node, BtfError>(e),
            },
    {
        let info: u32 = read_u32(extra, 0)?;
        assert((info >> 24) & 0xf < 0x100 && (info >> 16) & 0xff < 0x100 && info & 0xff < 0x100)
            by (bit_vector);
        let enc: u8 = ((info >> 24) & 0xf) as u8;
        let off: u8 = ((info >> 16) & 0xff) as u8;
        let bits: u8 = (info & 0xff) as u8;
        Ok(
            BtfType::Int(
                BtfInt {
                    name: Self::get_btf_str(string_table, t.name_off as usize)?,
                    bits,
                    offset: off,
                    encoding: BtfIntEncoding::try_from_primitive(enc)?,
                },
            ),
        )
    }

    fn load_float(string_table: &[u8], t: &TypeHeader) -> (r: Result<BtfType, BtfError>)
        ensures
            match r {
                Ok(n) => named_at(string_table@, *t, BtfKind::Float) == Ok::<Node, BtfError>(n@),
                Err(e) => named_at(string_table@, *t, BtfKind::Float) == Err::<Node, BtfError>(
                    e,
                ),
            },
    {
        Ok(
            BtfType::Float(
                BtfFloat {
                    name: Self::get_btf_str(string_table, t.name_off as usize)?,
                    size: t.size_or_type,
                },
            ),
        )
    }

    fn load_array(extra: &[u8]) -> (r: Result<BtfType, BtfError>)
        ensures
            match r {
                Ok(n) => array_at(extra@) == Ok::<Node, BtfError>(n@) && record_len(n@) == 24
                    && extra@.len() >= 12,
                Err(e) => array_at(extra@) == Err::<Node, BtfError>(e),
            },
    {
        let val_type_id: u32 = read_u32(extra, 0)?;
        let idx_type_id: u32 = read_u32(extra, 4)?;
        let nelems: u32 = read_u32(extra, 8)?;
        Ok(
            BtfType::Array(
                BtfArray {
                    nelems,
                    index_type_id: TypeId(idx_type_id),
                    val_type_id: TypeId(val_type_id),
                },
            ),
        )
    }

    /// The name at `name_off`, or the next synthesized name if that name is
    /// empty.
    fn name_or_anon(&mut self, string_table: &[u8], name_off: u32) -> (r: Result<
        String,
        BtfError,
    >)
        requires
            old(self).anon_count < u64::MAX,
        ensures
            match r {
                Ok(name) => name_or_anon(string_table@, name_off, old(self).anon_count as nat)
                    == Ok::<Named, BtfError>(
                    Named { name: name@, anon: final(self).anon_count as nat },
                ) && final(self).anon_count <= old(self).anon_count + 1,
                Err(e) => name_or_anon(string_table@, name_off, old(self).anon_count as nat)
                    == Err::<Named, BtfError>(e) && final(self).anon_count == old(
                    self,
                ).anon_count,
            },
    {
        let name: String = Self::get_btf_str(string_table, name_off as usize)?;
        if name.as_str().is_empty() {
            self.anon_count = self.anon_count + 1;
            let mut anon = String::from_str("__anon_");
            push_decimal(&mut anon, self.anon_count);
            Ok(anon)
        } else {
            Ok(name)
        }
    }

    fn load_struct(&mut self, string_table: &[u8], t: &TypeHeader, extra: &[u8]) -> (r: Result<
        BtfType,
        BtfError,
    >)
        requires
            old(self).anon_count < u64::MAX,
        ensures
            match r {
                Ok(n) => {
                    &&& n is Struct
                    &&& composite_at(string_table@, *t, extra@, old(self).anon_count as nat)
                        == Ok::<(Composite, nat), BtfError>(
                        (n@->Struct_0, final(self).anon_count as nat),
                    )
                    &&& final(self).anon_count <= old(self).anon_count + 1
                    &&& 12 <= record_len(n@) <= 12 + extra@.len()
                },
                Err(e) => composite_at(string_table@, *t, extra@, old(self).anon_count as nat)
                    == Err::<(Composite, nat), BtfError>(e) && final(self).anon_count == old(
                    self,
                ).anon_count,
            },
    {
        let members: Vec<BtfMember> = match Self::load_members(string_table, t, extra) {
            Ok(members) => members,
            Err(_) => {
                return Err(BtfError::FormatError);
            },
        };
        let name: String = self.name_or_anon(string_table, t.name_off)?;
        Ok(BtfType::Struct(BtfComposite { name, size: t.size_or_type, members }))
    }

    fn load_union(&mut self, string_table: &[u8], t: &TypeHeader, extra: &[u8]) -> (r: Result<
        BtfType,
        BtfError,
    >)
        requires
            old(self).anon_count < u64::MAX,
        ensures
            match r {
                Ok(n) => {
                    &&& n is Union
                    &&& composite_at(string_table@, *t, extra@, old(self).anon_count as nat)
                        == Ok::<(Composite, nat), BtfError>(
                        (n@->Union_0, final(self).anon_count as nat),
                    )
                    &&& final(self).anon_count <= old(self).anon_count + 1
                    &&& 12 <= record_len(n@) <= 12 + extra@.len()
                },
                Err(e) => composite_at(string_table@, *t, extra@, old(self).anon_count as nat)
                    == Err::<(Composite, nat), BtfError>(e) && final(self).anon_count == old(
                    self,
                ).anon_count,
            },
    {
        let members: Vec<BtfMember> = match Self::load_members(string_table, t, extra) {
            Ok(members) => members,
            Err(_) => {
                return Err(BtfError::FormatError);
            },
        };
        let name: String = self.name_or_anon(string_table, t.name_off)?;
        Ok(BtfType::Union(BtfComposite { name, size: t.size_or_type, members }))
    }

    /// Decodes the members that follow the header `t` of a struct or union.
    pub fn load_members(string_table: &[u8], t: &TypeHeader, extra: &[u8]) -> (r: Result<
        Vec<BtfMember>,
        BtfError,
    >)
        ensures
            match r {
                Ok(members) => {
                    &&& members_at(
                        string_table@,
                        extra@,
                        spec_vlen(t.info) as nat,
                        spec_kind_flag(t.info),
                    ) == Ok::<Seq<Member>, BtfError>(members@.map_values(|m: BtfMember| m@))
                    &&& members@.len() == spec_vlen(t.info)
                    &&& spec_vlen(t.info) * 12 <= extra@.len()
                },
                Err(e) => members_at(
                    string_table@,
                    extra@,
                    spec_vlen(t.info) as nat,
                    spec_kind_flag(t.info),
                ) == Err::<Seq<Member>, BtfError>(e),
            },
    {
        let mut res: Vec<BtfMember> = Vec::new();
        let bits: bool = get_kind_flag(t.info);
        let vlen: u32 = get_vlen(t.info);
        let ghost item = |i: int| member_at(string_table@, extra@, i, bits);
        let mut i: u32 = 0;
        assert(res@.map_values(|m: BtfMember| m@) =~= Seq::<Member>::empty());
        while i < vlen
            invariant
                i <= vlen < 0x1_0000,
                vlen == spec_vlen(t.info),
                res@.len() == i,
                i * 12 <= extra@.len(),
                bits == spec_kind_flag(t.info),
                item == |i: int| member_at(string_table@, extra@, i, bits),
                collect(i as nat, item) == Ok::<Seq<Member>, BtfError>(
                    res@.map_values(|m: BtfMember| m@),
                ),
            decreases vlen - i,
        {
            proof {
                if collect((i + 1) as nat, item) is Err {
                    lemma_collect_err((i + 1) as nat, vlen as nat, item);
                }
            }
            let off: usize = (i as usize) * 12;
            let name_off: u32 = read_u32(extra, off)?;
            let type_id: u32 = read_u32(extra, off + 4)?;
            let offset: u32 = read_u32(extra, off + 8)?;
            assert((offset >> 24) < 0x100) by (bit_vector);
            let ghost before = res@.map_values(|m: BtfMember| m@);
            let m = BtfMember {
                name: Self::get_btf_str(string_table, name_off as usize)?,
                type_id: TypeId(type_id),
                bit_size: if bits {
                    (offset >> 24) as u8
                } else {
                    0
                },
                bit_offset: if bits {
                    offset & 0xffffff
                } else {
                    offset
                },
            };
            assert(item(i as int) == Ok::<Member, BtfError>(m@));
            res.push(m);
            assert(res@.map_values(|m: BtfMember| m@) =~= before.push(m@));
            i = i + 1;
        }
        Ok(res)
    }

    fn load_enum(&mut self, string_table: &[u8], t: &TypeHeader, extra: &[u8]) -> (r: Result<
        BtfType,
        BtfError,
    >)
        requires
            old(self).anon_count < u64::MAX,
        ensures
            match r {
                Ok(n) => {
                    &&& enum_at(string_table@, *t, extra@, old(self).anon_count as nat) == Ok::<
                        Decoded,
                        BtfError,
                    >(Decoded { node: n@, anon: final(self).anon_count as nat })
                    &&& final(self).anon_count <= old(self).anon_count + 1
                    &&& 12 <= record_len(n@) <= 12 + extra@.len()
                },
                Err(e) => enum_at(string_table@, *t, extra@, old(self).anon_count as nat) == Err::<
                    Decoded,
                    BtfError,
                >(e) && final(self).anon_count == old(self).anon_count,
            },
    {
        let mut vals: Vec<BtfEnumValue> = Vec::new();
        let vlen: u32 = get_vlen(t.info);
        let ghost item = |i: int| enum_value_at(string_table@, extra@, i);
        let mut i: u32 = 0;
        assert(vals@.map_values(|v: BtfEnumValue| v@) =~= Seq::<EnumValue>::empty());
        while i < vlen
            invariant
                self.anon_count == old(self).anon_count,
                i <= vlen < 0x1_0000,
                vlen == spec_vlen(t.info),
                vals@.len() == i,
                i * 8 <= extra@.len(),
                item == |i: int| enum_value_at(string_table@, extra@, i),
                collect(i as nat, item) == Ok::<Seq<EnumValue>, BtfError>(
                    vals@.map_values(|v: BtfEnumValue| v@),
                ),
            decreases vlen - i,
        {
            proof {
                if collect((i + 1) as nat, item) is Err {
                    lemma_collect_err((i + 1) as nat, vlen as nat, item);
                }
            }
            let off: usize = (i as usize) * 8;
            let name_off: u32 = read_u32(extra, off)?;
            let val: u32 = read_u32(extra, off + 4)?;
            let ghost before = vals@.map_values(|v: BtfEnumValue| v@);
            let v = BtfEnumValue {
                name: Self::get_btf_str(string_table, name_off as usize)?,
                value: to_signed(val),
            };
            assert(item(i as int) == Ok::<EnumValue, BtfError>(v@));
            vals.push(v);
            assert(vals@.map_values(|v: BtfEnumValue| v@) =~= before.push(v@));
            i = i + 1;
        }
        let name: String = self.name_or_anon(string_table, t.name_off)?;
        Ok(BtfType::Enum(BtfEnum { name, size: t.size_or_type, values: vals }))
    }

    fn load_enum64(&mut self, string_table: &[u8], t: &TypeHeader, extra: &[u8]) -> (r: Result<
        BtfType,
        BtfError,
    >)
        requires
            old(self).anon_count < u64::MAX,
        ensures
            match r {
                Ok(n) => {
                    &&& enum64_at(string_table@, *t, extra@, old(self).anon_count as nat) == Ok::<
                        Decoded,
                        BtfError,
                    >(Decoded { node: n@, anon: final(self).anon_count as nat })
                    &&& final(self).anon_count <= old(self).anon_count + 1
                    &&& 12 <= record_len(n@) <= 12 + extra@.len()
                },
                Err(e) => enum64_at(string_table@, *t, extra@, old(self).anon_count as nat)
                    == Err::<Decoded, BtfError>(e) && final(self).anon_count == old(
                    self,
                ).anon_count,
            },
    {
        let mut vals: Vec<BtfEnum64Value> = Vec::new();
        let vlen: u32 = get_vlen(t.info);
        let ghost item = |i: int| enum64_value_at(string_table@, extra@, i);
        let mut i: u32 = 0;
        assert(vals@.map_values(|v: BtfEnum64Value| v@) =~= Seq::<Enum64Value>::empty());
        while i < vlen
            invariant
                self.anon_count == old(self).anon_count,
                i <= vlen < 0x1_0000,
                vlen == spec_vlen(t.info),
                vals@.len() == i,
                i * 12 <= extra@.len(),
                item == |i: int| enum64_value_at(string_table@, extra@, i),
                collect(i as nat, item) == Ok::<Seq<Enum64Value>, BtfError>(
                    vals@.map_values(|v: BtfEnum64Value| v@),
                ),
            decreases vlen - i,
        {
            proof {
                if collect((i + 1) as nat, item) is Err {
                    lemma_collect_err((i + 1) as nat, vlen as nat, item);
                }
            }
            let off: usize = (i as usize) * 12;
            let name_off: u32 = read_u32(extra, off)?;
            let val_lo32: u32 = read_u32(extra, off + 4)?;
            let val_hi32: u32 = read_u32(extra, off + 8)?;
            let ghost before = vals@.map_values(|v: BtfEnum64Value| v@);
            let v = BtfEnum64Value {
                name: Self::get_btf_str(string_table, name_off as usize)?,
                value: (val_hi32 as u64) * 0x1_0000_0000 + (val_lo32 as u64),
            };
            assert(item(i as int) == Ok::<Enum64Value, BtfError>(v@));
            vals.push(v);
            assert(vals@.map_values(|v: BtfEnum64Value| v@) =~= before.push(v@));
            i = i + 1;
        }
        let name: String = self.name_or_anon(string_table, t.name_off)?;
        Ok(
            BtfType::Enum64(
                BtfEnum64 {
                    name,
                    size: t.size_or_type,
                    signed: get_kind_flag(t.info),
                    values: vals,
                },
            ),
        )
    }

    fn load_fwd(string_table: &[u8], t: &TypeHeader) -> (r: Result<BtfType, BtfError>)
        ensures
            match r {
                Ok(n) => named_at(string_table@, *t, BtfKind::Fwd) == Ok::<Node, BtfError>(n@),
                Err(e) => named_at(string_table@, *t, BtfKind::Fwd) == Err::<Node, BtfError>(e),
            },
    {
        Ok(
            BtfType::Fwd(
                BtfFwd {
                    name: Self::get_btf_str(string_table, t.name_off as usize)?,
                    kind: if get_kind_flag(t.info) {
                        BtfFwdKind::Union
                    } else {
                        BtfFwdKind::Struct
                    },
                },
            ),
        )
    }

    fn load_func_proto(string_table: &[u8], t: &TypeHeader, extra: &[u8]) -> (r: Result<
        BtfType,
        BtfError,
    >)
        ensures
            match r {
                Ok(n) => func_proto_at(string_table@, *t, extra@) == Ok::<Node, BtfError>(n@)
                    && 12 <= record_len(n@) <= 12 + extra@.len(),
                Err(e) => func_proto_at(string_table@, *t, extra@) == Err::<Node, BtfError>(e),
            },
    {
        let mut params: Vec<BtfFuncParam> = Vec::new();
        let vlen: u32 = get_vlen(t.info);
        let ghost item = |i: int| param_at(string_table@, extra@, i);
        let mut i: u32 = 0;
        assert(params@.map_values(|p: BtfFuncParam| p@) =~= Seq::<Param>::empty());
        while i < vlen
            invariant
                i <= vlen < 0x1_0000,
                vlen == spec_vlen(t.info),
                params@.len() == i,
                i * 8 <= extra@.len(),
                item == |i: int| param_at(string_table@, extra@, i),
                collect(i as nat, item) == Ok::<Seq<Param>, BtfError>(
                    params@.map_values(|p: BtfFuncParam| p@),
                ),
            decreases vlen - i,
        {
            proof {
                if collect((i + 1) as nat, item) is Err {
                    lemma_collect_err((i + 1) as nat, vlen as nat, item);
                }
            }
            let off: usize = (i as usize) * 8;
            let name_off: u32 = read_u32(extra, off)?;
            let type_id: u32 = read_u32(extra, off + 4)?;
            let ghost before = params@.map_values(|p: BtfFuncParam| p@);
            let p = BtfFuncParam {
                name: Self::get_btf_str(string_table, name_off as usize)?,
                type_id: TypeId(type_id),
            };
            assert(item(i as int) == Ok::<Param, BtfError>(p@));
            params.push(p);
            assert(params@.map_values(|p: BtfFuncParam| p@) =~= before.push(p@));
            i = i + 1;
        }
        Ok(BtfType::FuncProto(BtfFuncProto { ret_type_id: TypeId(t.size_or_type), params }))
    }

    fn load_var(string_table: &[u8], t: &TypeHeader, extra: &[u8]) -> (r: Result<
        BtfType,
        BtfError,
    >)
        ensures
            match r {
                Ok(n) => var_at(string_table@, *t, extra@) == Ok::<Node, BtfError>(n@)
                    && record_len(n@) == 16 && extra@.len() >= 4,
                Err(e) => var_at(string_table@, *t, extra@) == Err::<Node, BtfError>(e),
            },
    {
        let kind: u32 = read_u32(extra, 0)?;
        Ok(
            BtfType::Var(
                BtfVar {
                    name: Self::get_btf_str(string_table, t.name_off as usize)?,
                    type_id: TypeId(t.size_or_type),
                    linkage: BtfVarLinkage::try_from_primitive(kind)?,
                },
            ),
        )
    }

    fn load_datasec(string_table: &[u8], t: &TypeHeader, extra: &[u8]) -> (r: Result<
        BtfType,
        BtfError,
    >)
        ensures
            match r {
                Ok(n) => datasec_at(string_table@, *t, extra@) == Ok::<Node, BtfError>(n@)
                    && 12 <= record_len(n@) <= 12 + extra@.len(),
                Err(e) => datasec_at(string_table@, *t, extra@) == Err::<Node, BtfError>(e),
            },
    {
        let mut vars: Vec<BtfDatasecVar> = Vec::new();
        let vlen: u32 = get_vlen(t.info);
        let ghost item = |i: int| slot_at(extra@, i);
        let mut i: u32 = 0;
        while i < vlen
            invariant
                i <= vlen < 0x1_0000,
                vlen == spec_vlen(t.info),
                vars@.len() == i,
                i * 12 <= extra@.len(),
                item == |i: int| slot_at(extra@, i),
                collect(i as nat, item) == Ok::<Seq<BtfDatasecVar>, BtfError>(vars@),
            decreases vlen - i,
        {
            proof {
                if collect((i + 1) as nat, item) is Err {
                    lemma_collect_err((i + 1) as nat, vlen as nat, item);
                }
            }
            let off: usize = (i as usize) * 12;
            let type_id: u32 = read_u32(extra, off)?;
            let offset: u32 = read_u32(extra, off + 4)?;
            let size: u32 = read_u32(extra, off + 8)?;
            vars.push(BtfDatasecVar { type_id: TypeId(type_id), offset, size });
            i = i + 1;
        }
        Ok(
            BtfType::Datasec(
                BtfDatasec {
                    name: Self::get_btf_str(string_table, t.name_off as usize)?,
                    size: t.size_or_type,
                    vars,
                },
            ),
        )
    }

    fn load_decl_tag(string_table: &[u8], t: &TypeHeader, extra: &[u8]) -> (r: Result<
        BtfType,
        BtfError,
    >)
        ensures
            match r {
                Ok(n) => decl_tag_at(string_table@, *t, extra@) == Ok::<Node, BtfError>(n@)
                    && record_len(n@) == 16 && extra@.len() >= 4,
                Err(e) => decl_tag_at(string_table@, *t, extra@) == Err::<Node, BtfError>(e),
            },
    {
        let component_idx: u32 = read_u32(extra, 0)?;
        Ok(
            BtfType::DeclTag(
                BtfDeclTag {
                    name: Self::get_btf_str(string_table, t.name_off as usize)?,
                    type_id: TypeId(t.size_or_type),
                    component_idx: to_signed(component_idx),
                },
            ),
        )
    }

    /// The number of bytes that the record of `t` takes in the type
    /// section.
    fn type_size(t: &BtfType) -> (r: usize)
        requires
            record_len(t@) <= usize::MAX,
        ensures
            r == record_len(t@),
    {
        let common: usize = 12;
        match t {
            BtfType::Void => 0,
            BtfType::Ptr(_) => common,
            BtfType::Fwd(_) => common,
            BtfType::Typedef(_) => common,
            BtfType::Volatile(_) => common,
            BtfType::Const(_) => common,
            BtfType::Restrict(_) => common,
            BtfType::Func(_) => common,
            BtfType::Float(_) => common,
            BtfType::TypeTag(_) => common,
            BtfType::Int(_) => common + 4,
            BtfType::Var(_) => common + 4,
            BtfType::Array(_) => common + 12,
            BtfType::Struct(t) => common + t.members.len() * 12,
            BtfType::Union(t) => common + t.members.len() * 12,
            BtfType::Enum(t) => common + t.values.len() * 8,
            BtfType::Enum64(t) => common + t.values.len() * 12,
            BtfType::FuncProto(t) => common + t.params.len() * 8,
            BtfType::Datasec(t) => common + t.vars.len() * 12,
            BtfType::DeclTag(_) => common + 4,
        }
    }

    fn get_btf_str(string_table: &[u8], offset: usize) -> (r: Result<String, BtfError>)
        ensures
            match r {
                Ok(s) => str_at(string_table@, offset as int) == Ok::<Seq<char>, BtfError>(s@),
                Err(e) => str_at(string_table@, offset as int) == Err::<Seq<char>, BtfError>(e),
            },
    {
        read_str(string_table, offset)
    }
}

} // verus!
