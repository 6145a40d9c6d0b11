//! The header of a BTF section, and the decoding of a whole section into a
//! graph.

use vstd::prelude::*;
use vstd::slice::slice_subrange;
use vstd::slice::slice_to_vec;
use crate::btf::Btf;
use crate::error::BtfError;
use crate::loader::type_table;
use crate::loader::BtfLoader;
use crate::model::Graph;
use crate::outside::le_u32;
use crate::types::BtfDatasecVar;
use crate::types::BtfFuncParam;
use crate::types::BtfMember;
use crate::types::BtfType;
use crate::types::TypeId;
use crate::wire::read_str;
use crate::wire::read_u32;
use crate::wire::str_at;

verus! {

/// The number that a BTF section starts with, stored least significant
/// byte first.
pub const BTF_MAGIC: u16 = 0xeb9f;

/// The only version of the format that is understood.
pub const BTF_VERSION: u8 = 1;

/// The length of the fixed part of the header: magic, version, flags,
/// header length and the offset and length of the type and string sections.
pub const BTF_HEADER_LEN: usize = 24;

/// The bytes of the type section and of the string table.
pub struct Sections {
    pub types: Seq<u8>,
    pub strings: Seq<u8>,
}

/// The type section and the string table that the header of `data`
/// locates. Their offsets count from the end of the header, whose length
/// the header gives. A buffer too short for a header, another magic number
/// or version, and a section that ends behind the buffer are format errors.
pub open spec fn sections(data: Seq<u8>) -> Result<Sections, BtfError> {
    if data.len() < BTF_HEADER_LEN {
        Err(BtfError::FormatError)
    } else if data[0] + data[1] * 0x100 != BTF_MAGIC || data[2] != BTF_VERSION {
        Err(BtfError::FormatError)
    } else {
        let hdr_len = le_u32(data, 4);
        let type_start = hdr_len + le_u32(data, 8);
        let type_end = type_start + le_u32(data, 12);
        let str_start = hdr_len + le_u32(data, 16);
        let str_end = str_start + le_u32(data, 20);
        if str_end > data.len() || type_end > data.len() {
            Err(BtfError::FormatError)
        } else {
            Ok(
                Sections {
                    types: data.subrange(type_start, type_end),
                    strings: data.subrange(str_start, str_end),
                },
            )
        }
    }
}

/// The graph that the BTF section `data` describes, for a target whose
/// pointers have `ptr_size` bytes. A type id that names no type of the
/// section is a format error; a pointer size of 0 is invalid input.
pub open spec fn decode(data: Seq<u8>, ptr_size: u32) -> Result<Graph, BtfError> {
    if ptr_size == 0 {
        Err(BtfError::InvalidInput)
    } else {
        match sections(data) {
            Err(e) => Err(e),
            Ok(s) => match type_table(s.strings, s.types) {
                Err(e) => Err(e),
                Ok(types) => {
                    let graph = Graph { types, ptr_size };
                    if graph.wf() {
                        Ok(graph)
                    } else {
                        Err(BtfError::FormatError)
                    }
                },
            },
        }
    }
}

/// Checks the header of a section and finds the type section and the
/// string table in it.
pub fn split(data: &[u8]) -> (r: Result<(&[u8], &[u8]), BtfError>)
    ensures
        match r {
            Ok(found) => sections(data@) == Ok::<Sections, BtfError>(
                Sections { types: found.0@, strings: found.1@ },
            ),
            Err(e) => sections(data@) == Err::<Sections, BtfError>(e),
        },
{
    if data.len() < BTF_HEADER_LEN {
        return Err(BtfError::FormatError);
    }
    if data[0] != 0x9f || data[1] != 0xeb || data[2] != BTF_VERSION {
        return Err(BtfError::FormatError);
    }
    let hdr_len: u64 = read_u32(data, 4)? as u64;
    let type_off: u64 = read_u32(data, 8)? as u64;
    let type_len: u64 = read_u32(data, 12)? as u64;
    let str_off: u64 = read_u32(data, 16)? as u64;
    let str_len: u64 = read_u32(data, 20)? as u64;
    let len: u64 = data.len() as u64;

    let str_start: u64 = hdr_len + str_off;
    let str_end: u64 = str_start + str_len;
    if str_end > len {
        return Err(BtfError::FormatError);
    }
    let type_start: u64 = hdr_len + type_off;
    let type_end: u64 = type_start + type_len;
    if type_end > len {
        return Err(BtfError::FormatError);
    }
    let str_data: &[u8] = slice_subrange(data, str_start as usize, str_end as usize);
    let type_data: &[u8] = slice_subrange(data, type_start as usize, type_end as usize);
    Ok((type_data, str_data))
}

/// The name at `offset` of the string table of the section `data`, if
/// there is a name there and it is not empty.
pub open spec fn name_at(data: Seq<u8>, offset: u32) -> Option<Seq<char>> {
    match sections(data) {
        Err(_) => None,
        Ok(s) => match str_at(s.strings, offset as int) {
            Ok(name) => if name.len() == 0 {
                None
            } else {
                Some(name)
            },
            Err(_) => None,
        },
    }
}

fn members_below(members: &Vec<BtfMember>, count: usize) -> (r: bool)
    ensures
        r == crate::model::members_below(members@.map_values(|m: BtfMember| m@), count as nat),
{
    let ghost ms = members@.map_values(|m: BtfMember| m@);
    let mut i: usize = 0;
    while i < members.len()
        invariant
            i <= members@.len(),
            ms == members@.map_values(|m: BtfMember| m@),
            forall|j: int| 0 <= j < i ==> (#[trigger] ms[j]).type_id.0 < count,
        decreases members@.len() - i,
    {
        if members[i].type_id.0 as usize >= count {
            assert(!(ms[i as int].type_id.0 < count));
            return false;
        }
        i = i + 1;
    }
    true
}

fn params_below(params: &Vec<BtfFuncParam>, count: usize) -> (r: bool)
    ensures
        r == crate::model::params_below(params@.map_values(|p: BtfFuncParam| p@), count as nat),
{
    let ghost ps = params@.map_values(|p: BtfFuncParam| p@);
    let mut i: usize = 0;
    while i < params.len()
        invariant
            i <= params@.len(),
            ps == params@.map_values(|p: BtfFuncParam| p@),
            forall|j: int| 0 <= j < i ==> (#[trigger] ps[j]).type_id.0 < count,
        decreases params@.len() - i,
    {
        if params[i].type_id.0 as usize >= count {
            assert(!(ps[i as int].type_id.0 < count));
            return false;
        }
        i = i + 1;
    }
    true
}

fn slots_below(vars: &Vec<BtfDatasecVar>, count: usize) -> (r: bool)
    ensures
        r == crate::model::slots_below(vars@, count as nat),
{
    let mut i: usize = 0;
    while i < vars.len()
        invariant
            i <= vars@.len(),
            forall|j: int| 0 <= j < i ==> (#[trigger] vars@[j]).type_id.0 < count,
        decreases vars@.len() - i,
    {
        if vars[i].type_id.0 as usize >= count {
            return false;
        }
        i = i + 1;
    }
    true
}

fn below(id: TypeId, count: usize) -> (r: bool)
    ensures
        r == (id.0 < count),
{
    (id.0 as usize) < count
}

/// Whether every type id stored in `t` names one of the first `count`
/// types.
fn refs_below(t: &BtfType, count: usize) -> (r: bool)
    ensures
        r == t@.refs_below(count as nat),
{
    match t {
        BtfType::Void => true,
        BtfType::Int(_) => true,
        BtfType::Ptr(t) => below(t.pointee_type, count),
        BtfType::Array(t) => below(t.index_type_id, count) && below(t.val_type_id, count),
        BtfType::Struct(t) => members_below(&t.members, count),
        BtfType::Union(t) => members_below(&t.members, count),
        BtfType::Enum(_) => true,
        BtfType::Fwd(_) => true,
        BtfType::Typedef(t) => below(t.type_id, count),
        BtfType::Volatile(t) => below(t.type_id, count),
        BtfType::Const(t) => below(t.type_id, count),
        BtfType::Restrict(t) => below(t.type_id, count),
        BtfType::Func(t) => below(t.type_id, count),
        BtfType::FuncProto(t) => {
            let r = params_below(&t.params, count);
            below(t.ret_type_id, count) && r
        },
        BtfType::Var(t) => below(t.type_id, count),
        BtfType::Datasec(t) => slots_below(&t.vars, count),
        BtfType::Float(_) => true,
        BtfType::DeclTag(t) => below(t.type_id, count),
        BtfType::TypeTag(t) => below(t.type_id, count),
        BtfType::Enum64(_) => true,
    }
}

impl Btf {
    /// Decodes a BTF section for a target whose pointers have `ptr_size`
    /// bytes. The section is decoded as a whole or not at all. The graph
    /// keeps a copy of the section.
    pub fn new(data: &[u8], ptr_size: u32) -> (r: Result<Btf, BtfError>)
        ensures
            match r {
                Ok(btf) => decode(data@, ptr_size) == Ok::<Graph, BtfError>(btf@) && btf.raw()
                    == data@,
                Err(e) => decode(data@, ptr_size) == Err::<Graph, BtfError>(e),
            },
    {
        if ptr_size == 0 {
            return Err(BtfError::InvalidInput);
        }
        let (type_data, str_data) = split(data)?;

        let types: Vec<BtfType> = BtfLoader::load(type_data, str_data)?;
        let count: usize = types.len();
        if count > u32::MAX as usize {
            return Err(BtfError::FormatError);
        }
        let ghost nodes = types@.map_values(|t: BtfType| t@);
        let ghost graph = Graph { types: nodes, ptr_size };
        assert(nodes[0] is Void);
        let mut i: usize = 0;
        while i < count
            invariant
                i <= count,
                count == types@.len(),
                nodes == types@.map_values(|t: BtfType| t@),
                graph == (Graph { types: nodes, ptr_size }),
                ptr_size != 0,
                1 <= count <= u32::MAX,
                nodes[0] is Void,
                decode(data@, ptr_size) == if graph.wf() {
                    Ok::<Graph, BtfError>(graph)
                } else {
                    Err::<Graph, BtfError>(BtfError::FormatError)
                },
                forall|j: int| 0 <= j < i ==> (#[trigger] nodes[j]).refs_below(count as nat),
            decreases count - i,
        {
            if !refs_below(&types[i], count) {
                assert(!nodes[i as int].refs_below(count as nat));
                return Err(BtfError::FormatError);
            }
            i = i + 1;
        }
        assert(graph.wf());
        Ok(Btf { types, ptr_size, raw_data: slice_to_vec(data) })
    }

    /// The string at the given offset of the section's string table.
    /// Offsets outside the table and empty strings give nothing.
    pub fn name_at(&self, offset: u32) -> (r: Option<String>)
        ensures
            match r {
                Some(name) => name_at(self.raw(), offset) == Some(name@),
                None => name_at(self.raw(), offset) is None,
            },
    {
        let strings: &[u8] = match split(self.raw_data()) {
            Ok(found) => found.1,
            Err(_) => {
                return None;
            },
        };
        match read_str(strings, offset as usize) {
            Ok(name) => {
                if name.as_str().is_empty() {
                    None
                } else {
                    Some(name)
                }
            },
            Err(_) => None,
        }
    }
}

} // verus!
