//! Size, alignment and packing of the types of a graph.

use vstd::prelude::*;
use crate::error::BtfError;
use crate::model::Graph;
use crate::model::Member;
use crate::model::Node;
use crate::btf::Btf;
use crate::types::BtfMember;
use crate::types::BtfType;
use crate::types::TypeId;

verus! {

/// Bytes needed to hold `bits` bits.
pub open spec fn bytes_for_bits(bits: u8) -> u32 {
    ((bits + 7) / 8) as u32
}

/// The smaller of two numbers.
pub open spec fn min_u32(a: u32, b: u32) -> u32 {
    if a <= b {
        a
    } else {
        b
    }
}

/// The larger of two numbers.
pub open spec fn max_u32(a: u32, b: u32) -> u32 {
    if a >= b {
        a
    } else {
        b
    }
}

/// `offset` rounded up to the next multiple of `align`.
pub open spec fn round_up(offset: int, align: int) -> int
    recommends
        align > 0,
{
    (offset + align - 1) / align * align
}

/// The explicit padding to insert at `current` so that the next field
/// starts at `required`, when fields of its type are aligned to `align`:
/// none if alignment alone brings the field to `required`, else the whole
/// gap.
pub open spec fn padding_between(current: int, required: int, align: int) -> int
    recommends
        align > 0,
        current <= required,
{
    if round_up(current, align) == required {
        0
    } else {
        required - current
    }
}

impl Graph {
    /// Follows modifiers and typedefs from `id` to the first type that is
    /// neither, taking at most `fuel` steps.
    pub open spec fn skip_mods_bounded(self, id: TypeId, fuel: nat) -> Result<TypeId, BtfError>
        decreases fuel,
    {
        match self.lookup(id) {
            Err(e) => Err(e),
            Ok(node) => match node.wrapped() {
                None => Ok(id),
                Some(next) => if fuel == 0 {
                    Err(BtfError::UnsupportedType)
                } else {
                    self.skip_mods_bounded(next, (fuel - 1) as nat)
                },
            },
        }
    }

    /// How many steps a query takes from one type to the next before it
    /// gives up: as many as there are types. A chain that takes more steps
    /// has met a type twice, so only a cycle is cut short.
    pub open spec fn step_limit(self) -> nat {
        self.types.len()
    }

    /// The type that `id` stands for once modifiers and typedefs are
    /// stripped. A chain of wrappers that leads back into itself is
    /// unsupported.
    pub open spec fn skip_mods(self, id: TypeId) -> Result<TypeId, BtfError> {
        self.skip_mods_bounded(id, self.step_limit())
    }

    /// Size in bytes of type `id`, descending at most `depth` times into
    /// the element of an array or the type of a variable.
    pub open spec fn size_of_bounded(self, id: TypeId, depth: nat) -> Result<u32, BtfError>
        decreases depth,
    {
        match self.skip_mods(id) {
            Err(e) => Err(e),
            Ok(sid) => match self.lookup(sid) {
                Err(e) => Err(e),
                Ok(node) => match node {
                    Node::Int { bits, .. } => Ok(bytes_for_bits(bits)),
                    Node::Ptr { .. } => Ok(self.ptr_size),
                    Node::Array { nelems, val_type_id, .. } => if depth == 0 {
                        Err(BtfError::UnsupportedType)
                    } else {
                        match self.size_of_bounded(val_type_id, (depth - 1) as nat) {
                            Err(e) => Err(e),
                            Ok(elem) => if nelems * elem <= u32::MAX {
                                Ok((nelems * elem) as u32)
                            } else {
                                Err(BtfError::UnsupportedType)
                            },
                        }
                    },
                    Node::Struct(c) => Ok(c.size),
                    Node::Union(c) => Ok(c.size),
                    Node::Enum { size, .. } => Ok(size),
                    Node::Enum64 { size, .. } => Ok(size),
                    Node::Var { type_id, .. } => if depth == 0 {
                        Err(BtfError::UnsupportedType)
                    } else {
                        self.size_of_bounded(type_id, (depth - 1) as nat)
                    },
                    Node::Datasec { size, .. } => Ok(size),
                    Node::Float { size, .. } => Ok(size),
                    _ => Err(BtfError::UnsupportedType),
                },
            },
        }
    }

    /// Size in bytes of type `id`.
    ///
    /// An integer takes the bytes that hold its bits, a pointer the
    /// target's pointer size, an array its element's size times its length,
    /// a variable the size of its type. Structs, unions, enums, floats and
    /// data sections have the size their record declares. Nothing else has
    /// a size, nor has an array whose size exceeds `u32::MAX`, nor one that
    /// is its own element.
    pub open spec fn size_of(self, id: TypeId) -> Result<u32, BtfError> {
        self.size_of_bounded(id, self.step_limit())
    }

    /// Alignment of type `id`, descending at most `depth` times into array
    /// elements, variable types and aggregate members.
    pub open spec fn align_of_bounded(self, id: TypeId, depth: nat) -> Result<u32, BtfError>
        decreases depth, 1nat,
    {
        match self.skip_mods(id) {
            Err(e) => Err(e),
            Ok(sid) => match self.lookup(sid) {
                Err(e) => Err(e),
                Ok(node) => self.node_align(node, depth),
            },
        }
    }

    /// Alignment of a node that is neither modifier nor typedef.
    pub open spec fn node_align(self, node: Node, depth: nat) -> Result<u32, BtfError>
        decreases depth, 0nat,
    {
        match node {
            Node::Int { bits, .. } => Ok(min_u32(self.ptr_size, bytes_for_bits(bits))),
            Node::Ptr { .. } => Ok(self.ptr_size),
            Node::Array { val_type_id, .. } => if depth == 0 {
                Err(BtfError::UnsupportedType)
            } else {
                self.align_of_bounded(val_type_id, (depth - 1) as nat)
            },
            Node::Struct(c) => if depth == 0 {
                Err(BtfError::UnsupportedType)
            } else {
                self.members_align(c.members, c.members.len(), (depth - 1) as nat)
            },
            Node::Union(c) => if depth == 0 {
                Err(BtfError::UnsupportedType)
            } else {
                self.members_align(c.members, c.members.len(), (depth - 1) as nat)
            },
            Node::Enum { size, .. } => Ok(min_u32(self.ptr_size, size)),
            Node::Enum64 { size, .. } => Ok(min_u32(self.ptr_size, size)),
            Node::Var { type_id, .. } => if depth == 0 {
                Err(BtfError::UnsupportedType)
            } else {
                self.align_of_bounded(type_id, (depth - 1) as nat)
            },
            Node::Datasec { size, .. } => Ok(size),
            Node::Float { size, .. } => Ok(min_u32(self.ptr_size, size)),
            _ => Err(BtfError::UnsupportedType),
        }
    }

    /// The largest alignment among the first `count` members, and at least
    /// 1; the error of the first member that has no alignment.
    pub open spec fn members_align(self, members: Seq<Member>, count: nat, depth: nat) -> Result<
        u32,
        BtfError,
    >
        decreases depth, count + 2,
    {
        if count == 0 || count > members.len() {
            Ok(1)
        } else {
            match self.members_align(members, (count - 1) as nat, depth) {
                Err(e) => Err(e),
                Ok(before) => match self.align_of_bounded(members[count - 1].type_id, depth) {
                    Err(e) => Err(e),
                    Ok(a) => Ok(max_u32(before, a)),
                },
            }
        }
    }

    /// Alignment in bytes of type `id`.
    ///
    /// Integers, enums and floats align to their size, capped at the
    /// pointer size; pointers to the pointer size; arrays and variables as
    /// their element or type; structs and unions as their most demanding
    /// member, and to 1 without members; a data section to its size.
    pub open spec fn align_of(self, id: TypeId) -> Result<u32, BtfError> {
        self.align_of_bounded(id, self.step_limit())
    }

    /// Whether one of the members from index `from` on is not a bitfield
    /// and sits at a bit offset that is no multiple of its alignment; the
    /// error of the first member before that whose alignment is unknown or
    /// zero.
    pub open spec fn members_misaligned(self, members: Seq<Member>, from: nat) -> Result<
        bool,
        BtfError,
    >
        decreases members.len() - from,
    {
        if from >= members.len() {
            Ok(false)
        } else {
            let m = members[from as int];
            match self.align_of(m.type_id) {
                Err(e) => Err(e),
                Ok(a) => if a == 0 {
                    Err(BtfError::UnsupportedType)
                } else if m.bit_size == 0 && m.bit_offset as int % (a as int * 8) != 0 {
                    Ok(true)
                } else {
                    self.members_misaligned(members, from + 1)
                },
            }
        }
    }

    /// Whether the struct `id` must be declared packed: its size is no
    /// multiple of its alignment, or a member that is not a bitfield is
    /// misaligned. Types that are not structs are never packed.
    pub open spec fn is_struct_packed(self, id: TypeId) -> Result<bool, BtfError> {
        match self.lookup(id) {
            Err(e) => Err(e),
            Ok(node) => match node {
                Node::Struct(c) => match self.align_of(id) {
                    Err(e) => Err(e),
                    Ok(align) => if align == 0 {
                        Err(BtfError::UnsupportedType)
                    } else if c.size % align != 0 {
                        Ok(true)
                    } else {
                        self.members_misaligned(c.members, 0)
                    },
                },
                _ => Ok(false),
            },
        }
    }

    /// The alignment that the declaration generator assumes for a field of
    /// type `id` inside a struct: 1 in a packed struct, else the type's
    /// alignment, capped at 4.
    pub open spec fn field_align(self, id: TypeId, packed: bool) -> Result<u32, BtfError> {
        if packed {
            Ok(1)
        } else {
            match self.align_of(id) {
                Err(e) => Err(e),
                Ok(a) => if a == 0 {
                    Err(BtfError::UnsupportedType)
                } else {
                    Ok(min_u32(a, 4))
                },
            }
        }
    }

    /// Bytes of explicit padding before a field of type `id` that must
    /// start at byte `required` when the fields before it end at `current`.
    pub open spec fn required_padding(
        self,
        current: u64,
        required: u64,
        id: TypeId,
        packed: bool,
    ) -> Result<u64, BtfError> {
        if current > required {
            Err(BtfError::UnsupportedType)
        } else {
            match self.field_align(id, packed) {
                Err(e) => Err(e),
                Ok(align) => Ok(
                    padding_between(current as int, required as int, align as int) as u64,
                ),
            }
        }
    }
}

/// An error among the first members is the error of the whole aggregate.
proof fn lemma_members_align_err(g: Graph, members: Seq<Member>, at: nat, count: nat, depth: nat)
    requires
        at <= count <= members.len(),
        g.members_align(members, at, depth) is Err,
    ensures
        g.members_align(members, count, depth) == g.members_align(members, at, depth),
    decreases count - at,
{
    if at < count {
        lemma_members_align_err(g, members, at, (count - 1) as nat, depth);
    }
}

/// Rounding up adds what `offset` lacks to the next multiple of `align`.
pub proof fn lemma_round_up(offset: int, align: int)
    requires
        0 <= offset,
        1 <= align,
    ensures
        round_up(offset, align) == offset + (if offset % align == 0 {
            0
        } else {
            align - offset % align
        }),
        round_up(offset, align) >= offset,
{
    let q = offset / align;
    let r = offset % align;
    vstd::arithmetic::div_mod::lemma_fundamental_div_mod(offset, align);
    assert(offset == align * q + r);
    assert(0 <= r < align) by {
        vstd::arithmetic::div_mod::lemma_mod_bound(offset, align);
    }
    if r == 0 {
        assert(offset + align - 1 == q * align + (align - 1)) by (nonlinear_arith)
            requires
                offset == align * q + r,
                r == 0,
        ;
        vstd::arithmetic::div_mod::lemma_fundamental_div_mod_converse(
            offset + align - 1,
            align,
            q,
            align - 1,
        );
        assert(q * align == offset) by (nonlinear_arith)
            requires
                offset == align * q + r,
                r == 0,
        ;
    } else {
        assert(offset + align - 1 == (q + 1) * align + (r - 1)) by (nonlinear_arith)
            requires
                offset == align * q + r,
        ;
        vstd::arithmetic::div_mod::lemma_fundamental_div_mod_converse(
            offset + align - 1,
            align,
            q + 1,
            r - 1,
        );
        assert((q + 1) * align == offset - r + align) by (nonlinear_arith)
            requires
                offset == align * q + r,
        ;
    }
}

impl Btf {
    /// Size in bytes of the given type.
    pub fn size_of(&self, type_id: TypeId) -> (r: Result<u32, BtfError>)
        ensures
            r == self@.size_of(type_id),
    {
        self.size_of_bounded(type_id, self.types.len())
    }

    fn size_of_bounded(&self, type_id: TypeId, depth: usize) -> (r: Result<u32, BtfError>)
        ensures
            r == self@.size_of_bounded(type_id, depth as nat),
        decreases depth,
    {
        let sid: TypeId = self.skip_mods_and_typedefs(type_id)?;
        match self.type_by_id(sid)? {
            BtfType::Int(t) => Ok((t.bits as u32 + 7) / 8),
            BtfType::Ptr(_) => Ok(self.ptr_size),
            BtfType::Array(t) => {
                if depth == 0 {
                    return Err(BtfError::UnsupportedType);
                }
                let elem: u32 = self.size_of_bounded(t.val_type_id, depth - 1)?;
                match t.nelems.checked_mul(elem) {
                    Some(size) => Ok(size),
                    None => Err(BtfError::UnsupportedType),
                }
            },
            BtfType::Struct(t) => Ok(t.size),
            BtfType::Union(t) => Ok(t.size),
            BtfType::Enum(t) => Ok(t.size),
            BtfType::Enum64(t) => Ok(t.size),
            BtfType::Var(t) => {
                if depth == 0 {
                    return Err(BtfError::UnsupportedType);
                }
                self.size_of_bounded(t.type_id, depth - 1)
            },
            BtfType::Datasec(t) => Ok(t.size),
            BtfType::Float(t) => Ok(t.size),
            _ => Err(BtfError::UnsupportedType),
        }
    }

    /// Alignment in bytes of the given type.
    pub fn align_of(&self, type_id: TypeId) -> (r: Result<u32, BtfError>)
        ensures
            r == self@.align_of(type_id),
    {
        self.align_of_bounded(type_id, self.types.len())
    }

    fn align_of_bounded(&self, type_id: TypeId, depth: usize) -> (r: Result<u32, BtfError>)
        ensures
            r == self@.align_of_bounded(type_id, depth as nat),
        decreases depth, 1nat,
    {
        let sid: TypeId = self.skip_mods_and_typedefs(type_id)?;
        let node: &BtfType = self.type_by_id(sid)?;
        self.node_align(node, depth)
    }

    pub(crate) fn node_align(&self, node: &BtfType, depth: usize) -> (r: Result<u32, BtfError>)
        ensures
            r == self@.node_align(node@, depth as nat),
        decreases depth, 0nat,
    {
        match node {
            BtfType::Int(t) => {
                let size: u32 = (t.bits as u32 + 7) / 8;
                Ok(if self.ptr_size <= size { self.ptr_size } else { size })
            },
            BtfType::Ptr(_) => Ok(self.ptr_size),
            BtfType::Array(t) => {
                if depth == 0 {
                    return Err(BtfError::UnsupportedType);
                }
                self.align_of_bounded(t.val_type_id, depth - 1)
            },
            BtfType::Struct(t) => {
                if depth == 0 {
                    return Err(BtfError::UnsupportedType);
                }
                self.members_align(&t.members, depth - 1)
            },
            BtfType::Union(t) => {
                if depth == 0 {
                    return Err(BtfError::UnsupportedType);
                }
                self.members_align(&t.members, depth - 1)
            },
            BtfType::Enum(t) => Ok(if self.ptr_size <= t.size { self.ptr_size } else { t.size }),
            BtfType::Enum64(t) => Ok(if self.ptr_size <= t.size { self.ptr_size } else { t.size }),
            BtfType::Var(t) => {
                if depth == 0 {
                    return Err(BtfError::UnsupportedType);
                }
                self.align_of_bounded(t.type_id, depth - 1)
            },
            BtfType::Datasec(t) => Ok(t.size),
            BtfType::Float(t) => Ok(if self.ptr_size <= t.size { self.ptr_size } else { t.size }),
            _ => Err(BtfError::UnsupportedType),
        }
    }

    fn members_align(&self, members: &Vec<BtfMember>, depth: usize) -> (r: Result<u32, BtfError>)
        ensures
            r == self@.members_align(
                members@.map_values(|m: BtfMember| m@),
                members@.len(),
                depth as nat,
            ),
        decreases depth, 2nat,
    {
        let ghost ms = members@.map_values(|m: BtfMember| m@);
        let mut align: u32 = 1;
        let mut i: usize = 0;
        while i < members.len()
            invariant
                i <= members.len(),
                ms == members@.map_values(|m: BtfMember| m@),
                self@.members_align(ms, i as nat, depth as nat) == Ok::<u32, BtfError>(align),
            decreases members.len() - i,
        {
            match self.align_of_bounded(members[i].type_id, depth) {
                Ok(a) => {
                    if a > align {
                        align = a;
                    }
                },
                Err(e) => {
                    proof {
                        lemma_members_align_err(
                            self@,
                            ms,
                            (i + 1) as nat,
                            members@.len(),
                            depth as nat,
                        );
                    }
                    return Err(e);
                },
            }
            i = i + 1;
        }
        Ok(align)
    }

    /// Whether the struct with the given id has to be declared packed.
    pub fn is_struct_packed(&self, struct_type_id: TypeId) -> (r: Result<bool, BtfError>)
        ensures
            r == self@.is_struct_packed(struct_type_id),
    {
        let t = match self.type_by_id(struct_type_id)? {
            BtfType::Struct(t) => t,
            _ => {
                return Ok(false);
            },
        };
        let align: u32 = self.align_of(struct_type_id)?;
        if align == 0 {
            return Err(BtfError::UnsupportedType);
        }
        if t.size % align != 0 {
            return Ok(true);
        }
        let ghost ms = t.members@.map_values(|m: BtfMember| m@);
        let mut i: usize = 0;
        while i < t.members.len()
            invariant
                i <= t.members.len(),
                ms == t.members@.map_values(|m: BtfMember| m@),
                self@.is_struct_packed(struct_type_id) == self@.members_misaligned(ms, i as nat),
            decreases t.members.len() - i,
        {
            let m = &t.members[i];
            let a: u32 = self.align_of(m.type_id)?;
            if a == 0 {
                return Err(BtfError::UnsupportedType);
            }
            if m.bit_size == 0 && (m.bit_offset as u64) % ((a as u64) * 8) != 0 {
                return Ok(true);
            }
            i = i + 1;
        }
        Ok(false)
    }

    /// Bytes of explicit padding to declare before a field of type
    /// `type_id` that starts at byte `required_offset`, when the fields
    /// declared so far end at byte `current_offset`.
    pub fn required_padding(
        &self,
        current_offset: u64,
        required_offset: u64,
        type_id: TypeId,
        packed: bool,
    ) -> (r: Result<u64, BtfError>)
        ensures
            r == self@.required_padding(current_offset, required_offset, type_id, packed),
    {
        if current_offset > required_offset {
            return Err(BtfError::UnsupportedType);
        }
        let align: u64 = if packed {
            1
        } else {
            let a: u32 = self.align_of(type_id)?;
            if a == 0 {
                return Err(BtfError::UnsupportedType);
            }
            if a > 4 {
                4
            } else {
                a as u64
            }
        };
        let gap: u64 = required_offset - current_offset;
        let rem: u64 = current_offset % align;
        let fill: u64 = if rem == 0 {
            0
        } else {
            align - rem
        };
        proof {
            lemma_round_up(current_offset as int, align as int);
        }
        if gap == fill {
            Ok(0)
        } else {
            Ok(gap)
        }
    }
}

} // verus!
