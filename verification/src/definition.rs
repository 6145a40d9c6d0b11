//! Rust definitions for structs, unions, enums and data sections, together
//! with the definitions of every such type that they mention.

use std::collections::BTreeSet;
use vstd::prelude::*;
use vstd::string::*;
use crate::btf::Btf;
use crate::error::BtfError;
use crate::layout::lemma_round_up;
use crate::layout::padding_between;
use crate::model::Composite;
use crate::model::Enum64Value;
use crate::model::EnumValue;
use crate::model::Graph;
use crate::model::Member;
use crate::model::Node;
use crate::text::decimal;
use crate::text::push_decimal;
use crate::text::push_signed_decimal;
use crate::text::signed_decimal;
use crate::text::text_of;
use crate::types::BtfComposite;
use crate::types::BtfDatasec;
use crate::types::BtfDatasecVar;
use crate::types::BtfEnum;
use crate::types::BtfEnum64;
use crate::types::BtfEnum64Value;
use crate::types::BtfEnumValue;
use crate::types::BtfMember;
use crate::types::BtfType;
use crate::types::BtfVarLinkage;
use crate::types::TypeId;

verus! {

/// An array field with more elements than this has no derived `Default`,
/// so its struct gets a `Default` impl written out.
pub const MAX_DERIVED_DEFAULT_LEN: u32 = 32;

/// The definition of one type, and the types it mentions that need a
/// definition of their own.
pub struct Definition {
    pub text: Seq<char>,
    pub deps: Seq<TypeId>,
}

/// The fields of an aggregate, as far as they have been laid out.
pub struct Fields {
    /// The field declarations, one per line.
    pub content: Seq<char>,
    /// The field initialisers of a written-out `Default` impl, one per line.
    pub defaults: Seq<char>,
    /// Whether a `Default` impl has to be written out.
    pub explicit_default: bool,
    /// The byte at which the fields so far end.
    pub offset: u32,
    /// The types to define because a field mentions them.
    pub deps: Seq<TypeId>,
}

/// The variables of a data section, as far as they have been laid out.
pub struct Slots {
    pub content: Seq<char>,
    pub offset: u32,
    pub deps: Seq<TypeId>,
}

/// The declaration of a public field.
pub open spec fn field_line(name: Seq<char>, ty: Seq<char>) -> Seq<char> {
    "    pub "@ + name + ": "@ + ty + ",\n"@
}

/// The initialiser of a field in a written-out `Default` impl.
pub open spec fn default_line(name: Seq<char>, value: Seq<char>) -> Seq<char> {
    "            "@ + name + ": "@ + value + ",\n"@
}

/// The declaration of `padding` bytes of padding at byte `offset`; nothing
/// if there is no padding.
pub open spec fn pad_field(offset: u64, padding: u64) -> Seq<char> {
    if padding == 0 {
        Seq::empty()
    } else {
        "    __pad_"@ + decimal(offset as nat) + ": [u8; "@ + decimal(padding as nat) + "],\n"@
    }
}

/// The initialiser of the padding that `pad_field` declares.
pub open spec fn pad_default(offset: u64, padding: u64) -> Seq<char> {
    if padding == 0 {
        Seq::empty()
    } else {
        "            __pad_"@ + decimal(offset as nat) + ": [u8::default(); "@ + decimal(
            padding as nat,
        ) + "],\n"@
    }
}

/// The traits that the definition of an aggregate derives: a struct
/// derives `Default` unless the impl is written out, a union neither
/// `Debug` nor `Default`.
pub open spec fn derive_line(is_struct: bool, explicit_default: bool) -> Seq<char> {
    if is_struct && !explicit_default {
        "#[derive(Debug, Default, Copy, Clone)]\n"@
    } else if is_struct {
        "#[derive(Debug, Copy, Clone)]\n"@
    } else {
        "#[derive(Copy, Clone)]\n"@
    }
}

/// The layout attribute of an aggregate.
pub open spec fn repr_line(packed: bool) -> Seq<char> {
    if packed {
        "#[repr(C, packed)]\n"@
    } else {
        "#[repr(C)]\n"@
    }
}

/// The line that opens the definition of an aggregate.
pub open spec fn aggregate_open(name: Seq<char>, is_struct: bool) -> Seq<char> {
    if is_struct {
        "pub struct "@ + name + " {\n"@
    } else {
        "pub union "@ + name + " {\n"@
    }
}

/// A `Default` impl for `name` whose value has the given field initialisers.
pub open spec fn default_impl(name: Seq<char>, body: Seq<char>) -> Seq<char> {
    "impl Default for "@ + name + " {\n    fn default() -> Self {\n        "@ + name + " {\n"@
        + body + "        }\n    }\n}\n"@
}

/// A `Debug` impl for the union `name`, which cannot say which member is
/// live.
pub open spec fn union_debug_impl(name: Seq<char>) -> Seq<char> {
    "impl std::fmt::Debug for "@ + name
        + " {\n    fn fmt(&self, f: &mut std::fmt::Formatter<'_>) -> std::fmt::Result {\n        write!(f, \"(???)\")\n    }\n}\n"@
}

/// The impls that follow the definition of an aggregate: a written-out
/// `Default` where one is needed, and for a union a `Debug` that shows no
/// member and a `Default` that sets the first.
pub open spec fn aggregate_impls(
    name: Seq<char>,
    is_struct: bool,
    explicit_default: bool,
    defaults: Seq<char>,
    first_default: Seq<char>,
) -> Seq<char> {
    if explicit_default {
        default_impl(name, defaults)
    } else if !is_struct {
        union_debug_impl(name) + default_impl(name, first_default)
    } else {
        Seq::empty()
    }
}

/// The definition of an aggregate from its parts.
pub open spec fn aggregate_text(
    name: Seq<char>,
    is_struct: bool,
    packed: bool,
    explicit_default: bool,
    content: Seq<char>,
    defaults: Seq<char>,
    first_default: Seq<char>,
) -> Seq<char> {
    derive_line(is_struct, explicit_default) + repr_line(packed) + aggregate_open(name, is_struct)
        + content + "}\n"@ + aggregate_impls(
        name,
        is_struct,
        explicit_default,
        defaults,
        first_default,
    )
}

/// The integer width for an enum of `size` bytes; 16 bytes only where
/// `wide` allows it.
pub open spec fn enum_repr(size: u32, wide: bool) -> Option<Seq<char>> {
    if size == 1 {
        Some("8"@)
    } else if size == 2 {
        Some("16"@)
    } else if size == 4 {
        Some("32"@)
    } else if size == 8 {
        Some("64"@)
    } else if size == 16 && wide {
        Some("128"@)
    } else {
        None
    }
}

/// The line of one enumerator.
pub open spec fn enum_value_line(name: Seq<char>, value: Seq<char>) -> Seq<char> {
    "    "@ + name + " = "@ + value + ",\n"@
}

/// The lines for the first `count` enumerators.
pub open spec fn enum_lines(values: Seq<EnumValue>, count: nat) -> Seq<char>
    decreases count,
{
    if count == 0 || count > values.len() {
        Seq::empty()
    } else {
        enum_lines(values, (count - 1) as nat) + enum_value_line(
            values[count - 1].name,
            signed_decimal(values[count - 1].value as int),
        )
    }
}

/// The lines for the first `count` enumerators of a 64-bit enum. Values
/// are written as unsigned numbers.
pub open spec fn enum64_lines(values: Seq<Enum64Value>, count: nat) -> Seq<char>
    decreases count,
{
    if count == 0 || count > values.len() {
        Seq::empty()
    } else {
        enum64_lines(values, (count - 1) as nat) + enum_value_line(
            values[count - 1].name,
            decimal(values[count - 1].value as nat),
        )
    }
}

/// Whether one of the first `count` enumerators is negative.
pub open spec fn any_negative(values: Seq<EnumValue>, count: nat) -> bool {
    exists|i: int| 0 <= i < count && i < values.len() && (#[trigger] values[i]).value < 0
}

/// The attributes of an enum and the line that opens its definition.
pub open spec fn enum_open(name: Seq<char>, signed: bool, repr: Seq<char>) -> Seq<char> {
    "#[derive(Debug, Copy, Clone, PartialEq, Eq)]\n#[repr("@ + (if signed {
        "i"@
    } else {
        "u"@
    }) + repr + ")]\npub enum "@ + name + " {\n"@
}

/// A `Default` impl that picks the enumerator `first`.
pub open spec fn enum_default_impl(name: Seq<char>, first: Seq<char>) -> Seq<char> {
    "#[allow(clippy::derivable_impls)]\nimpl Default for "@ + name
        + " {\n    fn default() -> Self {\n        "@ + name + "::"@ + first + "\n    }\n}\n"@
}

/// The definition of an enum from its parts. An enum without enumerators
/// gets no `Default`.
pub open spec fn enum_text(
    name: Seq<char>,
    signed: bool,
    repr: Seq<char>,
    lines: Seq<char>,
    first: Option<Seq<char>>,
) -> Seq<char> {
    enum_open(name, signed, repr) + lines + "}\n"@ + (match first {
        Some(f) => enum_default_impl(name, f),
        None => Seq::empty(),
    })
}

/// The definition of a 32-bit enum. It is signed if an enumerator is
/// negative.
#[verifier::opaque]
pub open spec fn enum_definition(name: Seq<char>, size: u32, values: Seq<EnumValue>) -> Result<
    Seq<char>,
    BtfError,
> {
    match enum_repr(size, true) {
        None => Err(BtfError::UnsupportedType),
        Some(repr) => Ok(
            enum_text(
                name,
                any_negative(values, values.len()),
                repr,
                enum_lines(values, values.len()),
                if values.len() > 0 {
                    Some(values[0].name)
                } else {
                    None
                },
            ),
        ),
    }
}

/// The definition of a 64-bit enum, signed as its record says.
#[verifier::opaque]
pub open spec fn enum64_definition(
    name: Seq<char>,
    size: u32,
    signed: bool,
    values: Seq<Enum64Value>,
) -> Result<Seq<char>, BtfError> {
    match enum_repr(size, false) {
        None => Err(BtfError::UnsupportedType),
        Some(repr) => Ok(
            enum_text(
                name,
                signed,
                repr,
                enum64_lines(values, values.len()),
                if values.len() > 0 {
                    Some(values[0].name)
                } else {
                    None
                },
            ),
        ),
    }
}

/// The struct name for a data section: the section name without its
/// leading dot. A name that does not start with a dot is refused.
pub open spec fn section_name(name: Seq<char>) -> Result<Seq<char>, BtfError> {
    if name.len() == 0 || name[0] != '.' {
        Err(BtfError::UnsupportedType)
    } else {
        Ok(name.subrange(1, name.len() as int))
    }
}

/// The attributes of the struct for a data section and the line that
/// opens its definition.
pub open spec fn datasec_open(name: Seq<char>) -> Seq<char> {
    "#[derive(Debug, Copy, Clone)]\n#[repr(C)]\npub struct "@ + name + " {\n"@
}

/// The mentioned type, if there is one, as a list.
pub open spec fn dep_seq(dep: Option<TypeId>) -> Seq<TypeId> {
    match dep {
        Some(id) => seq![id],
        None => Seq::empty(),
    }
}

/// Whether a definition can be generated for a node of this kind.
pub open spec fn is_definable(node: Node) -> bool {
    node is Struct || node is Union || node is Enum || node is Enum64 || node is Datasec
}

/// How many of the numbers below `upto` are not in `done`.
pub open spec fn pending(done: Set<int>, upto: nat) -> nat
    decreases upto,
{
    if upto == 0 {
        0
    } else {
        pending(done, (upto - 1) as nat) + if done.contains(upto - 1) {
            0nat
        } else {
            1nat
        }
    }
}

/// Marking a number below `upto` that was not marked leaves one number
/// less pending; marking any other number changes nothing.
pub proof fn lemma_pending_insert(done: Set<int>, upto: nat, x: int)
    ensures
        0 <= x < upto && !done.contains(x) ==> pending(done.insert(x), upto) + 1 == pending(
            done,
            upto,
        ),
        !(0 <= x < upto) || done.contains(x) ==> pending(done.insert(x), upto) == pending(
            done,
            upto,
        ),
    decreases upto,
{
    if upto > 0 {
        lemma_pending_insert(done, (upto - 1) as nat, x);
    }
}

impl Graph {
    /// From `id` through pointers, arrays, modifiers, typedefs and tags to
    /// the first type that needs a definition, if the chain ends in one,
    /// taking at most `fuel` steps.
    pub open spec fn next_concrete_bounded(self, id: TypeId, fuel: nat) -> Result<
        Option<TypeId>,
        BtfError,
    >
        decreases fuel,
    {
        match self.lookup(id) {
            Err(e) => Err(e),
            Ok(node) => if is_definable(node) {
                Ok(Some(id))
            } else {
                let next = match node {
                    Node::Ptr { pointee_type } => Some(pointee_type),
                    Node::Array { val_type_id, .. } => Some(val_type_id),
                    Node::Volatile { type_id } => Some(type_id),
                    Node::Const { type_id } => Some(type_id),
                    Node::Restrict { type_id } => Some(type_id),
                    Node::Typedef { type_id, .. } => Some(type_id),
                    Node::DeclTag { type_id, .. } => Some(type_id),
                    Node::TypeTag { type_id, .. } => Some(type_id),
                    _ => None,
                };
                match next {
                    None => Ok(None),
                    Some(n) => if fuel == 0 {
                        Err(BtfError::UnsupportedType)
                    } else {
                        self.next_concrete_bounded(n, (fuel - 1) as nat)
                    },
                }
            },
        }
    }

    /// The struct, union, enum or data section that a use of type `id`
    /// mentions, if it mentions one. A chain of indirections that leads
    /// back into itself is unsupported.
    pub open spec fn next_concrete(self, id: TypeId) -> Result<Option<TypeId>, BtfError> {
        self.next_concrete_bounded(id, self.step_limit())
    }

    /// Whether `id` is an array too long for a derived `Default`.
    pub open spec fn is_long_array(self, id: TypeId) -> bool {
        self.lookup(id) matches Ok(Node::Array { nelems, .. }) && nelems > MAX_DERIVED_DEFAULT_LEN
    }

    /// The explicit padding before member `m` of a struct whose fields end
    /// at `offset` so far. Unions have none.
    pub open spec fn member_padding(self, offset: u32, m: Member, is_struct: bool, packed: bool)
        -> Result<u64, BtfError> {
        if is_struct {
            self.required_padding(offset as u64, (m.bit_offset / 8) as u64, m.type_id, packed)
        } else {
            Ok(0)
        }
    }

    /// The initialiser line for a member of type `fid`. Where the type has
    /// no default value, that is an error if the `Default` impl is
    /// `needed`, and else the line is left out.
    pub open spec fn member_default(self, name: Seq<char>, fid: TypeId, needed: bool) -> Result<
        Seq<char>,
        BtfError,
    > {
        match self.default_value(fid) {
            Ok(value) => Ok(default_line(name, value)),
            Err(e) => if needed {
                Err(e)
            } else {
                Ok(Seq::empty())
            },
        }
    }

    /// The byte at which member `m` of type `fid` ends.
    pub open spec fn member_end(self, m: Member, fid: TypeId) -> Result<u32, BtfError> {
        match self.size_of(fid) {
            Err(e) => Err(e),
            Ok(size) => if m.bit_offset / 8 + size <= u32::MAX {
                Ok((m.bit_offset / 8 + size) as u32)
            } else {
                Err(BtfError::UnsupportedType)
            },
        }
    }

    /// The fields `before`, and after them member `m`.
    ///
    /// Bitfields are unsupported. In a struct, padding is declared where
    /// the member does not start where its alignment alone would put it. A
    /// member without a name is named as its type is written.
    #[verifier::opaque]
    pub open spec fn add_member(self, before: Fields, m: Member, is_struct: bool, packed: bool)
        -> Result<Fields, BtfError> {
        if m.bit_size != 0 || m.bit_offset % 8 != 0 {
            Err(BtfError::UnsupportedType)
        } else {
            match self.skip_mods(m.type_id) {
                Err(e) => Err(e),
                Ok(fid) => match self.next_concrete(fid) {
                    Err(e) => Err(e),
                    Ok(dep) => match self.member_padding(before.offset, m, is_struct, packed) {
                        Err(e) => Err(e),
                        Ok(padding) => {
                            let explicit = before.explicit_default || (is_struct
                                && self.is_long_array(fid));
                            match self.member_default(m.name, fid, explicit || !is_struct) {
                                Err(e) => Err(e),
                                Ok(default) => match self.member_end(m, fid) {
                                    Err(e) => Err(e),
                                    Ok(end) => match self.declaration(fid) {
                                        Err(e) => Err(e),
                                        Ok(decl) => Ok(
                                            Fields {
                                                content: before.content + pad_field(
                                                    before.offset as u64,
                                                    padding,
                                                ) + field_line(
                                                    if m.name.len() == 0 {
                                                        decl
                                                    } else {
                                                        m.name
                                                    },
                                                    decl,
                                                ),
                                                defaults: before.defaults + pad_default(
                                                    before.offset as u64,
                                                    padding,
                                                ) + default,
                                                explicit_default: explicit,
                                                offset: end,
                                                deps: before.deps + dep_seq(dep),
                                            },
                                        ),
                                    },
                                },
                            }
                        },
                    },
                },
            }
        }
    }

    /// The first `count` members, laid out in order.
    pub open spec fn fields(self, members: Seq<Member>, count: nat, is_struct: bool, packed: bool)
        -> Result<Fields, BtfError>
        decreases count,
    {
        if count == 0 || count > members.len() {
            Ok(
                Fields {
                    content: Seq::empty(),
                    defaults: Seq::empty(),
                    explicit_default: false,
                    offset: 0,
                    deps: Seq::empty(),
                },
            )
        } else {
            match self.fields(members, (count - 1) as nat, is_struct, packed) {
                Err(e) => Err(e),
                Ok(before) => self.add_member(before, members[count - 1], is_struct, packed),
            }
        }
    }

    /// The padding between the last field of a struct and its declared
    /// size. Unions have none.
    pub open spec fn tail_padding(self, id: TypeId, size: u32, offset: u32, is_struct: bool, packed: bool)
        -> Result<u64, BtfError> {
        if is_struct {
            self.required_padding(offset as u64, size as u64, id, packed)
        } else {
            Ok(0)
        }
    }

    /// The initialiser of the first member of a union.
    pub open spec fn first_default(self, members: Seq<Member>) -> Seq<char> {
        match self.fields(members, 1, false, false) {
            Ok(f) => f.defaults,
            Err(_) => Seq::empty(),
        }
    }

    /// The definition of the struct or union `c` with id `id`.
    ///
    /// A struct is packed if its layout shows it. Its fields are followed
    /// by padding up to its declared size. A union without members is
    /// unsupported, as its `Default` sets the first.
    #[verifier::opaque]
    pub open spec fn composite_definition(self, id: TypeId, c: Composite, is_struct: bool)
        -> Result<Definition, BtfError> {
        match self.is_struct_packed(id) {
            Err(e) => Err(e),
            Ok(packed) => match self.fields(c.members, c.members.len(), is_struct, packed) {
                Err(e) => Err(e),
                Ok(f) => match self.tail_padding(id, c.size, f.offset, is_struct, packed) {
                    Err(e) => Err(e),
                    Ok(padding) => if !is_struct && c.members.len() == 0 {
                        Err(BtfError::UnsupportedType)
                    } else {
                        Ok(
                            Definition {
                                text: aggregate_text(
                                    c.name,
                                    is_struct,
                                    packed,
                                    f.explicit_default,
                                    f.content + pad_field(f.offset as u64, padding),
                                    f.defaults + pad_default(f.offset as u64, padding),
                                    self.first_default(c.members),
                                ),
                                deps: f.deps,
                            },
                        )
                    },
                },
            },
        }
    }

    /// The padding before a variable of type `id` that a data section
    /// places at byte `required`, when the variables before it end at
    /// `current`. Variables are aligned as their type is.
    pub open spec fn slot_padding(self, current: u32, required: u32, id: TypeId) -> Result<
        u64,
        BtfError,
    > {
        if current > required {
            Err(BtfError::UnsupportedType)
        } else {
            match self.align_of(id) {
                Err(e) => Err(e),
                Ok(a) => if a == 0 {
                    Err(BtfError::UnsupportedType)
                } else {
                    Ok(padding_between(current as int, required as int, a as int) as u64)
                },
            }
        }
    }

    /// The slots `before`, and after them the variable in slot `v`. A
    /// static variable has no field; a slot that holds no variable is
    /// unsupported.
    #[verifier::opaque]
    pub open spec fn add_slot(self, before: Slots, v: BtfDatasecVar) -> Result<Slots, BtfError> {
        match self.lookup(v.type_id) {
            Err(e) => Err(e),
            Ok(node) => match node {
                Node::Var { name, type_id, linkage } => if linkage == BtfVarLinkage::Static {
                    Ok(before)
                } else {
                    match self.next_concrete(type_id) {
                        Err(e) => Err(e),
                        Ok(dep) => match self.slot_padding(before.offset, v.offset, type_id) {
                            Err(e) => Err(e),
                            Ok(padding) => if v.offset + v.size > u32::MAX {
                                Err(BtfError::UnsupportedType)
                            } else {
                                match self.declaration(type_id) {
                                    Err(e) => Err(e),
                                    Ok(decl) => Ok(
                                        Slots {
                                            content: before.content + pad_field(
                                                before.offset as u64,
                                                padding,
                                            ) + field_line(name, decl),
                                            offset: (v.offset + v.size) as u32,
                                            deps: before.deps + dep_seq(dep),
                                        },
                                    ),
                                }
                            },
                        },
                    }
                },
                _ => Err(BtfError::UnsupportedType),
            },
        }
    }

    /// The first `count` slots of a data section, laid out in order.
    pub open spec fn slots(self, vars: Seq<BtfDatasecVar>, count: nat) -> Result<Slots, BtfError>
        decreases count,
    {
        if count == 0 || count > vars.len() {
            Ok(Slots { content: Seq::empty(), offset: 0, deps: Seq::empty() })
        } else {
            match self.slots(vars, (count - 1) as nat) {
                Err(e) => Err(e),
                Ok(before) => self.add_slot(before, vars[count - 1]),
            }
        }
    }

    /// The definition of a data section as a struct of its variables.
    #[verifier::opaque]
    pub open spec fn datasec_definition(self, name: Seq<char>, vars: Seq<BtfDatasecVar>) -> Result<
        Definition,
        BtfError,
    > {
        match section_name(name) {
            Err(e) => Err(e),
            Ok(sec) => match self.slots(vars, vars.len()) {
                Err(e) => Err(e),
                Ok(s) => Ok(
                    Definition { text: datasec_open(sec) + s.content + "}\n"@, deps: s.deps },
                ),
            },
        }
    }

    /// The definition of type `id` alone.
    #[verifier::opaque]
    pub open spec fn definition_of(self, id: TypeId) -> Result<Definition, BtfError> {
        match self.lookup(id) {
            Err(e) => Err(e),
            Ok(node) => match node {
                Node::Struct(c) => self.composite_definition(id, c, true),
                Node::Union(c) => self.composite_definition(id, c, false),
                Node::Enum { name, size, values } => match enum_definition(name, size, values) {
                    Err(e) => Err(e),
                    Ok(text) => Ok(Definition { text, deps: Seq::empty() }),
                },
                Node::Enum64 { name, size, signed, values } => match enum64_definition(
                    name,
                    size,
                    signed,
                    values,
                ) {
                    Err(e) => Err(e),
                    Ok(text) => Ok(Definition { text, deps: Seq::empty() }),
                },
                Node::Datasec { name, vars, .. } => self.datasec_definition(name, vars),
                _ => Err(BtfError::UnsupportedType),
            },
        }
    }

    /// The definitions of the types in `queue`, in order, each followed in
    /// turn by those of the types it mentions, without the types in `done`
    /// and with every type defined once.
    pub open spec fn definitions(self, queue: Seq<TypeId>, done: Set<int>) -> Result<
        Seq<char>,
        BtfError,
    >
        decreases pending(done, self.types.len()), queue.len(),
    {
        if queue.len() == 0 {
            Ok(Seq::empty())
        } else {
            let id = queue[0];
            if done.contains(id.0 as int) {
                self.definitions(queue.remove(0), done)
            } else if id.0 >= self.types.len() {
                Err(BtfError::NotFound)
            } else {
                match self.definition_of(id) {
                    Err(e) => Err(e),
                    Ok(d) => {
                        proof {
                            lemma_pending_insert(done, self.types.len(), id.0 as int);
                        }
                        match self.definitions(queue.remove(0) + d.deps, done.insert(id.0 as int)) {
                            Err(e) => Err(e),
                            Ok(rest) => Ok(d.text + rest),
                        }
                    },
                }
            }
        }
    }

    /// The Rust definition of the struct, union, enum or data section
    /// `id`, followed by the definitions of all such types that it needs,
    /// breadth first and each once. The text is a function of the graph and
    /// the id alone.
    pub open spec fn type_definition(self, id: TypeId) -> Result<Seq<char>, BtfError> {
        match self.lookup(id) {
            Err(e) => Err(e),
            Ok(node) => if is_definable(node) {
                self.definitions(seq![id], Set::empty())
            } else {
                Err(BtfError::UnsupportedType)
            },
        }
    }
}

fn field_line_string(name: &str, ty: &str) -> (r: String)
    ensures
        r@ == field_line(name@, ty@),
{
    let mut out = String::from_str("    pub ");
    out.append(name);
    out.append(": ");
    out.append(ty);
    out.append(",\n");
    out
}

fn default_line_string(name: &str, value: &str) -> (r: String)
    ensures
        r@ == default_line(name@, value@),
{
    let mut out = String::from_str("            ");
    out.append(name);
    out.append(": ");
    out.append(value);
    out.append(",\n");
    out
}

fn pad_field_string(offset: u64, padding: u64) -> (r: String)
    ensures
        r@ == pad_field(offset, padding),
{
    if padding == 0 {
        String::new()
    } else {
        let mut out = String::from_str("    __pad_");
        push_decimal(&mut out, offset);
        out.append(": [u8; ");
        push_decimal(&mut out, padding);
        out.append("],\n");
        out
    }
}

fn pad_default_string(offset: u64, padding: u64) -> (r: String)
    ensures
        r@ == pad_default(offset, padding),
{
    if padding == 0 {
        String::new()
    } else {
        let mut out = String::from_str("            __pad_");
        push_decimal(&mut out, offset);
        out.append(": [u8::default(); ");
        push_decimal(&mut out, padding);
        out.append("],\n");
        out
    }
}

fn default_impl_string(name: &str, body: &str) -> (r: String)
    ensures
        r@ == default_impl(name@, body@),
{
    let mut out = String::from_str("impl Default for ");
    out.append(name);
    out.append(" {\n    fn default() -> Self {\n        ");
    out.append(name);
    out.append(" {\n");
    out.append(body);
    out.append("        }\n    }\n}\n");
    out
}

fn aggregate_impls_string(
    name: &str,
    is_struct: bool,
    explicit_default: bool,
    defaults: &str,
    first_default: &str,
) -> (r: String)
    ensures
        r@ == aggregate_impls(name@, is_struct, explicit_default, defaults@, first_default@),
{
    if explicit_default {
        default_impl_string(name, defaults)
    } else if !is_struct {
        let mut out = String::from_str("impl std::fmt::Debug for ");
        out.append(name);
        out.append(
            " {\n    fn fmt(&self, f: &mut std::fmt::Formatter<'_>) -> std::fmt::Result {\n        write!(f, \"(???)\")\n    }\n}\n",
        );
        let default = default_impl_string(name, first_default);
        out.append(default.as_str());
        out
    } else {
        String::new()
    }
}

fn aggregate_string(
    name: &str,
    is_struct: bool,
    packed: bool,
    explicit_default: bool,
    content: &str,
    defaults: &str,
    first_default: &str,
) -> (r: String)
    ensures
        r@ == aggregate_text(
            name@,
            is_struct,
            packed,
            explicit_default,
            content@,
            defaults@,
            first_default@,
        ),
{
    let mut out = String::from_str(
        if is_struct && !explicit_default {
            "#[derive(Debug, Default, Copy, Clone)]\n"
        } else if is_struct {
            "#[derive(Debug, Copy, Clone)]\n"
        } else {
            "#[derive(Copy, Clone)]\n"
        },
    );
    out.append(if packed {
        "#[repr(C, packed)]\n"
    } else {
        "#[repr(C)]\n"
    });
    let mut open = String::from_str(if is_struct {
        "pub struct "
    } else {
        "pub union "
    });
    open.append(name);
    open.append(" {\n");
    out.append(open.as_str());
    out.append(content);
    out.append("}\n");
    let impls = aggregate_impls_string(name, is_struct, explicit_default, defaults, first_default);
    out.append(impls.as_str());
    out
}

fn enum_value_line_string(name: &str, value: &str) -> (r: String)
    ensures
        r@ == enum_value_line(name@, value@),
{
    let mut out = String::from_str("    ");
    out.append(name);
    out.append(" = ");
    out.append(value);
    out.append(",\n");
    out
}

fn enum_string(name: &str, signed: bool, repr: &str, lines: &str, first: Option<&str>) -> (r: String)
    ensures
        r@ == enum_text(
            name@,
            signed,
            repr@,
            lines@,
            match first {
                Some(f) => Some(f@),
                None => None,
            },
        ),
{
    let mut open = String::from_str("#[derive(Debug, Copy, Clone, PartialEq, Eq)]\n#[repr(");
    open.append(if signed {
        "i"
    } else {
        "u"
    });
    open.append(repr);
    open.append(")]\npub enum ");
    open.append(name);
    open.append(" {\n");
    let mut out = open;
    out.append(lines);
    out.append("}\n");
    match first {
        Some(f) => {
            let mut default = String::from_str(
                "#[allow(clippy::derivable_impls)]\nimpl Default for ",
            );
            default.append(name);
            default.append(" {\n    fn default() -> Self {\n        ");
            default.append(name);
            default.append("::");
            default.append(f);
            default.append("\n    }\n}\n");
            out.append(default.as_str());
        },
        None => {
            assert(out@ + Seq::<char>::empty() =~= out@);
        },
    }
    out
}

fn enum_repr_str(size: u32, wide: bool) -> (r: Option<&'static str>)
    ensures
        match r {
            Some(s) => enum_repr(size, wide) == Some(s@),
            None => enum_repr(size, wide) is None,
        },
{
    if size == 1 {
        Some("8")
    } else if size == 2 {
        Some("16")
    } else if size == 4 {
        Some("32")
    } else if size == 8 {
        Some("64")
    } else if size == 16 && wide {
        Some("128")
    } else {
        None
    }
}

fn enum_definition_string(t: &BtfEnum) -> (r: Result<String, BtfError>)
    ensures
        text_of(r) == enum_definition(
            t.name@,
            t.size,
            t.values@.map_values(|v: BtfEnumValue| v@),
        ),
{
    reveal(enum_definition);
    let repr: &'static str = match enum_repr_str(t.size, true) {
        Some(s) => s,
        None => {
            return Err(BtfError::UnsupportedType);
        },
    };
    let ghost values = t.values@.map_values(|v: BtfEnumValue| v@);
    let mut signed: bool = false;
    let mut lines = String::new();
    let mut i: usize = 0;
    while i < t.values.len()
        invariant
            i <= t.values.len(),
            values == t.values@.map_values(|v: BtfEnumValue| v@),
            signed == any_negative(values, i as nat),
            lines@ == enum_lines(values, i as nat),
        decreases t.values.len() - i,
    {
        let v = &t.values[i];
        proof {
            let now = values[i as int];
            assert(now.value == v.value);
            assert(any_negative(values, (i + 1) as nat) == (any_negative(values, i as nat)
                || now.value < 0));
        }
        if v.value < 0 {
            signed = true;
        }
        let mut number = String::new();
        push_signed_decimal(&mut number, v.value);
        assert(number@ =~= signed_decimal(v.value as int));
        let line = enum_value_line_string(v.name.as_str(), number.as_str());
        lines.append(line.as_str());
        i = i + 1;
    }
    let first: Option<&str> = if t.values.len() > 0 {
        Some(t.values[0].name.as_str())
    } else {
        None
    };
    Ok(enum_string(t.name.as_str(), signed, repr, lines.as_str(), first))
}

fn enum64_definition_string(t: &BtfEnum64) -> (r: Result<String, BtfError>)
    ensures
        text_of(r) == enum64_definition(
            t.name@,
            t.size,
            t.signed,
            t.values@.map_values(|v: BtfEnum64Value| v@),
        ),
{
    reveal(enum64_definition);
    let repr: &'static str = match enum_repr_str(t.size, false) {
        Some(s) => s,
        None => {
            return Err(BtfError::UnsupportedType);
        },
    };
    let ghost values = t.values@.map_values(|v: BtfEnum64Value| v@);
    let mut lines = String::new();
    let mut i: usize = 0;
    while i < t.values.len()
        invariant
            i <= t.values.len(),
            values == t.values@.map_values(|v: BtfEnum64Value| v@),
            lines@ == enum64_lines(values, i as nat),
        decreases t.values.len() - i,
    {
        let v = &t.values[i];
        let mut number = String::new();
        push_decimal(&mut number, v.value);
        assert(number@ =~= decimal(v.value as nat));
        let line = enum_value_line_string(v.name.as_str(), number.as_str());
        lines.append(line.as_str());
        i = i + 1;
    }
    let first: Option<&str> = if t.values.len() > 0 {
        Some(t.values[0].name.as_str())
    } else {
        None
    };
    Ok(enum_string(t.name.as_str(), t.signed, repr, lines.as_str(), first))
}

struct FieldsBuf {
    content: String,
    defaults: String,
    explicit_default: bool,
    offset: u32,
    deps: Vec<TypeId>,
}

impl View for FieldsBuf {
    type V = Fields;

    closed spec fn view(&self) -> Fields {
        Fields {
            content: self.content@,
            defaults: self.defaults@,
            explicit_default: self.explicit_default,
            offset: self.offset,
            deps: self.deps@,
        }
    }
}

struct SlotsBuf {
    content: String,
    offset: u32,
    deps: Vec<TypeId>,
}

impl View for SlotsBuf {
    type V = Slots;

    closed spec fn view(&self) -> Slots {
        Slots { content: self.content@, offset: self.offset, deps: self.deps@ }
    }
}

/// An error among the first members is the error of the whole aggregate.
proof fn lemma_fields_err(
    g: Graph,
    members: Seq<Member>,
    at: nat,
    count: nat,
    is_struct: bool,
    packed: bool,
)
    requires
        at <= count <= members.len(),
        g.fields(members, at, is_struct, packed) is Err,
    ensures
        g.fields(members, count, is_struct, packed) == g.fields(members, at, is_struct, packed),
    decreases count - at,
{
    if at < count {
        lemma_fields_err(g, members, at, (count - 1) as nat, is_struct, packed);
    }
}

/// An error among the first slots is the error of the whole section.
proof fn lemma_slots_err(g: Graph, vars: Seq<BtfDatasecVar>, at: nat, count: nat)
    requires
        at <= count <= vars.len(),
        g.slots(vars, at) is Err,
    ensures
        g.slots(vars, count) == g.slots(vars, at),
    decreases count - at,
{
    if at < count {
        lemma_slots_err(g, vars, at, (count - 1) as nat);
    }
}

impl Btf {
    fn next_concrete(&self, id: TypeId) -> (r: Result<Option<TypeId>, BtfError>)
        ensures
            r == self@.next_concrete(id),
    {
        let limit: usize = self.types.len();
        let mut cur: TypeId = id;
        let mut steps: usize = 0;
        loop
            invariant
                limit == self@.types.len(),
                steps <= limit,
                self@.next_concrete(id) == self@.next_concrete_bounded(
                    cur,
                    (limit - steps) as nat,
                ),
            decreases limit - steps,
        {
            let next: TypeId = match self.type_by_id(cur)? {
                BtfType::Struct(_) => {
                    return Ok(Some(cur));
                },
                BtfType::Union(_) => {
                    return Ok(Some(cur));
                },
                BtfType::Enum(_) => {
                    return Ok(Some(cur));
                },
                BtfType::Enum64(_) => {
                    return Ok(Some(cur));
                },
                BtfType::Datasec(_) => {
                    return Ok(Some(cur));
                },
                BtfType::Ptr(t) => t.pointee_type,
                BtfType::Array(t) => t.val_type_id,
                BtfType::Volatile(t) => t.type_id,
                BtfType::Const(t) => t.type_id,
                BtfType::Restrict(t) => t.type_id,
                BtfType::Typedef(t) => t.type_id,
                BtfType::DeclTag(t) => t.type_id,
                BtfType::TypeTag(t) => t.type_id,
                _ => {
                    return Ok(None);
                },
            };
            if steps == limit {
                return Err(BtfError::UnsupportedType);
            }
            steps = steps + 1;
            cur = next;
        }
    }

    fn add_member(&self, before: FieldsBuf, m: &BtfMember, is_struct: bool, packed: bool) -> (r:
        Result<FieldsBuf, BtfError>)
        ensures
            match r {
                Ok(f) => self@.add_member(before@, m@, is_struct, packed) == Ok::<Fields, BtfError>(
                    f@,
                ),
                Err(e) => self@.add_member(before@, m@, is_struct, packed) == Err::<Fields, BtfError>(
                    e,
                ),
            },
    {
        reveal(Graph::add_member);
        if m.bit_size != 0 || m.bit_offset % 8 != 0 {
            return Err(BtfError::UnsupportedType);
        }
        let fid: TypeId = self.skip_mods_and_typedefs(m.type_id)?;
        let dep: Option<TypeId> = self.next_concrete(fid)?;
        let padding: u64 = if is_struct {
            self.required_padding(
                before.offset as u64,
                (m.bit_offset / 8) as u64,
                m.type_id,
                packed,
            )?
        } else {
            0
        };
        let long_array: bool = match self.type_by_id(fid) {
            Ok(BtfType::Array(ft)) => ft.nelems > MAX_DERIVED_DEFAULT_LEN,
            _ => false,
        };
        let explicit: bool = before.explicit_default || (is_struct && long_array);
        let default: String = match self.type_default(fid) {
            Ok(value) => default_line_string(m.name.as_str(), value.as_str()),
            Err(e) => {
                if explicit || !is_struct {
                    return Err(e);
                }
                String::new()
            },
        };
        let size: u32 = self.size_of(fid)?;
        let end: u32 = match (m.bit_offset / 8).checked_add(size) {
            Some(end) => end,
            None => {
                return Err(BtfError::UnsupportedType);
            },
        };
        let decl: String = self.type_declaration(fid)?;
        let line: String = if m.name.as_str().is_empty() {
            field_line_string(decl.as_str(), decl.as_str())
        } else {
            field_line_string(m.name.as_str(), decl.as_str())
        };
        let pad: String = pad_field_string(before.offset as u64, padding);
        let pad_init: String = pad_default_string(before.offset as u64, padding);
        let mut content: String = before.content;
        content.append(pad.as_str());
        content.append(line.as_str());
        let mut defaults: String = before.defaults;
        defaults.append(pad_init.as_str());
        defaults.append(default.as_str());
        let mut deps: Vec<TypeId> = before.deps;
        match dep {
            Some(d) => {
                deps.push(d);
            },
            None => {},
        }
        assert(deps@ =~= before@.deps + dep_seq(dep));
        Ok(FieldsBuf { content, defaults, explicit_default: explicit, offset: end, deps })
    }

    fn composite_definition(&self, id: TypeId, c: &BtfComposite, is_struct: bool) -> (r: Result<
        (String, Vec<TypeId>),
        BtfError,
    >)
        requires
            self@.lookup(id) == Ok::<Node, BtfError>(
                if is_struct {
                    Node::Struct(c@)
                } else {
                    Node::Union(c@)
                },
            ),
        ensures
            match r {
                Ok(d) => self@.composite_definition(id, c@, is_struct) == Ok::<Definition, BtfError>(
                    Definition { text: d.0@, deps: d.1@ },
                ),
                Err(e) => self@.composite_definition(id, c@, is_struct) == Err::<
                    Definition,
                    BtfError,
                >(e),
            },
    {
        reveal(Graph::composite_definition);
        let packed: bool = self.is_struct_packed(id)?;
        let ghost members = c@.members;
        let mut buf = FieldsBuf {
            content: String::new(),
            defaults: String::new(),
            explicit_default: false,
            offset: 0,
            deps: Vec::new(),
        };
        let mut first_default: String = String::new();
        let mut i: usize = 0;
        while i < c.members.len()
            invariant
                i <= c.members.len(),
                members == c@.members,
                members.len() == c.members.len(),
                self@.is_struct_packed(id) == Ok::<bool, BtfError>(packed),
                self@.fields(members, i as nat, is_struct, packed) == Ok::<Fields, BtfError>(buf@),
                i >= 1 ==> (self@.fields(members, 1, is_struct, packed) matches Ok(f)
                    && first_default@ == f.defaults),
            decreases c.members.len() - i,
        {
            match self.add_member(buf, &c.members[i], is_struct, packed) {
                Ok(next) => {
                    buf = next;
                },
                Err(e) => {
                    proof {
                        reveal(Graph::composite_definition);
                        lemma_fields_err(
                            self@,
                            members,
                            (i + 1) as nat,
                            members.len(),
                            is_struct,
                            packed,
                        );
                    }
                    return Err(e);
                },
            }
            if i == 0 {
                first_default = buf.defaults.clone();
            }
            i = i + 1;
        }
        let padding: u64 = if is_struct {
            self.required_padding(buf.offset as u64, c.size as u64, id, packed)?
        } else {
            0
        };
        if !is_struct && c.members.len() == 0 {
            return Err(BtfError::UnsupportedType);
        }
        let pad: String = pad_field_string(buf.offset as u64, padding);
        let pad_init: String = pad_default_string(buf.offset as u64, padding);
        let mut content: String = buf.content;
        content.append(pad.as_str());
        let mut defaults: String = buf.defaults;
        defaults.append(pad_init.as_str());
        let text: String = aggregate_string(
            c.name.as_str(),
            is_struct,
            packed,
            buf.explicit_default,
            content.as_str(),
            defaults.as_str(),
            first_default.as_str(),
        );
        proof {
            if !is_struct {
                assert(!packed);
                assert(first_default@ == self@.first_default(members));
            }
            assert(aggregate_impls(
                c.name@,
                is_struct,
                buf.explicit_default,
                defaults@,
                first_default@,
            ) == aggregate_impls(
                c.name@,
                is_struct,
                buf.explicit_default,
                defaults@,
                self@.first_default(members),
            ));
        }
        Ok((text, buf.deps))
    }
}

/// The text so far, followed by what is still to come.
spec fn followed_by(text: Seq<char>, rest: Result<Seq<char>, BtfError>) -> Result<Seq<char>, BtfError> {
    match rest {
        Ok(r) => Ok(text + r),
        Err(e) => Err(e),
    }
}

fn section_name_string(name: &str) -> (r: Result<&str, BtfError>)
    ensures
        match r {
            Ok(s) => section_name(name@) == Ok::<Seq<char>, BtfError>(s@),
            Err(e) => section_name(name@) == Err::<Seq<char>, BtfError>(e),
        },
{
    let len: usize = name.unicode_len();
    if len == 0 || name.get_char(0) != '.' {
        Err(BtfError::UnsupportedType)
    } else {
        Ok(name.substring_char(1, len))
    }
}

impl Btf {
    fn slot_padding(&self, current: u32, required: u32, id: TypeId) -> (r: Result<u64, BtfError>)
        ensures
            r == self@.slot_padding(current, required, id),
    {
        if current > required {
            return Err(BtfError::UnsupportedType);
        }
        let align: u32 = self.align_of(id)?;
        if align == 0 {
            return Err(BtfError::UnsupportedType);
        }
        let gap: u32 = required - current;
        let rem: u32 = current % align;
        let fill: u32 = if rem == 0 {
            0
        } else {
            align - rem
        };
        proof {
            lemma_round_up(current as int, align as int);
        }
        if gap == fill {
            Ok(0)
        } else {
            Ok(gap as u64)
        }
    }

    fn add_slot(&self, before: SlotsBuf, v: &BtfDatasecVar) -> (r: Result<SlotsBuf, BtfError>)
        ensures
            match r {
                Ok(s) => self@.add_slot(before@, *v) == Ok::<Slots, BtfError>(s@),
                Err(e) => self@.add_slot(before@, *v) == Err::<Slots, BtfError>(e),
            },
    {
        reveal(Graph::add_slot);
        let var = match self.type_by_id(v.type_id)? {
            BtfType::Var(var) => var,
            _ => {
                return Err(BtfError::UnsupportedType);
            },
        };
        match var.linkage {
            BtfVarLinkage::Static => {
                return Ok(before);
            },
            _ => {},
        }
        let dep: Option<TypeId> = self.next_concrete(var.type_id)?;
        let padding: u64 = self.slot_padding(before.offset, v.offset, var.type_id)?;
        let end: u32 = match v.offset.checked_add(v.size) {
            Some(end) => end,
            None => {
                return Err(BtfError::UnsupportedType);
            },
        };
        let decl: String = self.type_declaration(var.type_id)?;
        let line: String = field_line_string(var.name.as_str(), decl.as_str());
        let pad: String = pad_field_string(before.offset as u64, padding);
        let mut content: String = before.content;
        content.append(pad.as_str());
        content.append(line.as_str());
        let mut deps: Vec<TypeId> = before.deps;
        match dep {
            Some(d) => {
                deps.push(d);
            },
            None => {},
        }
        assert(deps@ =~= before@.deps + dep_seq(dep));
        Ok(SlotsBuf { content, offset: end, deps })
    }

    fn datasec_definition(&self, t: &BtfDatasec) -> (r: Result<(String, Vec<TypeId>), BtfError>)
        ensures
            match r {
                Ok(d) => self@.datasec_definition(t.name@, t.vars@) == Ok::<Definition, BtfError>(
                    Definition { text: d.0@, deps: d.1@ },
                ),
                Err(e) => self@.datasec_definition(t.name@, t.vars@) == Err::<Definition, BtfError>(
                    e,
                ),
            },
    {
        reveal(Graph::datasec_definition);
        let sec: &str = section_name_string(t.name.as_str())?;
        let mut buf = SlotsBuf { content: String::new(), offset: 0, deps: Vec::new() };
        let mut i: usize = 0;
        while i < t.vars.len()
            invariant
                i <= t.vars.len(),
                section_name(t.name@) == Ok::<Seq<char>, BtfError>(sec@),
                self@.slots(t.vars@, i as nat) == Ok::<Slots, BtfError>(buf@),
            decreases t.vars.len() - i,
        {
            match self.add_slot(buf, &t.vars[i]) {
                Ok(next) => {
                    buf = next;
                },
                Err(e) => {
                    proof {
                        reveal(Graph::datasec_definition);
                        lemma_slots_err(self@, t.vars@, (i + 1) as nat, t.vars@.len());
                    }
                    return Err(e);
                },
            }
            i = i + 1;
        }
        let mut open = String::from_str(
            "#[derive(Debug, Copy, Clone)]\n#[repr(C)]\npub struct ",
        );
        open.append(sec);
        open.append(" {\n");
        let mut text: String = open;
        text.append(buf.content.as_str());
        text.append("}\n");
        Ok((text, buf.deps))
    }

    fn definition_of(&self, id: TypeId) -> (r: Result<(String, Vec<TypeId>), BtfError>)
        ensures
            match r {
                Ok(d) => self@.definition_of(id) == Ok::<Definition, BtfError>(
                    Definition { text: d.0@, deps: d.1@ },
                ),
                Err(e) => self@.definition_of(id) == Err::<Definition, BtfError>(e),
            },
    {
        reveal(Graph::definition_of);
        match self.type_by_id(id)? {
            BtfType::Struct(t) => self.composite_definition(id, t, true),
            BtfType::Union(t) => self.composite_definition(id, t, false),
            BtfType::Enum(t) => {
                let text: String = enum_definition_string(t)?;
                Ok((text, Vec::new()))
            },
            BtfType::Enum64(t) => {
                let text: String = enum64_definition_string(t)?;
                Ok((text, Vec::new()))
            },
            BtfType::Datasec(t) => self.datasec_definition(t),
            _ => Err(BtfError::UnsupportedType),
        }
    }

    /// The Rust definition of the given struct, union, enum or data
    /// section, followed by the definitions of the types it depends on.
    pub fn type_definition(&self, type_id: TypeId) -> (r: Result<String, BtfError>)
        ensures
            text_of(r) == self@.type_definition(type_id),
    {
        match self.type_by_id(type_id)? {
            BtfType::Struct(_) => {},
            BtfType::Union(_) => {},
            BtfType::Enum(_) => {},
            BtfType::Enum64(_) => {},
            BtfType::Datasec(_) => {},
            _ => {
                return Err(BtfError::UnsupportedType);
            },
        }
        let count: usize = self.types.len();
        let mut def: String = String::new();
        let mut queue: Vec<TypeId> = Vec::new();
        queue.push(type_id);
        let mut processed: BTreeSet<u32> = BTreeSet::new();
        let ghost mut done: Set<int> = Set::empty();
        proof {
            assert(queue@ =~= seq![type_id]);
            lemma_followed_by_nothing(def@, self@.definitions(queue@, done));
        }
        while queue.len() > 0
            invariant
                count == self@.types.len(),
                forall|x: u32| processed@.contains(x) == done.contains(x as int),
                forall|x: int| done.contains(x) ==> 0 <= x < count,
                followed_by(def@, self@.definitions(queue@, done)) == self@.type_definition(
                    type_id,
                ),
            decreases pending(done, count as nat), queue.len(),
        {
            let ghost before = queue@;
            let ghost text_before = def@;
            proof {
                lemma_definitions_unfold(self@, before, done);
            }
            let id: TypeId = queue.remove(0);
            if (id.0 as usize) >= count {
                return Err(BtfError::NotFound);
            }
            if !processed.contains(&id.0) {
                let (text, mut deps) = match self.definition_of(id) {
                    Ok(d) => d,
                    Err(e) => {
                        return Err(e);
                    },
                };
                proof {
                    lemma_pending_insert(done, count as nat, id.0 as int);
                    lemma_followed_by_more(
                        text_before,
                        text@,
                        self@.definitions(before.remove(0) + deps@, done.insert(id.0 as int)),
                    );
                    done = done.insert(id.0 as int);
                }
                processed.insert(id.0);
                def.append(text.as_str());
                queue.append(&mut deps);
            }
        }
        proof {
            lemma_definitions_unfold(self@, queue@, done);
            assert(def@ + Seq::<char>::empty() =~= def@);
        }
        Ok(def)
    }
}

/// One step of `definitions`.
proof fn lemma_definitions_unfold(g: Graph, queue: Seq<TypeId>, done: Set<int>)
    ensures
        g.definitions(queue, done) == if queue.len() == 0 {
            Ok::<Seq<char>, BtfError>(Seq::empty())
        } else if done.contains(queue[0].0 as int) {
            g.definitions(queue.remove(0), done)
        } else if queue[0].0 >= g.types.len() {
            Err(BtfError::NotFound)
        } else {
            match g.definition_of(queue[0]) {
                Err(e) => Err(e),
                Ok(d) => followed_by(
                    d.text,
                    g.definitions(queue.remove(0) + d.deps, done.insert(queue[0].0 as int)),
                ),
            }
        },
{
}

proof fn lemma_followed_by_nothing(text: Seq<char>, rest: Result<Seq<char>, BtfError>)
    requires
        text.len() == 0,
    ensures
        followed_by(text, rest) == rest,
{
    match rest {
        Ok(t) => {
            assert(text + t =~= t);
        },
        Err(_) => {},
    }
}

proof fn lemma_followed_by_more(
    text: Seq<char>,
    more: Seq<char>,
    rest: Result<Seq<char>, BtfError>,
)
    ensures
        followed_by(text, followed_by(more, rest)) == followed_by(text + more, rest),
{
    match rest {
        Ok(t) => {
            assert((text + more) + t =~= text + (more + t));
        },
        Err(_) => {},
    }
}

} // verus!
