//! Properties of the layout queries, the decoder and the generated
//! definitions that hold for every graph.

use vstd::prelude::*;
use crate::btf::Btf;
use crate::definition::lemma_pending_insert;
use crate::definition::pending;
use crate::error::BtfError;
use crate::kind::BtfKind;
use crate::layout::padding_between;
use crate::kind::spec_kind;
use crate::loader::anon_name;
use crate::loader::header_at;
use crate::loader::node_at;
use crate::loader::record_len;
use crate::loader::records;
use crate::loader::type_table;
use crate::model::Composite;
use crate::model::Graph;
use crate::model::Member;
use crate::model::Node;
use crate::section::decode;
use crate::text::decimal;
use crate::text::digit;
use crate::types::TypeId;
use crate::wire::str_at;

verus! {

/// Whether a node is of a kind whose record declares the type's size.
pub open spec fn declares_size(node: Node) -> bool {
    node is Struct || node is Union || node is Enum || node is Enum64 || node is Datasec
        || node is Float
}

/// The size that the record of a node declares.
pub open spec fn declared_size(node: Node) -> u32 {
    match node {
        Node::Struct(c) => c.size,
        Node::Union(c) => c.size,
        Node::Enum { size, .. } => size,
        Node::Enum64 { size, .. } => size,
        Node::Datasec { size, .. } => size,
        Node::Float { size, .. } => size,
        _ => 0,
    }
}

/// The size of a struct, union, enum, float or data section is the size
/// that its record declares, whatever its members are.
pub proof fn lemma_size_is_declared_size(g: Graph, id: TypeId)
    requires
        g.lookup(id) is Ok,
        declares_size(g.lookup(id)->Ok_0),
    ensures
        g.size_of(id) == Ok::<u32, BtfError>(declared_size(g.lookup(id)->Ok_0)),
{
    assert(g.skip_mods(id) == Ok::<TypeId, BtfError>(id));
}

/// Void, forward declarations, functions, function prototypes and
/// declaration tags have no size.
pub proof fn lemma_unsized_kinds(g: Graph, id: TypeId)
    requires
        g.lookup(id) is Ok,
        ({
            let node = g.lookup(id)->Ok_0;
            node is Void || node is Fwd || node is Func || node is FuncProto || node is DeclTag
        }),
    ensures
        g.size_of(id) == Err::<u32, BtfError>(BtfError::UnsupportedType),
{
    assert(g.skip_mods(id) == Ok::<TypeId, BtfError>(id));
}

/// Stripping modifiers and typedefs ends at a type of the graph that is
/// neither.
pub proof fn lemma_skip_mods_strips_all(g: Graph, id: TypeId, fuel: nat)
    requires
        g.skip_mods_bounded(id, fuel) is Ok,
    ensures
        g.lookup(g.skip_mods_bounded(id, fuel)->Ok_0) is Ok,
        g.lookup(g.skip_mods_bounded(id, fuel)->Ok_0)->Ok_0.wrapped() is None,
    decreases fuel,
{
    let node = g.lookup(id)->Ok_0;
    match node.wrapped() {
        None => {},
        Some(next) => {
            lemma_skip_mods_strips_all(g, next, (fuel - 1) as nat);
        },
    }
}

/// A type that is neither modifier nor typedef is what stripping leaves of
/// it.
pub proof fn lemma_skip_mods_fixes_plain_types(g: Graph, id: TypeId)
    requires
        g.lookup(id) is Ok,
        g.lookup(id)->Ok_0.wrapped() is None,
    ensures
        g.skip_mods(id) == Ok::<TypeId, BtfError>(id),
{
}

/// Explicit padding never exceeds the gap it is to fill.
pub proof fn lemma_padding_within_gap(current: int, required: int, align: int)
    requires
        0 <= current <= required,
        1 <= align,
    ensures
        0 <= padding_between(current, required, align) <= required - current,
{
}

/// Whether member `m` is not a bitfield and sits at a bit offset that is
/// no multiple of its alignment.
pub open spec fn misaligned(g: Graph, m: Member) -> bool {
    g.align_of(m.type_id) matches Ok(a) && a != 0 && m.bit_size == 0 && m.bit_offset as int % (
    a as int * 8) != 0
}

/// Where the scan of the members from `from` on meets no error, it finds
/// a misaligned member exactly if there is one.
pub proof fn lemma_members_misaligned(g: Graph, members: Seq<Member>, from: nat)
    requires
        g.members_misaligned(members, from) is Ok,
    ensures
        g.members_misaligned(members, from)->Ok_0 == exists|k: int|
            from <= k < members.len() && misaligned(g, #[trigger] members[k]),
    decreases members.len() - from,
{
    if from < members.len() {
        let m = members[from as int];
        if misaligned(g, m) {
        } else {
            lemma_members_misaligned(g, members, from + 1);
            if g.members_misaligned(members, from + 1)->Ok_0 {
                let k = choose|k: int|
                    from + 1 <= k < members.len() && misaligned(g, #[trigger] members[k]);
                assert(from <= k < members.len() && misaligned(g, members[k]));
            } else {
                assert forall|k: int| from <= k < members.len() implies !misaligned(
                    g,
                    #[trigger] members[k],
                ) by {
                    if k > from {
                        assert(from + 1 <= k);
                    }
                }
            }
        }
    }
}

/// A struct is packed exactly if its size is no multiple of its alignment
/// or one of its members is misaligned; nothing but a struct is packed.
pub proof fn lemma_packed_iff_misfit(g: Graph, id: TypeId)
    requires
        g.is_struct_packed(id) is Ok,
    ensures
        g.is_struct_packed(id)->Ok_0 ==> g.lookup(id)->Ok_0 is Struct,
        g.lookup(id) matches Ok(Node::Struct(c)) ==> g.align_of(id) is Ok && g.align_of(id)->Ok_0
            != 0 && (g.is_struct_packed(id)->Ok_0 <==> (c.size as int % (g.align_of(
            id,
        )->Ok_0 as int) != 0 || exists|k: int|
            0 <= k < c.members.len() && misaligned(g, #[trigger] c.members[k]))),
{
    match g.lookup(id) {
        Ok(Node::Struct(c)) => {
            let align = g.align_of(id)->Ok_0;
            if c.size % align != 0 {
            } else {
                lemma_members_misaligned(g, c.members, 0);
            }
        },
        _ => {},
    }
}

impl Graph {
    /// The bytes that the first `count` members of a struct and the
    /// padding declared before each of them take together.
    pub open spec fn placed_bytes(self, members: Seq<Member>, count: nat, packed: bool) -> int
        decreases count,
    {
        if count == 0 || count > members.len() {
            0
        } else {
            let m = members[count - 1];
            let before = self.fields(members, (count - 1) as nat, true, packed);
            let fid = self.skip_mods(m.type_id);
            let padding = self.member_padding(before->Ok_0.offset, m, true, packed);
            self.placed_bytes(members, (count - 1) as nat, packed) + padding->Ok_0
                + self.size_of(fid->Ok_0)->Ok_0
        }
    }
}

/// The members of a struct that can be laid out, with the padding between
/// them, end where the last of them ends.
pub proof fn lemma_placed_bytes_within_offset(
    g: Graph,
    members: Seq<Member>,
    count: nat,
    packed: bool,
)
    requires
        count <= members.len(),
        g.fields(members, count, true, packed) is Ok,
    ensures
        0 <= g.placed_bytes(members, count, packed) <= g.fields(
            members,
            count,
            true,
            packed,
        )->Ok_0.offset,
    decreases count,
{
    if count > 0 {
        reveal(Graph::add_member);
        let m = members[count - 1];
        let before = g.fields(members, (count - 1) as nat, true, packed);
        lemma_placed_bytes_within_offset(g, members, (count - 1) as nat, packed);
        let current = before->Ok_0.offset as int;
        let required = (m.bit_offset / 8) as int;
        let align = g.field_align(m.type_id, packed)->Ok_0 as int;
        lemma_padding_within_gap(current, required, align);
    }
}

/// In the definition of a struct, the sizes of the members and all the
/// padding that is declared add up to no more than the size that the
/// struct's record declares.
pub proof fn lemma_struct_fits_declared_size(g: Graph, id: TypeId, c: Composite)
    requires
        g.lookup(id) == Ok::<Node, BtfError>(Node::Struct(c)),
        g.composite_definition(id, c, true) is Ok,
    ensures
        g.is_struct_packed(id) matches Ok(packed) && g.fields(
            c.members,
            c.members.len(),
            true,
            packed,
        ) matches Ok(f) && g.tail_padding(id, c.size, f.offset, true, packed) matches Ok(tail)
            && g.placed_bytes(c.members, c.members.len(), packed) + tail <= c.size,
{
    reveal(Graph::composite_definition);
    let packed = g.is_struct_packed(id)->Ok_0;
    let f = g.fields(c.members, c.members.len(), true, packed)->Ok_0;
    lemma_placed_bytes_within_offset(g, c.members, c.members.len(), packed);
    let align = g.field_align(id, packed)->Ok_0 as int;
    lemma_padding_within_gap(f.offset as int, c.size as int, align);
}

/// A buffer that does not start with the magic number is refused as
/// malformed, and yields no graph.
pub proof fn lemma_wrong_magic_is_format_error(data: Seq<u8>, ptr_size: u32)
    requires
        ptr_size != 0,
        data.len() < 2 || data[0] != 0x9f || data[1] != 0xeb,
    ensures
        decode(data, ptr_size) == Err::<Graph, BtfError>(BtfError::FormatError),
{
}

/// The graph of a section that decodes is well formed: it starts with
/// Void, and every type id in it names one of its types.
pub proof fn lemma_decoded_graph_is_well_formed(data: Seq<u8>, ptr_size: u32)
    requires
        decode(data, ptr_size) is Ok,
    ensures
        decode(data, ptr_size)->Ok_0.wf(),
        decode(data, ptr_size)->Ok_0.ptr_size == ptr_size,
{
}

/// The text of a definition depends on nothing but the types of the graph,
/// its pointer size and the id: graphs that agree in these give the same
/// text, and so does one graph each time it is asked.
pub proof fn lemma_definition_is_a_function_of_the_graph(a: Btf, b: Btf, id: TypeId)
    requires
        a@ == b@,
    ensures
        a@.type_definition(id) == b@.type_definition(id),
{
}

/// A definition is generated for structs, unions, enums and data sections
/// only.
pub proof fn lemma_definition_needs_definable_type(g: Graph, id: TypeId)
    requires
        g.type_definition(id) is Ok,
    ensures
        g.lookup(id) is Ok,
        crate::definition::is_definable(g.lookup(id)->Ok_0),
{
}

/// A number in decimal has at least one digit, and more than one from 10
/// on.
pub proof fn lemma_decimal_len(n: nat)
    ensures
        decimal(n).len() >= 1,
        n >= 10 ==> decimal(n).len() >= 2,
        n < 10 ==> decimal(n).len() == 1,
    decreases n,
{
    if n >= 10 {
        lemma_decimal_len(n / 10);
    }
}

/// Different numbers are written differently.
pub proof fn lemma_decimal_injective(a: nat, b: nat)
    requires
        decimal(a) == decimal(b),
    ensures
        a == b,
    decreases a,
{
    lemma_decimal_len(a);
    lemma_decimal_len(b);
    if a < 10 {
        assert(decimal(a)[0] == digit(a as int));
        assert(decimal(b)[0] == digit(b as int));
    } else {
        let x = decimal(a / 10);
        let y = decimal(b / 10);
        assert(decimal(a) == x.push(digit((a % 10) as int)));
        assert(decimal(b) == y.push(digit((b % 10) as int)));
        assert(x.push(digit((a % 10) as int)).last() == digit((a % 10) as int));
        assert(y.push(digit((b % 10) as int)).last() == digit((b % 10) as int));
        assert(x.push(digit((a % 10) as int)).drop_last() =~= x);
        assert(y.push(digit((b % 10) as int)).drop_last() =~= y);
        lemma_decimal_injective(a / 10, b / 10);
    }
}

/// Types without a name of their own are given names that differ from
/// each other: the name tells the place of the type among them.
pub proof fn lemma_anon_names_differ(a: nat, b: nat)
    requires
        anon_name(a) == anon_name(b),
    ensures
        a == b,
{
    let prefix = "__anon_"@;
    assert(decimal(a) =~= anon_name(a).subrange(prefix.len() as int, anon_name(a).len() as int));
    assert(decimal(b) =~= anon_name(b).subrange(prefix.len() as int, anon_name(b).len() as int));
    lemma_decimal_injective(a, b);
}

/// The types of a kind are listed by ascending id, and the list holds
/// exactly the ids from 1 to below `upto` whose type is of that kind.
pub proof fn lemma_ids_of_kind(g: Graph, kind: BtfKind, upto: nat)
    requires
        upto <= g.types.len() <= u32::MAX,
    ensures
        forall|i: int, j: int|
            0 <= i < j < g.ids_of_kind(kind, upto).len() ==> (#[trigger] g.ids_of_kind(
                kind,
                upto,
            )[i]).0 < (#[trigger] g.ids_of_kind(kind, upto)[j]).0,
        forall|i: int|
            0 <= i < g.ids_of_kind(kind, upto).len() ==> {
                let id = (#[trigger] g.ids_of_kind(kind, upto)[i]).0;
                1 <= id < upto && g.types[id as int].kind() == kind
            },
        forall|id: int|
            1 <= id < upto && (#[trigger] g.types[id]).kind() == kind ==> g.ids_of_kind(
                kind,
                upto,
            ).contains(TypeId(id as u32)),
    decreases upto,
{
    if upto > 1 {
        lemma_ids_of_kind(g, kind, (upto - 1) as nat);
        let before = g.ids_of_kind(kind, (upto - 1) as nat);
        let all = g.ids_of_kind(kind, upto);
        if g.types[upto - 1].kind() == kind {
            assert(all == before.push(TypeId((upto - 1) as u32)));
            assert forall|id: int|
                1 <= id < upto && (#[trigger] g.types[id]).kind() == kind implies all.contains(
                TypeId(id as u32),
            ) by {
                if id == upto - 1 {
                    assert(all[all.len() - 1] == TypeId(id as u32));
                } else {
                    let k = choose|k: int| 0 <= k < before.len() && before[k] == TypeId(id as u32);
                    assert(all[k] == TypeId(id as u32));
                }
            }
        }
    }
}

/// A search by name finds the smallest id from `from` on whose type has
/// that name, and finds nothing only if there is no such id.
pub proof fn lemma_first_named(g: Graph, name: Seq<char>, from: nat)
    requires
        g.types.len() <= u32::MAX,
    ensures
        match g.first_named(name, from) {
            Some(id) => {
                &&& from <= id.0 < g.types.len()
                &&& g.types[id.0 as int].name() == name
                &&& forall|k: int| from <= k < id.0 ==> (#[trigger] g.types[k]).name() != name
            },
            None => forall|k: int|
                from <= k < g.types.len() ==> (#[trigger] g.types[k]).name() != name,
        },
    decreases g.types.len() - from,
{
    if from < g.types.len() && g.types[from as int].name() != name {
        lemma_first_named(g, name, from + 1);
    }
}

impl Graph {
    /// The type reached from `id` after `steps` modifiers or typedefs, if
    /// `id` and every type after it up to there is one.
    pub open spec fn wrapper_chain(self, id: TypeId, steps: nat) -> Option<TypeId>
        decreases steps,
    {
        if steps == 0 {
            Some(id)
        } else {
            match self.lookup(id) {
                Err(_) => None,
                Ok(node) => match node.wrapped() {
                    None => None,
                    Some(next) => self.wrapper_chain(next, (steps - 1) as nat),
                },
            }
        }
    }
}

/// More numbers than `n`, all of them below `n`, hold one number twice.
pub proof fn lemma_pigeonhole(s: Seq<int>, n: nat)
    requires
        s.len() > n,
        forall|i: int| 0 <= i < s.len() ==> 0 <= #[trigger] s[i] < n,
    ensures
        exists|i: int, j: int| 0 <= i < j < s.len() && s[i] == s[j],
{
    if s.no_duplicates() {
        s.unique_seq_to_set();
        vstd::set_lib::lemma_int_range(0, n as int);
        let range = vstd::set_lib::set_int_range(0, n as int);
        assert(s.to_set().subset_of(range)) by {
            assert forall|a: int| s.to_set().contains(a) implies range.contains(a) by {
                let i = choose|i: int| 0 <= i < s.len() && s[i] == a;
                assert(0 <= s[i] < n);
            }
        }
        vstd::set_lib::lemma_len_subset(s.to_set(), range);
    } else {
        let (i, j) = choose|i: int, j: int|
            0 <= i < s.len() && 0 <= j < s.len() && i != j && s[i] == s[j];
        if i < j {
            assert(0 <= i < j < s.len() && s[i] == s[j]);
        } else {
            assert(0 <= j < i < s.len() && s[j] == s[i]);
        }
    }
}

/// Where stripping gives up after `fuel` steps, the type and the `fuel`
/// types after it are all modifiers or typedefs of the graph.
pub proof fn lemma_skip_mods_gives_up_on_wrappers(g: Graph, id: TypeId, fuel: nat, steps: nat)
    requires
        g.skip_mods_bounded(id, fuel) == Err::<TypeId, BtfError>(BtfError::UnsupportedType),
        steps <= fuel,
    ensures
        g.wrapper_chain(id, steps) is Some,
        (g.wrapper_chain(id, steps)->0).0 < g.types.len(),
    decreases fuel,
{
    if steps > 0 {
        let next = g.lookup(id)->Ok_0.wrapped()->0;
        lemma_skip_mods_gives_up_on_wrappers(g, next, (fuel - 1) as nat, (steps - 1) as nat);
    }
}

/// Stripping modifiers and typedefs fails as unsupported on a cycle only:
/// the chain of wrappers from `id` then comes to one type twice. On a
/// chain that does not, it ends at a type or at an id that names none.
pub proof fn lemma_skip_mods_fails_on_cycles_only(g: Graph, id: TypeId)
    requires
        g.skip_mods(id) == Err::<TypeId, BtfError>(BtfError::UnsupportedType),
    ensures
        exists|i: nat, j: nat|
            i < j <= g.types.len() && (#[trigger] g.wrapper_chain(id, i)) is Some
                && g.wrapper_chain(id, i) == #[trigger] g.wrapper_chain(id, j),
{
    let n = g.types.len();
    let s = Seq::new(n + 1, |k: int| (g.wrapper_chain(id, k as nat)->0).0 as int);
    assert forall|k: int| 0 <= k < s.len() implies 0 <= #[trigger] s[k] < n by {
        lemma_skip_mods_gives_up_on_wrappers(g, id, n, k as nat);
    }
    lemma_pigeonhole(s, n);
    let (i, j) = choose|i: int, j: int| 0 <= i < j < s.len() && s[i] == s[j];
    lemma_skip_mods_gives_up_on_wrappers(g, id, n, i as nat);
    lemma_skip_mods_gives_up_on_wrappers(g, id, n, j as nat);
    let a = i as nat;
    let b = j as nat;
    assert(a < b <= g.types.len() && g.wrapper_chain(id, a) is Some && g.wrapper_chain(id, a)
        == g.wrapper_chain(id, b));
}

/// A type of the graph is stripped of its wrappers as its id is, and has
/// the alignment that its id has.
pub proof fn lemma_alignment_agrees(g: Graph, id: TypeId)
    requires
        g.lookup(id) is Ok,
    ensures
        g.skip_node(g.lookup(id)->Ok_0) == match g.skip_mods(id) {
            Ok(t) => g.lookup(t),
            Err(e) => Err(e),
        },
        g.alignment(g.lookup(id)->Ok_0) == g.align_of(id),
{
    if g.skip_mods(id) is Ok {
        lemma_skip_mods_strips_all(g, id, g.step_limit());
    }
}

/// Whether the record at the start of `data` is a struct, union or enum
/// whose name is empty.
pub open spec fn is_anonymous(strings: Seq<u8>, data: Seq<u8>) -> bool {
    &&& header_at(data) matches Ok(h)
    &&& BtfKind::of_tag(spec_kind(h.info)) matches Some(kind)
    &&& (kind is Struct || kind is Union || kind is Enum || kind is Enum64)
    &&& str_at(strings, h.name_off as int) matches Ok(name)
    &&& name.len() == 0
}

/// The section from its record number `index` on, and how many anonymous
/// types are named before that record, when `anon` were named before the
/// section.
pub open spec fn record_at(strings: Seq<u8>, data: Seq<u8>, anon: nat, index: nat) -> Option<
    (Seq<u8>, nat),
>
    decreases index,
{
    if index == 0 {
        Some((data, anon))
    } else {
        match node_at(strings, data, anon) {
            Err(_) => None,
            Ok(d) => if 0 < record_len(d.node) <= data.len() {
                record_at(
                    strings,
                    data.subrange(record_len(d.node) as int, data.len() as int),
                    d.anon,
                    (index - 1) as nat,
                )
            } else {
                None
            },
        }
    }
}

/// How many of the first `index` records of the section are anonymous.
pub open spec fn anonymous_before(strings: Seq<u8>, data: Seq<u8>, anon: nat, index: nat) -> nat
    decreases index,
{
    if index == 0 {
        0
    } else {
        match node_at(strings, data, anon) {
            Err(_) => 0,
            Ok(d) => if 0 < record_len(d.node) <= data.len() {
                (if is_anonymous(strings, data) {
                    1nat
                } else {
                    0nat
                }) + anonymous_before(
                    strings,
                    data.subrange(record_len(d.node) as int, data.len() as int),
                    d.anon,
                    (index - 1) as nat,
                )
            } else {
                0
            },
        }
    }
}

/// An anonymous record raises the counter by one and is named with the
/// new count; any other record leaves the counter as it is, and a struct,
/// union or enum with a name keeps it.
pub proof fn lemma_record_name(strings: Seq<u8>, data: Seq<u8>, anon: nat)
    requires
        node_at(strings, data, anon) is Ok,
    ensures
        ({
            let d = node_at(strings, data, anon)->Ok_0;
            if is_anonymous(strings, data) {
                d.anon == anon + 1 && d.node.name() == anon_name(anon + 1)
            } else {
                d.anon == anon && (d.node is Struct || d.node is Union || d.node is Enum
                    || d.node is Enum64 ==> Ok::<Seq<char>, BtfError>(d.node.name()) == str_at(
                    strings,
                    header_at(data)->Ok_0.name_off as int,
                ))
            }
        }),
{
    reveal(node_at);
}

/// In a section that decodes, record number `index` is named after its
/// place among the anonymous records if it is one of them: the first is
/// `__anon_1`, the next `__anon_2`, and so on through structs, unions and
/// enums alike.
pub proof fn lemma_anonymous_records_are_numbered(
    strings: Seq<u8>,
    data: Seq<u8>,
    anon: nat,
    index: nat,
)
    requires
        records(strings, data, anon) is Ok,
        index < records(strings, data, anon)->Ok_0.len(),
    ensures
        record_at(strings, data, anon, index) is Some,
        ({
            let rest = (record_at(strings, data, anon, index)->0).0;
            let before = (record_at(strings, data, anon, index)->0).1;
            let node = records(strings, data, anon)->Ok_0[index as int];
            &&& before == anon + anonymous_before(strings, data, anon, index)
            &&& node_at(strings, rest, before) is Ok
            &&& node_at(strings, rest, before)->Ok_0.node == node
            &&& is_anonymous(strings, rest) ==> node.name() == anon_name(before + 1)
        }),
    decreases index,
{
    let d = node_at(strings, data, anon)->Ok_0;
    lemma_record_name(strings, data, anon);
    if index > 0 {
        let rest = data.subrange(record_len(d.node) as int, data.len() as int);
        lemma_anonymous_records_are_numbered(strings, rest, d.anon, (index - 1) as nat);
        let tail = records(strings, rest, d.anon)->Ok_0;
        assert(records(strings, data, anon)->Ok_0 == seq![d.node] + tail);
        assert((seq![d.node] + tail)[index as int] == tail[index - 1]);
    }
}

/// In the table of a section that decodes, the type with id `id` is named
/// `__anon_j` if its record is the `j`th anonymous record of the section.
pub proof fn lemma_anonymous_types_are_numbered(strings: Seq<u8>, data: Seq<u8>, id: nat)
    requires
        type_table(strings, data) is Ok,
        1 <= id < type_table(strings, data)->Ok_0.len(),
    ensures
        record_at(strings, data, 0, (id - 1) as nat) is Some,
        is_anonymous(strings, (record_at(strings, data, 0, (id - 1) as nat)->0).0) ==> type_table(
            strings,
            data,
        )->Ok_0[id as int].name() == anon_name(
            anonymous_before(strings, data, 0, (id - 1) as nat) + 1,
        ),
{
    lemma_anonymous_records_are_numbered(strings, data, 0, (id - 1) as nat);
    let nodes = records(strings, data, 0)->Ok_0;
    assert((seq![Node::Void] + nodes)[id as int] == nodes[id - 1]);
}

impl Graph {
    /// The types that `definitions` defines for `queue` and `done`, in the
    /// order of their definitions.
    pub open spec fn defined(self, queue: Seq<TypeId>, done: Set<int>) -> Seq<TypeId>
        decreases pending(done, self.types.len()), queue.len(),
    {
        if queue.len() == 0 {
            Seq::empty()
        } else {
            let id = queue[0];
            if done.contains(id.0 as int) {
                self.defined(queue.remove(0), done)
            } else if id.0 >= self.types.len() {
                Seq::empty()
            } else {
                match self.definition_of(id) {
                    Err(_) => Seq::empty(),
                    Ok(d) => {
                        proof {
                            lemma_pending_insert(done, self.types.len(), id.0 as int);
                        }
                        seq![id] + self.defined(
                            queue.remove(0) + d.deps,
                            done.insert(id.0 as int),
                        )
                    },
                }
            }
        }
    }

    /// The definitions of the types `ids`, one after the other.
    pub open spec fn texts(self, ids: Seq<TypeId>) -> Seq<char>
        decreases ids.len(),
    {
        if ids.len() == 0 {
            Seq::empty()
        } else {
            self.definition_of(ids[0])->Ok_0.text + self.texts(ids.drop_first())
        }
    }

    /// The types that the definition of `id` mentions.
    pub open spec fn mentioned(self, id: TypeId) -> Seq<TypeId> {
        self.definition_of(id)->Ok_0.deps
    }
}

/// What holds of a list holds of it with one more in front.
proof fn lemma_contains_after(first: TypeId, rest: Seq<TypeId>, x: TypeId)
    ensures
        (seq![first] + rest).contains(first),
        rest.contains(x) ==> (seq![first] + rest).contains(x),
{
    let all = seq![first] + rest;
    assert(all[0] == first);
    if rest.contains(x) {
        let k = choose|k: int| 0 <= k < rest.len() && rest[k] == x;
        assert(all[k + 1] == x);
    }
}

/// The text that is generated is made of the definitions of the types
/// defined, one after the other, and each of these has a definition.
pub proof fn lemma_definitions_are_texts_of_defined(g: Graph, queue: Seq<TypeId>, done: Set<int>)
    requires
        g.definitions(queue, done) is Ok,
    ensures
        g.definitions(queue, done)->Ok_0 == g.texts(g.defined(queue, done)),
        forall|k: int|
            0 <= k < g.defined(queue, done).len() ==> g.definition_of(
                #[trigger] g.defined(queue, done)[k],
            ) is Ok,
    decreases pending(done, g.types.len()), queue.len(),
{
    if queue.len() > 0 {
        let id = queue[0];
        if done.contains(id.0 as int) {
            lemma_definitions_are_texts_of_defined(g, queue.remove(0), done);
        } else {
            let d = g.definition_of(id)->Ok_0;
            let rest = queue.remove(0) + d.deps;
            let more = done.insert(id.0 as int);
            lemma_pending_insert(done, g.types.len(), id.0 as int);
            lemma_definitions_are_texts_of_defined(g, rest, more);
            let tail = g.defined(rest, more);
            let all = seq![id] + tail;
            assert(g.defined(queue, done) == all);
            assert(all.drop_first() =~= tail);
            assert(all[0] == id);
            assert forall|k: int| 0 <= k < all.len() implies g.definition_of(
                #[trigger] all[k],
            ) is Ok by {
                if k > 0 {
                    assert(all[k] == tail[k - 1]);
                }
            }
        }
    }
}

/// No type is defined twice, and none that was defined before.
pub proof fn lemma_defined_once(g: Graph, queue: Seq<TypeId>, done: Set<int>)
    ensures
        g.defined(queue, done).no_duplicates(),
        forall|k: int|
            0 <= k < g.defined(queue, done).len() ==> !done.contains(
                (#[trigger] g.defined(queue, done)[k]).0 as int,
            ),
    decreases pending(done, g.types.len()), queue.len(),
{
    if queue.len() > 0 {
        let id = queue[0];
        if done.contains(id.0 as int) {
            lemma_defined_once(g, queue.remove(0), done);
        } else if id.0 < g.types.len() && g.definition_of(id) is Ok {
            let d = g.definition_of(id)->Ok_0;
            let rest = queue.remove(0) + d.deps;
            let more = done.insert(id.0 as int);
            lemma_pending_insert(done, g.types.len(), id.0 as int);
            lemma_defined_once(g, rest, more);
            let tail = g.defined(rest, more);
            let all = seq![id] + tail;
            assert(g.defined(queue, done) == all);
            assert forall|k: int| 0 <= k < all.len() implies !done.contains(
                (#[trigger] all[k]).0 as int,
            ) by {
                if k > 0 {
                    assert(all[k] == tail[k - 1]);
                    assert(!more.contains(tail[k - 1].0 as int));
                }
            }
            assert forall|i: int, j: int|
                0 <= i < all.len() && 0 <= j < all.len() && i != j implies all[i] != all[j] by {
                if i > 0 {
                    assert(all[i] == tail[i - 1]);
                    assert(!more.contains(tail[i - 1].0 as int));
                }
                if j > 0 {
                    assert(all[j] == tail[j - 1]);
                    assert(!more.contains(tail[j - 1].0 as int));
                }
            }
        }
    }
}

/// Where definitions are generated, every type of the queue is defined or
/// was defined before, and so is every type that a defined type mentions.
pub proof fn lemma_defined_is_closed(g: Graph, queue: Seq<TypeId>, done: Set<int>)
    requires
        g.definitions(queue, done) is Ok,
    ensures
        forall|i: int|
            0 <= i < queue.len() ==> done.contains((#[trigger] queue[i]).0 as int) || g.defined(
                queue,
                done,
            ).contains(queue[i]),
        forall|k: int, m: int|
            0 <= k < g.defined(queue, done).len() && 0 <= m < g.mentioned(
                g.defined(queue, done)[k],
            ).len() ==> done.contains(
                (#[trigger] g.mentioned(g.defined(queue, done)[k])[m]).0 as int,
            ) || g.defined(queue, done).contains(g.mentioned(g.defined(queue, done)[k])[m]),
    decreases pending(done, g.types.len()), queue.len(),
{
    if queue.len() > 0 {
        let id = queue[0];
        if done.contains(id.0 as int) {
            lemma_defined_is_closed(g, queue.remove(0), done);
            assert(g.defined(queue, done) == g.defined(queue.remove(0), done));
            assert forall|i: int| 0 <= i < queue.len() implies done.contains(
                (#[trigger] queue[i]).0 as int,
            ) || g.defined(queue, done).contains(queue[i]) by {
                if i > 0 {
                    assert(queue[i] == queue.remove(0)[i - 1]);
                }
            }
        } else {
            let d = g.definition_of(id)->Ok_0;
            let rest = queue.remove(0) + d.deps;
            let more = done.insert(id.0 as int);
            lemma_pending_insert(done, g.types.len(), id.0 as int);
            lemma_defined_is_closed(g, rest, more);
            let tail = g.defined(rest, more);
            let all = seq![id] + tail;
            assert(g.defined(queue, done) == all);
            assert forall|x: TypeId| more.contains(x.0 as int) || tail.contains(x) implies (
            done.contains(x.0 as int) || all.contains(x)) by {
                lemma_contains_after(id, tail, x);
                if x.0 == id.0 {
                    assert(x == id);
                }
            }
            assert forall|i: int| 0 <= i < queue.len() implies done.contains(
                (#[trigger] queue[i]).0 as int,
            ) || all.contains(queue[i]) by {
                lemma_contains_after(id, tail, queue[i]);
                if i > 0 {
                    assert(queue[i] == rest[i - 1]);
                }
            }
            assert forall|k: int, m: int|
                0 <= k < all.len() && 0 <= m < g.mentioned(all[k]).len() implies done.contains(
                (#[trigger] g.mentioned(all[k])[m]).0 as int,
            ) || all.contains(g.mentioned(all[k])[m]) by {
                let x = g.mentioned(all[k])[m];
                if k == 0 {
                    assert(all[0] == id);
                    assert(x == rest[queue.len() - 1 + m]);
                    assert(more.contains(rest[queue.len() - 1 + m].0 as int) || tail.contains(
                        rest[queue.len() - 1 + m],
                    ));
                } else {
                    assert(all[k] == tail[k - 1]);
                    assert(more.contains((g.mentioned(tail[k - 1])[m]).0 as int) || tail.contains(
                        g.mentioned(tail[k - 1])[m],
                    ));
                }
                lemma_contains_after(id, tail, x);
                if x.0 == id.0 {
                    assert(x == id);
                }
            }
        }
    }
}

/// The text generated for type `id` holds the definition of `id` first,
/// and then one definition of each struct, union, enum or data section
/// that a definition in the text mentions, and no definition twice: also
/// where a type mentions itself or types mention each other.
pub proof fn lemma_one_definition_per_reached_type(g: Graph, id: TypeId)
    requires
        g.type_definition(id) is Ok,
    ensures
        ({
            let defined = g.defined(seq![id], Set::empty());
            &&& g.type_definition(id)->Ok_0 == g.texts(defined)
            &&& defined.len() >= 1
            &&& defined[0] == id
            &&& defined.no_duplicates()
            &&& forall|k: int, m: int|
                0 <= k < defined.len() && 0 <= m < g.mentioned(defined[k]).len()
                    ==> defined.contains(#[trigger] g.mentioned(defined[k])[m])
        }),
{
    let queue = seq![id];
    let done = Set::<int>::empty();
    lemma_definitions_are_texts_of_defined(g, queue, done);
    lemma_defined_once(g, queue, done);
    lemma_defined_is_closed(g, queue, done);
    assert(queue[0] == id);
}

impl Graph {
    /// The type whose size the size of `id` is computed from: the element
    /// of an array, the type of a variable.
    pub open spec fn size_step(self, id: TypeId) -> Option<TypeId> {
        match self.skip_mods(id) {
            Err(_) => None,
            Ok(sid) => match self.lookup(sid) {
                Ok(Node::Array { val_type_id, .. }) => Some(val_type_id),
                Ok(Node::Var { type_id, .. }) => Some(type_id),
                _ => None,
            },
        }
    }

    /// The type reached from `id` after `steps` such steps.
    pub open spec fn size_chain(self, id: TypeId, steps: nat) -> Option<TypeId>
        decreases steps,
    {
        if steps == 0 {
            Some(id)
        } else {
            match self.size_step(id) {
                None => None,
                Some(next) => self.size_chain(next, (steps - 1) as nat),
            }
        }
    }
}

/// Where the chain of arrays and variables from `id` ends within `steps`
/// steps, the size of `id` is the same under every bound of at least
/// `steps - 1` descents.
pub proof fn lemma_size_of_is_stable(g: Graph, id: TypeId, steps: nat, d1: nat, d2: nat)
    requires
        steps >= 1,
        g.size_chain(id, steps) is None,
        d1 >= steps - 1,
        d2 >= steps - 1,
    ensures
        g.size_of_bounded(id, d1) == g.size_of_bounded(id, d2),
    decreases steps,
{
    match g.size_step(id) {
        None => {},
        Some(next) => {
            lemma_size_of_is_stable(
                g,
                next,
                (steps - 1) as nat,
                (d1 - 1) as nat,
                (d2 - 1) as nat,
            );
        },
    }
}

/// A chain of arrays and variables that goes on holds types of the graph.
pub proof fn lemma_size_chain_holds_types(g: Graph, id: TypeId, steps: nat)
    requires
        g.size_chain(id, steps + 1) is Some,
    ensures
        g.size_chain(id, steps) is Some,
        (g.size_chain(id, steps)->0).0 < g.types.len(),
    decreases steps,
{
    if steps > 0 {
        lemma_size_chain_holds_types(g, g.size_step(id)->0, (steps - 1) as nat);
    }
}

/// A chain that goes on for `steps` steps has gone on for fewer.
pub proof fn lemma_size_chain_prefix(g: Graph, id: TypeId, steps: nat, fewer: nat)
    requires
        g.size_chain(id, steps) is Some,
        fewer <= steps,
    ensures
        g.size_chain(id, fewer) is Some,
    decreases fewer,
{
    if fewer > 0 {
        lemma_size_chain_prefix(g, g.size_step(id)->0, (steps - 1) as nat, (fewer - 1) as nat);
    }
}

/// The bound on the descent into arrays and variables changes the size of
/// a type on a cycle only: either the chain of arrays and variables from
/// `id` comes to one type twice, or the size of `id` is what it is under
/// every larger bound.
pub proof fn lemma_size_of_is_bounded_on_cycles_only(g: Graph, id: TypeId, bound: nat)
    requires
        bound >= g.step_limit(),
    ensures
        g.size_of_bounded(id, bound) == g.size_of(id) || exists|i: nat, j: nat|
            i < j <= g.types.len() && (#[trigger] g.size_chain(id, i)) is Some && g.size_chain(
                id,
                i,
            ) == #[trigger] g.size_chain(id, j),
{
    let n = g.types.len();
    if g.size_chain(id, n + 1) is None {
        lemma_size_of_is_stable(g, id, n + 1, bound, n);
    } else {
        let s = Seq::new(n + 1, |k: int| (g.size_chain(id, k as nat)->0).0 as int);
        assert forall|k: int| 0 <= k < s.len() implies 0 <= #[trigger] s[k] < n by {
            lemma_size_chain_prefix(g, id, n + 1, (k + 1) as nat);
            lemma_size_chain_holds_types(g, id, k as nat);
        }
        lemma_pigeonhole(s, n);
        let (i, j) = choose|i: int, j: int| 0 <= i < j < s.len() && s[i] == s[j];
        lemma_size_chain_prefix(g, id, n + 1, i as nat);
        lemma_size_chain_prefix(g, id, n + 1, j as nat);
        let a = i as nat;
        let b = j as nat;
        assert(g.size_chain(id, a)->0 == g.size_chain(id, b)->0);
        assert(a < b <= g.types.len() && g.size_chain(id, a) is Some && g.size_chain(id, a)
            == g.size_chain(id, b));
    }
}

/// An alignment that is found under one bound on the descent is found
/// under every larger bound: the bound cuts answers short, it changes none.
pub proof fn lemma_align_of_found_is_stable(g: Graph, id: TypeId, d1: nat, d2: nat)
    requires
        d1 <= d2,
        g.align_of_bounded(id, d1) is Ok,
    ensures
        g.align_of_bounded(id, d2) == g.align_of_bounded(id, d1),
    decreases d1, 1nat,
{
    let sid = g.skip_mods(id)->Ok_0;
    lemma_node_align_found_is_stable(g, g.lookup(sid)->Ok_0, d1, d2);
}

/// The same, for a type that is neither modifier nor typedef.
pub proof fn lemma_node_align_found_is_stable(g: Graph, node: Node, d1: nat, d2: nat)
    requires
        d1 <= d2,
        g.node_align(node, d1) is Ok,
    ensures
        g.node_align(node, d2) == g.node_align(node, d1),
    decreases d1, 0nat,
{
    match node {
        Node::Array { val_type_id, .. } => {
            lemma_align_of_found_is_stable(g, val_type_id, (d1 - 1) as nat, (d2 - 1) as nat);
        },
        Node::Var { type_id, .. } => {
            lemma_align_of_found_is_stable(g, type_id, (d1 - 1) as nat, (d2 - 1) as nat);
        },
        Node::Struct(c) => {
            lemma_members_align_found_is_stable(
                g,
                c.members,
                c.members.len(),
                (d1 - 1) as nat,
                (d2 - 1) as nat,
            );
        },
        Node::Union(c) => {
            lemma_members_align_found_is_stable(
                g,
                c.members,
                c.members.len(),
                (d1 - 1) as nat,
                (d2 - 1) as nat,
            );
        },
        _ => {},
    }
}

/// The same, for the members of an aggregate.
pub proof fn lemma_members_align_found_is_stable(
    g: Graph,
    members: Seq<Member>,
    count: nat,
    d1: nat,
    d2: nat,
)
    requires
        d1 <= d2,
        g.members_align(members, count, d1) is Ok,
    ensures
        g.members_align(members, count, d2) == g.members_align(members, count, d1),
    decreases d1, count + 2,
{
    if count > 0 && count <= members.len() {
        lemma_members_align_found_is_stable(g, members, (count - 1) as nat, d1, d2);
        lemma_align_of_found_is_stable(g, members[count - 1].type_id, d1, d2);
    }
}

/// A declaration that is found under one bound on the descent is found
/// under every larger bound.
pub proof fn lemma_declaration_found_is_stable(g: Graph, id: TypeId, d1: nat, d2: nat)
    requires
        d1 <= d2,
        g.declaration_bounded(id, d1) is Ok,
    ensures
        g.declaration_bounded(id, d2) == g.declaration_bounded(id, d1),
    decreases d1,
{
    let sid = g.skip_mods(id)->Ok_0;
    match g.lookup(sid)->Ok_0 {
        Node::Ptr { pointee_type } => {
            lemma_declaration_found_is_stable(g, pointee_type, (d1 - 1) as nat, (d2 - 1) as nat);
        },
        Node::Array { val_type_id, .. } => {
            lemma_declaration_found_is_stable(g, val_type_id, (d1 - 1) as nat, (d2 - 1) as nat);
        },
        Node::Var { type_id, .. } => {
            lemma_declaration_found_is_stable(g, type_id, (d1 - 1) as nat, (d2 - 1) as nat);
        },
        _ => {},
    }
}

} // verus!
