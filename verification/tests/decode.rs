use btf_types::btf::Btf;
use btf_types::error::BtfError;
use btf_types::types::BtfDatasecVar;
use btf_types::types::BtfFwdKind;
use btf_types::types::BtfIntEncoding;
use btf_types::types::BtfType;
use btf_types::types::BtfVarLinkage;
use btf_types::types::TypeId;

const KIND_INT: u32 = 1;
const KIND_PTR: u32 = 2;
const KIND_ARRAY: u32 = 3;
const KIND_STRUCT: u32 = 4;
const KIND_UNION: u32 = 5;
const KIND_ENUM: u32 = 6;
const KIND_FWD: u32 = 7;
const KIND_TYPEDEF: u32 = 8;
const KIND_VOLATILE: u32 = 9;
const KIND_CONST: u32 = 10;
const KIND_RESTRICT: u32 = 11;
const KIND_FUNC: u32 = 12;
const KIND_FUNC_PROTO: u32 = 13;
const KIND_VAR: u32 = 14;
const KIND_DATASEC: u32 = 15;
const KIND_FLOAT: u32 = 16;
const KIND_DECL_TAG: u32 = 17;
const KIND_TYPE_TAG: u32 = 18;
const KIND_ENUM64: u32 = 19;

const ENC_PLAIN: u32 = 0;
const ENC_SIGNED: u32 = 1;
const ENC_CHAR: u32 = 2;
const ENC_BOOL: u32 = 4;

/// Collects the records and strings of a section and lays them out behind a
/// header. Each method that adds a type returns nothing: ids count from 1 in
/// the order of the calls.
#[allow(dead_code)]
struct Section {
    types: Vec<u8>,
    strings: Vec<u8>,
}

#[allow(dead_code)]
impl Section {
    fn new() -> Section {
        Section { types: Vec::new(), strings: vec![0] }
    }

    fn name(&mut self, name: &str) -> u32 {
        if name.is_empty() {
            return 0;
        }
        let off = self.strings.len() as u32;
        self.strings.extend_from_slice(name.as_bytes());
        self.strings.push(0);
        off
    }

    fn word(&mut self, word: u32) {
        self.types.extend_from_slice(&word.to_le_bytes());
    }

    fn record(&mut self, name: &str, kind: u32, vlen: u32, flag: bool, size_or_type: u32) {
        let name_off = self.name(name);
        self.word(name_off);
        self.word(vlen | (kind << 24) | ((flag as u32) << 31));
        self.word(size_or_type);
    }

    fn integer(&mut self, name: &str, bits: u32, encoding: u32) {
        self.record(name, KIND_INT, 0, false, (bits + 7) / 8);
        self.word(bits | (encoding << 24));
    }

    fn float(&mut self, name: &str, size: u32) {
        self.record(name, KIND_FLOAT, 0, false, size);
    }

    fn ptr(&mut self, to: u32) {
        self.record("", KIND_PTR, 0, false, to);
    }

    fn array(&mut self, elem: u32, index: u32, nelems: u32) {
        self.record("", KIND_ARRAY, 0, false, 0);
        self.word(elem);
        self.word(index);
        self.word(nelems);
    }

    /// A struct or union; each member is (name, type, bit offset).
    fn composite(&mut self, kind: u32, name: &str, size: u32, members: &[(&str, u32, u32)]) {
        self.record(name, kind, members.len() as u32, false, size);
        for (member, ty, bit_offset) in members {
            let name_off = self.name(member);
            self.word(name_off);
            self.word(*ty);
            self.word(*bit_offset);
        }
    }

    /// A struct with the kind flag set; each member is (name, type, bit
    /// offset, bit size).
    fn bitfield_struct(&mut self, name: &str, size: u32, members: &[(&str, u32, u32, u32)]) {
        self.record(name, KIND_STRUCT, members.len() as u32, true, size);
        for (member, ty, bit_offset, bit_size) in members {
            let name_off = self.name(member);
            self.word(name_off);
            self.word(*ty);
            self.word(*bit_offset | (*bit_size << 24));
        }
    }

    fn enumeration(&mut self, name: &str, size: u32, values: &[(&str, i32)]) {
        self.record(name, KIND_ENUM, values.len() as u32, false, size);
        for (value_name, value) in values {
            let name_off = self.name(value_name);
            self.word(name_off);
            self.word(*value as u32);
        }
    }

    fn enumeration64(&mut self, name: &str, size: u32, signed: bool, values: &[(&str, u64)]) {
        self.record(name, KIND_ENUM64, values.len() as u32, signed, size);
        for (value_name, value) in values {
            let name_off = self.name(value_name);
            self.word(name_off);
            self.word(*value as u32);
            self.word((*value >> 32) as u32);
        }
    }

    fn reference(&mut self, kind: u32, name: &str, to: u32) {
        self.record(name, kind, 0, false, to);
    }

    fn fwd(&mut self, name: &str, union: bool) {
        self.record(name, KIND_FWD, 0, union, 0);
    }

    fn func_proto(&mut self, ret: u32, params: &[(&str, u32)]) {
        self.record("", KIND_FUNC_PROTO, params.len() as u32, false, ret);
        for (param, ty) in params {
            let name_off = self.name(param);
            self.word(name_off);
            self.word(*ty);
        }
    }

    fn var(&mut self, name: &str, ty: u32, linkage: u32) {
        self.record(name, KIND_VAR, 0, false, ty);
        self.word(linkage);
    }

    /// A data section; each slot is (variable, offset, size).
    fn datasec(&mut self, name: &str, size: u32, slots: &[(u32, u32, u32)]) {
        self.record(name, KIND_DATASEC, slots.len() as u32, false, size);
        for (var, offset, slot_size) in slots {
            self.word(*var);
            self.word(*offset);
            self.word(*slot_size);
        }
    }

    fn decl_tag(&mut self, name: &str, to: u32, component: i32) {
        self.record(name, KIND_DECL_TAG, 0, false, to);
        self.word(component as u32);
    }

    fn finish(&self) -> Vec<u8> {
        let mut out: Vec<u8> = vec![0x9f, 0xeb, 1, 0];
        out.extend_from_slice(&24u32.to_le_bytes());
        out.extend_from_slice(&0u32.to_le_bytes());
        out.extend_from_slice(&(self.types.len() as u32).to_le_bytes());
        out.extend_from_slice(&(self.types.len() as u32).to_le_bytes());
        out.extend_from_slice(&(self.strings.len() as u32).to_le_bytes());
        out.extend_from_slice(&self.types);
        out.extend_from_slice(&self.strings);
        out
    }

    fn decode(&self, ptr_size: u32) -> Btf {
        Btf::new(&self.finish(), ptr_size).unwrap()
    }
}

#[test]
fn one_int_record_gives_two_types() {
    let mut s = Section::new();
    s.integer("int", 32, ENC_SIGNED);
    let btf = s.decode(8);
    assert_eq!(btf.len(), 2);
    assert!(!btf.is_empty());
    assert_eq!(btf.types().len(), 2);
    assert_eq!(btf.types()[0], BtfType::Void);
    match btf.type_by_id(TypeId(1)).unwrap() {
        BtfType::Int(t) => {
            assert_eq!(t.name, "int");
            assert_eq!(t.bits, 32);
            assert_eq!(t.offset, 0);
            assert_eq!(t.encoding, BtfIntEncoding::Signed);
        }
        other => panic!("not an int: {:?}", other),
    }
    assert_eq!(btf.size_of(TypeId(1)), Ok(4));
    assert_eq!(btf.align_of(TypeId(1)), Ok(4));
}

#[test]
fn empty_type_section_holds_void_alone() {
    let s = Section::new();
    let btf = s.decode(8);
    assert_eq!(btf.len(), 1);
    assert_eq!(btf.types()[0], BtfType::Void);
    assert_eq!(btf.ptr_size(), 8);
}

#[test]
fn wrong_magic_is_a_format_error() {
    let mut s = Section::new();
    s.integer("int", 32, ENC_SIGNED);
    let mut data = s.finish();
    data[0] = 0x9e;
    assert_eq!(Btf::new(&data, 8).err(), Some(BtfError::FormatError));
    let mut swapped = s.finish();
    swapped[0] = 0xeb;
    swapped[1] = 0x9f;
    assert_eq!(Btf::new(&swapped, 8).err(), Some(BtfError::FormatError));
}

#[test]
fn wrong_version_is_a_format_error() {
    let mut data = Section::new().finish();
    data[2] = 2;
    assert_eq!(Btf::new(&data, 8).err(), Some(BtfError::FormatError));
}

#[test]
fn zero_pointer_size_is_invalid_input() {
    let data = Section::new().finish();
    assert_eq!(Btf::new(&data, 0).err(), Some(BtfError::InvalidInput));
}

#[test]
fn short_header_is_a_format_error() {
    let data = Section::new().finish();
    assert_eq!(Btf::new(&data[..23], 8).err(), Some(BtfError::FormatError));
    assert_eq!(Btf::new(&[], 8).err(), Some(BtfError::FormatError));
    assert_eq!(Btf::new(&[0x9f], 8).err(), Some(BtfError::FormatError));
}

#[test]
fn section_behind_the_buffer_is_a_format_error() {
    let mut s = Section::new();
    s.integer("int", 32, ENC_SIGNED);
    let data = s.finish();
    // The string table is the last thing in the buffer.
    assert_eq!(Btf::new(&data[..data.len() - 1], 8).err(), Some(BtfError::FormatError));
    let mut long_types = data.clone();
    long_types[12..16].copy_from_slice(&0xffff_ffffu32.to_le_bytes());
    assert_eq!(Btf::new(&long_types, 8).err(), Some(BtfError::FormatError));
    let mut far_header = data.clone();
    far_header[4..8].copy_from_slice(&0xffff_fff0u32.to_le_bytes());
    assert_eq!(Btf::new(&far_header, 8).err(), Some(BtfError::FormatError));
}

#[test]
fn header_length_moves_both_sections() {
    let mut s = Section::new();
    s.integer("int", 32, ENC_SIGNED);
    let data = s.finish();
    let mut longer: Vec<u8> = data[..24].to_vec();
    longer[4..8].copy_from_slice(&32u32.to_le_bytes());
    longer.extend_from_slice(&[0xaa; 8]);
    longer.extend_from_slice(&data[24..]);
    let btf = Btf::new(&longer, 4).unwrap();
    assert_eq!(btf.len(), 2);
    assert_eq!(btf.types()[1].name(), Some("int"));
}

#[test]
fn sections_need_not_follow_each_other_in_order() {
    // Strings first, then types.
    let mut s = Section::new();
    s.integer("int", 32, ENC_SIGNED);
    let mut out: Vec<u8> = vec![0x9f, 0xeb, 1, 0];
    out.extend_from_slice(&24u32.to_le_bytes());
    out.extend_from_slice(&(s.strings.len() as u32).to_le_bytes());
    out.extend_from_slice(&(s.types.len() as u32).to_le_bytes());
    out.extend_from_slice(&0u32.to_le_bytes());
    out.extend_from_slice(&(s.strings.len() as u32).to_le_bytes());
    out.extend_from_slice(&s.strings);
    out.extend_from_slice(&s.types);
    let btf = Btf::new(&out, 8).unwrap();
    assert_eq!(btf.len(), 2);
    assert_eq!(btf.types()[1].name(), Some("int"));
}

#[test]
fn unknown_kind_is_a_format_error() {
    for kind in [20u32, 21, 31] {
        let mut s = Section::new();
        s.record("x", kind, 0, false, 0);
        assert_eq!(Btf::new(&s.finish(), 8).err(), Some(BtfError::FormatError));
    }
}

#[test]
fn void_record_is_a_format_error() {
    let mut s = Section::new();
    s.record("", 0, 0, false, 0);
    assert_eq!(Btf::new(&s.finish(), 8).err(), Some(BtfError::FormatError));
}

#[test]
fn truncated_record_is_a_format_error() {
    let mut s = Section::new();
    s.composite(KIND_STRUCT, "s", 4, &[("a", 0, 0)]);
    s.types.truncate(s.types.len() - 1);
    assert_eq!(Btf::new(&s.finish(), 8).err(), Some(BtfError::FormatError));

    let mut cut_header = Section::new();
    cut_header.integer("int", 32, ENC_SIGNED);
    cut_header.types.extend_from_slice(&[0; 11]);
    assert_eq!(Btf::new(&cut_header.finish(), 8).err(), Some(BtfError::FormatError));
}

#[test]
fn member_count_beyond_the_section_is_a_format_error() {
    let mut s = Section::new();
    s.record("s", KIND_STRUCT, 0xffff, false, 4);
    s.word(0);
    s.word(0);
    s.word(0);
    assert_eq!(Btf::new(&s.finish(), 8).err(), Some(BtfError::FormatError));
}

#[test]
fn dangling_type_id_is_a_format_error() {
    let mut s = Section::new();
    s.ptr(2);
    assert_eq!(Btf::new(&s.finish(), 8).err(), Some(BtfError::FormatError));

    let mut member = Section::new();
    member.composite(KIND_STRUCT, "s", 4, &[("a", 7, 0)]);
    assert_eq!(Btf::new(&member.finish(), 8).err(), Some(BtfError::FormatError));

    let mut fine = Section::new();
    fine.ptr(1);
    assert_eq!(fine.decode(8).len(), 2);
}

#[test]
fn bad_int_encoding_is_a_format_error() {
    let mut s = Section::new();
    s.integer("odd", 32, 3);
    assert_eq!(Btf::new(&s.finish(), 8).err(), Some(BtfError::FormatError));
}

#[test]
fn bad_linkage_is_a_format_error() {
    let mut s = Section::new();
    s.integer("int", 32, ENC_SIGNED);
    s.var("v", 1, 3);
    assert_eq!(Btf::new(&s.finish(), 8).err(), Some(BtfError::FormatError));
}

#[test]
fn name_outside_the_string_table_is_a_format_error() {
    let mut s = Section::new();
    s.integer("int", 32, ENC_SIGNED);
    let table_len = s.strings.len() as u32;
    s.types[0..4].copy_from_slice(&table_len.to_le_bytes());
    assert_eq!(Btf::new(&s.finish(), 8).err(), Some(BtfError::FormatError));
}

#[test]
fn name_without_terminator_is_a_format_error() {
    let mut s = Section::new();
    s.integer("int", 32, ENC_SIGNED);
    s.strings.pop();
    assert_eq!(Btf::new(&s.finish(), 8).err(), Some(BtfError::FormatError));
}

#[test]
fn name_that_is_not_utf8_is_a_format_error() {
    let mut s = Section::new();
    s.integer("int", 32, ENC_SIGNED);
    s.strings[1] = 0xff;
    assert_eq!(Btf::new(&s.finish(), 8).err(), Some(BtfError::FormatError));
}

#[test]
fn names_are_decoded_as_utf8() {
    let mut s = Section::new();
    s.integer("größe", 32, ENC_PLAIN);
    let btf = s.decode(8);
    assert_eq!(btf.types()[1].name(), Some("größe"));
}

#[test]
fn offset_zero_is_the_empty_name_whatever_the_table_holds() {
    let mut s = Section::new();
    s.integer("", 32, ENC_SIGNED);
    s.strings = b"abc\0".to_vec();
    let btf = s.decode(8);
    assert_eq!(btf.types()[1].name(), None);

    let mut empty_table = Section::new();
    empty_table.integer("", 8, ENC_PLAIN);
    empty_table.strings.clear();
    assert_eq!(empty_table.decode(8).len(), 2);
}

#[test]
fn three_anonymous_structs_are_numbered_in_order() {
    let mut s = Section::new();
    s.composite(KIND_STRUCT, "", 0, &[]);
    s.composite(KIND_STRUCT, "named", 0, &[]);
    s.composite(KIND_STRUCT, "", 0, &[]);
    s.composite(KIND_STRUCT, "", 0, &[]);
    let btf = s.decode(8);
    let names: Vec<String> = btf.types()[1..]
        .iter()
        .map(|t| match t {
            BtfType::Struct(c) => c.name.clone(),
            other => panic!("not a struct: {:?}", other),
        })
        .collect();
    assert_eq!(names, vec!["__anon_1", "named", "__anon_2", "__anon_3"]);
}

#[test]
fn anonymous_unions_and_enums_share_the_counter() {
    let mut s = Section::new();
    s.composite(KIND_UNION, "", 0, &[]);
    s.enumeration("", 4, &[]);
    s.enumeration64("", 8, false, &[]);
    s.composite(KIND_STRUCT, "", 0, &[]);
    s.integer("", 32, ENC_SIGNED);
    s.reference(KIND_TYPEDEF, "", 1);
    let btf = s.decode(8);
    let types = btf.types();
    assert_eq!(types[1].name(), Some("__anon_1"));
    assert_eq!(types[2].name(), Some("__anon_2"));
    assert_eq!(types[3].name(), Some("__anon_3"));
    assert_eq!(types[4].name(), Some("__anon_4"));
    assert_eq!(types[5].name(), None);
    assert_eq!(types[6].name(), None);
}

#[test]
fn twelve_anonymous_types_are_counted_in_decimal() {
    let mut s = Section::new();
    for _ in 0..12 {
        s.composite(KIND_STRUCT, "", 0, &[]);
    }
    let btf = s.decode(8);
    assert_eq!(btf.types()[9].name(), Some("__anon_9"));
    assert_eq!(btf.types()[10].name(), Some("__anon_10"));
    assert_eq!(btf.types()[12].name(), Some("__anon_12"));
}

#[test]
fn int_record_fields_are_taken_apart() {
    let mut s = Section::new();
    s.record("bits", KIND_INT, 0, false, 4);
    s.word(27 | (5 << 16) | (ENC_BOOL << 24));
    match &s.decode(8).types()[1] {
        BtfType::Int(t) => {
            assert_eq!(t.bits, 27);
            assert_eq!(t.offset, 5);
            assert_eq!(t.encoding, BtfIntEncoding::Bool);
        }
        other => panic!("not an int: {:?}", other),
    }
    let mut c = Section::new();
    c.integer("char", 8, ENC_CHAR);
    match &c.decode(8).types()[1] {
        BtfType::Int(t) => assert_eq!(t.encoding, BtfIntEncoding::Char),
        other => panic!("not an int: {:?}", other),
    }
    let mut p = Section::new();
    p.integer("unsigned", 32, ENC_PLAIN);
    match &p.decode(8).types()[1] {
        BtfType::Int(t) => assert_eq!(t.encoding, BtfIntEncoding::Plain),
        other => panic!("not an int: {:?}", other),
    }
}

#[test]
fn members_keep_their_order_and_offsets() {
    let mut s = Section::new();
    s.integer("int", 32, ENC_SIGNED);
    s.composite(KIND_STRUCT, "pair", 8, &[("first", 1, 0), ("second", 1, 32)]);
    match &s.decode(8).types()[2] {
        BtfType::Struct(c) => {
            assert_eq!(c.name, "pair");
            assert_eq!(c.size, 8);
            assert_eq!(c.members.len(), 2);
            assert_eq!(c.members[0].name, "first");
            assert_eq!(c.members[0].type_id, TypeId(1));
            assert_eq!(c.members[0].bit_offset, 0);
            assert_eq!(c.members[0].bit_size, 0);
            assert_eq!(c.members[1].name, "second");
            assert_eq!(c.members[1].bit_offset, 32);
        }
        other => panic!("not a struct: {:?}", other),
    }
}

#[test]
fn kind_flag_splits_the_member_offset_word() {
    let mut s = Section::new();
    s.integer("int", 32, ENC_SIGNED);
    s.bitfield_struct("flags", 4, &[("a", 1, 0, 3), ("b", 1, 3, 5), ("c", 1, 0x12_3456, 0)]);
    match &s.decode(8).types()[2] {
        BtfType::Struct(c) => {
            assert_eq!((c.members[0].bit_offset, c.members[0].bit_size), (0, 3));
            assert_eq!((c.members[1].bit_offset, c.members[1].bit_size), (3, 5));
            assert_eq!((c.members[2].bit_offset, c.members[2].bit_size), (0x12_3456, 0));
        }
        other => panic!("not a struct: {:?}", other),
    }
    // Without the flag the whole word is the offset.
    let mut plain = Section::new();
    plain.integer("int", 32, ENC_SIGNED);
    plain.composite(KIND_STRUCT, "wide", 4, &[("a", 1, 0x0300_0008)]);
    match &plain.decode(8).types()[2] {
        BtfType::Struct(c) => {
            assert_eq!((c.members[0].bit_offset, c.members[0].bit_size), (0x0300_0008, 0));
        }
        other => panic!("not a struct: {:?}", other),
    }
}

#[test]
fn enum_values_are_signed() {
    let mut s = Section::new();
    s.enumeration("e", 4, &[("A", 0), ("B", -1), ("C", i32::MIN), ("D", i32::MAX)]);
    match &s.decode(8).types()[1] {
        BtfType::Enum(e) => {
            let values: Vec<(&str, i32)> =
                e.values.iter().map(|v| (v.name.as_str(), v.value)).collect();
            assert_eq!(values, vec![("A", 0), ("B", -1), ("C", i32::MIN), ("D", i32::MAX)]);
            assert_eq!(e.size, 4);
        }
        other => panic!("not an enum: {:?}", other),
    }
}

#[test]
fn enum64_values_join_both_halves() {
    let mut s = Section::new();
    s.enumeration64("e", 8, true, &[("A", 0x1234_5678_9abc_def0), ("B", u64::MAX), ("C", 1)]);
    match &s.decode(8).types()[1] {
        BtfType::Enum64(e) => {
            assert!(e.signed);
            assert_eq!(e.values[0].value, 0x1234_5678_9abc_def0);
            assert_eq!(e.values[1].value, u64::MAX);
            assert_eq!(e.values[2].value, 1);
        }
        other => panic!("not an enum64: {:?}", other),
    }
}

#[test]
fn every_kind_is_decoded() {
    let mut s = Section::new();
    s.integer("int", 32, ENC_SIGNED); // 1
    s.ptr(1); // 2
    s.array(1, 1, 7); // 3
    s.composite(KIND_STRUCT, "s", 4, &[("a", 1, 0)]); // 4
    s.composite(KIND_UNION, "u", 4, &[("a", 1, 0)]); // 5
    s.enumeration("e", 4, &[("A", 1)]); // 6
    s.fwd("f", true); // 7
    s.reference(KIND_TYPEDEF, "t", 1); // 8
    s.reference(KIND_VOLATILE, "", 1); // 9
    s.reference(KIND_CONST, "", 1); // 10
    s.reference(KIND_RESTRICT, "", 2); // 11
    s.func_proto(1, &[("x", 1), ("", 2)]); // 12
    s.reference(KIND_FUNC, "main", 12); // 13
    s.var("v", 1, 1); // 14
    s.datasec(".data", 4, &[(14, 0, 4)]); // 15
    s.float("float", 4); // 16
    s.decl_tag("tag", 4, -1); // 17
    s.reference(KIND_TYPE_TAG, "user", 1); // 18
    s.enumeration64("e64", 8, false, &[("B", 2)]); // 19
    s.fwd("g", false); // 20
    let btf = s.decode(8);
    let types = btf.types();
    assert_eq!(types.len(), 21);
    assert!(matches!(&types[2], BtfType::Ptr(p) if p.pointee_type == TypeId(1)));
    assert!(matches!(&types[3], BtfType::Array(a)
        if a.nelems == 7 && a.val_type_id == TypeId(1) && a.index_type_id == TypeId(1)));
    assert!(matches!(&types[4], BtfType::Struct(_)));
    assert!(matches!(&types[5], BtfType::Union(_)));
    assert!(matches!(&types[6], BtfType::Enum(_)));
    assert!(matches!(&types[7], BtfType::Fwd(f) if f.kind == BtfFwdKind::Union && f.name == "f"));
    assert!(matches!(&types[8], BtfType::Typedef(t) if t.type_id == TypeId(1) && t.name == "t"));
    assert!(matches!(&types[9], BtfType::Volatile(t) if t.type_id == TypeId(1)));
    assert!(matches!(&types[10], BtfType::Const(t) if t.type_id == TypeId(1)));
    assert!(matches!(&types[11], BtfType::Restrict(t) if t.type_id == TypeId(2)));
    match &types[12] {
        BtfType::FuncProto(p) => {
            assert_eq!(p.ret_type_id, TypeId(1));
            assert_eq!(p.params.len(), 2);
            assert_eq!(p.params[0].name, "x");
            assert_eq!(p.params[0].type_id, TypeId(1));
            assert_eq!(p.params[1].name, "");
            assert_eq!(p.params[1].type_id, TypeId(2));
        }
        other => panic!("not a prototype: {:?}", other),
    }
    assert!(matches!(&types[13], BtfType::Func(f) if f.type_id == TypeId(12) && f.name == "main"));
    assert!(matches!(&types[14], BtfType::Var(v)
        if v.type_id == TypeId(1) && v.linkage == BtfVarLinkage::GlobalAlloc && v.name == "v"));
    match &types[15] {
        BtfType::Datasec(d) => {
            assert_eq!(d.name, ".data");
            assert_eq!(d.size, 4);
            assert_eq!(d.vars, vec![BtfDatasecVar { type_id: TypeId(14), offset: 0, size: 4 }]);
        }
        other => panic!("not a data section: {:?}", other),
    }
    assert!(matches!(&types[16], BtfType::Float(f) if f.size == 4 && f.name == "float"));
    assert!(matches!(&types[17], BtfType::DeclTag(t)
        if t.type_id == TypeId(4) && t.component_idx == -1 && t.name == "tag"));
    assert!(matches!(&types[18], BtfType::TypeTag(t) if t.type_id == TypeId(1) && t.name == "user"));
    assert!(matches!(&types[19], BtfType::Enum64(e) if !e.signed && e.size == 8));
    assert!(matches!(&types[20], BtfType::Fwd(f) if f.kind == BtfFwdKind::Struct));
}

#[test]
fn linkage_numbers_are_decoded() {
    let mut s = Section::new();
    s.integer("int", 32, ENC_SIGNED);
    s.var("a", 1, 0);
    s.var("b", 1, 1);
    s.var("c", 1, 2);
    let btf = s.decode(8);
    let linkage: Vec<BtfVarLinkage> = btf.types()[2..]
        .iter()
        .map(|t| match t {
            BtfType::Var(v) => v.linkage,
            other => panic!("not a variable: {:?}", other),
        })
        .collect();
    assert_eq!(
        linkage,
        vec![BtfVarLinkage::Static, BtfVarLinkage::GlobalAlloc, BtfVarLinkage::GlobalExtern]
    );
}

#[test]
fn lookup_of_a_missing_id_finds_nothing() {
    let mut s = Section::new();
    s.integer("int", 32, ENC_SIGNED);
    let btf = s.decode(8);
    assert!(btf.type_by_id(TypeId(0)).is_ok());
    assert!(btf.type_by_id(TypeId(1)).is_ok());
    assert_eq!(btf.type_by_id(TypeId(2)).err(), Some(BtfError::NotFound));
    assert_eq!(btf.type_by_id(TypeId(u32::MAX)).err(), Some(BtfError::NotFound));
    assert_eq!(btf.size_of(TypeId(2)), Err(BtfError::NotFound));
    assert_eq!(btf.align_of(TypeId(2)), Err(BtfError::NotFound));
    assert_eq!(btf.type_definition(TypeId(2)), Err(BtfError::NotFound));
}

#[test]
fn graph_keeps_the_section_it_was_decoded_from() {
    let mut s = Section::new();
    s.integer("int", 32, ENC_SIGNED);
    s.composite(KIND_STRUCT, "", 4, &[("a", 1, 0)]);
    let data = s.finish();
    let btf = Btf::new(&data, 8).unwrap();
    assert_eq!(btf.raw_data(), &data[..]);
    let again = Btf::new(btf.raw_data(), 8).unwrap();
    assert_eq!(again.types(), btf.types());
    assert_eq!(again.ptr_size(), btf.ptr_size());
}

#[test]
fn names_are_found_by_their_offset() {
    let mut s = Section::new();
    s.integer("int", 32, ENC_SIGNED);
    s.integer("long", 64, ENC_SIGNED);
    let btf = s.decode(8);
    assert_eq!(btf.name_at(1), Some("int".to_string()));
    assert_eq!(btf.name_at(2), Some("nt".to_string()));
    assert_eq!(btf.name_at(5), Some("long".to_string()));
    assert_eq!(btf.name_at(0), None);
    assert_eq!(btf.name_at(4), None);
    assert_eq!(btf.name_at(9), None);
    assert_eq!(btf.name_at(10), None);
    assert_eq!(btf.name_at(u32::MAX), None);
}
