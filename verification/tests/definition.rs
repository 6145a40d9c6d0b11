use btf_types::btf::Btf;
use btf_types::error::BtfError;
use btf_types::types::TypeId;

const KIND_INT: u32 = 1;
const KIND_PTR: u32 = 2;
const KIND_ARRAY: u32 = 3;
const KIND_STRUCT: u32 = 4;
const KIND_UNION: u32 = 5;
const KIND_ENUM: u32 = 6;
const KIND_FWD: u32 = 7;
const KIND_TYPEDEF: u32 = 8;
const KIND_VOLATILE: u32 = 9;
const KIND_CONST: u32 = 10;
const KIND_RESTRICT: u32 = 11;
const KIND_FUNC: u32 = 12;
const KIND_FUNC_PROTO: u32 = 13;
const KIND_VAR: u32 = 14;
const KIND_DATASEC: u32 = 15;
const KIND_FLOAT: u32 = 16;
const KIND_DECL_TAG: u32 = 17;
const KIND_TYPE_TAG: u32 = 18;
const KIND_ENUM64: u32 = 19;

const ENC_PLAIN: u32 = 0;
const ENC_SIGNED: u32 = 1;
const ENC_CHAR: u32 = 2;
const ENC_BOOL: u32 = 4;

/// Collects the records and strings of a section and lays them out behind a
/// header. Each method that adds a type returns nothing: ids count from 1 in
/// the order of the calls.
#[allow(dead_code)]
struct Section {
    types: Vec<u8>,
    strings: Vec<u8>,
}

#[allow(dead_code)]
impl Section {
    fn new() -> Section {
        Section { types: Vec::new(), strings: vec![0] }
    }

    fn name(&mut self, name: &str) -> u32 {
        if name.is_empty() {
            return 0;
        }
        let off = self.strings.len() as u32;
        self.strings.extend_from_slice(name.as_bytes());
        self.strings.push(0);
        off
    }

    fn word(&mut self, word: u32) {
        self.types.extend_from_slice(&word.to_le_bytes());
    }

    fn record(&mut self, name: &str, kind: u32, vlen: u32, flag: bool, size_or_type: u32) {
        let name_off = self.name(name);
        self.word(name_off);
        self.word(vlen | (kind << 24) | ((flag as u32) << 31));
        self.word(size_or_type);
    }

    fn integer(&mut self, name: &str, bits: u32, encoding: u32) {
        self.record(name, KIND_INT, 0, false, (bits + 7) / 8);
        self.word(bits | (encoding << 24));
    }

    fn float(&mut self, name: &str, size: u32) {
        self.record(name, KIND_FLOAT, 0, false, size);
    }

    fn ptr(&mut self, to: u32) {
        self.record("", KIND_PTR, 0, false, to);
    }

    fn array(&mut self, elem: u32, index: u32, nelems: u32) {
        self.record("", KIND_ARRAY, 0, false, 0);
        self.word(elem);
        self.word(index);
        self.word(nelems);
    }

    /// A struct or union; each member is (name, type, bit offset).
    fn composite(&mut self, kind: u32, name: &str, size: u32, members: &[(&str, u32, u32)]) {
        self.record(name, kind, members.len() as u32, false, size);
        for (member, ty, bit_offset) in members {
            let name_off = self.name(member);
            self.word(name_off);
            self.word(*ty);
            self.word(*bit_offset);
        }
    }

    /// A struct with the kind flag set; each member is (name, type, bit
    /// offset, bit size).
    fn bitfield_struct(&mut self, name: &str, size: u32, members: &[(&str, u32, u32, u32)]) {
        self.record(name, KIND_STRUCT, members.len() as u32, true, size);
        for (member, ty, bit_offset, bit_size) in members {
            let name_off = self.name(member);
            self.word(name_off);
            self.word(*ty);
            self.word(*bit_offset | (*bit_size << 24));
        }
    }

    fn enumeration(&mut self, name: &str, size: u32, values: &[(&str, i32)]) {
        self.record(name, KIND_ENUM, values.len() as u32, false, size);
        for (value_name, value) in values {
            let name_off = self.name(value_name);
            self.word(name_off);
            self.word(*value as u32);
        }
    }

    fn enumeration64(&mut self, name: &str, size: u32, signed: bool, values: &[(&str, u64)]) {
        self.record(name, KIND_ENUM64, values.len() as u32, signed, size);
        for (value_name, value) in values {
            let name_off = self.name(value_name);
            self.word(name_off);
            self.word(*value as u32);
            self.word((*value >> 32) as u32);
        }
    }

    fn reference(&mut self, kind: u32, name: &str, to: u32) {
        self.record(name, kind, 0, false, to);
    }

    fn fwd(&mut self, name: &str, union: bool) {
        self.record(name, KIND_FWD, 0, union, 0);
    }

    fn func_proto(&mut self, ret: u32, params: &[(&str, u32)]) {
        self.record("", KIND_FUNC_PROTO, params.len() as u32, false, ret);
        for (param, ty) in params {
            let name_off = self.name(param);
            self.word(name_off);
            self.word(*ty);
        }
    }

    fn var(&mut self, name: &str, ty: u32, linkage: u32) {
        self.record(name, KIND_VAR, 0, false, ty);
        self.word(linkage);
    }

    /// A data section; each slot is (variable, offset, size).
    fn datasec(&mut self, name: &str, size: u32, slots: &[(u32, u32, u32)]) {
        self.record(name, KIND_DATASEC, slots.len() as u32, false, size);
        for (var, offset, slot_size) in slots {
            self.word(*var);
            self.word(*offset);
            self.word(*slot_size);
        }
    }

    fn decl_tag(&mut self, name: &str, to: u32, component: i32) {
        self.record(name, KIND_DECL_TAG, 0, false, to);
        self.word(component as u32);
    }

    fn finish(&self) -> Vec<u8> {
        let mut out: Vec<u8> = vec![0x9f, 0xeb, 1, 0];
        out.extend_from_slice(&24u32.to_le_bytes());
        out.extend_from_slice(&0u32.to_le_bytes());
        out.extend_from_slice(&(self.types.len() as u32).to_le_bytes());
        out.extend_from_slice(&(self.types.len() as u32).to_le_bytes());
        out.extend_from_slice(&(self.strings.len() as u32).to_le_bytes());
        out.extend_from_slice(&self.types);
        out.extend_from_slice(&self.strings);
        out
    }

    fn decode(&self, ptr_size: u32) -> Btf {
        Btf::new(&self.finish(), ptr_size).unwrap()
    }
}

fn text(lines: &[&str]) -> String {
    let mut out = String::new();
    for line in lines {
        out.push_str(line);
        out.push('\n');
    }
    out
}

#[test]
fn scalars_are_declared_by_width_and_sign() {
    let mut s = Section::new();
    s.integer("a", 8, ENC_SIGNED); // 1
    s.integer("b", 16, ENC_PLAIN); // 2
    s.integer("c", 32, ENC_CHAR); // 3
    s.integer("d", 64, ENC_SIGNED); // 4
    s.integer("e", 128, ENC_PLAIN); // 5
    s.integer("f", 8, ENC_BOOL); // 6
    s.integer("g", 7, ENC_SIGNED); // 7
    s.integer("h", 25, ENC_PLAIN); // 8
    s.float("i", 4); // 9
    s.float("j", 8); // 10
    let btf = s.decode(8);
    let decl = |id: u32| btf.type_declaration(TypeId(id)).unwrap();
    assert_eq!(decl(1), "i8");
    assert_eq!(decl(2), "u16");
    assert_eq!(decl(3), "u32");
    assert_eq!(decl(4), "i64");
    assert_eq!(decl(5), "u128");
    assert_eq!(decl(6), "bool");
    assert_eq!(decl(7), "i8");
    assert_eq!(decl(8), "u32");
    assert_eq!(decl(9), "f32");
    assert_eq!(decl(10), "f64");
    assert_eq!(decl(0), "std::ffi::c_void");
    let default = |id: u32| btf.type_default(TypeId(id)).unwrap();
    assert_eq!(default(1), "i8::default()");
    assert_eq!(default(6), "bool::default()");
    assert_eq!(default(9), "f32::default()");
    assert_eq!(default(0), "std::ffi::c_void::default()");
}

#[test]
fn odd_widths_cannot_be_declared() {
    let mut s = Section::new();
    s.integer("three", 24, ENC_PLAIN); // 1
    s.integer("wide", 129, ENC_PLAIN); // 2
    s.integer("none", 0, ENC_PLAIN); // 3
    s.integer("flag", 1, ENC_BOOL); // 4
    s.integer("bigflag", 16, ENC_BOOL); // 5
    s.float("half", 2); // 6
    s.float("extended", 12); // 7
    s.float("quad", 16); // 8
    s.float("odd", 5); // 9
    let btf = s.decode(8);
    for id in 1..=9 {
        assert_eq!(btf.type_declaration(TypeId(id)), Err(BtfError::UnsupportedType));
        assert_eq!(btf.type_default(TypeId(id)), Err(BtfError::UnsupportedType));
    }
}

#[test]
fn pointers_arrays_and_names_are_declared() {
    let mut s = Section::new();
    s.integer("int", 32, ENC_SIGNED); // 1
    s.ptr(1); // 2
    s.ptr(2); // 3
    s.ptr(0); // 4
    s.array(1, 1, 4); // 5
    s.array(5, 1, 1000); // 6
    s.array(2, 1, 0); // 7
    s.composite(KIND_STRUCT, "point", 8, &[("x", 1, 0), ("y", 1, 32)]); // 8
    s.composite(KIND_UNION, "either", 4, &[("x", 1, 0)]); // 9
    s.enumeration("color", 4, &[("RED", 0)]); // 10
    s.enumeration64("big", 8, false, &[("ONE", 1)]); // 11
    s.func_proto(0, &[]); // 12
    s.reference(KIND_FUNC, "f", 12); // 13
    s.ptr(13); // 14
    s.var("v", 5, 1); // 15
    s.reference(KIND_TYPEDEF, "alias", 8); // 16
    s.reference(KIND_CONST, "", 16); // 17
    s.ptr(17); // 18
    let btf = s.decode(8);
    let decl = |id: u32| btf.type_declaration(TypeId(id)).unwrap();
    assert_eq!(decl(2), "*mut i32");
    assert_eq!(decl(3), "*mut *mut i32");
    assert_eq!(decl(4), "*mut std::ffi::c_void");
    assert_eq!(decl(5), "[i32; 4]");
    assert_eq!(decl(6), "[[i32; 4]; 1000]");
    assert_eq!(decl(7), "[*mut i32; 0]");
    assert_eq!(decl(8), "point");
    assert_eq!(decl(9), "either");
    assert_eq!(decl(10), "color");
    assert_eq!(decl(11), "big");
    assert_eq!(decl(13), "std::ffi::c_void");
    assert_eq!(decl(14), "*mut std::ffi::c_void");
    assert_eq!(decl(15), "[i32; 4]");
    assert_eq!(decl(16), "point");
    assert_eq!(decl(18), "*mut point");
    let default = |id: u32| btf.type_default(TypeId(id)).unwrap();
    assert_eq!(default(2), "std::ptr::null_mut()");
    assert_eq!(default(5), "[i32::default(); 4]");
    assert_eq!(default(6), "[[i32::default(); 4]; 1000]");
    assert_eq!(default(7), "[std::ptr::null_mut(); 0]");
    assert_eq!(default(8), "point::default()");
    assert_eq!(default(9), "either::default()");
    assert_eq!(default(10), "color::default()");
    assert_eq!(default(11), "big::default()");
    assert_eq!(default(15), "[i32; 4]::default()");
    assert_eq!(default(17), "point::default()");
    assert_eq!(btf.type_declaration(TypeId(12)), Err(BtfError::UnsupportedType));
    assert_eq!(btf.type_default(TypeId(12)), Err(BtfError::UnsupportedType));
    assert_eq!(btf.type_default(TypeId(13)), Err(BtfError::UnsupportedType));
    assert_eq!(btf.type_declaration(TypeId(19)), Err(BtfError::NotFound));
    assert_eq!(btf.type_default(TypeId(19)), Err(BtfError::NotFound));
}

#[test]
fn forward_declarations_and_sections_cannot_be_declared() {
    let mut s = Section::new();
    s.fwd("later", false); // 1
    s.integer("int", 32, ENC_SIGNED); // 2
    s.var("v", 2, 1); // 3
    s.datasec(".data", 4, &[(3, 0, 4)]); // 4
    s.decl_tag("tag", 2, -1); // 5
    let btf = s.decode(8);
    for id in [1u32, 4, 5] {
        assert_eq!(btf.type_declaration(TypeId(id)), Err(BtfError::UnsupportedType));
        assert_eq!(btf.type_default(TypeId(id)), Err(BtfError::UnsupportedType));
    }
}

#[test]
fn pointer_to_itself_cannot_be_declared() {
    let mut s = Section::new();
    s.ptr(1); // 1
    let btf = s.decode(8);
    assert_eq!(btf.type_declaration(TypeId(1)), Err(BtfError::UnsupportedType));
    assert_eq!(btf.type_default(TypeId(1)), Ok("std::ptr::null_mut()".to_string()));
}

#[test]
fn struct_is_defined_with_its_fields() {
    let mut s = Section::new();
    s.integer("int", 32, ENC_SIGNED); // 1
    s.integer("char", 8, ENC_CHAR); // 2
    s.integer("long", 64, ENC_SIGNED); // 3
    s.composite(KIND_STRUCT, "Foo", 16, &[("x", 1, 0), ("c", 2, 32), ("y", 3, 64)]); // 4
    let btf = s.decode(8);
    assert_eq!(
        btf.type_definition(TypeId(4)).unwrap(),
        text(&[
            "#[derive(Debug, Default, Copy, Clone)]",
            "#[repr(C)]",
            "pub struct Foo {",
            "    pub x: i32,",
            "    pub c: u8,",
            "    pub y: i64,",
            "}",
        ])
    );
}

#[test]
fn gaps_that_alignment_does_not_explain_are_padded() {
    let mut s = Section::new();
    s.integer("int", 32, ENC_SIGNED); // 1
    s.integer("char", 8, ENC_CHAR); // 2
    s.composite(KIND_STRUCT, "Padded", 20, &[("a", 2, 0), ("b", 1, 64), ("c", 2, 96)]); // 3
    let btf = s.decode(8);
    assert_eq!(btf.is_struct_packed(TypeId(3)), Ok(false));
    assert_eq!(
        btf.type_definition(TypeId(3)).unwrap(),
        text(&[
            "#[derive(Debug, Default, Copy, Clone)]",
            "#[repr(C)]",
            "pub struct Padded {",
            "    pub a: u8,",
            "    __pad_1: [u8; 7],",
            "    pub b: i32,",
            "    pub c: u8,",
            "    __pad_13: [u8; 7],",
            "}",
        ])
    );
}

#[test]
fn tail_that_alignment_explains_is_not_padded() {
    let mut s = Section::new();
    s.integer("int", 32, ENC_SIGNED); // 1
    s.integer("char", 8, ENC_CHAR); // 2
    s.composite(KIND_STRUCT, "Tail", 8, &[("a", 1, 0), ("b", 2, 32)]); // 3
    let btf = s.decode(8);
    assert_eq!(
        btf.type_definition(TypeId(3)).unwrap(),
        text(&[
            "#[derive(Debug, Default, Copy, Clone)]",
            "#[repr(C)]",
            "pub struct Tail {",
            "    pub a: i32,",
            "    pub b: u8,",
            "}",
        ])
    );
}

#[test]
fn packed_struct_is_marked_and_padded_byte_by_byte() {
    let mut s = Section::new();
    s.integer("int", 32, ENC_SIGNED); // 1
    s.integer("char", 8, ENC_CHAR); // 2
    s.composite(KIND_STRUCT, "Tight", 7, &[("a", 2, 0), ("b", 1, 8), ("c", 2, 48)]); // 3
    let btf = s.decode(8);
    assert_eq!(btf.is_struct_packed(TypeId(3)), Ok(true));
    assert_eq!(
        btf.type_definition(TypeId(3)).unwrap(),
        text(&[
            "#[derive(Debug, Default, Copy, Clone)]",
            "#[repr(C, packed)]",
            "pub struct Tight {",
            "    pub a: u8,",
            "    pub b: i32,",
            "    __pad_5: [u8; 1],",
            "    pub c: u8,",
            "}",
        ])
    );
}

#[test]
fn long_array_forces_a_written_default() {
    let mut s = Section::new();
    s.integer("int", 32, ENC_SIGNED); // 1
    s.array(1, 1, 33); // 2
    s.integer("char", 8, ENC_CHAR); // 3
    s.composite(KIND_STRUCT, "Big", 148, &[("c", 3, 0), ("arr", 2, 64), ("d", 3, 1120)]); // 4
    let btf = s.decode(8);
    assert_eq!(
        btf.type_definition(TypeId(4)).unwrap(),
        text(&[
            "#[derive(Debug, Copy, Clone)]",
            "#[repr(C)]",
            "pub struct Big {",
            "    pub c: u8,",
            "    __pad_1: [u8; 7],",
            "    pub arr: [i32; 33],",
            "    pub d: u8,",
            "    __pad_141: [u8; 7],",
            "}",
            "impl Default for Big {",
            "    fn default() -> Self {",
            "        Big {",
            "            c: u8::default(),",
            "            __pad_1: [u8::default(); 7],",
            "            arr: [i32::default(); 33],",
            "            d: u8::default(),",
            "            __pad_141: [u8::default(); 7],",
            "        }",
            "    }",
            "}",
        ])
    );
}

#[test]
fn array_of_thirty_two_keeps_the_derived_default() {
    let mut s = Section::new();
    s.integer("int", 32, ENC_SIGNED); // 1
    s.array(1, 1, 32); // 2
    s.composite(KIND_STRUCT, "Fits", 128, &[("arr", 2, 0)]); // 3
    let btf = s.decode(8);
    assert_eq!(
        btf.type_definition(TypeId(3)).unwrap(),
        text(&[
            "#[derive(Debug, Default, Copy, Clone)]",
            "#[repr(C)]",
            "pub struct Fits {",
            "    pub arr: [i32; 32],",
            "}",
        ])
    );
}

#[test]
fn long_array_in_a_union_changes_nothing() {
    let mut s = Section::new();
    s.integer("int", 32, ENC_SIGNED); // 1
    s.array(1, 1, 40); // 2
    s.composite(KIND_UNION, "U", 160, &[("arr", 2, 0), ("x", 1, 0)]); // 3
    let btf = s.decode(8);
    assert_eq!(
        btf.type_definition(TypeId(3)).unwrap(),
        text(&[
            "#[derive(Copy, Clone)]",
            "#[repr(C)]",
            "pub union U {",
            "    pub arr: [i32; 40],",
            "    pub x: i32,",
            "}",
            "impl std::fmt::Debug for U {",
            "    fn fmt(&self, f: &mut std::fmt::Formatter<'_>) -> std::fmt::Result {",
            "        write!(f, \"(???)\")",
            "    }",
            "}",
            "impl Default for U {",
            "    fn default() -> Self {",
            "        U {",
            "            arr: [i32::default(); 40],",
            "        }",
            "    }",
            "}",
        ])
    );
}

#[test]
fn union_defaults_to_its_first_member() {
    let mut s = Section::new();
    s.integer("int", 32, ENC_SIGNED); // 1
    s.integer("long", 64, ENC_SIGNED); // 2
    s.composite(KIND_UNION, "U", 8, &[("a", 1, 0), ("b", 2, 0)]); // 3
    let btf = s.decode(8);
    assert_eq!(
        btf.type_definition(TypeId(3)).unwrap(),
        text(&[
            "#[derive(Copy, Clone)]",
            "#[repr(C)]",
            "pub union U {",
            "    pub a: i32,",
            "    pub b: i64,",
            "}",
            "impl std::fmt::Debug for U {",
            "    fn fmt(&self, f: &mut std::fmt::Formatter<'_>) -> std::fmt::Result {",
            "        write!(f, \"(???)\")",
            "    }",
            "}",
            "impl Default for U {",
            "    fn default() -> Self {",
            "        U {",
            "            a: i32::default(),",
            "        }",
            "    }",
            "}",
        ])
    );
}

#[test]
fn union_without_members_is_unsupported() {
    let mut s = Section::new();
    s.composite(KIND_UNION, "Nothing", 0, &[]); // 1
    s.composite(KIND_STRUCT, "Empty", 0, &[]); // 2
    let btf = s.decode(8);
    assert_eq!(btf.type_definition(TypeId(1)), Err(BtfError::UnsupportedType));
    assert_eq!(
        btf.type_definition(TypeId(2)).unwrap(),
        text(&["#[derive(Debug, Default, Copy, Clone)]", "#[repr(C)]", "pub struct Empty {", "}"])
    );
}

#[test]
fn member_without_a_name_is_named_after_its_type() {
    let mut s = Section::new();
    s.integer("int", 32, ENC_SIGNED); // 1
    s.composite(KIND_STRUCT, "", 4, &[("v", 1, 0)]); // 2
    s.composite(KIND_STRUCT, "Outer", 4, &[("", 2, 0)]); // 3
    let btf = s.decode(8);
    assert_eq!(
        btf.type_definition(TypeId(3)).unwrap(),
        text(&[
            "#[derive(Debug, Default, Copy, Clone)]",
            "#[repr(C)]",
            "pub struct Outer {",
            "    pub __anon_1: __anon_1,",
            "}",
            "#[derive(Debug, Default, Copy, Clone)]",
            "#[repr(C)]",
            "pub struct __anon_1 {",
            "    pub v: i32,",
            "}",
        ])
    );
}

#[test]
fn bitfields_are_unsupported() {
    let mut s = Section::new();
    s.integer("int", 32, ENC_SIGNED); // 1
    s.bitfield_struct("Bits", 4, &[("a", 1, 0, 3)]); // 2
    s.composite(KIND_STRUCT, "Skewed", 8, &[("a", 1, 4)]); // 3
    s.bitfield_struct("Whole", 4, &[("a", 1, 0, 0)]); // 4
    let btf = s.decode(8);
    assert_eq!(btf.type_definition(TypeId(2)), Err(BtfError::UnsupportedType));
    assert_eq!(btf.type_definition(TypeId(3)), Err(BtfError::UnsupportedType));
    assert!(btf.type_definition(TypeId(4)).is_ok());
}

#[test]
fn overlapping_members_are_unsupported() {
    let mut s = Section::new();
    s.integer("int", 32, ENC_SIGNED); // 1
    s.composite(KIND_STRUCT, "Overlap", 8, &[("a", 1, 0), ("b", 1, 16)]); // 2
    s.composite(KIND_STRUCT, "TooSmall", 2, &[("a", 1, 0)]); // 3
    s.composite(KIND_UNION, "Fine", 4, &[("a", 1, 0), ("b", 1, 0)]); // 4
    let btf = s.decode(8);
    assert_eq!(btf.type_definition(TypeId(2)), Err(BtfError::UnsupportedType));
    assert_eq!(btf.type_definition(TypeId(3)), Err(BtfError::UnsupportedType));
    assert!(btf.type_definition(TypeId(4)).is_ok());
}

#[test]
fn member_whose_end_overflows_is_unsupported() {
    let mut s = Section::new();
    s.integer("int", 32, ENC_SIGNED); // 1
    s.array(1, 1, 0x3fff_ffff); // 2
    s.composite(KIND_UNION, "Huge", 4, &[("a", 2, 64)]); // 3
    let btf = s.decode(8);
    assert_eq!(btf.size_of(TypeId(2)), Ok(0xffff_fffc));
    assert_eq!(btf.type_definition(TypeId(3)), Err(BtfError::UnsupportedType));
}

#[test]
fn member_without_a_default_is_left_out_of_no_default() {
    // A struct field that is a function has a declaration but no default
    // value. With the derived `Default` that goes unnoticed; a written one
    // cannot be had.
    let mut s = Section::new();
    s.func_proto(0, &[]); // 1
    s.reference(KIND_FUNC, "f", 1); // 2
    s.integer("int", 32, ENC_SIGNED); // 3
    s.array(3, 3, 64); // 4
    s.composite(KIND_STRUCT, "Plain", 0, &[("f", 2, 0)]); // 5
    s.composite(KIND_STRUCT, "Written", 256, &[("a", 4, 0), ("f", 2, 2048)]); // 6
    s.composite(KIND_UNION, "Either", 0, &[("f", 2, 0)]); // 7
    let btf = s.decode(8);
    // A function has no size, so neither layout gets as far as a field.
    assert_eq!(btf.type_definition(TypeId(5)), Err(BtfError::UnsupportedType));
    assert_eq!(btf.type_definition(TypeId(6)), Err(BtfError::UnsupportedType));
    assert_eq!(btf.type_definition(TypeId(7)), Err(BtfError::UnsupportedType));
}

#[test]
fn enum_is_signed_if_a_value_is_negative() {
    let mut s = Section::new();
    s.enumeration("E", 4, &[("A", 0), ("B", -1), ("C", i32::MIN)]); // 1
    s.enumeration("F", 1, &[("X", 7), ("Y", 200)]); // 2
    s.enumeration("G", 2, &[]); // 3
    s.enumeration("H", 8, &[("Z", i32::MAX)]); // 4
    s.enumeration("I", 16, &[("W", 1)]); // 5
    s.enumeration("J", 3, &[("V", 1)]); // 6
    let btf = s.decode(8);
    assert_eq!(
        btf.type_definition(TypeId(1)).unwrap(),
        text(&[
            "#[derive(Debug, Copy, Clone, PartialEq, Eq)]",
            "#[repr(i32)]",
            "pub enum E {",
            "    A = 0,",
            "    B = -1,",
            "    C = -2147483648,",
            "}",
            "#[allow(clippy::derivable_impls)]",
            "impl Default for E {",
            "    fn default() -> Self {",
            "        E::A",
            "    }",
            "}",
        ])
    );
    assert_eq!(
        btf.type_definition(TypeId(2)).unwrap(),
        text(&[
            "#[derive(Debug, Copy, Clone, PartialEq, Eq)]",
            "#[repr(u8)]",
            "pub enum F {",
            "    X = 7,",
            "    Y = 200,",
            "}",
            "#[allow(clippy::derivable_impls)]",
            "impl Default for F {",
            "    fn default() -> Self {",
            "        F::X",
            "    }",
            "}",
        ])
    );
    assert_eq!(
        btf.type_definition(TypeId(3)).unwrap(),
        text(&[
            "#[derive(Debug, Copy, Clone, PartialEq, Eq)]",
            "#[repr(u16)]",
            "pub enum G {",
            "}",
        ])
    );
    assert!(btf.type_definition(TypeId(4)).unwrap().contains("#[repr(u64)]\n"));
    assert!(btf.type_definition(TypeId(4)).unwrap().contains("    Z = 2147483647,\n"));
    assert!(btf.type_definition(TypeId(5)).unwrap().contains("#[repr(u128)]\n"));
    assert_eq!(btf.type_definition(TypeId(6)), Err(BtfError::UnsupportedType));
}

#[test]
fn enum64_is_signed_if_its_record_says_so() {
    let mut s = Section::new();
    s.enumeration64("E", 8, true, &[("A", 1), ("B", u64::MAX)]); // 1
    s.enumeration64("F", 8, false, &[("A", 0), ("B", 0x1_0000_0000)]); // 2
    s.enumeration64("G", 16, false, &[("A", 0)]); // 3
    s.enumeration64("H", 4, true, &[]); // 4
    let btf = s.decode(8);
    assert_eq!(
        btf.type_definition(TypeId(1)).unwrap(),
        text(&[
            "#[derive(Debug, Copy, Clone, PartialEq, Eq)]",
            "#[repr(i64)]",
            "pub enum E {",
            "    A = 1,",
            "    B = 18446744073709551615,",
            "}",
            "#[allow(clippy::derivable_impls)]",
            "impl Default for E {",
            "    fn default() -> Self {",
            "        E::A",
            "    }",
            "}",
        ])
    );
    assert_eq!(
        btf.type_definition(TypeId(2)).unwrap(),
        text(&[
            "#[derive(Debug, Copy, Clone, PartialEq, Eq)]",
            "#[repr(u64)]",
            "pub enum F {",
            "    A = 0,",
            "    B = 4294967296,",
            "}",
            "#[allow(clippy::derivable_impls)]",
            "impl Default for F {",
            "    fn default() -> Self {",
            "        F::A",
            "    }",
            "}",
        ])
    );
    assert_eq!(btf.type_definition(TypeId(3)), Err(BtfError::UnsupportedType));
    assert_eq!(
        btf.type_definition(TypeId(4)).unwrap(),
        text(&[
            "#[derive(Debug, Copy, Clone, PartialEq, Eq)]",
            "#[repr(i32)]",
            "pub enum H {",
            "}",
        ])
    );
}

#[test]
fn data_section_becomes_a_struct_of_its_variables() {
    let mut s = Section::new();
    s.integer("int", 32, ENC_SIGNED); // 1
    s.integer("long", 64, ENC_SIGNED); // 2
    s.integer("char", 8, ENC_CHAR); // 3
    s.var("counter", 1, 1); // 4
    s.var("hidden", 1, 0); // 5
    s.var("total", 2, 1); // 6
    s.var("flag", 3, 2); // 7
    s.var("late", 3, 1); // 8
    s.datasec(".data", 32, &[(4, 0, 4), (5, 4, 4), (6, 8, 8), (7, 16, 1), (8, 20, 1)]); // 9
    let btf = s.decode(8);
    assert_eq!(
        btf.type_definition(TypeId(9)).unwrap(),
        text(&[
            "#[derive(Debug, Copy, Clone)]",
            "#[repr(C)]",
            "pub struct data {",
            "    pub counter: i32,",
            "    pub total: i64,",
            "    pub flag: u8,",
            "    __pad_17: [u8; 3],",
            "    pub late: u8,",
            "}",
        ])
    );
}

#[test]
fn data_section_variables_align_as_their_type_does() {
    // After four bytes an eight-byte variable lands on byte 8 by itself, and
    // needs padding to get to byte 12.
    let mut s = Section::new();
    s.integer("int", 32, ENC_SIGNED); // 1
    s.integer("long", 64, ENC_SIGNED); // 2
    s.var("a", 1, 1); // 3
    s.var("b", 2, 1); // 4
    s.datasec(".bss", 16, &[(3, 0, 4), (4, 8, 8)]); // 5
    s.datasec(".odd", 20, &[(3, 0, 4), (4, 12, 8)]); // 6
    let btf = s.decode(8);
    assert_eq!(
        btf.type_definition(TypeId(5)).unwrap(),
        text(&[
            "#[derive(Debug, Copy, Clone)]",
            "#[repr(C)]",
            "pub struct bss {",
            "    pub a: i32,",
            "    pub b: i64,",
            "}",
        ])
    );
    assert_eq!(
        btf.type_definition(TypeId(6)).unwrap(),
        text(&[
            "#[derive(Debug, Copy, Clone)]",
            "#[repr(C)]",
            "pub struct odd {",
            "    pub a: i32,",
            "    __pad_4: [u8; 8],",
            "    pub b: i64,",
            "}",
        ])
    );
}

#[test]
fn data_section_needs_a_leading_dot() {
    let mut s = Section::new();
    s.integer("int", 32, ENC_SIGNED); // 1
    s.var("a", 1, 1); // 2
    s.datasec("data", 4, &[(2, 0, 4)]); // 3
    s.datasec("", 4, &[(2, 0, 4)]); // 4
    s.datasec(".", 4, &[]); // 5
    s.datasec("..rodata", 4, &[(2, 0, 4)]); // 6
    let btf = s.decode(8);
    assert_eq!(btf.type_definition(TypeId(3)), Err(BtfError::UnsupportedType));
    assert_eq!(btf.type_definition(TypeId(4)), Err(BtfError::UnsupportedType));
    assert_eq!(
        btf.type_definition(TypeId(5)).unwrap(),
        text(&["#[derive(Debug, Copy, Clone)]", "#[repr(C)]", "pub struct  {", "}"])
    );
    assert!(btf.type_definition(TypeId(6)).unwrap().contains("pub struct .rodata {\n"));
}

#[test]
fn data_section_slot_must_hold_a_variable() {
    let mut s = Section::new();
    s.integer("int", 32, ENC_SIGNED); // 1
    s.datasec(".data", 4, &[(1, 0, 4)]); // 2
    s.var("a", 1, 1); // 3
    s.datasec(".back", 8, &[(3, 4, 4), (3, 0, 4)]); // 4
    s.datasec(".wrap", 8, &[(3, 0xffff_fffe, 4)]); // 5
    let btf = s.decode(8);
    assert_eq!(btf.type_definition(TypeId(2)), Err(BtfError::UnsupportedType));
    assert_eq!(btf.type_definition(TypeId(4)), Err(BtfError::UnsupportedType));
    assert_eq!(btf.type_definition(TypeId(5)), Err(BtfError::UnsupportedType));
}

#[test]
fn mentioned_types_are_defined_once_and_in_order_of_mention() {
    let mut s = Section::new();
    s.integer("int", 32, ENC_SIGNED); // 1
    s.composite(KIND_STRUCT, "Inner", 4, &[("v", 1, 0)]); // 2
    s.enumeration("Kind", 4, &[("A", 0)]); // 3
    s.ptr(2); // 4
    s.array(3, 1, 2); // 5
    s.reference(KIND_TYPEDEF, "inner_t", 2); // 6
    s.composite(
        KIND_STRUCT,
        "Outer",
        32,
        &[("kinds", 5, 0), ("first", 2, 64), ("again", 6, 96), ("link", 4, 128), ("more", 3, 192)],
    ); // 7
    let btf = s.decode(8);
    assert_eq!(
        btf.type_definition(TypeId(7)).unwrap(),
        text(&[
            "#[derive(Debug, Default, Copy, Clone)]",
            "#[repr(C)]",
            "pub struct Outer {",
            "    pub kinds: [Kind; 2],",
            "    pub first: Inner,",
            "    pub again: Inner,",
            "    pub link: *mut Inner,",
            "    pub more: Kind,",
            "    __pad_28: [u8; 4],",
            "}",
            "#[derive(Debug, Copy, Clone, PartialEq, Eq)]",
            "#[repr(u32)]",
            "pub enum Kind {",
            "    A = 0,",
            "}",
            "#[allow(clippy::derivable_impls)]",
            "impl Default for Kind {",
            "    fn default() -> Self {",
            "        Kind::A",
            "    }",
            "}",
            "#[derive(Debug, Default, Copy, Clone)]",
            "#[repr(C)]",
            "pub struct Inner {",
            "    pub v: i32,",
            "}",
        ])
    );
}

#[test]
fn struct_that_points_to_itself_is_defined_once() {
    let mut s = Section::new();
    s.ptr(2); // 1
    s.composite(KIND_STRUCT, "Node", 8, &[("next", 1, 0)]); // 2
    let btf = s.decode(8);
    assert_eq!(
        btf.type_definition(TypeId(2)).unwrap(),
        text(&[
            "#[derive(Debug, Default, Copy, Clone)]",
            "#[repr(C)]",
            "pub struct Node {",
            "    pub next: *mut Node,",
            "}",
        ])
    );
}

#[test]
fn structs_that_point_to_each_other_are_each_defined_once() {
    let mut s = Section::new();
    s.ptr(3); // 1
    s.composite(KIND_STRUCT, "A", 8, &[("b", 1, 0)]); // 2
    s.composite(KIND_STRUCT, "B", 8, &[("a", 4, 0)]); // 3
    s.ptr(2); // 4
    let btf = s.decode(8);
    assert_eq!(
        btf.type_definition(TypeId(2)).unwrap(),
        text(&[
            "#[derive(Debug, Default, Copy, Clone)]",
            "#[repr(C)]",
            "pub struct A {",
            "    pub b: *mut B,",
            "}",
            "#[derive(Debug, Default, Copy, Clone)]",
            "#[repr(C)]",
            "pub struct B {",
            "    pub a: *mut A,",
            "}",
        ])
    );
}

#[test]
fn definition_is_the_same_each_time() {
    let mut s = Section::new();
    s.integer("int", 32, ENC_SIGNED); // 1
    s.composite(KIND_STRUCT, "Inner", 4, &[("v", 1, 0)]); // 2
    s.composite(KIND_STRUCT, "Outer", 12, &[("a", 2, 0), ("b", 2, 64)]); // 3
    let first = s.decode(8);
    let second = s.decode(8);
    let once = first.type_definition(TypeId(3));
    assert!(once.is_ok());
    assert_eq!(first.type_definition(TypeId(3)), once);
    assert_eq!(second.type_definition(TypeId(3)), once);
}

#[test]
fn scalars_have_no_definition() {
    let mut s = Section::new();
    s.integer("int", 32, ENC_SIGNED); // 1
    s.ptr(1); // 2
    s.array(1, 1, 2); // 3
    s.fwd("f", false); // 4
    s.reference(KIND_TYPEDEF, "t", 8); // 5
    s.func_proto(0, &[]); // 6
    s.var("v", 1, 1); // 7
    s.composite(KIND_STRUCT, "S", 0, &[]); // 8
    s.reference(KIND_CONST, "", 8); // 9
    s.float("f", 4); // 10
    let btf = s.decode(8);
    for id in [0u32, 1, 2, 3, 4, 5, 6, 7, 9, 10] {
        assert_eq!(btf.type_definition(TypeId(id)), Err(BtfError::UnsupportedType));
    }
    assert!(btf.type_definition(TypeId(8)).is_ok());
}

#[test]
fn type_mentioned_many_times_is_defined_once() {
    let mut s = Section::new();
    s.integer("int", 32, ENC_SIGNED); // 1
    s.composite(KIND_STRUCT, "Leaf", 4, &[("v", 1, 0)]); // 2
    s.composite(KIND_STRUCT, "Left", 8, &[("a", 2, 0), ("b", 2, 32)]); // 3
    s.composite(KIND_STRUCT, "Right", 8, &[("a", 2, 0), ("b", 2, 32)]); // 4
    s.composite(KIND_STRUCT, "Top", 16, &[("l", 3, 0), ("r", 4, 64)]); // 5
    let text = s.decode(8).type_definition(TypeId(5)).unwrap();
    for name in ["Top", "Left", "Right", "Leaf"] {
        let opening = format!("pub struct {} {{\n", name);
        assert_eq!(text.matches(opening.as_str()).count(), 1, "{}", name);
    }
    let order: Vec<usize> = ["Top", "Left", "Right", "Leaf"]
        .iter()
        .map(|name| text.find(format!("pub struct {} {{\n", name).as_str()).unwrap())
        .collect();
    assert!(order[0] < order[1] && order[1] < order[2] && order[2] < order[3]);
}
