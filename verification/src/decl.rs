//! How a type is written in a Rust declaration, and the expression for its
//! default value.

use vstd::prelude::*;
use vstd::string::*;
use crate::btf::Btf;
use crate::error::BtfError;
use crate::layout::bytes_for_bits;
use crate::model::Graph;
use crate::model::Node;
use crate::text::decimal;
use crate::text::push_decimal;
use crate::text::text_of;
use crate::types::BtfIntEncoding;
use crate::types::BtfType;
use crate::types::TypeId;

verus! {

/// The bit width that names a Rust integer type of `bytes` bytes.
pub open spec fn int_width(bytes: u32) -> Option<Seq<char>> {
    if bytes == 1 {
        Some("8"@)
    } else if bytes == 2 {
        Some("16"@)
    } else if bytes == 4 {
        Some("32"@)
    } else if bytes == 8 {
        Some("64"@)
    } else if bytes == 16 {
        Some("128"@)
    } else {
        None
    }
}

/// The Rust type for an integer of `bits` bits with the given encoding.
/// Only whole power-of-two byte sizes up to 16 have one, and a boolean
/// must be 8 bits wide.
pub open spec fn int_declaration(bits: u8, encoding: BtfIntEncoding) -> Result<Seq<char>, BtfError> {
    match int_width(bytes_for_bits(bits)) {
        None => Err(BtfError::UnsupportedType),
        Some(width) => match encoding {
            BtfIntEncoding::Signed => Ok("i"@ + width),
            BtfIntEncoding::Bool => if bits == 8 {
                Ok("bool"@)
            } else {
                Err(BtfError::UnsupportedType)
            },
            BtfIntEncoding::Char => Ok("u"@ + width),
            BtfIntEncoding::Plain => Ok("u"@ + width),
        },
    }
}

/// The Rust type for a float of `size` bytes: only 4 and 8 have one.
pub open spec fn float_declaration(size: u32) -> Result<Seq<char>, BtfError> {
    if size == 4 {
        Ok("f32"@)
    } else if size == 8 {
        Ok("f64"@)
    } else {
        Err(BtfError::UnsupportedType)
    }
}

/// `[elem; nelems]`
pub open spec fn array_text(elem: Seq<char>, nelems: u32) -> Seq<char> {
    "["@ + elem + "; "@ + decimal(nelems as nat) + "]"@
}

impl Graph {
    /// The declaration of type `id`, descending at most `depth` times into
    /// pointees, array elements and variable types.
    pub open spec fn declaration_bounded(self, id: TypeId, depth: nat) -> Result<Seq<char>, BtfError>
        decreases depth,
    {
        match self.skip_mods(id) {
            Err(e) => Err(e),
            Ok(sid) => match self.lookup(sid) {
                Err(e) => Err(e),
                Ok(node) => match node {
                    Node::Void => Ok("std::ffi::c_void"@),
                    Node::Int { bits, encoding, .. } => int_declaration(bits, encoding),
                    Node::Float { size, .. } => float_declaration(size),
                    Node::Ptr { pointee_type } => if depth == 0 {
                        Err(BtfError::UnsupportedType)
                    } else {
                        match self.declaration_bounded(pointee_type, (depth - 1) as nat) {
                            Err(e) => Err(e),
                            Ok(pointee) => Ok("*mut "@ + pointee),
                        }
                    },
                    Node::Array { nelems, val_type_id, .. } => if depth == 0 {
                        Err(BtfError::UnsupportedType)
                    } else {
                        match self.declaration_bounded(val_type_id, (depth - 1) as nat) {
                            Err(e) => Err(e),
                            Ok(elem) => Ok(array_text(elem, nelems)),
                        }
                    },
                    Node::Struct(c) => Ok(c.name),
                    Node::Union(c) => Ok(c.name),
                    Node::Enum { name, .. } => Ok(name),
                    Node::Enum64 { name, .. } => Ok(name),
                    Node::Func { .. } => Ok("std::ffi::c_void"@),
                    Node::Var { type_id, .. } => if depth == 0 {
                        Err(BtfError::UnsupportedType)
                    } else {
                        self.declaration_bounded(type_id, (depth - 1) as nat)
                    },
                    _ => Err(BtfError::UnsupportedType),
                },
            },
        }
    }

    /// How type `id` is written where a Rust declaration needs a type.
    ///
    /// Qualifiers and typedefs are dropped. Void and functions become
    /// `std::ffi::c_void`, integers and floats the Rust type of their width,
    /// pointers `*mut` of their pointee, arrays `[T; n]`, variables their
    /// type; structs, unions and enums are named. Forward declarations,
    /// function prototypes, data sections and declaration tags cannot be
    /// written.
    pub open spec fn declaration(self, id: TypeId) -> Result<Seq<char>, BtfError> {
        self.declaration_bounded(id, self.step_limit())
    }

    /// The default value of type `id`, descending at most `depth` times
    /// into array elements.
    pub open spec fn default_bounded(self, id: TypeId, depth: nat) -> Result<Seq<char>, BtfError>
        decreases depth,
    {
        match self.skip_mods(id) {
            Err(e) => Err(e),
            Ok(sid) => match self.lookup(sid) {
                Err(e) => Err(e),
                Ok(node) => match node {
                    Node::Void => Ok("std::ffi::c_void::default()"@),
                    Node::Int { .. } => match self.declaration(sid) {
                        Err(e) => Err(e),
                        Ok(decl) => Ok(decl + "::default()"@),
                    },
                    Node::Float { .. } => match self.declaration(sid) {
                        Err(e) => Err(e),
                        Ok(decl) => Ok(decl + "::default()"@),
                    },
                    Node::Ptr { .. } => Ok("std::ptr::null_mut()"@),
                    Node::Array { nelems, val_type_id, .. } => if depth == 0 {
                        Err(BtfError::UnsupportedType)
                    } else {
                        match self.default_bounded(val_type_id, (depth - 1) as nat) {
                            Err(e) => Err(e),
                            Ok(elem) => Ok(array_text(elem, nelems)),
                        }
                    },
                    Node::Struct(c) => Ok(c.name + "::default()"@),
                    Node::Union(c) => Ok(c.name + "::default()"@),
                    Node::Enum { name, .. } => Ok(name + "::default()"@),
                    Node::Enum64 { name, .. } => Ok(name + "::default()"@),
                    Node::Var { type_id, .. } => match self.declaration(type_id) {
                        Err(e) => Err(e),
                        Ok(decl) => Ok(decl + "::default()"@),
                    },
                    _ => Err(BtfError::UnsupportedType),
                },
            },
        }
    }

    /// A Rust expression for the default value of type `id`: the null
    /// pointer for pointers, an array of its element's default for arrays,
    /// and `T::default()` for whatever else can be declared as `T`.
    pub open spec fn default_value(self, id: TypeId) -> Result<Seq<char>, BtfError> {
        self.default_bounded(id, self.step_limit())
    }
}

fn int_declaration_text(bits: u8, encoding: BtfIntEncoding) -> (r: Result<String, BtfError>)
    ensures
        text_of(r) == int_declaration(bits, encoding),
{
    let width: &'static str = match (bits as u32 + 7) / 8 {
        1 => "8",
        2 => "16",
        4 => "32",
        8 => "64",
        16 => "128",
        _ => {
            return Err(BtfError::UnsupportedType);
        },
    };
    match encoding {
        BtfIntEncoding::Signed => Ok(String::from_str("i").concat(width)),
        BtfIntEncoding::Bool => {
            if bits == 8 {
                Ok(String::from_str("bool"))
            } else {
                Err(BtfError::UnsupportedType)
            }
        },
        BtfIntEncoding::Char => Ok(String::from_str("u").concat(width)),
        BtfIntEncoding::Plain => Ok(String::from_str("u").concat(width)),
    }
}

fn array_string(elem: &String, nelems: u32) -> (r: String)
    ensures
        r@ == array_text(elem@, nelems),
{
    let mut out = String::from_str("[");
    out.append(elem.as_str());
    out.append("; ");
    push_decimal(&mut out, nelems as u64);
    out.append("]");
    out
}

impl Btf {
    /// How the given type is written where a Rust declaration needs a type.
    pub fn type_declaration(&self, type_id: TypeId) -> (r: Result<String, BtfError>)
        ensures
            text_of(r) == self@.declaration(type_id),
    {
        self.declaration_bounded(type_id, self.types.len())
    }

    fn declaration_bounded(&self, type_id: TypeId, depth: usize) -> (r: Result<String, BtfError>)
        ensures
            text_of(r) == self@.declaration_bounded(type_id, depth as nat),
        decreases depth,
    {
        let sid: TypeId = self.skip_mods_and_typedefs(type_id)?;
        match self.type_by_id(sid)? {
            BtfType::Void => Ok(String::from_str("std::ffi::c_void")),
            BtfType::Int(t) => int_declaration_text(t.bits, t.encoding),
            BtfType::Float(t) => {
                if t.size == 4 {
                    Ok(String::from_str("f32"))
                } else if t.size == 8 {
                    Ok(String::from_str("f64"))
                } else {
                    Err(BtfError::UnsupportedType)
                }
            },
            BtfType::Ptr(t) => {
                if depth == 0 {
                    return Err(BtfError::UnsupportedType);
                }
                let pointee: String = self.declaration_bounded(t.pointee_type, depth - 1)?;
                Ok(String::from_str("*mut ").concat(pointee.as_str()))
            },
            BtfType::Array(t) => {
                if depth == 0 {
                    return Err(BtfError::UnsupportedType);
                }
                let elem: String = self.declaration_bounded(t.val_type_id, depth - 1)?;
                Ok(array_string(&elem, t.nelems))
            },
            BtfType::Struct(t) => Ok(t.name.clone()),
            BtfType::Union(t) => Ok(t.name.clone()),
            BtfType::Enum(t) => Ok(t.name.clone()),
            BtfType::Enum64(t) => Ok(t.name.clone()),
            BtfType::Func(_) => Ok(String::from_str("std::ffi::c_void")),
            BtfType::Var(t) => {
                if depth == 0 {
                    return Err(BtfError::UnsupportedType);
                }
                self.declaration_bounded(t.type_id, depth - 1)
            },
            _ => Err(BtfError::UnsupportedType),
        }
    }

    /// A Rust expression for the default value of the given type.
    pub fn type_default(&self, type_id: TypeId) -> (r: Result<String, BtfError>)
        ensures
            text_of(r) == self@.default_value(type_id),
    {
        self.default_bounded(type_id, self.types.len())
    }

    fn default_bounded(&self, type_id: TypeId, depth: usize) -> (r: Result<String, BtfError>)
        ensures
            text_of(r) == self@.default_bounded(type_id, depth as nat),
        decreases depth,
    {
        let sid: TypeId = self.skip_mods_and_typedefs(type_id)?;
        match self.type_by_id(sid)? {
            BtfType::Void => Ok(String::from_str("std::ffi::c_void::default()")),
            BtfType::Int(_) => {
                let decl: String = self.type_declaration(sid)?;
                Ok(decl.concat("::default()"))
            },
            BtfType::Float(_) => {
                let decl: String = self.type_declaration(sid)?;
                Ok(decl.concat("::default()"))
            },
            BtfType::Ptr(_) => Ok(String::from_str("std::ptr::null_mut()")),
            BtfType::Array(t) => {
                if depth == 0 {
                    return Err(BtfError::UnsupportedType);
                }
                let elem: String = self.default_bounded(t.val_type_id, depth - 1)?;
                Ok(array_string(&elem, t.nelems))
            },
            BtfType::Struct(t) => Ok(t.name.clone().concat("::default()")),
            BtfType::Union(t) => Ok(t.name.clone().concat("::default()")),
            BtfType::Enum(t) => Ok(t.name.clone().concat("::default()")),
            BtfType::Enum64(t) => Ok(t.name.clone().concat("::default()")),
            BtfType::Var(t) => {
                let decl: String = self.type_declaration(t.type_id)?;
                Ok(decl.concat("::default()"))
            },
            _ => Err(BtfError::UnsupportedType),
        }
    }
}

} // verus!
