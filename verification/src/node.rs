//! What a type says about itself once the graph it belongs to is at hand,
//! and the traits of the types that store a size or refer to another type.

use vstd::prelude::*;
use crate::btf::Btf;
use crate::error::BtfError;
use crate::model::Graph;
use crate::model::Node;
use crate::sealed::Sealed;
use crate::types::BtfComposite;
use crate::types::BtfConst;
use crate::types::BtfDatasec;
use crate::types::BtfDeclTag;
use crate::types::BtfEnum;
use crate::types::BtfEnum64;
use crate::types::BtfFloat;
use crate::types::BtfFunc;
use crate::types::BtfFuncProto;
use crate::types::BtfPtr;
use crate::types::BtfRestrict;
use crate::types::BtfType;
use crate::types::BtfTypeTag;
use crate::types::BtfTypedef;
use crate::types::BtfVar;
use crate::types::BtfVolatile;
use crate::types::TypeId;

verus! {

impl Graph {
    /// The node that `node` refers to through its type field, if it has
    /// such a field and the graph has that node.
    pub open spec fn next_node(self, node: Node) -> Option<Node> {
        match node.referenced() {
            None => None,
            Some(id) => match self.lookup(id) {
                Ok(next) => Some(next),
                Err(_) => None,
            },
        }
    }

    /// `node` itself, or what it stands for if it is a modifier or a
    /// typedef. A node of the graph is taken as far as its id is.
    pub open spec fn skip_node(self, node: Node) -> Result<Node, BtfError> {
        match node.wrapped() {
            None => Ok(node),
            Some(next) => if self.types.len() == 0 {
                Err(BtfError::NotFound)
            } else {
                match self.skip_mods_bounded(next, (self.step_limit() - 1) as nat) {
                    Err(e) => Err(e),
                    Ok(id) => self.lookup(id),
                }
            },
        }
    }

    /// The alignment of `node`, modifiers and typedefs aside.
    pub open spec fn alignment(self, node: Node) -> Result<u32, BtfError> {
        match self.skip_node(node) {
            Err(e) => Err(e),
            Ok(n) => self.node_align(n, self.step_limit()),
        }
    }
}

impl BtfType {
    /// The type in `source` that this type refers to through its type
    /// field: the pointee of a pointer, the type behind a modifier, typedef
    /// or tag, the prototype of a function, the return type of a prototype,
    /// the type of a variable.
    pub fn next_type<'a>(&self, source: &'a Btf) -> (r: Option<&'a BtfType>)
        ensures
            match r {
                Some(t) => source@.next_node(self@) == Some(t@),
                None => source@.next_node(self@) is None,
            },
    {
        let id: TypeId = match self {
            BtfType::Ptr(t) => t.pointee_type,
            BtfType::Typedef(t) => t.type_id,
            BtfType::Volatile(t) => t.type_id,
            BtfType::Const(t) => t.type_id,
            BtfType::Restrict(t) => t.type_id,
            BtfType::Func(t) => t.type_id,
            BtfType::FuncProto(t) => t.ret_type_id,
            BtfType::Var(t) => t.type_id,
            BtfType::DeclTag(t) => t.type_id,
            BtfType::TypeTag(t) => t.type_id,
            _ => {
                return None;
            },
        };
        match source.type_by_id(id) {
            Ok(t) => Some(t),
            Err(_) => None,
        }
    }

    /// This type, or the type in `source` that it stands for if it is a
    /// modifier or a typedef.
    pub fn skip_mods_and_typedefs<'a>(&'a self, source: &'a Btf) -> (r: Result<
        &'a BtfType,
        BtfError,
    >)
        ensures
            match r {
                Ok(t) => source@.skip_node(self@) == Ok::<Node, BtfError>(t@),
                Err(e) => source@.skip_node(self@) == Err::<Node, BtfError>(e),
            },
    {
        let next: TypeId = match self {
            BtfType::Volatile(t) => t.type_id,
            BtfType::Const(t) => t.type_id,
            BtfType::Restrict(t) => t.type_id,
            BtfType::Typedef(t) => t.type_id,
            BtfType::TypeTag(t) => t.type_id,
            _ => {
                return Ok(self);
            },
        };
        let count: usize = source.len();
        let id: TypeId = source.skip_mods_bounded(next, count - 1)?;
        source.type_by_id(id)
    }

    /// The alignment of this type within `source`, modifiers and typedefs
    /// aside.
    pub fn alignment(&self, source: &Btf) -> (r: Result<usize, BtfError>)
        ensures
            match r {
                Ok(a) => source@.alignment(self@) == Ok::<u32, BtfError>(a as u32) && a
                    <= u32::MAX,
                Err(e) => source@.alignment(self@) == Err::<u32, BtfError>(e),
            },
    {
        let skipped: &BtfType = self.skip_mods_and_typedefs(source)?;
        match source.node_align(skipped, source.len()) {
            Ok(a) => Ok(a as usize),
            Err(e) => Err(e),
        }
    }
}

/// The types whose record stores their size.
pub trait HasSize: Sealed {
    /// The size that the record declares.
    spec fn stored_size(&self) -> u32;

    /// The size of the described type, in bytes.
    fn size(&self) -> (r: usize)
        ensures
            r == self.stored_size(),
    ;
}

/// The types whose record stores the id of another type.
pub trait ReferencesType: Sealed {
    /// The id that the record stores.
    spec fn referred(&self) -> TypeId;

    /// The id of the referenced type.
    fn referenced_type_id(&self) -> (r: TypeId)
        ensures
            r == self.referred(),
    ;

    /// The referenced type, looked up in `source`.
    fn referenced_type<'a>(&self, source: &'a Btf) -> (r: Result<&'a BtfType, BtfError>)
        ensures
            match r {
                Ok(t) => source@.lookup(self.referred()) == Ok::<Node, BtfError>(t@),
                Err(e) => source@.lookup(self.referred()) == Err::<Node, BtfError>(e),
            },
    {
        source.type_by_id(self.referenced_type_id())
    }
}

impl Sealed for BtfComposite {

}

impl HasSize for BtfComposite {
    open spec fn stored_size(&self) -> u32 {
        self.size
    }

    fn size(&self) -> (r: usize) {
        self.size as usize
    }
}

impl Sealed for BtfEnum {

}

impl HasSize for BtfEnum {
    open spec fn stored_size(&self) -> u32 {
        self.size
    }

    fn size(&self) -> (r: usize) {
        self.size as usize
    }
}

impl Sealed for BtfEnum64 {

}

impl HasSize for BtfEnum64 {
    open spec fn stored_size(&self) -> u32 {
        self.size
    }

    fn size(&self) -> (r: usize) {
        self.size as usize
    }
}

impl Sealed for BtfDatasec {

}

impl HasSize for BtfDatasec {
    open spec fn stored_size(&self) -> u32 {
        self.size
    }

    fn size(&self) -> (r: usize) {
        self.size as usize
    }
}

impl Sealed for BtfFloat {

}

impl HasSize for BtfFloat {
    open spec fn stored_size(&self) -> u32 {
        self.size
    }

    fn size(&self) -> (r: usize) {
        self.size as usize
    }
}

impl Sealed for BtfPtr {

}

impl ReferencesType for BtfPtr {
    open spec fn referred(&self) -> TypeId {
        self.pointee_type
    }

    fn referenced_type_id(&self) -> (r: TypeId) {
        self.pointee_type
    }
}

impl Sealed for BtfTypedef {

}

impl ReferencesType for BtfTypedef {
    open spec fn referred(&self) -> TypeId {
        self.type_id
    }

    fn referenced_type_id(&self) -> (r: TypeId) {
        self.type_id
    }
}

impl Sealed for BtfVolatile {

}

impl ReferencesType for BtfVolatile {
    open spec fn referred(&self) -> TypeId {
        self.type_id
    }

    fn referenced_type_id(&self) -> (r: TypeId) {
        self.type_id
    }
}

impl Sealed for BtfConst {

}

impl ReferencesType for BtfConst {
    open spec fn referred(&self) -> TypeId {
        self.type_id
    }

    fn referenced_type_id(&self) -> (r: TypeId) {
        self.type_id
    }
}

impl Sealed for BtfRestrict {

}

impl ReferencesType for BtfRestrict {
    open spec fn referred(&self) -> TypeId {
        self.type_id
    }

    fn referenced_type_id(&self) -> (r: TypeId) {
        self.type_id
    }
}

impl Sealed for BtfFunc {

}

impl ReferencesType for BtfFunc {
    open spec fn referred(&self) -> TypeId {
        self.type_id
    }

    fn referenced_type_id(&self) -> (r: TypeId) {
        self.type_id
    }
}

impl Sealed for BtfFuncProto {

}

impl ReferencesType for BtfFuncProto {
    open spec fn referred(&self) -> TypeId {
        self.ret_type_id
    }

    fn referenced_type_id(&self) -> (r: TypeId) {
        self.ret_type_id
    }
}

impl Sealed for BtfVar {

}

impl ReferencesType for BtfVar {
    open spec fn referred(&self) -> TypeId {
        self.type_id
    }

    fn referenced_type_id(&self) -> (r: TypeId) {
        self.type_id
    }
}

impl Sealed for BtfDeclTag {

}

impl ReferencesType for BtfDeclTag {
    open spec fn referred(&self) -> TypeId {
        self.type_id
    }

    fn referenced_type_id(&self) -> (r: TypeId) {
        self.type_id
    }
}

impl Sealed for BtfTypeTag {

}

impl ReferencesType for BtfTypeTag {
    open spec fn referred(&self) -> TypeId {
        self.type_id
    }

    fn referenced_type_id(&self) -> (r: TypeId) {
        self.type_id
    }
}

} // verus!
