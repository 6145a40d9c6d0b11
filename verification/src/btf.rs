//! The type graph and its queries.

use vstd::prelude::*;
use crate::error::BtfError;
use crate::model::Graph;
use crate::model::Node;
use crate::section::decode;
use crate::types::BtfType;
use crate::types::TypeId;

verus! {

/// A decoded type graph. It is built once from a buffer, owns a copy of
/// that buffer, and never changes.
#[derive(Debug)]
pub struct Btf {
    pub(crate) types: Vec<BtfType>,
    pub(crate) ptr_size: u32,
    pub(crate) raw_data: Vec<u8>,
}

impl View for Btf {
    type V = Graph;

    /// The types as nodes, and the pointer size.
    open(crate) spec fn view(&self) -> Graph {
        Graph { types: self.types@.map_values(|t: BtfType| t@), ptr_size: self.ptr_size }
    }
}

impl Btf {
    /// What holds of every graph from the moment it is built.
    #[verifier::type_invariant]
    pub(crate) open spec fn inv(self) -> bool {
        &&& self@.wf()
        &&& decode(self.raw_data@, self.ptr_size) == Ok::<Graph, BtfError>(self@)
    }

    /// The bytes of the section that the graph was decoded from.
    pub open(crate) spec fn raw(&self) -> Seq<u8> {
        self.raw_data@
    }

    /// The section that the graph was decoded from.
    pub fn raw_data(&self) -> (r: &[u8])
        ensures
            r@ == self.raw(),
            decode(r@, self@.ptr_size) == Ok::<Graph, BtfError>(self@),
    {
        proof {
            use_type_invariant(self);
        }
        self.raw_data.as_slice()
    }

    /// The decoded types, indexed by type id. The table is well formed:
    /// it starts with Void and every type id in it names one of its types.
    pub fn types(&self) -> (r: &[BtfType])
        ensures
            r@.map_values(|t: BtfType| t@) == self@.types,
            self@.wf(),
    {
        proof {
            use_type_invariant(self);
        }
        self.types.as_slice()
    }

    /// The number of types in the graph, Void included.
    pub fn len(&self) -> (r: usize)
        ensures
            r == self@.types.len(),
            r >= 1,
    {
        proof {
            use_type_invariant(self);
        }
        self.types.len()
    }

    /// Whether the graph holds no type. It always holds Void.
    pub fn is_empty(&self) -> (r: bool)
        ensures
            r == (self@.types.len() == 0),
            !r,
    {
        self.len() == 0
    }

    /// The size of a pointer on the target, in bytes.
    pub fn ptr_size(&self) -> (r: usize)
        ensures
            r == self@.ptr_size,
            r != 0,
    {
        proof {
            use_type_invariant(self);
        }
        self.ptr_size as usize
    }

    /// The type with the given id.
    pub fn type_by_id(&self, type_id: TypeId) -> (r: Result<&BtfType, BtfError>)
        ensures
            match r {
                Ok(t) => self@.lookup(type_id) == Ok::<Node, BtfError>(t@),
                Err(e) => self@.lookup(type_id) == Err::<Node, BtfError>(e),
            },
    {
        if (type_id.0 as usize) < self.types.len() {
            Ok(&self.types[type_id.0 as usize])
        } else {
            Err(BtfError::NotFound)
        }
    }

    /// Strips modifiers and typedefs from `type_id`.
    pub fn skip_mods_and_typedefs(&self, type_id: TypeId) -> (r: Result<TypeId, BtfError>)
        ensures
            r == self@.skip_mods(type_id),
    {
        self.skip_mods_bounded(type_id, self.types.len())
    }

    /// Strips modifiers and typedefs from `type_id`, taking at most `fuel`
    /// steps.
    pub(crate) fn skip_mods_bounded(&self, type_id: TypeId, fuel: usize) -> (r: Result<
        TypeId,
        BtfError,
    >)
        ensures
            r == self@.skip_mods_bounded(type_id, fuel as nat),
    {
        let mut cur: TypeId = type_id;
        let mut steps: usize = 0;
        loop
            invariant
                steps <= fuel,
                self@.skip_mods_bounded(type_id, fuel as nat) == self@.skip_mods_bounded(
                    cur,
                    (fuel - steps) as nat,
                ),
            decreases fuel - steps,
        {
            let next: TypeId = match self.type_by_id(cur)? {
                BtfType::Volatile(t) => t.type_id,
                BtfType::Const(t) => t.type_id,
                BtfType::Restrict(t) => t.type_id,
                BtfType::Typedef(t) => t.type_id,
                BtfType::TypeTag(t) => t.type_id,
                _ => {
                    return Ok(cur);
                },
            };
            if steps == fuel {
                return Err(BtfError::UnsupportedType);
            }
            steps = steps + 1;
            cur = next;
        }
    }
}

} // verus!
