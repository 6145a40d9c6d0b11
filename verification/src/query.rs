//! Finding types by name and by kind.

use vstd::prelude::*;
use vstd::std_specs::iter::IteratorSpec;
use vstd::string::*;
use crate::btf::Btf;
use crate::error::BtfError;
use crate::kind::BtfKind;
use crate::model::Graph;
use crate::types::BtfType;
use crate::types::TypeId;

verus! {

/// Whether `name` holds a nul character.
pub open spec fn has_nul(name: Seq<char>) -> bool {
    exists|i: int| 0 <= i < name.len() && #[trigger] name[i] == '\0'
}

impl Graph {
    /// The smallest id from `from` on whose type is named `name`.
    pub open spec fn first_named(self, name: Seq<char>, from: nat) -> Option<TypeId>
        decreases self.types.len() - from,
    {
        if from >= self.types.len() {
            None
        } else if self.types[from as int].name() == name {
            Some(TypeId(from as u32))
        } else {
            self.first_named(name, from + 1)
        }
    }

    /// The first type after Void that is named `name`. If a kind is asked
    /// for and that type is of another kind, nothing is found. A name with
    /// a nul character in it is invalid.
    pub open spec fn find_by_name(self, name: Seq<char>, kind: Option<BtfKind>) -> Result<
        TypeId,
        BtfError,
    > {
        if has_nul(name) {
            Err(BtfError::InvalidInput)
        } else {
            match self.first_named(name, 1) {
                None => Err(BtfError::NotFound),
                Some(id) => if kind is Some && self.types[id.0 as int].kind() != kind->0 {
                    Err(BtfError::NotFound)
                } else {
                    Ok(id)
                },
            }
        }
    }

    /// The ids from 1 to below `upto` whose types are of kind `kind`, in
    /// ascending order.
    pub open spec fn ids_of_kind(self, kind: BtfKind, upto: nat) -> Seq<TypeId>
        decreases upto,
    {
        if upto <= 1 || upto > self.types.len() {
            Seq::empty()
        } else {
            let before = self.ids_of_kind(kind, (upto - 1) as nat);
            if self.types[upto - 1].kind() == kind {
                before.push(TypeId((upto - 1) as u32))
            } else {
                before
            }
        }
    }

    /// The ids of all types of kind `kind` after Void, in ascending order.
    pub open spec fn find_by_kind(self, kind: BtfKind) -> Seq<TypeId> {
        self.ids_of_kind(kind, self.types.len())
    }
}

fn contains_nul(name: &str) -> (r: bool)
    ensures
        r == has_nul(name@),
{
    let mut chars = name.chars();
    let ghost mut seen: int = 0;
    loop
        invariant
            0 <= seen <= name@.len(),
            chars.remaining() == name@.subrange(seen, name@.len() as int),
            forall|i: int| 0 <= i < seen ==> name@[i] != '\0',
        decreases name@.len() - seen,
    {
        match chars.next() {
            Some(c) => {
                assert(c == name@[seen]);
                if c == '\0' {
                    return true;
                }
                proof {
                    assert(name@.subrange(seen, name@.len() as int).drop_first()
                        =~= name@.subrange(seen + 1, name@.len() as int));
                    seen = seen + 1;
                }
            },
            None => {
                return false;
            },
        }
    }
}

impl Btf {
    /// Finds the first type with the given name, and of the given kind if
    /// one is given.
    pub fn type_by_name(&self, name: &str, kind: Option<BtfKind>) -> (r: Result<TypeId, BtfError>)
        ensures
            r == self@.find_by_name(name@, kind),
    {
        if contains_nul(name) {
            return Err(BtfError::InvalidInput);
        }
        proof {
            use_type_invariant(self);
        }
        let wanted: String = name.to_owned();
        let mut i: usize = 1;
        while i < self.types.len()
            invariant
                1 <= i <= self@.types.len() <= u32::MAX,
                wanted@ == name@,
                !has_nul(name@),
                self@.first_named(name@, 1) == self@.first_named(name@, i as nat),
            decreases self@.types.len() - i,
        {
            let t: &BtfType = &self.types[i];
            let found: bool = match t.name_string() {
                Some(n) => *n == wanted,
                None => wanted.as_str().is_empty(),
            };
            proof {
                let own = self@.types[i as int].name();
                if own.len() == 0 && name@.len() == 0 {
                    assert(own =~= name@);
                }
            }
            if found {
                return match kind {
                    Some(k) => {
                        if t.kind() == k {
                            Ok(TypeId(i as u32))
                        } else {
                            Err(BtfError::NotFound)
                        }
                    },
                    None => Ok(TypeId(i as u32)),
                };
            }
            i = i + 1;
        }
        Err(BtfError::NotFound)
    }

    /// Finds all types of the given kind.
    pub fn type_by_kind(&self, kind: BtfKind) -> (r: Vec<TypeId>)
        ensures
            r@ == self@.find_by_kind(kind),
    {
        proof {
            use_type_invariant(self);
        }
        let mut found: Vec<TypeId> = Vec::new();
        let mut i: usize = 1;
        while i < self.types.len()
            invariant
                1 <= i <= self@.types.len() <= u32::MAX,
                found@ == self@.ids_of_kind(kind, i as nat),
            decreases self@.types.len() - i,
        {
            if self.types[i].kind() == kind {
                found.push(TypeId(i as u32));
            }
            i = i + 1;
        }
        found
    }
}

} // verus!
