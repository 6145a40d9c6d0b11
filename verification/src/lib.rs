//! Decoding of BTF type sections into a queryable type graph, C layout
//! queries over that graph, and generation of equivalent Rust declarations.

pub mod btf;
pub mod decl;
pub mod definition;
pub mod error;
pub mod kind;
pub mod laws;
pub mod layout;
pub mod loader;
pub mod model;
pub mod node;
pub mod outside;
pub mod query;
mod sealed;
pub mod section;
pub mod text;
pub mod types;
pub mod wire;

pub use crate::btf::Btf;
pub use crate::error::BtfError;
pub use crate::kind::get_kind;
pub use crate::kind::get_kind_flag;
pub use crate::kind::get_vlen;
pub use crate::kind::BtfKind;
pub use crate::node::HasSize;
pub use crate::node::ReferencesType;
pub use crate::types::BtfType;
pub use crate::types::TypeId;
