use vstd::prelude::*;

verus! {

/// Why a request against BTF data could not be answered.
#[derive(Debug, Clone, Copy, PartialEq, Eq, Structural)]
pub enum BtfError {
    /// The bytes are not a well-formed BTF section. Decoding stops and no
    /// graph is produced.
    FormatError,
    /// No type has the requested id or name.
    NotFound,
    /// The operation has no meaning for the kind of type it was asked about.
    UnsupportedType,
    /// An argument supplied by the caller is malformed.
    InvalidInput,
}

} // verus!
