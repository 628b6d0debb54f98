use vstd::prelude::*;

verus! {

/// The failures of naming, decoding and storing keys.
#[derive(Clone, Copy, Debug, PartialEq, Eq, Structural)]
pub enum KeyError {
    /// A named-revision identifier that does not have the form `<name>-<revision>`.
    MalformedIdentifier,
    /// A format tag line that names no known kind, role and version.
    UnknownFormat,
    /// A well-formed key of another kind or role than the one expected.
    KeyKindMismatch,
    /// Key material that is not valid base64 or has the wrong length.
    InvalidKeyMaterial,
    /// A write that would replace different material stored under the same identity.
    WouldOverwriteDifferentKey,
    /// No stored key matches a lookup.
    KeyNotFound,
}

} // verus!
