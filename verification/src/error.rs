use vstd::prelude::*;

verus! {

/// The error conditions a registered function can report to the host.
///
/// Every fallible operation of this library reports exactly one of these;
/// the host-facing shell turns the message into the engine's error string.
#[derive(Clone, Copy, Debug, PartialEq, Eq, Structural)]
pub enum HmhError {
    /// An argument that must be a blob had some other type.
    ValueIsNotBlob,
    /// The host reported a value-type discriminant outside the known set.
    UnknownValueType,
    /// A blob argument does not hold a structurally valid serialized sketch.
    CorruptData,
}

impl HmhError {
    /// The diagnostic text reported to the host for this error.
    pub fn message(&self) -> (m: &'static str)
        ensures
            *self is ValueIsNotBlob ==> m@ == "value is not of type BLOB"@,
            *self is UnknownValueType ==> m@ == "unknown value-type from sqlite"@,
            *self is CorruptData ==> m@ == "IO-error in hyperminhash: invalid sketch data"@,
    {
        match self {
            HmhError::ValueIsNotBlob => "value is not of type BLOB",
            HmhError::UnknownValueType => "unknown value-type from sqlite",
            HmhError::CorruptData => "IO-error in hyperminhash: invalid sketch data",
        }
    }
}

} // verus!
