use vstd::prelude::*;

use crate::error::HmhError;

verus! {

/// Value-type discriminants as the host engine reports them for an argument.
pub const TYPE_CODE_INTEGER: u32 = 1;

pub const TYPE_CODE_FLOAT: u32 = 2;

pub const TYPE_CODE_TEXT: u32 = 3;

pub const TYPE_CODE_BLOB: u32 = 4;

pub const TYPE_CODE_NULL: u32 = 5;

/// The closed set of value kinds this extension accepts from the host.
#[derive(Clone, Copy, Debug, PartialEq, Eq, Structural)]
pub enum ValueKind {
    Null,
    Integer,
    Float,
    Text,
    Blob,
}

/// What `classify_value_type` returns for each discriminant.
pub open spec fn classify_spec(code: u32) -> Result<ValueKind, HmhError> {
    if code == TYPE_CODE_NULL {
        Ok(ValueKind::Null)
    } else if code == TYPE_CODE_INTEGER {
        Ok(ValueKind::Integer)
    } else if code == TYPE_CODE_FLOAT {
        Ok(ValueKind::Float)
    } else if code == TYPE_CODE_TEXT {
        Ok(ValueKind::Text)
    } else if code == TYPE_CODE_BLOB {
        Ok(ValueKind::Blob)
    } else {
        Err(HmhError::UnknownValueType)
    }
}

/// Maps a host value-type discriminant to the kind of value to fetch.
///
/// Any discriminant outside the closed set {null, integer, float, text, blob}
/// is a protocol violation and is rejected, never coerced.
pub fn classify_value_type(code: u32) -> (r: Result<ValueKind, HmhError>)
    ensures
        r == classify_spec(code),
{
    if code == TYPE_CODE_NULL {
        Ok(ValueKind::Null)
    } else if code == TYPE_CODE_INTEGER {
        Ok(ValueKind::Integer)
    } else if code == TYPE_CODE_FLOAT {
        Ok(ValueKind::Float)
    } else if code == TYPE_CODE_TEXT {
        Ok(ValueKind::Text)
    } else if code == TYPE_CODE_BLOB {
        Ok(ValueKind::Blob)
    } else {
        Err(HmhError::UnknownValueType)
    }
}

/// The mathematical model of one host value: the same tagged alternatives,
/// with byte payloads abstracted to sequences.
pub enum ValueModel {
    Null,
    Int(i64),
    Float(u64),
    Text(Seq<u8>),
    Blob(Seq<u8>),
}

/// One host-provided argument value, owned for the duration of one call.
///
/// A float is stored as the raw bit pattern of the double, so that equal
/// bit patterns (including negative zero and NaN payloads) tokenize
/// identically. Text is stored as its UTF-8 bytes; the extension requests
/// UTF-8 text from the host, so validity is the host's obligation and the
/// bytes are treated as opaque payload here.
#[derive(Clone, Debug)]
pub enum RawValue {
    Null,
    Int(i64),
    Float(u64),
    Text(Vec<u8>),
    Blob(Vec<u8>),
}

impl View for RawValue {
    type V = ValueModel;

    open spec fn view(&self) -> ValueModel {
        match self {
            RawValue::Null => ValueModel::Null,
            RawValue::Int(i) => ValueModel::Int(*i),
            RawValue::Float(bits) => ValueModel::Float(*bits),
            RawValue::Text(s) => ValueModel::Text(s@),
            RawValue::Blob(b) => ValueModel::Blob(b@),
        }
    }
}

impl RawValue {
    /// The payload of a blob-typed value; any other kind is a type mismatch.
    pub fn as_blob(&self) -> (r: Result<&Vec<u8>, HmhError>)
        ensures
            self@ matches ValueModel::Blob(b) ==> (r matches Ok(v) && v@ == b),
            !(self@ is Blob) ==> r == Err::<&Vec<u8>, HmhError>(HmhError::ValueIsNotBlob),
    {
        match self {
            RawValue::Blob(b) => Ok(b),
            _ => Err(HmhError::ValueIsNotBlob),
        }
    }
}

} // verus!
