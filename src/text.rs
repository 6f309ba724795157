use vstd::prelude::*;
use vstd::utf8::{decode_utf8, valid_utf8};

verus! {

/// The error of reading a variable as text.
#[derive(Clone, Debug, PartialEq, Eq)]
pub enum VarError {
    /// The variable has no value.
    NotPresent,
    /// The variable has a value, but its bytes are not well-formed UTF-8;
    /// the bytes are handed back unchanged.
    NotUnicode(Vec<u8>),
}

/// What reading a variable as text yields, in mathematical terms.
pub enum VarReading {
    NotPresent,
    NotUnicode(Seq<u8>),
    Text(Seq<char>),
}

/// A raw lookup result as a byte sequence, or `None` where the variable is unset.
pub open spec fn raw_view(raw: Option<Vec<u8>>) -> Option<Seq<u8>> {
    match raw {
        Some(v) => Some(v@),
        None => None,
    }
}

/// The reading that a raw lookup result gives: absent, text where the bytes
/// are well-formed UTF-8, and the bytes themselves otherwise.
pub open spec fn reading_of(raw: Option<Seq<u8>>) -> VarReading {
    match raw {
        None => VarReading::NotPresent,
        Some(b) => if valid_utf8(b) {
            VarReading::Text(decode_utf8(b))
        } else {
            VarReading::NotUnicode(b)
        },
    }
}

/// The reading that a result of `var` stands for.
pub open spec fn var_view(r: Result<String, VarError>) -> VarReading {
    match r {
        Ok(s) => VarReading::Text(s@),
        Err(VarError::NotPresent) => VarReading::NotPresent,
        Err(VarError::NotUnicode(b)) => VarReading::NotUnicode(b@),
    }
}

/// A name the operating system accepts: non-empty, with no `=` and no NUL byte.
pub open spec fn is_valid_key(key: Seq<u8>) -> bool {
    &&& key.len() > 0
    &&& forall|i: int| 0 <= i < key.len() ==> key[i] != 0u8 && key[i] != 0x3du8
}

/// A value the operating system accepts: no NUL byte.
pub open spec fn is_valid_value(value: Seq<u8>) -> bool {
    forall|i: int| 0 <= i < value.len() ==> value[i] != 0u8
}

/// Relies on `String::from_utf8`: it succeeds exactly on well-formed UTF-8,
/// and the string it builds holds the characters that the bytes encode; on
/// failure `FromUtf8Error::into_bytes` gives the bytes back.
#[verifier::external_body]
fn decode_text(bytes: Vec<u8>) -> (r: Result<String, Vec<u8>>)
    ensures
        r is Ok <==> valid_utf8(bytes@),
        r matches Ok(s) ==> s@ == decode_utf8(bytes@),
        r matches Err(b) ==> b@ == bytes@,
{
    match String::from_utf8(bytes) {
        Ok(s) => Ok(s),
        Err(e) => Err(e.into_bytes()),
    }
}

/// Reads a raw lookup result as text: `NotPresent` where there is no value,
/// the decoded text where the bytes are well-formed UTF-8, and `NotUnicode`
/// with the bytes otherwise.
pub fn text_value(raw: Option<Vec<u8>>) -> (r: Result<String, VarError>)
    ensures
        var_view(r) == reading_of(raw_view(raw)),
{
    match raw {
        None => Err(VarError::NotPresent),
        Some(bytes) => match decode_text(bytes) {
            Ok(s) => Ok(s),
            Err(b) => Err(VarError::NotUnicode(b)),
        },
    }
}

} // verus!
