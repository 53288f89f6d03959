//! The grammar of header names and header values, and the calls that hold
//! bytes to it.

use http::header::{HeaderName, HeaderValue};
use vstd::prelude::*;
use vstd::string::StringSliceAdditionalSpecFns;
use vstd::utf8::{encode_utf8, valid_utf8};

verus! {

/// The longest header name, in bytes.
pub const MAX_NAME_LEN: usize = 65_535;

/// The bytes that may stand in a header name: the token characters of
/// HTTP/1.x and the double quote.
pub open spec fn is_name_byte(b: u8) -> bool {
    ||| b == 0x21
    ||| b == 0x22
    ||| 0x23 <= b <= 0x27
    ||| b == 0x2a
    ||| b == 0x2b
    ||| b == 0x2d
    ||| b == 0x2e
    ||| 0x30 <= b <= 0x39
    ||| 0x41 <= b <= 0x5a
    ||| 0x5e <= b <= 0x7a
    ||| b == 0x7c
    ||| b == 0x7e
}

/// An upper case letter becomes its lower case letter; every other byte
/// stays.
pub open spec fn lower_byte(b: u8) -> u8 {
    if 0x41 <= b <= 0x5a {
        (b + 0x20) as u8
    } else {
        b
    }
}

/// A header name is between one and `MAX_NAME_LEN` name bytes.
pub open spec fn is_header_name(bytes: Seq<u8>) -> bool {
    &&& 1 <= bytes.len() <= MAX_NAME_LEN
    &&& forall|i: int| 0 <= i < bytes.len() ==> is_name_byte(#[trigger] bytes[i])
}

/// The form under which a header name is stored and compared: all in lower
/// case.
pub open spec fn canonical_name(bytes: Seq<u8>) -> Seq<u8> {
    Seq::new(bytes.len(), |i: int| lower_byte(bytes[i]))
}

/// The bytes that may stand in a header value: horizontal tab, and
/// everything from the space on but for the delete character.
pub open spec fn is_value_byte(b: u8) -> bool {
    b == 0x09 || (b >= 0x20 && b != 0x7f)
}

/// All bytes are value bytes.
pub open spec fn all_value_bytes(bytes: Seq<u8>) -> bool {
    forall|i: int| 0 <= i < bytes.len() ==> is_value_byte(#[trigger] bytes[i])
}

/// A header value is UTF-8 text made of value bytes.
pub open spec fn is_header_value(bytes: Seq<u8>) -> bool {
    valid_utf8(bytes) && all_value_bytes(bytes)
}

/// Lowering a name byte gives a name byte, and lowering twice is lowering
/// once.
pub proof fn lemma_lower_byte(b: u8)
    ensures
        is_name_byte(b) ==> is_name_byte(lower_byte(b)),
        lower_byte(lower_byte(b)) == lower_byte(b),
{
}

/// The canonical form of a header name is a header name, and is its own
/// canonical form.
pub proof fn lemma_canonical_name(bytes: Seq<u8>)
    requires
        is_header_name(bytes),
    ensures
        is_header_name(canonical_name(bytes)),
        canonical_name(canonical_name(bytes)) == canonical_name(bytes),
{
    let lowered = canonical_name(bytes);
    assert forall|i: int| 0 <= i < lowered.len() implies is_name_byte(#[trigger] lowered[i]) by {
        lemma_lower_byte(bytes[i]);
    }
    assert forall|i: int| 0 <= i < lowered.len() implies canonical_name(lowered)[i]
        == lowered[i] by {
        lemma_lower_byte(bytes[i]);
    }
    assert(canonical_name(lowered) =~= lowered);
}

/// `http::header::HeaderName::from_bytes`, and `HeaderName::as_str` on what
/// it accepts. The crate accepts exactly the header names and hands back the
/// name in lower case.
#[verifier::external_body]
pub(crate) fn parse_header_name(data: &[u8]) -> (name: Option<Vec<u8>>)
    ensures
        match name {
            Some(bytes) => is_header_name(data@) && bytes@ == canonical_name(data@),
            None => !is_header_name(data@),
        },
{
    match HeaderName::from_bytes(data) {
        Ok(name) => Some(name.as_str().as_bytes().to_vec()),
        Err(_) => None,
    }
}

/// A header name that has been accepted, in its canonical form.
pub struct FieldName {
    bytes: Vec<u8>,
}

impl FieldName {
    #[verifier::type_invariant]
    spec fn well_formed(self) -> bool {
        is_header_name(self.bytes@) && canonical_name(self.bytes@) == self.bytes@
    }

    /// The bytes of the name.
    pub closed spec fn view(&self) -> Seq<u8> {
        self.bytes@
    }

    /// Holds bytes to the grammar of header names. The result is the name
    /// in lower case where the bytes are one, and nothing where they are
    /// not.
    pub fn parse(data: &[u8]) -> (name: Option<FieldName>)
        ensures
            match name {
                Some(n) => is_header_name(data@) && n@ == canonical_name(data@),
                None => !is_header_name(data@),
            },
    {
        match parse_header_name(data) {
            Some(bytes) => {
                proof {
                    lemma_canonical_name(data@);
                }
                Some(FieldName { bytes })
            },
            None => None,
        }
    }

    /// The bytes of the name: a header name all in lower case.
    pub fn as_bytes(&self) -> (bytes: &[u8])
        ensures
            bytes@ == self@,
            is_header_name(self@),
            canonical_name(self@) == self@,
    {
        proof {
            use_type_invariant(self);
        }
        self.bytes.as_slice()
    }
}

/// `String::from_utf8` of std: it accepts exactly the valid UTF-8, and the
/// text it hands back is made of the bytes it was given.
#[verifier::external_body]
pub(crate) fn text_from_utf8(data: &[u8]) -> (text: Option<String>)
    ensures
        match text {
            Some(t) => valid_utf8(data@) && encode_utf8(t@) == data@,
            None => !valid_utf8(data@),
        },
{
    String::from_utf8(data.to_vec()).ok()
}

/// `str::parse` into an `http::header::HeaderValue`, and
/// `HeaderValue::as_bytes` on what it accepts. The crate accepts exactly the
/// text made of value bytes and keeps the bytes as they are.
#[verifier::external_body]
pub(crate) fn parse_header_value(text: &str) -> (value: Option<Vec<u8>>)
    ensures
        match value {
            Some(bytes) => all_value_bytes(text.spec_bytes()) && bytes@ == text.spec_bytes(),
            None => !all_value_bytes(text.spec_bytes()),
        },
{
    match text.parse::<HeaderValue>() {
        Ok(value) => Some(value.as_bytes().to_vec()),
        Err(_) => None,
    }
}

/// Holds bytes to the grammar of header values. The result is the value
/// itself where the bytes are one, and nothing where they are not.
pub fn header_value_of(data: &[u8]) -> (value: Option<Vec<u8>>)
    ensures
        match value {
            Some(bytes) => is_header_value(data@) && bytes@ == data@,
            None => !is_header_value(data@),
        },
{
    match text_from_utf8(data) {
        Some(text) => parse_header_value(text.as_str()),
        None => None,
    }
}

} // verus!
