//! The header map of the `http` crate, as far as a parse uses it.

use crate::field::{all_value_bytes, canonical_name, is_header_name};
use http::header::{HeaderMap, HeaderName, HeaderValue};
use vstd::prelude::*;
use vstd::string::StringSliceAdditionalSpecFns;

verus! {

#[verifier::external_type_specification]
#[verifier::external_body]
pub struct ExHeaderValue(HeaderValue);

#[verifier::external_type_specification]
#[verifier::external_body]
#[verifier::reject_recursive_types(T)]
pub struct ExHeaderMap<T>(HeaderMap<T>);

/// What a header map holds: under each name that has an entry, written in
/// lower case, the bytes of the first value stored for it.
pub uninterp spec fn header_entries(map: HeaderMap<HeaderValue>) -> Map<Seq<u8>, Seq<u8>>;

/// The entries of a map that holds nothing.
pub open spec fn no_headers() -> Map<Seq<u8>, Seq<u8>> {
    Map::empty()
}

/// The number of names up to which a header map is sure to take an entry.
pub const SURE_ROOM: usize = 6_553;

/// True of entries that leave room for one more, whatever the map has been
/// through: there are at most `SURE_ROOM` names.
pub open spec fn has_room(entries: Map<Seq<u8>, Seq<u8>>) -> bool {
    entries.dom().finite() && entries.dom().len() <= SURE_ROOM
}

/// The largest capacity that a header map can be made with.
pub const MAX_INITIAL_CAPACITY: usize = 24_576;

/// The name of the header that says whether the connection stays open.
pub open spec fn connection_name() -> Seq<u8> {
    "connection".spec_bytes()
}

/// `HeaderMap::with_capacity`: a map without entries. The crate panics on a
/// capacity whose table would exceed 32768 slots, which no capacity up to
/// `MAX_INITIAL_CAPACITY` does.
#[verifier::external_body]
pub(crate) fn new_header_map(capacity: usize) -> (fresh: HeaderMap<HeaderValue>)
    requires
        capacity <= MAX_INITIAL_CAPACITY,
    ensures
        header_entries(fresh) == no_headers(),
{
    HeaderMap::with_capacity(capacity)
}

/// `HeaderMap::try_insert`, on a name made by `HeaderName::from_lowercase`
/// and a value made by `HeaderValue::from_bytes`, which take a header name
/// in lower case and value bytes as they are. Where the map takes the
/// entry, the value replaces whatever stood under the name; where it
/// refuses, it keeps what it held. The map refuses only where it would have
/// to grow beyond its largest table of 32768 slots: when three quarters of
/// that table are in use, or, after many collisions, a fifth of it, which
/// takes more than `SURE_ROOM` names.
#[verifier::external_body]
pub(crate) fn try_insert_header(
    map: &mut HeaderMap<HeaderValue>,
    name: &[u8],
    value: &[u8],
) -> (stored: bool)
    requires
        is_header_name(name@),
        canonical_name(name@) == name@,
        all_value_bytes(value@),
    ensures
        has_room(header_entries(*old(map))) ==> stored,
        stored ==> header_entries(*final(map)) == header_entries(*old(map)).insert(name@, value@),
        !stored ==> header_entries(*final(map)) == header_entries(*old(map)),
{
    match (HeaderName::from_lowercase(name), HeaderValue::from_bytes(value)) {
        (Ok(name), Ok(value)) => map.try_insert(name, value).is_ok(),
        _ => false,
    }
}

/// `HeaderMap::get` with the crate's constant `CONNECTION`, and
/// `HeaderValue::as_bytes` on what it finds: the value stored under
/// `connection`, if there is one.
#[verifier::external_body]
pub(crate) fn connection_header(map: &HeaderMap<HeaderValue>) -> (value: Option<Vec<u8>>)
    ensures
        match value {
            Some(bytes) => header_entries(*map).contains_key(connection_name()) && bytes@
                == header_entries(*map)[connection_name()],
            None => !header_entries(*map).contains_key(connection_name()),
        },
{
    map.get(http::header::CONNECTION).map(|value| value.as_bytes().to_vec())
}

} // verus!
