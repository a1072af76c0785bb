//! The HTTP header map of actix-web, as the CORS logic sees it, and the
//! byte-level facts about header names, header values and methods that the
//! logic relies on.
//!
//! A header map is modelled by `header_entries`: each (lower-case) header
//! name is mapped to the non-empty list of its values, in insertion order.
use vstd::prelude::*;
use vstd::string::StringSliceAdditionalSpecFns;
use actix_web::http::header::{HeaderMap, HeaderName, HeaderValue};
use actix_web::http::Method;

verus! {

/// actix-web's multi-valued header map (`actix_http::header::HeaderMap`).
#[verifier::external_type_specification]
#[verifier::external_body]
pub struct ExHeaderMap(HeaderMap);

/// What a header map holds: each header name (its lower-case bytes) is mapped
/// to the list of its values (their bytes), first inserted first.
pub uninterp spec fn header_entries(map: HeaderMap) -> Map<Seq<u8>, Seq<Seq<u8>>>;

/// The model of a header map: names to their lists of values.
pub type HeaderEntries = Map<Seq<u8>, Seq<Seq<u8>>>;

/// The bytes of a string (a header name or a fixed header value).
pub open spec fn bytes_of(name: &str) -> Seq<u8> {
    name.spec_bytes()
}

/// A byte that may stand in a lower-case header name
/// (a token character that is not an upper-case letter).
pub open spec fn is_lower_name_byte(b: u8) -> bool {
    ||| 33 <= b <= 39
    ||| b == 42 || b == 43 || b == 45 || b == 46
    ||| 48 <= b <= 57
    ||| 94 <= b <= 122
    ||| b == 124 || b == 126
}

/// A byte that may stand in a header name: a lower-case name byte or an
/// upper-case ASCII letter (which names are normalised from).
pub open spec fn is_name_byte(b: u8) -> bool {
    is_lower_name_byte(b) || 65 <= b <= 90
}

/// The lower-case form of a byte.
pub open spec fn lower_byte(b: u8) -> u8 {
    if 65 <= b <= 90 {
        (b + 32) as u8
    } else {
        b
    }
}

/// A header name in its normal, lower-case form.
pub open spec fn is_lower_name(s: Seq<u8>) -> bool {
    &&& 1 <= s.len() <= 65535
    &&& forall|i: int| 0 <= i < s.len() ==> #[trigger] is_lower_name_byte(s[i])
}

/// The header name that some bytes denote, if they denote one.
pub open spec fn parsed_header_name(s: Seq<u8>) -> Option<Seq<u8>> {
    if 1 <= s.len() <= 65535 && (forall|i: int| 0 <= i < s.len() ==> #[trigger] is_name_byte(s[i])) {
        Some(s.map_values(|b: u8| lower_byte(b)))
    } else {
        None
    }
}

/// A byte that may stand in a header value: anything but a control byte,
/// with horizontal tab allowed.
pub open spec fn is_value_byte(b: u8) -> bool {
    (b >= 32 && b != 127) || b == 9
}

/// Bytes that make up a valid header value.
pub open spec fn is_header_value(s: Seq<u8>) -> bool {
    forall|i: int| 0 <= i < s.len() ==> #[trigger] is_value_byte(s[i])
}

/// A byte that may stand in a request method.
pub open spec fn is_method_byte(b: u8) -> bool {
    ||| b == 33 || b == 42 || b == 43 || b == 45 || b == 46
    ||| 48 <= b <= 57
    ||| 65 <= b <= 90
    ||| 94 <= b <= 122
    ||| b == 124 || b == 126
}

/// Bytes that spell a request method.
pub open spec fn is_method(s: Seq<u8>) -> bool {
    &&& s.len() >= 1
    &&& forall|i: int| 0 <= i < s.len() ==> #[trigger] is_method_byte(s[i])
}

/// The first value stored under a header name, if the name is present.
pub open spec fn first_value(m: Map<Seq<u8>, Seq<Seq<u8>>>, key: Seq<u8>) -> Option<Seq<u8>> {
    if m.contains_key(key) && m[key].len() > 0 {
        Some(m[key][0])
    } else {
        None
    }
}

/// The map after a header is set to one value, replacing any old values.
pub open spec fn set_header(m: Map<Seq<u8>, Seq<Seq<u8>>>, key: Seq<u8>, value: Seq<u8>) -> Map<
    Seq<u8>,
    Seq<Seq<u8>>,
> {
    m.insert(key, seq![value])
}

/// The map after a header is set to a value when there is one.
pub open spec fn set_header_opt(
    m: Map<Seq<u8>, Seq<Seq<u8>>>,
    key: Seq<u8>,
    value: Option<Seq<u8>>,
) -> Map<Seq<u8>, Seq<Seq<u8>>> {
    match value {
        Some(v) => set_header(m, key, v),
        None => m,
    }
}

/// `names` lists every header name of `m` exactly once, in some order.
pub open spec fn lists_names(names: Seq<Seq<u8>>, m: Map<Seq<u8>, Seq<Seq<u8>>>) -> bool {
    names.no_duplicates() && names.to_set() == m.dom()
}

/// `HeaderMap::new`: a map that holds no header.
#[verifier::external_body]
pub fn new_header_map() -> (r: HeaderMap)
    ensures
        header_entries(r) == HeaderEntries::empty(),
{
    HeaderMap::new()
}

/// `HeaderMap::get` with a lower-case name: the first value stored under the
/// name, or `None`. Every stored value holds only header-value bytes: the
/// checked constructors of `HeaderValue` refuse others, and the unchecked one
/// is an `unsafe fn` whose callers (actix's request parser among them) vouch
/// for the bytes.
#[verifier::external_body]
pub fn header_get(map: &HeaderMap, name: &str) -> (r: Option<Vec<u8>>)
    requires
        is_lower_name(bytes_of(name)),
    ensures
        r is Some <==> header_entries(*map).contains_key(bytes_of(name)),
        r matches Some(v) ==> Some(v@) == first_value(header_entries(*map), bytes_of(name)),
        r matches Some(v) ==> is_header_value(v@),
{
    map.get(name).map(|v| v.as_bytes().to_vec())
}

/// `HeaderMap::contains_key` with a lower-case name.
#[verifier::external_body]
pub fn header_contains(map: &HeaderMap, name: &str) -> (r: bool)
    requires
        is_lower_name(bytes_of(name)),
    ensures
        r == header_entries(*map).contains_key(bytes_of(name)),
{
    map.contains_key(name)
}

/// `HeaderMap::is_empty`: whether the map holds no header name.
#[verifier::external_body]
pub fn header_is_empty(map: &HeaderMap) -> (r: bool)
    ensures
        r == (header_entries(*map).dom() =~= Set::<Seq<u8>>::empty()),
{
    map.is_empty()
}

/// `HeaderMap::keys`: every header name of the map once, in an order that the
/// map's hashing decides; each name is in its lower-case form (a
/// `HeaderName` holds only such names).
#[verifier::external_body]
pub fn header_names(map: &HeaderMap) -> (r: Vec<Vec<u8>>)
    ensures
        lists_names(r@.map_values(|v: Vec<u8>| v@), header_entries(*map)),
        forall|i: int| 0 <= i < r@.len() ==> is_lower_name(#[trigger] r@[i]@),
{
    map.keys().map(|n| n.as_str().as_bytes().to_vec()).collect()
}

/// `HeaderMap::insert` of a lower-case name (made by `HeaderName::from_static`)
/// and a value (made by `HeaderValue::from_bytes`): the name then holds that
/// one value, and no other name changes.
#[verifier::external_body]
pub fn header_insert(map: &mut HeaderMap, name: &'static str, value: &[u8])
    requires
        is_lower_name(bytes_of(name)),
        is_header_value(value@),
    ensures
        header_entries(*final(map)) == set_header(header_entries(*old(map)), bytes_of(name), value@),
{
    map.insert(HeaderName::from_static(name), HeaderValue::from_bytes(value).unwrap());
}

/// `Method::from_bytes`: the method that the bytes spell, given back as its
/// name's bytes (which are the input bytes).
#[verifier::external_body]
pub fn parse_method(s: &[u8]) -> (r: Option<Vec<u8>>)
    ensures
        r is Some <==> is_method(s@),
        r matches Some(m) ==> m@ == s@,
{
    Method::from_bytes(s).ok().map(|m| m.as_str().as_bytes().to_vec())
}

/// `HeaderName::from_bytes`: the normalised (lower-case) header name that the
/// bytes denote, if they denote one.
#[verifier::external_body]
pub fn parse_header_name(s: &[u8]) -> (r: Option<Vec<u8>>)
    ensures
        r is Some <==> parsed_header_name(s@) is Some,
        r matches Some(n) ==> Some(n@) == parsed_header_name(s@),
{
    HeaderName::from_bytes(s).ok().map(|n| n.as_str().as_bytes().to_vec())
}

} // verus!
