//! Header fields: where a peer's list of accepted algorithms is read, and
//! where the chosen algorithm is announced.
//!
//! The header map is `http`'s. This module says what the library relies on
//! when it reads a field of such a map or replaces one, and reads the two
//! fields of the protocol.

use http::header::{HeaderMap, HeaderValue, MaxSizeReached};
use vstd::prelude::*;

verus! {

/// The field in which a peer lists the algorithms that it accepts.
pub const ACCEPT_ENCODING_HEADER: &'static str = "grpc-accept-encoding";

/// The field that names the algorithm a message was compressed with.
pub const ENCODING_HEADER: &'static str = "grpc-encoding";

/// `http::HeaderMap`, of which nothing but `header_fields` is looked at.
#[verifier::external_type_specification]
#[verifier::external_body]
#[verifier::reject_recursive_types(T)]
pub struct ExHeaderMap<T>(HeaderMap<T>);

/// `http::HeaderValue`, of which nothing but `header_value_bytes` is looked
/// at.
#[verifier::external_type_specification]
#[verifier::external_body]
pub struct ExHeaderValue(HeaderValue);

/// The error of `HeaderMap::try_insert`: the map is full.
#[verifier::external_type_specification]
#[verifier::external_body]
pub struct ExMaxSizeReached(MaxSizeReached);

/// What a header map holds: for each name that has a field, the values
/// stored under it, in the order in which they were added. A name is written
/// in lower case, a value as its bytes.
pub uninterp spec fn header_fields(headers: &HeaderMap<HeaderValue>) -> Map<Seq<char>, Seq<Seq<u8>>>;

/// The bytes of a header value.
pub uninterp spec fn header_value_bytes(value: &HeaderValue) -> Seq<u8>;

/// Whether the map takes a value for the field `name`. A map refuses one
/// only when it has grown to the greatest size that a header map can have;
/// it goes by its own state alone, whatever the value is.
pub uninterp spec fn field_fits(headers: &HeaderMap<HeaderValue>, name: Seq<char>) -> bool;

/// A byte that can stand in the text of a header value: printable ASCII, the
/// space, or the tab.
pub open spec fn is_visible_ascii(b: u8) -> bool {
    32 <= b < 127 || b == 9
}

/// Whether `bytes` can be read as the text of a header value.
pub open spec fn is_text(bytes: Seq<u8>) -> bool {
    forall|i: int| 0 <= i < bytes.len() ==> is_visible_ascii(#[trigger] bytes[i])
}

/// The characters that the ASCII bytes `bytes` stand for.
pub open spec fn text_of(bytes: Seq<u8>) -> Seq<char> {
    Seq::new(bytes.len(), |i: int| bytes[i] as char)
}

/// The bytes that stand for the ASCII characters `text`.
pub open spec fn bytes_of(text: Seq<char>) -> Seq<u8> {
    Seq::new(text.len(), |i: int| text[i] as u8)
}

/// Whether every character of `text` can stand in a header value.
pub open spec fn is_value_text(text: Seq<char>) -> bool {
    forall|i: int|
        0 <= i < text.len() ==> (' ' <= #[trigger] text[i] <= '~' || text[i] == '\t')
}

/// Whether `name` is the name of a header field as a map keeps it: up to 64
/// characters, each a lower-case letter, a digit or a hyphen.
pub open spec fn is_field_name(name: Seq<char>) -> bool {
    &&& 1 <= name.len() <= 64
    &&& forall|i: int|
        0 <= i < name.len() ==> ('a' <= #[trigger] name[i] <= 'z' || '0' <= name[i] <= '9'
            || name[i] == '-')
}

/// The text of the first value of field `name`, where the field is there and
/// that value is text.
pub open spec fn first_text(fields: Map<Seq<char>, Seq<Seq<u8>>>, name: Seq<char>) -> Option<
    Seq<char>,
> {
    if fields.contains_key(name) && is_text(fields[name].first()) {
        Some(text_of(fields[name].first()))
    } else {
        None
    }
}

/// The list of algorithms that a peer accepts, as `fields` give it: the text
/// of the field, and nothing where the field is missing or holds no text.
pub open spec fn accept_encoding_of(fields: Map<Seq<char>, Seq<Seq<u8>>>) -> Seq<char> {
    match first_text(fields, ACCEPT_ENCODING_HEADER@) {
        Some(text) => text,
        None => Seq::empty(),
    }
}

/// The algorithm that `fields` declare for a message: none where the field is
/// missing, else the text of the field. A field that holds no text declares
/// the empty name, which no algorithm has.
pub open spec fn encoding_of(fields: Map<Seq<char>, Seq<Seq<u8>>>) -> Option<Seq<char>> {
    if !fields.contains_key(ENCODING_HEADER@) {
        None
    } else {
        match first_text(fields, ENCODING_HEADER@) {
            Some(text) => Some(text),
            None => Some(Seq::empty()),
        }
    }
}

/// The first value of field `name`.
///
/// Trusted: this is `HeaderMap::get` with a string for the key. A string of
/// lower-case letters, digits and hyphens, up to 64 of them, is a valid name
/// and is looked up as it stands. The call returns the first of the values
/// stored under the name, or nothing where the map has no such field.
#[verifier::external_body]
fn first_value<'a>(headers: &'a HeaderMap<HeaderValue>, name: &str) -> (value: Option<
    &'a HeaderValue,
>)
    requires
        is_field_name(name@),
    ensures
        value is Some <==> header_fields(headers).contains_key(name@),
        value matches Some(v) ==> header_value_bytes(v) == header_fields(headers)[name@].first(),
{
    headers.get(name)
}

/// The text of a header value.
///
/// Trusted: this is `HeaderValue::to_str`. It succeeds exactly when every
/// byte of the value is printable ASCII, a space or a tab, and then returns
/// those bytes as a string.
#[verifier::external_body]
fn value_text<'a>(value: &'a HeaderValue) -> (text: Option<&'a str>)
    ensures
        text is Some <==> is_text(header_value_bytes(value)),
        text matches Some(t) ==> t@ == text_of(header_value_bytes(value)),
{
    value.to_str().ok()
}

/// A header value that holds `text`.
///
/// Trusted: this is `HeaderValue::from_static`, which panics on a character
/// that is not printable ASCII, a space or a tab, and otherwise makes a value
/// of the bytes of `text`.
#[verifier::external_body]
fn static_value(text: &'static str) -> (value: HeaderValue)
    requires
        is_value_text(text@),
    ensures
        header_value_bytes(&value) == bytes_of(text@),
{
    HeaderValue::from_static(text)
}

/// Makes `value` the only value of field `name`.
///
/// Trusted: this is `HeaderMap::try_insert` with a string for the key.
/// Whether it succeeds is `field_fits` of the map and the name: the call
/// fails only where the map cannot grow, which it tests before it changes
/// anything. Where it succeeds, `value` has taken the place of all values
/// that the field had, and the first of those is returned. Where it fails
/// the map holds what it held before.
#[verifier::external_body]
fn replace_field(headers: &mut HeaderMap<HeaderValue>, name: &'static str, value: HeaderValue) -> (result:
    Result<Option<HeaderValue>, MaxSizeReached>)
    requires
        is_field_name(name@),
    ensures
        result is Ok <==> field_fits(old(headers), name@),
        match result {
            Ok(previous) => {
                &&& header_fields(final(headers)) == header_fields(old(headers)).insert(
                    name@,
                    seq![header_value_bytes(&value)],
                )
                &&& previous is Some <==> header_fields(old(headers)).contains_key(name@)
                &&& previous matches Some(p) ==> header_value_bytes(&p) == header_fields(
                    old(headers),
                )[name@].first()
            },
            Err(_) => header_fields(final(headers)) == header_fields(old(headers)),
        },
{
    headers.try_insert(name, value)
}

/// The header map has no room for another field.
#[derive(Debug, Clone, Copy, PartialEq, Eq)]
pub struct HeadersFull {}

/// The names of the two fields are names as a header map keeps them.
pub proof fn lemma_field_names()
    ensures
        is_field_name(ACCEPT_ENCODING_HEADER@),
        is_field_name(ENCODING_HEADER@),
{
    reveal_strlit("grpc-accept-encoding");
    reveal_strlit("grpc-encoding");
}

/// What is announced is what is declared: fields in which `name` has been
/// made the only value of the encoding field declare `name`.
pub proof fn lemma_announced_is_declared(fields: Map<Seq<char>, Seq<Seq<u8>>>, name: Seq<char>)
    requires
        is_value_text(name),
    ensures
        encoding_of(fields.insert(ENCODING_HEADER@, seq![bytes_of(name)])) == Some(name),
{
    let bytes = bytes_of(name);
    assert forall|i: int| 0 <= i < bytes.len() implies is_visible_ascii(#[trigger] bytes[i]) by {
        assert(' ' <= name[i] <= '~' || name[i] == '\t');
    }
    assert(text_of(bytes) =~= name) by {
        assert forall|i: int| 0 <= i < name.len() implies text_of(bytes)[i] == name[i] by {
            assert(' ' <= name[i] <= '~' || name[i] == '\t');
        }
    }
    assert(seq![bytes].first() == bytes);
}

/// The text of the first value of field `name`, where the field is there and
/// that value is text.
fn field_text<'a>(headers: &'a HeaderMap<HeaderValue>, name: &str) -> (text: Option<&'a str>)
    requires
        is_field_name(name@),
    ensures
        match text {
            Some(t) => first_text(header_fields(headers), name@) == Some(t@),
            None => first_text(header_fields(headers), name@) is None,
        },
{
    match first_value(headers, name) {
        Some(value) => value_text(value),
        None => None,
    }
}

/// The list of algorithms that the peer accepts: the text of the field, and
/// the empty list where the field is missing or holds no text.
pub fn accept_encoding<'a>(headers: &'a HeaderMap<HeaderValue>) -> (list: &'a str)
    ensures
        list@ == accept_encoding_of(header_fields(headers)),
{
    proof {
        lemma_field_names();
        reveal_strlit("");
    }
    match field_text(headers, ACCEPT_ENCODING_HEADER) {
        Some(text) => text,
        None => "",
    }
}

/// The algorithm that the headers declare for a message, if they declare
/// one.
pub fn declared_encoding<'a>(headers: &'a HeaderMap<HeaderValue>) -> (name: Option<&'a str>)
    ensures
        match name {
            Some(n) => encoding_of(header_fields(headers)) == Some(n@),
            None => encoding_of(header_fields(headers)) is None,
        },
{
    proof {
        lemma_field_names();
        reveal_strlit("");
    }
    match first_value(headers, ENCODING_HEADER) {
        Some(value) => match value_text(value) {
            Some(text) => Some(text),
            None => Some(""),
        },
        None => None,
    }
}

/// What an announcement answers for the answer of the header map: it is
/// made where the map took the field, and fails where the map was full.
pub fn announcement(inserted: Result<Option<HeaderValue>, MaxSizeReached>) -> (result: Result<
    (),
    HeadersFull,
>)
    ensures
        result == (match inserted {
            Ok(_) => Ok::<(), HeadersFull>(()),
            Err(_) => Err::<(), HeadersFull>(HeadersFull {  }),
        }),
{
    match inserted {
        Ok(_) => Ok(()),
        Err(_) => Err(HeadersFull {  }),
    }
}

/// Announces the algorithm `name`: makes it the only value of the encoding
/// field, where the map takes a value for that field. A map that does not
/// stays as it is.
pub(crate) fn announce(headers: &mut HeaderMap<HeaderValue>, name: &'static str) -> (result: Result<
    (),
    HeadersFull,
>)
    requires
        is_value_text(name@),
    ensures
        result is Ok <==> field_fits(old(headers), ENCODING_HEADER@),
        match result {
            Ok(()) => header_fields(final(headers)) == header_fields(old(headers)).insert(
                ENCODING_HEADER@,
                seq![bytes_of(name@)],
            ),
            Err(_) => header_fields(final(headers)) == header_fields(old(headers)),
        },
{
    proof {
        lemma_field_names();
    }
    let value = static_value(name);
    announcement(replace_field(headers, ENCODING_HEADER, value))
}

/// The metadata of a call: its header fields, as the calling side of the
/// protocol hands them over.
pub struct MetadataMap {
    headers: HeaderMap<HeaderValue>,
}

impl MetadataMap {
    /// The fields, as `header_fields` gives them for a header map.
    pub closed spec fn fields(&self) -> Map<Seq<char>, Seq<Seq<u8>>> {
        header_fields(&self.headers)
    }

    /// The metadata that holds the fields of `headers`.
    pub fn from_headers(headers: HeaderMap<HeaderValue>) -> (metadata: MetadataMap)
        ensures
            metadata.fields() == header_fields(&headers),
    {
        MetadataMap { headers }
    }

    /// The fields as a header map.
    pub fn headers(&self) -> (headers: &HeaderMap<HeaderValue>)
        ensures
            header_fields(headers) == self.fields(),
    {
        &self.headers
    }

    /// Gives the fields back as a header map.
    pub fn into_headers(self) -> (headers: HeaderMap<HeaderValue>)
        ensures
            header_fields(&headers) == self.fields(),
    {
        self.headers
    }
}

} // verus!
