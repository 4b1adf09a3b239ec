//! HTTP headers: what a header map holds, and reading a field of it as text.

use axum::http::HeaderMap;
use axum::http::HeaderValue;
use vstd::prelude::*;

verus! {

/// `http::HeaderMap`, the header fields of a request.
#[verifier::external_type_specification]
#[verifier::external_body]
#[verifier::reject_recursive_types(T)]
pub struct ExHeaderMap<T>(axum::http::HeaderMap<T>);

/// `http::HeaderValue`, the value of a header field.
#[verifier::external_type_specification]
#[verifier::external_body]
pub struct ExHeaderValue(axum::http::HeaderValue);

/// The fields that a header map holds: under each name, in lower case, the
/// bytes of its values in the order in which they were added.
pub uninterp spec fn header_contents(headers: HeaderMap<HeaderValue>) -> Map<
    Seq<char>,
    Seq<Seq<u8>>,
>;

/// The bytes that a header value holds.
pub uninterp spec fn header_value_bytes(value: HeaderValue) -> Seq<u8>;

/// What a header map without a field holds.
pub open spec fn no_fields() -> Map<Seq<char>, Seq<Seq<u8>>> {
    Map::empty()
}

/// The first value of a field, where the headers have the field.
pub open spec fn first_value(contents: Map<Seq<char>, Seq<Seq<u8>>>, name: Seq<char>) -> Option<
    Seq<u8>,
> {
    if contents.contains_key(name) && contents[name].len() > 0 {
        Some(contents[name][0])
    } else {
        None
    }
}

/// Whether a text has no upper-case ASCII letter, as the names of the fields
/// that a header map holds.
pub open spec fn is_lower_case(name: Seq<char>) -> bool {
    forall|i: int| 0 <= i < name.len() ==> !('A' <= #[trigger] name[i] && name[i] <= 'Z')
}

/// Whether a byte may stand in a header value that is read as text: a visible
/// ASCII character, a space or a tab.
pub open spec fn is_visible(byte: u8) -> bool {
    32 <= byte < 127 || byte == 9
}

/// Whether every byte may stand in a header value that is read as text.
pub open spec fn all_visible(bytes: Seq<u8>) -> bool {
    forall|i: int| 0 <= i < bytes.len() ==> is_visible(#[trigger] bytes[i])
}

/// ASCII bytes as text.
pub open spec fn ascii_text(bytes: Seq<u8>) -> Seq<char> {
    bytes.map_values(|byte: u8| byte as char)
}

/// ASCII text as bytes.
pub open spec fn ascii_bytes(text: Seq<char>) -> Seq<u8> {
    text.map_values(|c: char| c as u8)
}

/// `HeaderMap::new` gives a header map without a field.
#[verifier::external_body]
pub(crate) fn no_headers() -> (headers: HeaderMap<HeaderValue>)
    ensures
        header_contents(headers) == no_fields(),
{
    HeaderMap::new()
}

/// `HeaderMap::get` looks a field up by its name and gives its first value, or
/// nothing where the headers do not have the field.
#[verifier::external_body]
pub(crate) fn header_value<'a>(headers: &'a HeaderMap<HeaderValue>, name: &str) -> (value: Option<
    &'a HeaderValue,
>)
    requires
        is_lower_case(name@),
    ensures
        first_value(header_contents(*headers), name@) == (match value {
            Some(v) => Some(header_value_bytes(*v)),
            None => None,
        }),
{
    headers.get(name)
}

/// `HeaderValue::to_str` gives a value as text where each of its bytes is a
/// visible ASCII character, a space or a tab, and an error otherwise.
#[verifier::external_body]
pub(crate) fn header_value_text<'a>(value: &'a HeaderValue) -> (text: Option<&'a str>)
    ensures
        text is Some <==> all_visible(header_value_bytes(*value)),
        text matches Some(t) ==> t@ == ascii_text(header_value_bytes(*value)),
{
    value.to_str().ok()
}

/// The text of a field: its first value, where the headers have the field and
/// the value can be read as text.
pub open spec fn text_of_field(
    contents: Map<Seq<char>, Seq<Seq<u8>>>,
    name: Seq<char>,
) -> Option<Seq<char>> {
    match first_value(contents, name) {
        Some(bytes) => if all_visible(bytes) {
            Some(ascii_text(bytes))
        } else {
            None
        },
        None => None,
    }
}

/// The text of the first value of a field, if there is one that can be read as
/// text.
pub fn field_text<'a>(headers: &'a HeaderMap<HeaderValue>, name: &str) -> (text: Option<&'a str>)
    requires
        is_lower_case(name@),
    ensures
        text is Some <==> text_of_field(header_contents(*headers), name@) is Some,
        text matches Some(t) ==> Some(t@) == text_of_field(header_contents(*headers), name@),
        text is Some <==> header_contents(*headers).contains_key(name@) && header_contents(
            *headers,
        )[name@].len() > 0 && forall|i: int|
            0 <= i < header_contents(*headers)[name@][0].len() ==> 32 <= (
            #[trigger] header_contents(*headers)[name@][0][i]) <= 126 || header_contents(
                *headers,
            )[name@][0][i] == 9,
        text matches Some(t) ==> t@.len() == header_contents(*headers)[name@][0].len() && forall|
            i: int,
        |
            0 <= i < t@.len() ==> (#[trigger] t@[i]) as int == header_contents(
                *headers,
            )[name@][0][i],
{
    proof {
        law_field_is_read_byte_by_byte(header_contents(*headers), name@);
    }
    match header_value(headers, name) {
        Some(value) => header_value_text(value),
        None => None,
    }
}

/// A field is read byte by byte. Its text is that of its first value, of whatever
/// length: for each byte the character of that code. There is one if, and only if,
/// the headers have the field and each byte is a visible ASCII character, a space
/// or a tab.
pub proof fn law_field_is_read_byte_by_byte(
    contents: Map<Seq<char>, Seq<Seq<u8>>>,
    name: Seq<char>,
)
    ensures
        text_of_field(contents, name) is Some <==> contents.contains_key(name)
            && contents[name].len() > 0 && forall|i: int|
            0 <= i < contents[name][0].len() ==> 32 <= (#[trigger] contents[name][0][i]) <= 126
                || contents[name][0][i] == 9,
        text_of_field(contents, name) matches Some(text) ==> text.len() == contents[name][0].len()
            && forall|i: int|
            0 <= i < text.len() ==> (#[trigger] text[i]) as int == contents[name][0][i],
{
    if contents.contains_key(name) && contents[name].len() > 0 {
        let bytes = contents[name][0];
        if all_visible(bytes) {
            assert forall|i: int| 0 <= i < bytes.len() implies 32 <= (
            #[trigger] contents[name][0][i]) <= 126 || contents[name][0][i] == 9 by {
                assert(is_visible(bytes[i]));
            }
        }
    }
}

} // verus!
