//! The password check.

use axum::http::header::ToStrError;
use axum::http::{HeaderMap, HeaderValue};
use vstd::prelude::*;

use crate::error::AnyhowError;
use crate::text::join;

verus! {

/// The header fields of a request.
#[verifier::external_type_specification]
#[verifier::external_body]
#[verifier::reject_recursive_types(T)]
pub struct ExHeaderMap<T>(axum::http::HeaderMap<T>);

/// The value of a header field, a sequence of bytes.
#[verifier::external_type_specification]
#[verifier::external_body]
pub struct ExHeaderValue(axum::http::HeaderValue);

/// The error for a value that is not visible ASCII.
#[verifier::external_type_specification]
#[verifier::external_body]
pub struct ExToStrError(axum::http::header::ToStrError);

/// The header fields of a request: under each name in lower case the bytes of its values, in
/// the order in which they were added.
pub uninterp spec fn header_fields(header: HeaderMap<HeaderValue>) -> Map<Seq<char>, Seq<Seq<u8>>>;

/// The bytes of the value of a header field.
pub uninterp spec fn value_bytes(value: HeaderValue) -> Seq<u8>;

/// Calls `HeaderMap::get` for the field `authorization`: the first of its values, and none
/// exactly if the field is absent.
#[verifier::external_body]
fn authorization(header: &HeaderMap) -> (result: Option<&HeaderValue>)
    ensures
        result is Some <==> header_fields(*header).contains_key("authorization"@),
        result matches Some(value) ==> header_fields(*header)["authorization"@].len() > 0
            && value_bytes(*value) == header_fields(*header)["authorization"@][0],
{
    header.get(axum::http::header::AUTHORIZATION)
}

/// `HeaderValue::to_str` succeeds exactly if every byte is a tab or a printable ASCII
/// character, and then gives these characters.
pub assume_specification[ HeaderValue::to_str ](value: &HeaderValue) -> (result: Result<
    &str,
    ToStrError,
>)
    ensures
        result is Ok <==> all_visible(value_bytes(*value)),
        result matches Ok(text) ==> text@ == chars_of(value_bytes(*value)),
;

/// `constant_time_eq` tells whether two byte strings are equal.
pub assume_specification[ constant_time_eq::constant_time_eq ](a: &[u8], b: &[u8]) -> (result: bool)
    ensures
        result == (a@ == b@),
;

/// A tab or a printable ASCII character.
pub open spec fn is_visible(byte: u8) -> bool {
    32 <= byte < 127 || byte == 9
}

/// The bytes are all visible.
pub open spec fn all_visible(bytes: Seq<u8>) -> bool {
    forall|i: int| 0 <= i < bytes.len() ==> is_visible(#[trigger] bytes[i])
}

/// The ASCII characters with these codes.
pub open spec fn chars_of(bytes: Seq<u8>) -> Seq<char> {
    bytes.map_values(|byte: u8| byte as char)
}

/// The characters of a text are all visible.
pub open spec fn is_visible_text(text: Seq<char>) -> bool {
    forall|i: int|
        0 <= i < text.len() ==> ' ' <= #[trigger] text[i] <= '~' || text[i] == '\t'
}

/// A space or a tab, the only white space among visible characters.
pub open spec fn is_blank(c: char) -> bool {
    c == ' ' || c == '\t'
}

/// The text without the blanks at its start.
pub open spec fn trim_start(text: Seq<char>) -> Seq<char>
    decreases text.len(),
{
    if text.len() > 0 && is_blank(text.first()) {
        trim_start(text.drop_first())
    } else {
        text
    }
}

/// The text without the blanks at its end.
pub open spec fn trim_end(text: Seq<char>) -> Seq<char>
    decreases text.len(),
{
    if text.len() > 0 && is_blank(text.last()) {
        trim_end(text.drop_last())
    } else {
        text
    }
}

/// The text without the blanks at its start and end.
pub open spec fn trim(text: Seq<char>) -> Seq<char> {
    trim_end(trim_start(text))
}

/// What follows `prefix` in `text`, if `text` begins with it.
pub open spec fn strip_prefix(text: Seq<char>, prefix: Seq<char>) -> Option<Seq<char>> {
    if prefix.is_prefix_of(text) {
        Some(text.skip(prefix.len() as int))
    } else {
        None
    }
}

/// The password in a text: what follows `Bearer `, without blanks around it.
pub open spec fn text_token(text: Seq<char>) -> Option<Seq<char>> {
    match strip_prefix(text, "Bearer "@) {
        Some(rest) => Some(trim(rest)),
        None => None,
    }
}

/// The password in the value of an `authorization` field. A value that is not visible ASCII
/// carries none.
pub open spec fn token_of(value: Seq<u8>) -> Option<Seq<char>> {
    if all_visible(value) {
        text_token(chars_of(value))
    } else {
        None
    }
}

/// The password that a request carries: that of the first value of its `authorization` field.
pub open spec fn request_token(fields: Map<Seq<char>, Seq<Seq<u8>>>) -> Option<Seq<char>> {
    if fields.contains_key("authorization"@) {
        token_of(fields["authorization"@][0])
    } else {
        None
    }
}

/// The request carries this password.
pub open spec fn is_authorized(header: HeaderMap<HeaderValue>, password: Seq<char>) -> bool {
    request_token(header_fields(header)) == Some(password)
}

/// The text without the blanks at its start and end.
fn trim_text(text: &str) -> (result: &str)
    requires
        text.is_ascii(),
    ensures
        result@ == trim(text@),
{
    let len = text.unicode_len();
    let mut start: usize = 0;
    assert(text@.skip(0) == text@);
    while start < len && (text.get_ascii(start) == 32 || text.get_ascii(start) == 9)
        invariant
            text.is_ascii(),
            len == text@.len(),
            start <= len,
            trim_start(text@) == trim_start(text@.skip(start as int)),
        decreases len - start,
    {
        assert(text@.skip(start as int).drop_first() == text@.skip(start + 1));
        start = start + 1;
    }
    let mut end: usize = len;
    assert(text@.skip(start as int) == text@.subrange(start as int, end as int));
    assert(trim_start(text@) == text@.skip(start as int));
    while start < end && (text.get_ascii(end - 1) == 32 || text.get_ascii(end - 1) == 9)
        invariant
            text.is_ascii(),
            end <= text@.len(),
            start <= end,
            trim(text@) == trim_end(text@.subrange(start as int, end as int)),
        decreases end - start,
    {
        assert(text@.subrange(start as int, end as int).drop_last() == text@.subrange(
            start as int,
            end - 1,
        ));
        end = end - 1;
    }
    text.substring_ascii(start, end)
}

/// What follows `prefix` in `text`, if `text` begins with it.
fn after_prefix<'a>(text: &'a str, prefix: &str) -> (result: Option<&'a str>)
    requires
        text.is_ascii(),
        prefix.is_ascii(),
    ensures
        match result {
            Some(rest) => rest.is_ascii() && strip_prefix(text@, prefix@) == Some(rest@),
            None => strip_prefix(text@, prefix@) is None,
        },
{
    let len = text.unicode_len();
    let prefix_len = prefix.unicode_len();
    if len < prefix_len {
        return None;
    }
    let mut i: usize = 0;
    while i < prefix_len
        invariant
            text.is_ascii(),
            prefix.is_ascii(),
            i <= prefix_len,
            prefix_len == prefix@.len(),
            prefix_len <= text@.len(),
            forall|j: int| 0 <= j < i ==> prefix@[j] == text@[j],
        decreases prefix_len - i,
    {
        if text.get_ascii(i) != prefix.get_ascii(i) {
            assert(text@.subrange(0, prefix@.len() as int)[i as int] == text@[i as int]);
            return None;
        }
        i = i + 1;
    }
    assert(prefix@ == text@.subrange(0, prefix@.len() as int));
    Some(text.substring_ascii(prefix_len, len))
}

/// Whether the text of an `authorization` field, if there is one, presents the password.
pub fn accepts(authorization: Option<&str>, password: &str) -> (accepted: bool)
    requires
        authorization matches Some(text) ==> is_visible_text(text@),
    ensures
        accepted <==> (authorization matches Some(text) && text_token(text@) == Some(password@)),
{
    let text = match authorization {
        Some(text) => text,
        None => return false,
    };
    proof {
        reveal_strlit("Bearer ");
        assert(text.is_ascii());
    }
    match after_prefix(text, "Bearer ") {
        Some(rest) => {
            let token = trim_text(rest);
            proof {
                vstd::utf8::encode_utf8_decode_utf8(token@);
                vstd::utf8::encode_utf8_decode_utf8(password@);
            }
            constant_time_eq::constant_time_eq(token.as_bytes(), password.as_bytes())
        },
        None => false,
    }
}

/// Lets a request pass that carries the password, and refuses any other.
pub fn check(header: HeaderMap, password: &str) -> (result: Result<(), AnyhowError>)
    ensures
        result is Ok <==> is_authorized(header, password@),
        result matches Err(error) ==> error@ == "Wrong password!"@,
{
    let text = match authorization(&header) {
        Some(value) => match value.to_str() {
            Ok(text) => {
                proof {
                    let bytes = value_bytes(*value);
                    assert forall|i: int| 0 <= i < text@.len() implies ' ' <= #[trigger] text@[i]
                        <= '~' || text@[i] == '\t' by {
                        assert(is_visible(bytes[i]));
                    }
                }
                Some(text)
            },
            Err(_) => None,
        },
        None => None,
    };
    if accepts(text, password) {
        Ok(())
    } else {
        Err(AnyhowError("Wrong password!".to_string()))
    }
}

/// The value of the `authorization` field with which a client presents the password.
pub fn bearer(password: &str) -> (value: String)
    ensures
        value@ == "Bearer "@ + password@,
{
    join("Bearer ", password)
}

/// A password that is visible ASCII and has no blank at either end is carried over whole: a
/// request whose first `authorization` value is `Bearer ` and the password is let through,
/// and one that presents another password in the same way is not.
pub proof fn lemma_bearer_is_accepted(
    header: HeaderMap<HeaderValue>,
    sent: Seq<char>,
    value: Seq<u8>,
    password: Seq<char>,
)
    requires
        header_fields(header).contains_key("authorization"@),
        header_fields(header)["authorization"@][0] == value,
        all_visible(value),
        chars_of(value) == "Bearer "@ + sent,
        sent.len() > 0 ==> !is_blank(sent.first()) && !is_blank(sent.last()),
    ensures
        is_authorized(header, password) <==> sent == password,
{
    assert(("Bearer "@ + sent).subrange(0, "Bearer "@.len() as int) == "Bearer "@);
    assert(("Bearer "@ + sent).skip("Bearer "@.len() as int) == sent);
    assert(trim(sent) == sent);
}

/// A request without an `authorization` field carries no password, not even an empty one.
pub proof fn lemma_missing_header_is_refused(
    header: HeaderMap<HeaderValue>,
    password: Seq<char>,
)
    requires
        !header_fields(header).contains_key("authorization"@),
    ensures
        !is_authorized(header, password),
{
}

} // verus!
