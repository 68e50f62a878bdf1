//! The calls into other crates, each with what is relied on of it.
use vstd::prelude::*;
use vstd::utf8::*;

use crate::webp;

verus! {

/// The instant that an RFC 3339 text names, in seconds since the epoch and
/// nanoseconds, or `None` where the text is not RFC 3339.
pub uninterp spec fn rfc3339_value(text: Seq<char>) -> Option<(i64, u32)>;

/// `chrono::DateTime::parse_from_rfc3339`, with the parsed value's
/// `timestamp` and `timestamp_subsec_nanos`: a function of the text alone,
/// `None` where the text does not parse.
#[verifier::external_body]
pub(crate) fn rfc3339_instant(text: &str) -> (r: Option<(i64, u32)>)
    ensures
        r == rfc3339_value(text@),
{
    chrono::DateTime::parse_from_rfc3339(text)
        .ok()
        .map(|t| (t.timestamp(), t.timestamp_subsec_nanos()))
}

/// Whether a character is a letter or a number in Unicode.
pub uninterp spec fn alphanumeric(c: char) -> bool;

/// `char::is_alphanumeric`: of ASCII characters, the letters and the digits;
/// of the others, what Unicode says of the character.
pub assume_specification[ char::is_alphanumeric ](c: char) -> (r: bool)
    ensures
        r == alphanumeric(c),
        (c as u32) < 128 ==> r == ('0' <= c <= '9' || 'A' <= c <= 'Z' || 'a' <= c <= 'z'),
;

/// A text in lower case by Unicode's rules.
pub uninterp spec fn lowercase(s: Seq<char>) -> Seq<char>;

/// `str::to_lowercase`: a function of the text alone; it leaves a text of
/// ASCII characters other than capital letters as it is.
pub assume_specification[ str::to_lowercase ](s: &str) -> (r: String)
    ensures
        r@ == lowercase(s@),
        (forall|i: int|
            0 <= i < s@.len() ==> (#[trigger] s@[i] as u32) < 128 && !('A' <= s@[i] <= 'Z')) ==> r@
            == s@,
;

/// The text that a JSON object holds under a key, or `None` where the text is
/// no JSON, no object, or holds no text there.
pub uninterp spec fn json_string(json: Seq<char>, key: Seq<char>) -> Option<Seq<char>>;

/// `serde_json::from_str` into a `serde_json::Value`, then `Value::get` and
/// `Value::as_str`: a function of the text and the key alone.
#[verifier::external_body]
pub(crate) fn json_string_field(json: &str, key: &str) -> (r: Option<String>)
    ensures
        (match r {
            Some(s) => Some(s@),
            None => None,
        }) == json_string(json@, key@),
{
    serde_json::from_str::<serde_json::Value>(json)
        .ok()
        .and_then(|v| v.get(key).and_then(|f| f.as_str()).map(|f| f.to_owned()))
}

/// A text in quotation marks, with what needs escaping escaped.
pub uninterp spec fn debug_text(s: Seq<char>) -> Seq<char>;

/// The `Debug` form of a `str` as `format!` writes it: a function of the text
/// alone.
#[verifier::external_body]
pub(crate) fn debug_quoted(s: &str) -> (r: String)
    ensures
        r@ == debug_text(s@),
{
    format!("{s:?}")
}

/// Under the key `list` in a JSON object, an array's entries, each with the
/// text it holds under the key `field`: `None` where the text is not JSON,
/// `Some(None)` where it holds no such array.
pub uninterp spec fn json_list(
    json: Seq<char>,
    list: Seq<char>,
    field: Seq<char>,
) -> Option<Option<Seq<Option<Seq<char>>>>>;

/// The texts of optional strings.
pub open spec fn optional_texts(v: Seq<Option<String>>) -> Seq<Option<Seq<char>>> {
    v.map_values(
        |s: Option<String>|
            match s {
                Some(t) => Some(t@),
                None => None,
            },
    )
}

/// `serde_json::from_str` into a `serde_json::Value`, then `Value::get`,
/// `Value::as_array` and, of each entry, `Value::get` and `Value::as_str`: a
/// function of the text and the two keys.
#[verifier::external_body]
pub(crate) fn json_list_texts(json: &str, list: &str, field: &str) -> (r: Option<
    Option<Vec<Option<String>>>,
>)
    ensures
        (match r {
            Some(Some(v)) => Some(Some(optional_texts(v@))),
            Some(None) => Some(None),
            None => None,
        }) == json_list(json@, list@, field@),
{
    let value: serde_json::Value = serde_json::from_str(json).ok()?;
    let entries = value.get(list).and_then(|v| v.as_array());
    Some(entries.map(|v| {
        v.iter().map(|e| e.get(field).and_then(|t| t.as_str()).map(|t| t.to_owned())).collect()
    }))
}

/// A JSON object with these members, printed over several lines. A member's
/// value is JSON text, and null where it is none.
pub uninterp spec fn pretty_object(members: Seq<(Seq<char>, Seq<char>)>) -> Seq<char>;

/// The texts of pairs of strings.
pub open spec fn pair_texts(v: Seq<(String, String)>) -> Seq<(Seq<char>, Seq<char>)> {
    v.map_values(|p: (String, String)| (p.0@, p.1@))
}

/// `serde_json::from_str` of each member's value, and `to_string_pretty` of the
/// `serde_json::Map` that holds them: a function of the members.
#[verifier::external_body]
pub(crate) fn pretty_members(members: &[(String, String)]) -> (r: String)
    ensures
        r@ == pretty_object(pair_texts(members@)),
{
    let value = |text: &str| serde_json::from_str::<serde_json::Value>(text).unwrap_or_default();
    let object: serde_json::Map<String, serde_json::Value> =
        members.iter().map(|m| (m.0.to_owned(), value(&m.1))).collect();
    serde_json::to_string_pretty(&object).unwrap_or_default()
}

/// A JSON text printed over several lines, and null where it is no JSON.
pub uninterp spec fn pretty_json(text: Seq<char>) -> Seq<char>;

/// `serde_json::from_str`, and `to_string_pretty` of the value that it reads: a
/// function of the text.
#[verifier::external_body]
pub(crate) fn pretty_value(text: &str) -> (r: String)
    ensures
        r@ == pretty_json(text@),
{
    let value = serde_json::from_str::<serde_json::Value>(text).unwrap_or_default();
    serde_json::to_string_pretty(&value).unwrap_or_default()
}

/// A character in upper case by Unicode's rules.
pub uninterp spec fn uppercase(c: char) -> Seq<char>;

/// `char::to_uppercase` written out: a function of the character alone; one
/// character for an ASCII letter.
#[verifier::external_body]
pub(crate) fn uppercase_text(c: char) -> (r: String)
    ensures
        r@ == uppercase(c),
        'a' <= c <= 'z' ==> r@ == seq![(c as u32 - 32) as char],
{
    c.to_uppercase().to_string()
}

/// Bytes read as UTF-8, what is not UTF-8 replaced.
pub uninterp spec fn utf8_lossy(bytes: Seq<u8>) -> Seq<char>;

/// `String::from_utf8_lossy`: a function of the bytes alone, and the text that
/// they encode where they are UTF-8.
#[verifier::external_body]
pub(crate) fn lossy_text(bytes: &[u8]) -> (r: String)
    ensures
        r@ == utf8_lossy(bytes@),
        valid_utf8(bytes@) ==> r@ == decode_utf8(bytes@),
{
    String::from_utf8_lossy(bytes).into_owned()
}

/// The bytes that a text in standard base64 with padding stands for, or
/// `None` where it is no such text.
pub uninterp spec fn base64_value(text: Seq<char>) -> Option<Seq<u8>>;

/// `base64::Engine::decode` of `base64::engine::general_purpose::STANDARD`: a
/// function of the text alone, an error where it does not decode.
#[verifier::external_body]
pub(crate) fn base64_bytes(text: &str) -> (r: Option<Vec<u8>>)
    ensures
        (match r {
            Some(v) => Some(v@),
            None => None,
        }) == base64_value(text@),
{
    base64::Engine::decode(&base64::engine::general_purpose::STANDARD, text).ok()
}

/// The width and height of an encoded image, or `None` where the bytes are no
/// image.
pub uninterp spec fn image_dimensions(bytes: Seq<u8>) -> Option<(u32, u32)>;

/// `image::load_from_memory`, and of the decoded image its `width` and
/// `height`: a function of the bytes, as no decoding hooks are registered; an
/// error where they do not decode. Of an animated WebP file the first frame is
/// decoded. A frame with an alpha chunk is drawn into room for as many pixels
/// as the frame has, without a test that the picture has the frame's size, and
/// the decoder panics where the picture misfits that room: such files are left
/// out.
#[verifier::external_body]
pub(crate) fn image_size(bytes: &[u8]) -> (r: Option<(u32, u32)>)
    requires
        !webp::overrun(bytes@),
    ensures
        r == image_dimensions(bytes@),
{
    image::load_from_memory(bytes).ok().map(|i| (i.width(), i.height()))
}

} // verus!
