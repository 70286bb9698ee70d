//! What the library has from other crates and from std's tables: each item
//! here is believed, not proved.
use crate::json::{Json, JsonView};
use crate::state::Timestamp;
use serde_json::Value;
use vstd::prelude::*;
use vstd::utf8::{decode_utf8, valid_utf8};

verus! {

/// The current time, from `chrono::Utc::now`, which gives a moment from 1970 on
/// that is no leap second, and panics where the clock stands before 1970. Which
/// moment it is is left open.
#[verifier::external_body]
pub(crate) fn utc_now() -> (r: Timestamp)
    ensures
        r.is_moment(),
{
    let now = chrono::Utc::now();
    Timestamp { secs: now.timestamp(), nanos: now.timestamp_subsec_nanos() }
}

/// The user's home directory, from `dirs::home_dir`, as text; a part of it
/// that is not Unicode is replaced. It depends on the environment, so nothing
/// is said of it.
#[verifier::external_body]
pub(crate) fn home_dir() -> (r: Option<String>)
{
    dirs::home_dir().map(|home| home.to_string_lossy().into_owned())
}

/// Whether `c` is one of `0` to `9` and `a` to `f`.
pub open spec fn is_lower_hex(c: char) -> bool {
    '0' <= c <= '9' || 'a' <= c <= 'f'
}

/// Whether `s` has the form of a UUID: 36 characters, hyphens at the indices
/// 8, 13, 18 and 23, and small hexadecimal digits elsewhere.
pub open spec fn uuid_form(s: Seq<char>) -> bool {
    s.len() == 36 && forall|i: int|
        0 <= i < 36 ==> if i == 8 || i == 13 || i == 18 || i == 23 {
            #[trigger] s[i] == '-'
        } else {
            is_lower_hex(s[i])
        }
}

/// A fresh identifier from `uuid::Uuid::new_v4`, in the form in which the
/// crate displays it. Which one it is is random.
#[verifier::external_body]
pub(crate) fn new_uuid() -> (r: String)
    ensures
        uuid_form(r@),
{
    uuid::Uuid::new_v4().to_string()
}

/// What `str::to_lowercase` gives: the text in small letters as Unicode
/// defines them, which can change its length.
pub uninterp spec fn unicode_lower(s: Seq<char>) -> Seq<char>;

/// `str::to_lowercase` is a function of the text alone.
#[verifier::external_body]
pub(crate) fn to_lowercase(s: &str) -> (r: String)
    ensures
        r@ == unicode_lower(s@),
{
    s.to_lowercase()
}

/// What `String::from_utf8_lossy` gives: the bytes read as UTF-8, with a
/// replacement character for what is not.
pub uninterp spec fn utf8_lossy(bytes: Seq<u8>) -> Seq<char>;

/// `String::from_utf8_lossy` is a function of the bytes alone, and reads valid
/// UTF-8 as what it encodes.
#[verifier::external_body]
pub(crate) fn text_from_utf8_lossy(bytes: &[u8]) -> (r: String)
    ensures
        r@ == utf8_lossy(bytes@),
        valid_utf8(bytes@) ==> r@ == decode_utf8(bytes@),
{
    String::from_utf8_lossy(bytes).into_owned()
}

/// The error of `hex::decode`.
#[verifier::external_type_specification]
#[verifier::external_body]
pub struct ExFromHexError(hex::FromHexError);

/// The value of a hexadecimal digit, small or capital.
pub open spec fn hex_digit(c: char) -> Option<nat> {
    if '0' <= c <= '9' {
        Some((c as nat - 48) as nat)
    } else if 'a' <= c <= 'f' {
        Some((c as nat - 87) as nat)
    } else if 'A' <= c <= 'F' {
        Some((c as nat - 55) as nat)
    } else {
        None
    }
}

/// Whether `s` is an even number of hexadecimal digits.
pub open spec fn is_hex(s: Seq<char>) -> bool {
    s.len() % 2 == 0 && forall|i: int| 0 <= i < s.len() ==> hex_digit(#[trigger] s[i]) is Some
}

/// The bytes that hexadecimal digits stand for, two digits each.
pub open spec fn hex_bytes(s: Seq<char>) -> Seq<u8> {
    Seq::new(
        s.len() / 2,
        |i: int| (16 * hex_digit(s[2 * i])->0 + hex_digit(s[2 * i + 1])->0) as u8,
    )
}

/// `hex::decode` reads pairs of hexadecimal digits, in either case, as bytes.
/// It fails where the number of digits is odd or a character is not a digit.
#[verifier::external_body]
pub(crate) fn hex_decode(s: &str) -> (r: Result<Vec<u8>, hex::FromHexError>)
    ensures
        r is Ok <==> is_hex(s@),
        r matches Ok(v) ==> v@ == hex_bytes(s@),
{
    hex::decode(s)
}

/// The HMAC-SHA-256 of a message under a key.
pub uninterp spec fn hmac_sha256(key: Seq<u8>, message: Seq<u8>) -> Seq<u8>;

/// `Mac::verify_slice` of an `hmac::Hmac<sha2::Sha256>` that was made with the
/// key (any length will do) and has been given the message: whether `tag` is
/// the whole code, which is 32 bytes long.
#[verifier::external_body]
pub(crate) fn hmac_sha256_verify(key: &[u8], message: &[u8], tag: &[u8]) -> (r: bool)
    ensures
        r == (tag@ == hmac_sha256(key@, message@)),
        r ==> tag@.len() == 32,
{
    match <hmac::Hmac<sha2::Sha256> as hmac::Mac>::new_from_slice(key) {
        Ok(mac) => {
            let mac = hmac::Mac::chain_update(mac, message);
            hmac::Mac::verify_slice(mac, tag).is_ok()
        },
        Err(_) => false,
    }
}

/// A value of `serde_json`.
#[verifier::external_type_specification]
#[verifier::external_body]
pub struct ExJsonValue(serde_json::Value);

/// The error of a parse by `serde_json`.
#[verifier::external_type_specification]
#[verifier::external_body]
pub struct ExJsonError(serde_json::Error);

/// What a value of `serde_json` holds.
pub uninterp spec fn value_tree(value: serde_json::Value) -> JsonView;

/// The value that `serde_json::from_str` reads in a text, where it reads one.
pub uninterp spec fn json_of_text(text: Seq<char>) -> Option<JsonView>;

/// What `serde_json::from_slice` reads in a text of bytes: a value, or else what
/// is displayed of its error.
pub uninterp spec fn json_of_bytes(bytes: Seq<u8>) -> Result<JsonView, Seq<char>>;

/// `serde_json::from_str`: whether it reads a value, and which, is a function
/// of the text alone.
#[verifier::external_body]
pub(crate) fn value_of_text(text: &str) -> (r: Result<serde_json::Value, serde_json::Error>)
    ensures
        r is Ok <==> json_of_text(text@) is Some,
        r matches Ok(v) ==> Some(value_tree(v)) == json_of_text(text@),
{
    serde_json::from_str(text)
}

/// `serde_json::from_slice`: whether it reads a value, which, and what it
/// displays as its error where it does not, is a function of the bytes alone.
#[verifier::external_body]
pub(crate) fn value_of_bytes(bytes: &[u8]) -> (r: Result<serde_json::Value, String>)
    ensures
        match r {
            Ok(v) => json_of_bytes(bytes@) == Ok::<JsonView, Seq<char>>(value_tree(v)),
            Err(e) => json_of_bytes(bytes@) == Err::<JsonView, Seq<char>>(e@),
        },
{
    serde_json::from_slice(bytes).map_err(|error| error.to_string())
}

/// The same value in the library's own type: each of the variants of
/// `serde_json::Value` becomes the one that stands for it. A number becomes what
/// it is held as: what `Number::as_u64` gives, or else `Number::as_i64`, or else
/// its text.
#[verifier::external_body]
pub(crate) fn json_of_value(value: &serde_json::Value) -> (r: Json)
    ensures
        r@ == value_tree(*value),
{
    match value {
        Value::Null => Json::Null,
        Value::Bool(b) => Json::Bool(*b),
        Value::Number(n) => match (n.as_u64(), n.as_i64()) {
            (Some(n), _) => Json::Unsigned(n),
            (None, Some(n)) => Json::Signed(n),
            (None, None) => Json::Float(n.to_string()),
        },
        Value::String(s) => Json::Text(s.clone()),
        Value::Array(v) => Json::List(v.iter().map(json_of_value).collect()),
        Value::Object(m) => Json::Object(
            m.iter().map(|(k, v)| (k.clone(), json_of_value(v))).collect(),
        ),
    }
}

/// How `serde_json` displays a value: as JSON without white space.
pub uninterp spec fn json_display(value: JsonView) -> Seq<char>;

/// `ToString` of a `serde_json::Value`, which its `Display` gives: a function of
/// what the value holds.
#[verifier::external_body]
pub(crate) fn value_to_text(value: &serde_json::Value) -> (r: String)
    ensures
        r@ == json_display(value_tree(*value)),
{
    value.to_string()
}

} // verus!
