//! Calls into other crates: each function here makes one such call, and its contract says what is
//! taken on trust about it.

use vstd::prelude::*;
use vstd::utf8::encode_utf8;

use base64::Engine;
use hmac::Mac;

use crate::json::{number_of, JsonModel, JsonNumber};
use crate::text::chunks::byte_len;
use crate::text::number::{read_i64, read_u64};
use crate::text::order::text_le;
use crate::text::split::find_char;

verus! {

/// HMAC with SHA-256 of a message under a key, as `hmac::Hmac<sha2::Sha256>` computes it.
pub uninterp spec fn hmac_sha256(key: Seq<u8>, message: Seq<u8>) -> Seq<u8>;

/// `Hmac::<Sha256>::new_from_slice`, `update` and `finalize`: a key of any length is accepted, and
/// the code depends on the key and the message alone.
#[verifier::external_body]
pub(crate) fn hmac_code(key: &[u8], message: &[u8]) -> (r: Vec<u8>)
    ensures
        r@ == hmac_sha256(key@, message@),
{
    let mut mac = hmac::Hmac::<sha2::Sha256>::new_from_slice(key).expect("HMAC takes any key");
    mac.update(message);
    mac.finalize().into_bytes().to_vec()
}

/// `Mac::verify_slice` on an `Hmac<Sha256>`: it succeeds exactly where the given code equals the
/// whole code of the message.
#[verifier::external_body]
pub(crate) fn hmac_matches(key: &[u8], message: &[u8], code: &[u8]) -> (r: bool)
    ensures
        r == (hmac_sha256(key@, message@) == code@),
{
    let mut mac = hmac::Hmac::<sha2::Sha256>::new_from_slice(key).expect("HMAC takes any key");
    mac.update(message);
    mac.verify_slice(code).is_ok()
}

/// `std::time::SystemTime::now`, in nanoseconds since the start of 1970, or zero before that. Nothing
/// is promised of it: it is the time of the call.
#[verifier::external_body]
pub(crate) fn clock_nanos() -> (r: u128) {
    std::time::SystemTime::now()
        .duration_since(std::time::UNIX_EPOCH)
        .unwrap_or_default()
        .as_nanos()
}

/// The number that a hexadecimal digit of either case stands for.
pub open spec fn hex_value(c: char) -> Option<nat> {
    if '0' <= c && c <= '9' {
        Some((c as u32 - 48) as nat)
    } else if 'a' <= c && c <= 'f' {
        Some((c as u32 - 87) as nat)
    } else if 'A' <= c && c <= 'F' {
        Some((c as u32 - 55) as nat)
    } else {
        None
    }
}

/// The bytes that a row of hexadecimal digits stands for, two digits to a byte.
pub open spec fn hex_bytes(s: Seq<char>) -> Option<Seq<u8>> {
    if s.len() % 2 == 0 && (forall|i: int| 0 <= i < s.len() ==> hex_value(#[trigger] s[i]) is Some) {
        Some(
            Seq::new(
                s.len() / 2,
                |i: int| (16 * hex_value(s[2 * i])->0 + hex_value(s[2 * i + 1])->0) as u8,
            ),
        )
    } else {
        None
    }
}

/// `hex::decode`: the bytes, where the string is an even number of hexadecimal digits of either
/// case; otherwise an error.
#[verifier::external_body]
pub(crate) fn hex_decode(s: &str) -> (r: Option<Vec<u8>>)
    ensures
        r.deep_view() == hex_bytes(s@),
{
    hex::decode(s).ok()
}

/// The names and values that `url::form_urlencoded::parse` reads from a string.
pub uninterp spec fn form_pairs(s: Seq<char>) -> Seq<(Seq<char>, Seq<char>)>;

/// `url::form_urlencoded::parse` on the bytes of a string, collected: the pairs depend on the
/// string alone.
#[verifier::external_body]
pub(crate) fn form_parse(s: &str) -> (r: Vec<(String, String)>)
    ensures
        r.deep_view() == form_pairs(s@),
{
    url::form_urlencoded::parse(s.as_bytes()).into_owned().collect()
}

/// Whether percent-encoding leaves a byte as it is.
pub open spec fn is_unreserved(b: u8) -> bool {
    ||| 48 <= b <= 57
    ||| 65 <= b <= 90
    ||| 97 <= b <= 122
    ||| b == 45
    ||| b == 46
    ||| b == 95
    ||| b == 126
}

/// The upper case hexadecimal digit for `d`.
pub open spec fn hex_digit(d: int) -> char {
    if d < 10 {
        (48 + d) as char
    } else {
        (55 + d) as char
    }
}

/// A byte in percent-encoding.
pub open spec fn percent_encoded_byte(b: u8) -> Seq<char> {
    if is_unreserved(b) {
        seq![b as char]
    } else {
        seq!['%', hex_digit(b as int / 16), hex_digit(b as int % 16)]
    }
}

/// Bytes in percent-encoding.
pub open spec fn percent_encoded(bytes: Seq<u8>) -> Seq<char>
    decreases bytes.len(),
{
    if bytes.len() == 0 {
        Seq::empty()
    } else {
        percent_encoded(bytes.drop_last()) + percent_encoded_byte(bytes.last())
    }
}

/// `urlencoding::encode`: every byte of the string's UTF-8 form except ASCII letters, digits, `-`,
/// `_`, `.` and `~` becomes a percent sign and two upper case hexadecimal digits.
#[verifier::external_body]
pub(crate) fn url_encode(s: &str) -> (r: String)
    ensures
        r@ == percent_encoded(encode_utf8(s@)),
{
    urlencoding::encode(s).into_owned()
}

/// The character for a value below 64 in the standard base64 alphabet.
pub open spec fn base64_char(v: int) -> char {
    if v < 26 {
        (65 + v) as char
    } else if v < 52 {
        (71 + v) as char
    } else if v < 62 {
        (v - 4) as char
    } else if v == 62 {
        '+'
    } else {
        '/'
    }
}

/// Bytes in padded base64: four characters for each three bytes.
pub open spec fn base64_text(bytes: Seq<u8>) -> Seq<char>
    decreases bytes.len(),
{
    if bytes.len() == 0 {
        Seq::empty()
    } else {
        let a = bytes[0] as int;
        let b = if bytes.len() > 1 {
            bytes[1] as int
        } else {
            0
        };
        let c = if bytes.len() > 2 {
            bytes[2] as int
        } else {
            0
        };
        let group = seq![
            base64_char(a / 4),
            base64_char((a % 4) * 16 + b / 16),
            if bytes.len() > 1 {
                base64_char((b % 16) * 4 + c / 64)
            } else {
                '='
            },
            if bytes.len() > 2 {
                base64_char(c % 64)
            } else {
                '='
            },
        ];
        if bytes.len() > 3 {
            group + base64_text(bytes.skip(3))
        } else {
            group
        }
    }
}

/// `base64::engine::general_purpose::STANDARD.encode`: the standard alphabet, with padding.
#[verifier::external_body]
pub(crate) fn base64_encode(bytes: &Vec<u8>) -> (r: String)
    ensures
        r@ == base64_text(bytes@),
{
    base64::engine::general_purpose::STANDARD.encode(bytes)
}

/// Why no QR image was made, with the message of the error.
#[derive(Debug)]
pub enum QrFailure {
    /// The content does not fit into a QR code.
    Payload(String),
    /// The image could not be written as PNG.
    Encoding(String),
}

/// What a failure is.
pub enum QrFailureModel {
    Payload(Seq<char>),
    Encoding(Seq<char>),
}

impl View for QrFailure {
    type V = QrFailureModel;

    open spec fn view(&self) -> QrFailureModel {
        match self {
            QrFailure::Payload(cause) => QrFailureModel::Payload(cause@),
            QrFailure::Encoding(cause) => QrFailureModel::Encoding(cause@),
        }
    }
}

/// The PNG image of a QR code for a string, as `qrcode` and `image` make it.
pub uninterp spec fn qr_png(content: Seq<char>) -> Result<Seq<u8>, QrFailureModel>;

/// The outcome of making a QR image, with the bytes as a sequence.
pub open spec fn qr_outcome(r: Result<Vec<u8>, QrFailure>) -> Result<Seq<u8>, QrFailureModel> {
    match r {
        Ok(bytes) => Ok(bytes@),
        Err(failure) => Err(failure@),
    }
}

/// `qrcode::QrCode::new`, `render` and `image::DynamicImage::write_to` with PNG, into memory: the
/// outcome depends on the content alone.
#[verifier::external_body]
pub(crate) fn qr_image(content: &str) -> (r: Result<Vec<u8>, QrFailure>)
    ensures
        qr_outcome(r) == qr_png(content@),
{
    let code = qrcode::QrCode::new(content.as_bytes())
        .map_err(|e| QrFailure::Payload(e.to_string()))?;
    let image = code.render::<image::Luma<u8>>().build();
    let mut bytes = std::io::Cursor::new(Vec::new());
    image::DynamicImage::ImageLuma8(image)
        .write_to(&mut bytes, image::ImageFormat::Png)
        .map_err(|e| QrFailure::Encoding(e.to_string()))?;
    Ok(bytes.into_inner())
}

/// Whether `c` is a lower case hexadecimal digit.
pub open spec fn is_lower_hex(c: char) -> bool {
    ('0' <= c && c <= '9') || ('a' <= c && c <= 'f')
}

/// Whether `s` is a random UUID in its usual form: lower case hexadecimal digits in groups of 8, 4,
/// 4, 4 and 12, with the version and variant digits of version 4.
pub open spec fn is_uuid_v4(s: Seq<char>) -> bool {
    &&& s.len() == 36
    &&& s[14] == '4'
    &&& (s[19] == '8' || s[19] == '9' || s[19] == 'a' || s[19] == 'b')
    &&& forall|i: int|
        0 <= i < 36 ==> if i == 8 || i == 13 || i == 18 || i == 23 {
            #[trigger] s[i] == '-'
        } else {
            is_lower_hex(s[i])
        }
}

/// `uuid::Uuid::new_v4` in its hyphenated form: a random UUID. Which one it is rests on chance.
#[verifier::external_body]
pub(crate) fn new_uuid() -> (r: String)
    ensures
        is_uuid_v4(r@),
{
    uuid::Uuid::new_v4().to_string()
}

/// `uuid::Uuid::new_v4` in its simple form: 32 lower case hexadecimal digits, the thirteenth a `4`.
/// Which ones they are rests on chance.
#[verifier::external_body]
pub(crate) fn new_simple_uuid() -> (r: String)
    ensures
        r@.len() == 32,
        r@[12] == '4',
        forall|i: int| 0 <= i < 32 ==> is_lower_hex(#[trigger] r@[i]),
{
    uuid::Uuid::new_v4().simple().to_string()
}

/// What chrono's format `%Y-%m-%d %H:%M UTC` makes of a Unix time in seconds; nothing where the
/// time is out of chrono's range.
pub uninterp spec fn utc_minute(secs: i64) -> Option<Seq<char>>;

/// `chrono::DateTime::from_timestamp` and `format`: the text depends on the time alone.
#[verifier::external_body]
pub(crate) fn utc_minute_text(secs: i64) -> (r: Option<String>)
    ensures
        r.deep_view() == utc_minute(secs),
{
    chrono::DateTime::from_timestamp(secs, 0).map(|dt| dt.format("%Y-%m-%d %H:%M UTC").to_string())
}

/// What chrono's format `%Y-%m-%d %H:%M UTC` makes of a Unix time in milliseconds; nothing where
/// the time is out of chrono's range.
pub uninterp spec fn utc_minute_of_millis(millis: i64) -> Option<Seq<char>>;

/// `chrono::DateTime::from_timestamp_millis` and `format`: the text depends on the time alone.
#[verifier::external_body]
pub(crate) fn utc_minute_of_millis_text(millis: i64) -> (r: Option<String>)
    ensures
        r.deep_view() == utc_minute_of_millis(millis),
{
    chrono::DateTime::from_timestamp_millis(millis)
        .map(|dt| dt.format("%Y-%m-%d %H:%M UTC").to_string())
}

/// A JSON value of `serde_json`.
#[verifier::external_type_specification]
#[verifier::external_body]
pub struct ExValue(serde_json::Value);

/// What a `serde_json::Value` holds: a tree of nulls, booleans, numbers, strings, arrays and
/// objects, the entries of an object in the order in which its map is walked.
pub uninterp spec fn value_model(value: serde_json::Value) -> JsonModel;

/// What `serde_json::from_str` reads from a text; where the text is not JSON, the message of the
/// error.
pub uninterp spec fn json_read(text: Seq<char>) -> Result<JsonModel, Seq<char>>;

/// The value that a text stands for; nothing where the text is not JSON.
pub open spec fn json_parsed(text: Seq<char>) -> Option<JsonModel> {
    match json_read(text) {
        Ok(value) => Some(value),
        Err(_) => None,
    }
}

/// What the outcome of a parse holds.
pub open spec fn value_model_of(r: Result<serde_json::Value, String>) -> Result<
    JsonModel,
    Seq<char>,
> {
    match r {
        Ok(value) => Ok(value_model(value)),
        Err(cause) => Err(cause@),
    }
}

/// `serde_json::from_str` into a `Value`: the value, or the message of the error, depends on the
/// text alone.
#[verifier::external_body]
pub(crate) fn json_from_str(text: &str) -> (r: Result<serde_json::Value, String>)
    ensures
        value_model_of(r) == json_read(text@),
{
    serde_json::from_str(text).map_err(|e| e.to_string())
}

/// A `serde_json::Value` taken apart, one variant for each of its own.
pub enum ValueParts {
    Null,
    Bool(bool),
    Number(JsonNumber),
    Str(String),
    Array(Vec<serde_json::Value>),
    Object(Vec<(String, serde_json::Value)>),
}

/// What the parts hold.
pub open spec fn parts_model(parts: ValueParts) -> JsonModel {
    match parts {
        ValueParts::Null => JsonModel::Null,
        ValueParts::Bool(b) => JsonModel::Bool(b),
        ValueParts::Number(n) => JsonModel::Number { signed: n.signed, unsigned: n.unsigned, text: n.text@ },
        ValueParts::Str(s) => JsonModel::Str(s@),
        ValueParts::Array(items) => JsonModel::Array(
            items@.map_values(|v: serde_json::Value| value_model(v)),
        ),
        ValueParts::Object(entries) => JsonModel::Object(
            entries@.map_values(|e: (String, serde_json::Value)| (e.0@, value_model(e.1))),
        ),
    }
}

/// The variants of `serde_json::Value`: a value is exactly one of them, a number is described by
/// `as_i64`, `as_u64` and its text, and an object by the entries of its map in order.
#[verifier::external_body]
pub(crate) fn open_value(value: serde_json::Value) -> (r: ValueParts)
    ensures
        parts_model(r) == value_model(value),
{
    match value {
        serde_json::Value::Null => ValueParts::Null,
        serde_json::Value::Bool(b) => ValueParts::Bool(b),
        serde_json::Value::Number(n) => ValueParts::Number(
            JsonNumber { signed: n.as_i64(), unsigned: n.as_u64(), text: n.to_string() },
        ),
        serde_json::Value::String(s) => ValueParts::Str(s),
        serde_json::Value::Array(items) => ValueParts::Array(items),
        serde_json::Value::Object(map) => ValueParts::Object(map.into_iter().collect()),
    }
}

/// The entries of an object that is to be made.
pub open spec fn value_entries(entries: Seq<(String, serde_json::Value)>) -> Seq<
    (Seq<char>, JsonModel),
> {
    entries.map_values(|e: (String, serde_json::Value)| (e.0@, value_model(e.1)))
}

/// Whether `a` stands before `b` in a dictionary.
pub open spec fn text_lt(a: Seq<char>, b: Seq<char>) -> bool {
    text_le(a, b) && a != b
}

/// Each key stands before the next one.
pub open spec fn keys_ascend(entries: Seq<(Seq<char>, JsonModel)>) -> bool {
    forall|i: int, j: int|
        0 <= i && j == i + 1 && j < entries.len() ==> text_lt(
            (#[trigger] entries[i]).0,
            (#[trigger] entries[j]).0,
        )
}

/// `serde_json::Value::from` on a `bool`.
#[verifier::external_body]
pub(crate) fn value_of_bool(b: bool) -> (r: serde_json::Value)
    ensures
        value_model(r) == JsonModel::Bool(b),
{
    serde_json::Value::from(b)
}

/// `serde_json::Value::from` on an `i64`: that number.
#[verifier::external_body]
pub(crate) fn value_of_i64(n: i64) -> (r: serde_json::Value)
    ensures
        value_model(r) == number_of(n as int),
{
    serde_json::Value::from(n)
}

/// `serde_json::Value::from` on a `u64`: that number.
#[verifier::external_body]
pub(crate) fn value_of_u64(n: u64) -> (r: serde_json::Value)
    ensures
        value_model(r) == number_of(n as int),
{
    serde_json::Value::from(n)
}

/// `serde_json::Value::from` on a string: that string.
#[verifier::external_body]
pub(crate) fn value_of_text(s: &str) -> (r: serde_json::Value)
    ensures
        value_model(r) == JsonModel::Str(s@),
{
    serde_json::Value::from(s)
}

/// `serde_json::Value::from` on a vector of values: the array of them.
#[verifier::external_body]
pub(crate) fn value_of_items(items: Vec<serde_json::Value>) -> (r: serde_json::Value)
    ensures
        value_model(r) == JsonModel::Array(
            items@.map_values(|v: serde_json::Value| value_model(v)),
        ),
{
    serde_json::Value::from(items)
}

/// `serde_json::Value::from_iter` on keys with values: the object of them. Its map is walked in
/// the order of the keys, so that entries whose keys ascend stay as they are; of other entries
/// nothing is said.
#[verifier::external_body]
pub(crate) fn value_of_entries(entries: Vec<(String, serde_json::Value)>) -> (r: serde_json::Value)
    ensures
        keys_ascend(value_entries(entries@)) ==> value_model(r) == JsonModel::Object(
            value_entries(entries@),
        ),
{
    serde_json::Value::from_iter(entries)
}

/// A value as compact JSON: no whitespace, and the entries of an object in order.
pub open spec fn compact_text(value: JsonModel) -> Seq<char>
    decreases value, 0nat,
{
    match value {
        JsonModel::Null => "null"@,
        JsonModel::Bool(b) => if b {
            "true"@
        } else {
            "false"@
        },
        JsonModel::Number { text, .. } => text,
        JsonModel::Str(s) => quoted(s),
        JsonModel::Array(items) => seq!['['] + compact_items(items, items.len()) + seq![']'],
        JsonModel::Object(entries) => seq!['{'] + compact_entries(entries, entries.len())
            + seq!['}'],
    }
}

/// The first `n` items as compact JSON, with commas between them.
pub open spec fn compact_items(items: Seq<JsonModel>, n: nat) -> Seq<char>
    decreases items, n,
{
    if n == 0 || n > items.len() {
        seq![]
    } else if n == 1 {
        compact_text(items[0])
    } else {
        compact_items(items, (n - 1) as nat) + seq![','] + compact_text(items[n - 1])
    }
}

/// The first `n` entries as compact JSON, with commas between them.
pub open spec fn compact_entries(entries: Seq<(Seq<char>, JsonModel)>, n: nat) -> Seq<char>
    decreases entries, n,
{
    if n == 0 || n > entries.len() {
        seq![]
    } else {
        let entry = quoted(entries[n - 1].0) + seq![':'] + compact_text(entries[n - 1].1);
        if n == 1 {
            entry
        } else {
            compact_entries(entries, (n - 1) as nat) + seq![','] + entry
        }
    }
}

/// `serde_json::to_string` on a `Value`: a value can always be written, a number as `Number`
/// displays it.
#[verifier::external_body]
pub(crate) fn value_text(value: &serde_json::Value) -> (r: String)
    ensures
        r@ == compact_text(value_model(*value)),
{
    serde_json::to_string(value).unwrap_or_default()
}

/// A character as it stands in a JSON string.
pub open spec fn json_char(c: char) -> Seq<char> {
    if c == '"' || c == '\\' {
        seq!['\\', c]
    } else if c == '\n' {
        seq!['\\', 'n']
    } else if c == '\r' {
        seq!['\\', 'r']
    } else if c == '\t' {
        seq!['\\', 't']
    } else if c as u32 == 8 {
        seq!['\\', 'b']
    } else if c as u32 == 12 {
        seq!['\\', 'f']
    } else if (c as u32) < 32 {
        seq!['\\', 'u', '0', '0', lower_hex_digit(c as int / 16), lower_hex_digit(c as int % 16)]
    } else {
        seq![c]
    }
}

/// The lower case hexadecimal digit for a value below 16.
pub open spec fn lower_hex_digit(d: int) -> char {
    if d < 10 {
        (48 + d) as char
    } else {
        (87 + d) as char
    }
}

/// Characters as they stand in a JSON string.
pub open spec fn json_chars(s: Seq<char>) -> Seq<char>
    decreases s.len(),
{
    if s.len() == 0 {
        seq![]
    } else {
        json_chars(s.drop_last()) + json_char(s.last())
    }
}

/// A string as it stands in JSON.
pub open spec fn quoted(s: Seq<char>) -> Seq<char> {
    seq!['"'] + json_chars(s) + seq!['"']
}

/// `serde_json::to_string` on a string: quotes around the characters, with quotes, backslashes and
/// control characters escaped and everything else as it is.
#[verifier::external_body]
pub(crate) fn json_string_text(s: &str) -> (r: String)
    ensures
        r@ == quoted(s@),
{
    serde_json::to_string(s).unwrap_or_default()
}

/// The host that `url::Url::parse` finds in a string; nothing where the string is no URL or has no
/// host.
pub uninterp spec fn url_host(s: Seq<char>) -> Option<Seq<char>>;

/// `url::Url::parse` and `host_str`: the host depends on the string alone.
#[verifier::external_body]
pub(crate) fn url_host_text(s: &str) -> (r: Option<String>)
    ensures
        r.deep_view() == url_host(s@),
{
    url::Url::parse(s).ok().and_then(|u| u.host_str().map(str::to_string))
}

/// What `url::Url` makes of a string; nothing where the string is no URL.
pub uninterp spec fn url_normal(s: Seq<char>) -> Option<Seq<char>>;

/// `url::Url::parse` and `to_string`: the text depends on the string alone.
#[verifier::external_body]
pub(crate) fn url_normal_text(s: &str) -> (r: Option<String>)
    ensures
        r.deep_view() == url_normal(s@),
{
    url::Url::parse(s).ok().map(|u| u.to_string())
}

/// The bytes that a byte takes in a query: one where it stands for itself or is a space, and three
/// in percent-encoding.
pub open spec fn form_byte_len(b: u8) -> nat {
    if b == 32 || b == 42 || b == 45 || b == 46 || 48 <= b <= 57 || 65 <= b <= 90 || b == 95 || 97
        <= b <= 122 {
        1
    } else {
        3
    }
}

/// The bytes that a text takes in a query.
pub open spec fn form_len(bytes: Seq<u8>) -> nat
    decreases bytes.len(),
{
    if bytes.len() == 0 {
        0
    } else {
        form_len(bytes.drop_last()) + form_byte_len(bytes.last())
    }
}

/// The bytes that pairs take in a query, each with a sign between name and value and one before it.
pub open spec fn pairs_len(pairs: Seq<(Seq<char>, Seq<char>)>) -> nat
    decreases pairs.len(),
{
    if pairs.len() == 0 {
        0
    } else {
        pairs_len(pairs.drop_last()) + form_len(encode_utf8(pairs.last().0)) + form_len(
            encode_utf8(pairs.last().1),
        ) + 2
    }
}

/// A URL without its fragment.
pub open spec fn without_fragment(url: Seq<char>) -> Seq<char> {
    url.take(find_char(url, '#') as int)
}

/// Where the query of a URL ends, in bytes, once pairs are appended to it. Each pair comes with a
/// sign before it, but for the first one after a question mark that is there already.
pub open spec fn query_end(url: Seq<char>, pairs: Seq<(Seq<char>, Seq<char>)>) -> int {
    let head = without_fragment(url);
    byte_len(head) + pairs_len(pairs) - if find_char(head, '?') + 1 == head.len() {
        1int
    } else {
        0
    }
}

/// There are pairs, and the query with them ends where the 32 bits of a position can say it.
pub open spec fn can_be_built(base: Seq<char>, pairs: Seq<(Seq<char>, Seq<char>)>) -> bool {
    &&& pairs.len() > 0
    &&& url_normal(base) matches Some(url) ==> query_end(url, pairs) <= u32::MAX
}

/// What `url::Url` makes of a base with the given query pairs appended and the given fragment set;
/// nothing where the base is no URL.
pub uninterp spec fn url_built(
    base: Seq<char>,
    pairs: Seq<(Seq<char>, Seq<char>)>,
    fragment: Seq<char>,
) -> Option<Seq<char>>;

/// `url::Url::parse`, `query_pairs_mut().append_pair` for each pair, `set_fragment` and
/// `to_string`: the text depends on the base, the pairs and the fragment alone. A `Url` keeps the
/// positions at which its query and its fragment start in 32 bits and panics beyond them; the
/// fragment starts where the query ends, and how long it is does not matter.
#[verifier::external_body]
pub(crate) fn url_build(base: &str, pairs: &Vec<(String, String)>, fragment: &str) -> (r: Option<
    String,
>)
    requires
        can_be_built(base@, pairs.deep_view()),
    ensures
        r.deep_view() == url_built(base@, pairs.deep_view(), fragment@),
{
    let mut url = url::Url::parse(base).ok()?;
    url.query_pairs_mut().extend_pairs(pairs);
    url.set_fragment(Some(fragment));
    Some(url.to_string())
}

/// Why `str::parse` takes a text for no `u64`, in the words of its error; nothing where it is one.
pub uninterp spec fn u64_refusal(s: Seq<char>) -> Option<Seq<char>>;

/// `str::parse` into a `u64`: an optional plus sign and decimal digits, within the range, are
/// taken; the message of the error for anything else depends on the text alone.
#[verifier::external_body]
pub(crate) fn u64_refusal_text(s: &str) -> (r: Option<String>)
    ensures
        r.deep_view() == u64_refusal(s@),
        r is Some <==> read_u64(s@) is None,
{
    s.parse::<u64>().err().map(|e| e.to_string())
}

/// Why `str::parse` takes a text for no `i64`, in the words of its error; nothing where it is one.
pub uninterp spec fn i64_refusal(s: Seq<char>) -> Option<Seq<char>>;

/// `str::parse` into an `i64`: an optional sign and decimal digits, within the range, are taken;
/// the message of the error for anything else depends on the text alone.
#[verifier::external_body]
pub(crate) fn i64_refusal_text(s: &str) -> (r: Option<String>)
    ensures
        r.deep_view() == i64_refusal(s@),
        r is Some <==> read_i64(s@) is None,
{
    s.parse::<i64>().err().map(|e| e.to_string())
}

} // verus!
