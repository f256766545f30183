//! Header fields of the `http` crate, and the decoders of `base64`, `percent-encoding`,
//! `rustls-pemfile` and `sfv`.
//!
//! What is stated here of those crates, of `String::from_utf8` and of `io::Error::kind`, is
//! taken on trust; everything else in the library is proved from it.

use crate::buffer;
use crate::error::IoErrorKind;
use base64::Engine;
use http::{HeaderMap, HeaderValue};
use rustls::pki_types::PrivateKeyDer;
use sfv::{BareItem, Item, Parser};
use std::io::{Error, ErrorKind};
use vstd::prelude::*;
use vstd::utf8::*;

verus! {

#[verifier::external_type_specification]
#[verifier::external_body]
#[verifier::reject_recursive_types(T)]
pub struct ExHeaderMap<T>(http::HeaderMap<T>);

#[verifier::external_type_specification]
#[verifier::external_body]
pub struct ExHeaderValue(http::HeaderValue);

#[verifier::external_type_specification]
#[verifier::external_body]
pub struct ExIoError(std::io::Error);

/// The kind of a `std::io::Error`, as far as kinds are told apart. An error that holds a code
/// of the operating system has the kind that the standard library gives to that code on the
/// platform that the program is built for.
pub uninterp spec fn io_error_kind(error: std::io::Error) -> IoErrorKind;

/// The fields that an `http::HeaderMap` holds: under each name that occurs, in lower case, the
/// values in the order in which they were added.
pub uninterp spec fn header_map_content(map: http::HeaderMap<http::HeaderValue>) -> Map<
    Seq<char>,
    Seq<Seq<u8>>,
>;

/// The bytes of an `http::HeaderValue`.
pub uninterp spec fn header_value_content(value: http::HeaderValue) -> Seq<u8>;

/// What `base64` decodes `text` to under the standard alphabet with padding, if anything.
pub uninterp spec fn base64_decoded(text: Seq<char>) -> Option<Seq<u8>>;

/// What the structured field item `text` holds, parameters aside, if `sfv` takes it for one.
pub uninterp spec fn structured_item(text: Seq<char>) -> Option<ItemValue>;

/// The certificates in the PEM text `pem`, in order, if `rustls-pemfile` can read it.
pub uninterp spec fn pem_certificates(pem: Seq<u8>) -> Option<Seq<Seq<u8>>>;

/// The first private key in the PEM text `pem`, if there is one, if `rustls-pemfile` can read
/// the text as far as that.
pub uninterp spec fn pem_private_key(pem: Seq<u8>) -> Option<Option<(KeyFormat, Seq<u8>)>>;

/// The format of a private key.
#[derive(Clone, Copy, Debug, PartialEq, Eq, Structural)]
pub enum KeyFormat {
    Pkcs1,
    Sec1,
    Pkcs8,
}

/// A private key in one of the formats.
pub struct PrivateKey {
    pub format: KeyFormat,
    pub der: Vec<u8>,
}

impl View for PrivateKey {
    type V = (KeyFormat, Seq<u8>);

    open spec fn view(&self) -> (KeyFormat, Seq<u8>) {
        (self.format, self.der@)
    }
}

/// The value of a structured field item, as far as it is looked at.
#[derive(Clone, Copy, Debug, PartialEq, Eq, Structural)]
pub enum ItemValue {
    Decimal,
    Integer,
    String,
    ByteSequence,
    Boolean(bool),
    Token,
    Date,
    DisplayString,
}

/// Whether `name` is a field name in the form in which names are kept.
pub open spec fn is_field_name(name: Seq<char>) -> bool {
    &&& name.len() > 0
    &&& forall|i: int| 0 <= i < name.len() ==> ('a' <= #[trigger] name[i] <= 'z' || name[i] == '-')
}

/// Whether `byte` is a tab or a visible ASCII character.
pub open spec fn is_visible(byte: u8) -> bool {
    32 <= byte < 127 || byte == 9
}

/// The text of a field value, if it is all visible ASCII.
pub open spec fn visible_text(value: Seq<u8>) -> Option<Seq<char>> {
    if forall|i: int| 0 <= i < value.len() ==> is_visible(#[trigger] value[i]) {
        Some(Seq::new(value.len(), |i: int| value[i] as char))
    } else {
        None
    }
}

/// The value of a hexadecimal digit.
pub open spec fn hex_value(byte: u8) -> Option<int> {
    if 0x30 <= byte <= 0x39 {
        Some(byte - 0x30)
    } else if 0x41 <= byte <= 0x46 {
        Some(byte - 0x41 + 10)
    } else if 0x61 <= byte <= 0x66 {
        Some(byte - 0x61 + 10)
    } else {
        None
    }
}

/// `bytes` with every `%` and two hexadecimal digits replaced by the byte that they spell.
pub open spec fn percent_decoded(bytes: Seq<u8>) -> Seq<u8>
    decreases bytes.len(),
{
    if bytes.len() == 0 {
        bytes
    } else if bytes.len() >= 3 && bytes[0] == 0x25 && hex_value(bytes[1]) is Some && hex_value(
        bytes[2],
    ) is Some {
        seq![(hex_value(bytes[1])->Some_0 * 16 + hex_value(bytes[2])->Some_0) as u8]
            + percent_decoded(bytes.skip(3))
    } else {
        seq![bytes[0]] + percent_decoded(bytes.skip(1))
    }
}

/// The text that `bytes` encode in UTF-8, if they encode any.
pub open spec fn utf8_text(bytes: Seq<u8>) -> Option<Seq<char>> {
    if valid_utf8(bytes) {
        Some(decode_utf8(bytes))
    } else {
        None
    }
}

/// Access to the view of an optional text.
pub open spec fn text_view(text: Option<String>) -> Option<Seq<char>> {
    match text {
        None => None,
        Some(text) => Some(text@),
    }
}

/// `HeaderMap::contains_key` tells whether the map has a value under the name.
#[verifier::external_body]
pub(crate) fn has_field(map: &HeaderMap<HeaderValue>, name: &str) -> (res: bool)
    requires
        is_field_name(name@),
    ensures
        res == header_map_content(*map).contains_key(name@),
{
    map.contains_key(name)
}

/// `HeaderMap::get` returns the first value under the name, if there is one.
#[verifier::external_body]
pub(crate) fn first_value<'a>(map: &'a HeaderMap<HeaderValue>, name: &str) -> (res: Option<
    &'a HeaderValue,
>)
    requires
        is_field_name(name@),
    ensures
        res is Some <==> header_map_content(*map).contains_key(name@),
        res matches Some(value) ==> header_map_content(*map)[name@].len() > 0
            && header_value_content(*value) == header_map_content(*map)[name@][0],
{
    map.get(name)
}

/// `HeaderMap::get_all` iterates over the values under the name; none if there are none.
#[verifier::external_body]
pub(crate) fn all_values<'a>(map: &'a HeaderMap<HeaderValue>, name: &str) -> (res: Vec<
    &'a HeaderValue,
>)
    requires
        is_field_name(name@),
    ensures
        res@.len() > 0 <==> header_map_content(*map).contains_key(name@),
        res@.len() > 0 ==> header_map_content(*map)[name@] == Seq::new(
            res@.len(),
            |i: int| header_value_content(*res@[i]),
        ),
{
    map.get_all(name).iter().collect()
}

/// `HeaderValue::to_str` gives the value as text if it is all visible ASCII, and fails
/// otherwise.
#[verifier::external_body]
pub(crate) fn value_text(value: &HeaderValue) -> (res: Option<&str>)
    ensures
        res is Some <==> visible_text(header_value_content(*value)) is Some,
        res matches Some(text) ==> visible_text(header_value_content(*value)) == Some(text@),
{
    value.to_str().ok()
}

/// `Engine::decode` of the standard base64 engine.
#[verifier::external_body]
pub(crate) fn decode_base64(text: &str) -> (res: Option<Vec<u8>>)
    ensures
        res is Some <==> base64_decoded(text@) is Some,
        res matches Some(bytes) ==> base64_decoded(text@) == Some(bytes@),
{
    base64::engine::general_purpose::STANDARD.decode(text).ok()
}

/// `Parser::parse` for an item.
#[verifier::external_body]
pub(crate) fn parse_item(text: &str) -> (res: Option<ItemValue>)
    ensures
        res == structured_item(text@),
{
    match Parser::new(text).parse::<Item>().ok()?.bare_item {
        BareItem::Decimal(_) => Some(ItemValue::Decimal),
        BareItem::Integer(_) => Some(ItemValue::Integer),
        BareItem::String(_) => Some(ItemValue::String),
        BareItem::ByteSequence(_) => Some(ItemValue::ByteSequence),
        BareItem::Boolean(value) => Some(ItemValue::Boolean(value)),
        BareItem::Token(_) => Some(ItemValue::Token),
        BareItem::Date(_) => Some(ItemValue::Date),
        BareItem::DisplayString(_) => Some(ItemValue::DisplayString),
    }
}

/// `percent_decode_str` replaces every `%` and two hexadecimal digits by the byte that they
/// spell, and `PercentDecode::decode_utf8` takes the outcome as UTF-8 or fails.
#[verifier::external_body]
pub(crate) fn decode_percent(text: &str) -> (res: Option<String>)
    ensures
        text_view(res) == utf8_text(percent_decoded(encode_utf8(text@))),
{
    let decoded = percent_encoding::percent_decode_str(text).decode_utf8().ok()?;
    Some(decoded.into_owned())
}

/// `String::from_utf8` takes the bytes as UTF-8 or fails.
#[verifier::external_body]
pub(crate) fn string_from_utf8(bytes: Vec<u8>) -> (res: Option<String>)
    ensures
        text_view(res) == utf8_text(bytes@),
{
    String::from_utf8(bytes).ok()
}

/// `io::Error::kind` returns the kind of the error.
#[verifier::external_body]
pub(crate) fn error_kind(error: &Error) -> (res: IoErrorKind)
    ensures
        res == io_error_kind(*error),
{
    match error.kind() {
        ErrorKind::AddrNotAvailable => IoErrorKind::AddrNotAvailable,
        ErrorKind::HostUnreachable => IoErrorKind::HostUnreachable,
        ErrorKind::NetworkUnreachable => IoErrorKind::NetworkUnreachable,
        ErrorKind::ConnectionRefused => IoErrorKind::ConnectionRefused,
        ErrorKind::TimedOut => IoErrorKind::TimedOut,
        ErrorKind::InvalidData => IoErrorKind::InvalidData,
        ErrorKind::InvalidInput => IoErrorKind::InvalidInput,
        ErrorKind::UnexpectedEof => IoErrorKind::UnexpectedEof,
        _ => IoErrorKind::Other,
    }
}

/// `rustls_pemfile::certs` reads the certificates of a PEM text, or fails. Reading from memory
/// does not fail, so that every failure is one of the text, which has the kind `InvalidData`.
#[verifier::external_body]
pub(crate) fn read_certificates(pem: &[u8]) -> (res: Result<Vec<Vec<u8>>, Error>)
    ensures
        res is Ok <==> pem_certificates(pem@) is Some,
        res matches Ok(list) ==> pem_certificates(pem@) == Some(buffer::byte_strings(list@)),
        res matches Err(error) ==> io_error_kind(error) == IoErrorKind::InvalidData,
{
    let mut reader = pem;
    let found: Vec<_> = rustls_pemfile::certs(&mut reader).collect::<Result<_, _>>()?;
    Ok(found.iter().map(|certificate| certificate.to_vec()).collect())
}

/// `rustls_pemfile::private_key` reads the first private key of a PEM text, or fails. Reading
/// from memory does not fail, so that every failure is one of the text, which has the kind
/// `InvalidData`.
#[verifier::external_body]
pub(crate) fn read_private_key(pem: &[u8]) -> (res: Result<Option<PrivateKey>, Error>)
    ensures
        res is Ok <==> pem_private_key(pem@) is Some,
        res matches Ok(None) ==> pem_private_key(pem@) == Some(None::<(KeyFormat, Seq<u8>)>),
        res matches Ok(Some(key)) ==> pem_private_key(pem@) == Some(Some(key@)),
        res matches Err(error) ==> io_error_kind(error) == IoErrorKind::InvalidData,
{
    let mut reader = pem;
    let key = match rustls_pemfile::private_key(&mut reader)? {
        None => return Ok(None),
        Some(key) => key,
    };
    let der = key.secret_der().to_vec();
    Ok(Some(PrivateKey { format: match key {
        PrivateKeyDer::Pkcs1(_) => KeyFormat::Pkcs1,
        PrivateKeyDer::Sec1(_) => KeyFormat::Sec1,
        PrivateKeyDer::Pkcs8(_) => KeyFormat::Pkcs8,
        _ => return Err(Error::from(ErrorKind::InvalidData)),
    }, der }))
}

/// Text in the bytes that HTTP gives it, a byte for each character.
pub open spec fn plain_bytes(text: Seq<char>) -> Seq<u8> {
    Seq::new(text.len(), |i: int| text[i] as u8)
}

/// Whether a text is all printable ASCII.
pub open spec fn is_plain(text: Seq<char>) -> bool {
    forall|i: int| 0 <= i < text.len() ==> ' ' <= (#[trigger] text[i]) <= '~'
}

/// A value is read as the text that was written to it, character for character.
pub proof fn values_are_read_as_written(text: Seq<char>)
    requires
        is_plain(text),
    ensures
        visible_text(plain_bytes(text)) == Some(text),
{
    let bytes = plain_bytes(text);
    assert forall|i: int| 0 <= i < bytes.len() implies is_visible(#[trigger] bytes[i]) by {
        assert(' ' <= text[i] <= '~');
    }
    let read = Seq::new(bytes.len(), |i: int| bytes[i] as char);
    assert forall|i: int| 0 <= i < text.len() implies read[i] == text[i] by {
        assert(' ' <= text[i] <= '~');
    }
    assert(read =~= text);
}

/// The text of a value has the value's bytes for its characters, and all of them are tabs or
/// printable ASCII; a value with any other byte has no text.
pub proof fn values_have_their_characters(value: Seq<u8>)
    ensures
        visible_text(value) is Some <==> forall|i: int|
            0 <= i < value.len() ==> (#[trigger] value[i] == 9 || 32 <= value[i] <= 126),
        visible_text(value) matches Some(text) ==> text.len() == value.len() && forall|i: int|
            0 <= i < value.len() ==> (#[trigger] text[i]) as u32 == value[i],
{
    assert forall|i: int| 0 <= i < value.len() implies is_visible(#[trigger] value[i]) == (value[i]
        == 9 || 32 <= value[i] <= 126) by {}
}

/// UTF-8 is read back as it was written, and nothing else is read.
pub proof fn utf8_is_read_as_written(text: Seq<char>, bytes: Seq<u8>)
    ensures
        utf8_text(encode_utf8(text)) == Some(text),
        utf8_text(bytes) matches Some(read) ==> bytes == encode_utf8(read),
{
    encode_utf8_valid_utf8(text);
    encode_utf8_decode_utf8(text);
    if valid_utf8(bytes) {
        decode_utf8_encode_utf8(bytes);
    }
}

/// The hexadecimal digits in upper case, by their value.
pub open spec fn upper_digits() -> Seq<u8> {
    seq![
        0x30u8,
        0x31u8,
        0x32u8,
        0x33u8,
        0x34u8,
        0x35u8,
        0x36u8,
        0x37u8,
        0x38u8,
        0x39u8,
        0x41u8,
        0x42u8,
        0x43u8,
        0x44u8,
        0x45u8,
        0x46u8,
    ]
}

/// The hexadecimal digits in lower case, by their value.
pub open spec fn lower_digits() -> Seq<u8> {
    seq![
        0x30u8,
        0x31u8,
        0x32u8,
        0x33u8,
        0x34u8,
        0x35u8,
        0x36u8,
        0x37u8,
        0x38u8,
        0x39u8,
        0x61u8,
        0x62u8,
        0x63u8,
        0x64u8,
        0x65u8,
        0x66u8,
    ]
}

/// A percent sign and the two hexadecimal digits of a byte, in either case, become that byte,
/// whatever follows.
pub proof fn escapes_are_decoded(high: int, low: int, upper: bool, lower: bool, rest: Seq<u8>)
    requires
        0 <= high < 16,
        0 <= low < 16,
    ensures
        ({
            let first = if upper {
                upper_digits()[high]
            } else {
                lower_digits()[high]
            };
            let second = if lower {
                lower_digits()[low]
            } else {
                upper_digits()[low]
            };
            percent_decoded(seq![0x25u8, first, second] + rest) == seq![(16 * high + low) as u8]
                + percent_decoded(rest)
        }),
{
    let first = if upper {
        upper_digits()[high]
    } else {
        lower_digits()[high]
    };
    let second = if lower {
        lower_digits()[low]
    } else {
        upper_digits()[low]
    };
    let whole = seq![0x25u8, first, second] + rest;
    assert(hex_value(first) == Some(high));
    assert(hex_value(second) == Some(low));
    assert(whole[0] == 0x25 && whole[1] == first && whole[2] == second);
    assert(whole.skip(3) =~= rest);
}

/// Every byte that does not start an escape stays as it is.
pub proof fn other_bytes_stay(byte: u8, rest: Seq<u8>)
    requires
        byte != 0x25 || rest.len() < 2 || !(upper_digits() + lower_digits()).contains(rest[0])
            || !(upper_digits() + lower_digits()).contains(rest[1]),
    ensures
        percent_decoded(Seq::empty()) == Seq::<u8>::empty(),
        percent_decoded(seq![byte] + rest) == seq![byte] + percent_decoded(rest),
{
    let whole = seq![byte] + rest;
    assert(whole.skip(1) =~= rest);
    if whole.len() >= 3 {
        assert(whole[1] == rest[0] && whole[2] == rest[1]);
        lemma_hexadecimal(rest[0]);
        lemma_hexadecimal(rest[1]);
    }
}

proof fn lemma_hexadecimal(byte: u8)
    ensures
        hex_value(byte) is Some ==> (upper_digits() + lower_digits()).contains(byte),
{
    let all = upper_digits() + lower_digits();
    if let Some(value) = hex_value(byte) {
        assert(all[value] == byte || all[value + 16] == byte);
    }
}

/// A key is its format and its bytes.
pub proof fn keys_are_their_format_and_bytes(key: PrivateKey)
    ensures
        key@.0 == key.format,
        key@.1 == key.der@,
{
}

} // verus!
