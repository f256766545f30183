//! Requests for a tunnel: extended CONNECT with the `connect-udp` protocol.

use crate::outside::{all_values, decode_percent, has_field, parse_item, value_text, ItemValue};
use crate::text::{contains_char, parse_u16, rsplit_once, same_text, strip_prefix, strip_suffix};
use crate::{outside, text};
use http::{HeaderMap, HeaderValue};
use vstd::prelude::*;
use vstd::utf8::*;

verus! {

/// The head of an HTTP request, with its target taken apart.
pub struct RequestHead {
    pub method: String,
    /// The `:protocol` of an extended CONNECT request.
    pub protocol: Option<String>,
    pub scheme: Option<String>,
    pub authority: Option<String>,
    pub path: String,
    pub query: Option<String>,
    pub headers: HeaderMap<HeaderValue>,
}

/// Whether an optional text is there and is `expected`.
pub open spec fn is_text(text: Option<String>, expected: Seq<char>) -> bool {
    text matches Some(text) && text@ == expected
}

/// The item that the one `capsule-protocol` field holds; none unless there is exactly one
/// such field and it holds an item.
pub open spec fn capsule_protocol_item(fields: Map<Seq<char>, Seq<Seq<u8>>>) -> Option<ItemValue> {
    let name = "capsule-protocol"@;
    if fields.contains_key(name) && fields[name].len() == 1 {
        match outside::visible_text(fields[name][0]) {
            None => None,
            Some(text) => outside::structured_item(text),
        }
    } else {
        None
    }
}

/// Whether the fields offer the capsule protocol.
pub open spec fn offers_capsules(fields: Map<Seq<char>, Seq<Seq<u8>>>) -> bool {
    capsule_protocol_item(fields) == Some(ItemValue::Boolean(true))
}

/// Whether the fields announce content.
pub open spec fn announces_content(fields: Map<Seq<char>, Seq<Seq<u8>>>) -> bool {
    ||| fields.contains_key("content-length"@)
    ||| fields.contains_key("content-type"@)
    ||| fields.contains_key("transfer-encoding"@)
}

/// The host and port that a path of the form `/.well-known/masque/udp/{host}/{port}/` names.
pub open spec fn path_target(path: Seq<char>) -> Option<(Seq<char>, u16)> {
    match text::after_prefix(path, "/.well-known/masque/udp/"@) {
        None => None,
        Some(rest) => match text::before_last(rest, '/') {
            None => None,
            Some(target) => match text::split_at_last(target, '/') {
                None => None,
                Some((host, port)) => match (
                    outside::utf8_text(outside::percent_decoded(encode_utf8(host))),
                    text::decimal_u16(port),
                ) {
                    (Some(host), Some(port)) => if host.len() > 0 && port != 0 && !host.contains(
                        '%',
                    ) {
                        Some((host, port))
                    } else {
                        None
                    },
                    _ => None,
                },
            },
        },
    }
}

impl RequestHead {
    /// The fields of the request.
    pub open spec fn fields(&self) -> Map<Seq<char>, Seq<Seq<u8>>> {
        outside::header_map_content(self.headers)
    }

    /// Whether this is an extended CONNECT for UDP over HTTPS, fields aside.
    pub open spec fn is_connect_udp(&self) -> bool {
        &&& self.method@ == "CONNECT"@
        &&& is_text(self.protocol, "connect-udp"@)
        &&& is_text(self.scheme, "https"@)
        &&& self.authority is Some
        &&& self.query is None
    }

    /// The target of the tunnel that is asked for, where the fields announce content or not
    /// and offer the capsule protocol or not.
    pub open spec fn target_given(&self, content: bool, capsules: bool) -> Option<
        (Seq<char>, u16),
    > {
        if self.is_connect_udp() && !content && capsules {
            path_target(self.path@)
        } else {
            None
        }
    }

    /// The target of the tunnel that is asked for.
    pub open spec fn target(&self) -> Option<(Seq<char>, u16)> {
        self.target_given(announces_content(self.fields()), offers_capsules(self.fields()))
    }
}

/// The view of a host and port.
pub open spec fn target_view(target: Option<(String, u16)>) -> Option<(Seq<char>, u16)> {
    match target {
        None => None,
        Some((host, port)) => Some((host@, port)),
    }
}

/// Whether an item is the boolean true.
pub fn is_true(item: Option<ItemValue>) -> (res: bool)
    ensures
        res == (item == Some(ItemValue::Boolean(true))),
{
    match item {
        Some(ItemValue::Boolean(value)) => value,
        _ => false,
    }
}

/// Whether the request offers the capsule protocol.
pub fn uses_capsule_protocol(request: &RequestHead) -> (res: bool)
    ensures
        res == offers_capsules(request.fields()),
{
    proof {
        reveal_strlit("capsule-protocol");
    }
    let values = all_values(&request.headers, "capsule-protocol");
    if values.len() != 1 {
        return false;
    }
    match value_text(values[0]) {
        None => false,
        Some(text) => is_true(parse_item(text)),
    }
}

/// Whether the fields announce content.
fn has_content(headers: &HeaderMap<HeaderValue>) -> (res: bool)
    ensures
        res == announces_content(outside::header_map_content(*headers)),
{
    proof {
        reveal_strlit("content-length");
        reveal_strlit("content-type");
        reveal_strlit("transfer-encoding");
    }
    has_field(headers, "content-length") || has_field(headers, "content-type") || has_field(
        headers,
        "transfer-encoding",
    )
}

/// Whether an optional text is there and is `expected`.
fn equals(text: &Option<String>, expected: &str) -> (res: bool)
    ensures
        res == is_text(*text, expected@),
{
    match text {
        None => false,
        Some(text) => same_text(text.as_str(), expected),
    }
}

/// The host and port that a path names.
fn parse_path(path: &str) -> (res: Option<(String, u16)>)
    ensures
        target_view(res) == path_target(path@),
{
    let rest = match strip_prefix(path, "/.well-known/masque/udp/") {
        None => {
            return None;
        },
        Some(rest) => rest,
    };
    let target = match strip_suffix(rest, '/') {
        None => {
            return None;
        },
        Some(target) => target,
    };
    let (host, port) = match rsplit_once(target, '/') {
        None => {
            return None;
        },
        Some(parts) => parts,
    };
    let host = match decode_percent(host) {
        None => {
            return None;
        },
        Some(host) => host,
    };
    let port: u16 = match parse_u16(port) {
        None => {
            return None;
        },
        Some(port) => port,
    };
    if host.as_str().is_empty() || port == 0 || contains_char(host.as_str(), '%') {
        return None;
    }
    Some((host, port))
}

/// The target of the tunnel that a request asks for, where its fields announce content or not
/// and offer the capsule protocol or not.
pub fn connect_udp_target(request: &RequestHead, content: bool, capsules: bool) -> (res: Option<
    (String, u16),
>)
    ensures
        target_view(res) == request.target_given(content, capsules),
{
    if !same_text(request.method.as_str(), "CONNECT") || !equals(&request.protocol, "connect-udp")
        || !equals(&request.scheme, "https") || request.authority.is_none()
        || request.query.is_some() || content || !capsules {
        return None;
    }
    parse_path(request.path.as_str())
}

/// The target of the tunnel that a request asks for; none if it is not a proper request for
/// one.
pub fn requested_target(request: &RequestHead) -> (res: Option<(String, u16)>)
    ensures
        target_view(res) == request.target(),
{
    connect_udp_target(request, has_content(&request.headers), uses_capsule_protocol(request))
}

/// A tunnel is only ever opened for a request that asks for one properly, to a host that has
/// a name and a port that is not zero.
pub proof fn accepted_requests_are_proper(request: RequestHead)
    requires
        request.target() is Some,
    ensures
        request.is_connect_udp(),
        !announces_content(request.fields()),
        offers_capsules(request.fields()),
        request.target()->Some_0.0.len() > 0,
        !request.target()->Some_0.0.contains('%'),
        request.target()->Some_0.1 != 0,
{
}

/// The path for a host and a port, as they stand.
pub open spec fn well_known_path(host: Seq<char>, port: Seq<char>) -> Seq<char> {
    "/.well-known/masque/udp/"@ + host + seq!['/'] + port + seq!['/']
}

/// A path that spells out a host without escapes and a port other than zero names that host
/// and that port.
pub proof fn plain_path_names_its_target(host: Seq<char>, port: Seq<char>)
    requires
        host.len() > 0,
        !host.contains('%'),
        text::decimal_u16(port) is Some,
        text::decimal_u16(port) != Some(0u16),
    ensures
        path_target(well_known_path(host, port)) == Some(
            (host, text::decimal_u16(port)->Some_0),
        ),
{
    let prefix = "/.well-known/masque/udp/"@;
    let path = well_known_path(host, port);
    let target = host + seq!['/'] + port;
    assert(path =~= prefix + (target + seq!['/']));
    assert(prefix.is_prefix_of(path));
    assert(path.skip(prefix.len() as int) =~= target + seq!['/']);
    assert((target + seq!['/']).drop_last() =~= target);
    assert forall|i: int| host.len() < i < target.len() implies target[i] != '/' by {
        let digits = if port[0] == '+' {
            port.drop_first()
        } else {
            port
        };
        let at = i - host.len() - 1;
        assert(target[i] == port[at]);
        if port[0] == '+' {
            if at > 0 {
                assert(text::is_digit(digits[at - 1]));
            }
        } else {
            assert(text::is_digit(digits[at]));
        }
    }
    text::lemma_split_at_last(target, '/', host.len() as int);
    assert(target.take(host.len() as int) =~= host);
    assert(target.skip(host.len() as int + 1) =~= port);
    lemma_no_escape(host);
    encode_utf8_valid_utf8(host);
    encode_utf8_decode_utf8(host);
}

/// Text without `%` percent-decodes to itself.
proof fn lemma_no_escape(text: Seq<char>)
    requires
        !text.contains('%'),
    ensures
        outside::percent_decoded(encode_utf8(text)) == encode_utf8(text),
{
    lemma_no_percent_byte(text);
    lemma_decodes_to_itself(encode_utf8(text));
}

proof fn lemma_no_percent_byte(text: Seq<char>)
    requires
        !text.contains('%'),
    ensures
        !encode_utf8(text).contains(0x25),
    decreases text.len(),
{
    if text.len() > 0 {
        let rest = text.drop_first();
        assert forall|i: int| 0 <= i < rest.len() implies rest[i] != '%' by {
            assert(rest[i] == text[i + 1]);
        }
        lemma_no_percent_byte(rest);
        assert(text.contains(text[0]));
        let c: u32 = text[0] as u32;
        assert('%' as u32 == 0x25);
        char_u32_cast(text[0], c);
        char_u32_cast('%', 0x25);
        assert(c != 0x25);
        assert((c <= 0x7f ==> (c & 0x7f) as u8 != 0x25u8) && 0xC0u8 | ((c >> 6) & 0x1F) as u8
            != 0x25u8 && 0xE0u8 | ((c >> 12) & 0x0F) as u8 != 0x25u8 && 0xF0u8 | ((c >> 18) & 0x7)
            as u8 != 0x25u8 && 0x80u8 | (c & 0x3F) as u8 != 0x25u8 && 0x80u8 | ((c >> 6) & 0x3F)
            as u8 != 0x25u8 && 0x80u8 | ((c >> 12) & 0x3F) as u8 != 0x25u8) by (bit_vector)
            requires
                c != 0x25,
        ;
        assert(!encode_scalar(c).contains(0x25));
        assert forall|i: int| 0 <= i < encode_utf8(text).len() implies encode_utf8(text)[i]
            != 0x25 by {
            let first = encode_scalar(c);
            if i < first.len() {
                assert(first.contains(first[i]));
            } else {
                assert(encode_utf8(rest).contains(encode_utf8(rest)[i - first.len()]));
            }
        }
    }
}

proof fn lemma_decodes_to_itself(bytes: Seq<u8>)
    requires
        !bytes.contains(0x25),
    ensures
        outside::percent_decoded(bytes) == bytes,
    decreases bytes.len(),
{
    if bytes.len() > 0 {
        assert(bytes.contains(bytes[0]));
        let rest = bytes.skip(1);
        assert forall|i: int| 0 <= i < rest.len() implies rest[i] != 0x25 by {
            assert(bytes.contains(bytes[i + 1]));
        }
        lemma_decodes_to_itself(rest);
        assert(seq![bytes[0]] + rest =~= bytes);
    }
}

/// Whether the one `capsule-protocol` field of the fields is this text.
pub open spec fn has_one_capsule_field(
    fields: Map<Seq<char>, Seq<Seq<u8>>>,
    value: Seq<char>,
) -> bool {
    &&& fields.contains_key("capsule-protocol"@)
    &&& fields["capsule-protocol"@].len() == 1
    &&& outside::visible_text(fields["capsule-protocol"@][0]) == Some(value)
}

/// The capsule protocol is offered exactly by one `capsule-protocol` field whose text is an
/// item that is the boolean true.
pub proof fn capsules_are_offered_by_one_true_item(request: RequestHead, res: bool)
    requires
        res == offers_capsules(request.fields()),
    ensures
        res <==> exists|value: Seq<char>|
            #[trigger] outside::structured_item(value) == Some(ItemValue::Boolean(true))
                && has_one_capsule_field(
                outside::header_map_content(request.headers),
                value,
            ),
{
    if res {
        let fields = request.fields();
        let value = outside::visible_text(fields["capsule-protocol"@][0])->Some_0;
        assert(outside::structured_item(value) == Some(ItemValue::Boolean(true)));
    }
}

/// A proper request is accepted, and its target is the host that its path spells, escapes
/// decoded, and the port that it spells in plain decimal, from 1 to 65535.
pub proof fn proper_requests_name_their_target(
    request: RequestHead,
    item: Seq<char>,
    raw: Seq<char>,
    host: Seq<char>,
    port: nat,
    res: Option<(String, u16)>,
)
    requires
        request.method@ == "CONNECT"@,
        request.protocol matches Some(protocol) && protocol@ == "connect-udp"@,
        request.scheme matches Some(scheme) && scheme@ == "https"@,
        request.authority is Some,
        request.query is None,
        !outside::header_map_content(request.headers).contains_key("content-length"@),
        !outside::header_map_content(request.headers).contains_key("content-type"@),
        !outside::header_map_content(request.headers).contains_key("transfer-encoding"@),
        has_one_capsule_field(outside::header_map_content(request.headers), item),
        outside::structured_item(item) == Some(ItemValue::Boolean(true)),
        request.path@ == "/.well-known/masque/udp/"@ + raw + seq!['/'] + text::spelled(port)
            + seq!['/'],
        outside::percent_decoded(encode_utf8(raw)) == encode_utf8(host),
        host.len() > 0,
        !host.contains('%'),
        1 <= port <= 65535,
        target_view(res) == request.target(),
    ensures
        res matches Some((named, number)) && named@ == host && number == port,
{
    capsules_are_offered_by_one_true_item(request, offers_capsules(request.fields()));
    heads_decide_by_their_parts(request, raw, host, port, res);
}

/// A host that is spelled without escapes is taken as it is.
pub proof fn plain_hosts_are_taken_as_they_are(host: Seq<char>)
    requires
        !host.contains('%'),
    ensures
        outside::percent_decoded(encode_utf8(host)) == encode_utf8(host),
{
    lemma_no_escape(host);
}

/// Every request that is accepted is a CONNECT for UDP over HTTPS, without a query or content,
/// with the capsule protocol, and its path spells its target.
pub proof fn accepted_requests_spell_their_target(
    request: RequestHead,
    res: Option<(String, u16)>,
)
    requires
        target_view(res) == request.target(),
        res is Some,
    ensures
        request.method@ == "CONNECT"@,
        request.protocol matches Some(protocol) && protocol@ == "connect-udp"@,
        request.scheme matches Some(scheme) && scheme@ == "https"@,
        request.authority is Some,
        request.query is None,
        !outside::header_map_content(request.headers).contains_key("content-length"@),
        !outside::header_map_content(request.headers).contains_key("content-type"@),
        !outside::header_map_content(request.headers).contains_key("transfer-encoding"@),
        exists|item: Seq<char>|
            #[trigger] outside::structured_item(item) == Some(ItemValue::Boolean(true))
                && has_one_capsule_field(outside::header_map_content(request.headers), item),
        res->Some_0.0@.len() > 0,
        !res->Some_0.0@.contains('%'),
        res->Some_0.1 > 0,
        exists|raw: Seq<char>, port: Seq<char>|
            #![trigger encode_utf8(raw), text::decimal_u16(port)]
            request.path@ == "/.well-known/masque/udp/"@ + raw + seq!['/'] + port + seq!['/']
                && outside::percent_decoded(encode_utf8(raw)) == encode_utf8(res->Some_0.0@)
                && text::decimal_u16(port) == Some(res->Some_0.1),
{
    capsules_are_offered_by_one_true_item(request, true);
    let path = request.path@;
    let prefix = "/.well-known/masque/udp/"@;
    let rest = text::after_prefix(path, prefix)->Some_0;
    let target = text::before_last(rest, '/')->Some_0;
    let (raw, port) = text::split_at_last(target, '/')->Some_0;
    text::prefixes_are_cut_exactly(path, prefix);
    text::endings_are_cut_exactly(rest, '/');
    text::lemma_split_rejoins(target, '/');
    assert(path =~= prefix + raw + seq!['/'] + port + seq!['/']);
    outside::utf8_is_read_as_written(
        res->Some_0.0@,
        outside::percent_decoded(encode_utf8(raw)),
    );
    assert(outside::percent_decoded(encode_utf8(raw)) == encode_utf8(res->Some_0.0@));
    assert(text::decimal_u16(port) == Some(res->Some_0.1));
}

/// The fields decide by whether they announce content and offer capsules, and by nothing else.
pub proof fn fields_decide_by_content_and_capsules(
    request: RequestHead,
    content: bool,
    capsules: bool,
    res: Option<(String, u16)>,
    whole: Option<(String, u16)>,
)
    requires
        target_view(res) == request.target_given(content, capsules),
        target_view(whole) == request.target(),
    ensures
        content || !capsules ==> res is None,
        whole is Some && !content && capsules ==> res is Some && res->Some_0.0@ == whole->Some_0.0@
            && res->Some_0.1 == whole->Some_0.1,
{
}

/// Whatever its fields hold: a request that is a CONNECT for UDP over HTTPS, where the fields
/// are said to announce no content and to offer capsules, has the target that its path spells;
/// and only such a request has one.
pub proof fn heads_decide_by_their_parts(
    request: RequestHead,
    raw: Seq<char>,
    host: Seq<char>,
    port: nat,
    res: Option<(String, u16)>,
)
    requires
        request.path@ == "/.well-known/masque/udp/"@ + raw + seq!['/'] + text::spelled(port)
            + seq!['/'],
        outside::percent_decoded(encode_utf8(raw)) == encode_utf8(host),
        host.len() > 0,
        !host.contains('%'),
        1 <= port <= 65535,
        target_view(res) == request.target_given(false, true),
    ensures
        ({
            let proper = {
                &&& request.method@ == "CONNECT"@
                &&& request.protocol is Some && request.protocol->Some_0@ == "connect-udp"@
                &&& request.scheme is Some && request.scheme->Some_0@ == "https"@
                &&& request.authority is Some
                &&& request.query is None
            };
            if proper {
                res is Some && res->Some_0.0@ == host && res->Some_0.1 == port
            } else {
                res is None
            }
        }),
{
    let digits = text::spelled(port);
    let prefix = "/.well-known/masque/udp/"@;
    let target = raw + seq!['/'] + digits;
    text::spelled_numbers_are_read(port);
    if digits.contains('/') {
        let i = choose|i: int| 0 <= i < digits.len() && digits[i] == '/';
        assert(text::digits().contains(digits[i]));
    }
    assert(request.path@ =~= prefix + (target.push('/')));
    text::prefixes_are_cut_exactly(target.push('/'), prefix);
    text::endings_are_cut_exactly(target, '/');
    text::the_last_separator_splits(raw, digits, '/');
    outside::utf8_is_read_as_written(host, Seq::empty());
}

} // verus!
