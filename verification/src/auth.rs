//! Who may open a tunnel.

use crate::outside::{decode_base64, first_value, string_from_utf8, value_text};
use crate::request::RequestHead;
use crate::text::{rsplit_once, same_text, strip_prefix};
use crate::{outside, text};
use http::{HeaderMap, HeaderValue};
use vstd::prelude::*;
use vstd::utf8::*;

verus! {

/// The credentials that clients have to present; anyone is served unless both are set.
#[derive(Clone)]
pub struct AuthMode {
    pub username: Option<String>,
    pub password: Option<String>,
}

/// What comes of the credentials that a request presents.
pub enum Authentication {
    /// No credentials are asked for.
    Open,
    /// The credentials are missing or wrong.
    Refused,
    /// The credentials are right; `presented` is `username`, followed by what the client asks
    /// for beyond it.
    Granted { username: String, presented: String },
}

/// What comes of the credentials that a request presents.
pub enum AuthenticationView {
    Open,
    Refused,
    Granted { username: Seq<char>, presented: Seq<char> },
}

impl View for Authentication {
    type V = AuthenticationView;

    open spec fn view(&self) -> AuthenticationView {
        match self {
            Authentication::Open => AuthenticationView::Open,
            Authentication::Refused => AuthenticationView::Refused,
            Authentication::Granted { username, presented } => AuthenticationView::Granted {
                username: username@,
                presented: presented@,
            },
        }
    }
}

/// The credentials in the first `proxy-authorization` field, under the Basic scheme.
pub open spec fn basic_credentials(fields: Map<Seq<char>, Seq<Seq<u8>>>) -> Option<Seq<char>> {
    let name = "proxy-authorization"@;
    if fields.contains_key(name) {
        match outside::visible_text(fields[name][0]) {
            None => None,
            Some(value) => match text::after_prefix(value, "Basic "@) {
                None => None,
                Some(encoded) => match outside::base64_decoded(encoded) {
                    None => None,
                    Some(bytes) => outside::utf8_text(bytes),
                },
            },
        }
    } else {
        None
    }
}

impl AuthMode {
    /// Whether credentials are asked for.
    pub open spec fn is_open(&self) -> bool {
        self.username is None || self.password is None
    }

    /// What comes of `credentials`, a user name and a password with a colon between them. The
    /// password starts after the last colon, and the user name may go on past the configured
    /// one.
    pub open spec fn verdict(&self, credentials: Option<Seq<char>>) -> AuthenticationView {
        match (self.username, self.password, credentials) {
            (Some(username), Some(password), Some(credentials)) => match text::split_at_last(
                credentials,
                ':',
            ) {
                None => AuthenticationView::Refused,
                Some((presented, secret)) => if username@.is_prefix_of(presented) && secret
                    == password@ {
                    AuthenticationView::Granted { username: username@, presented }
                } else {
                    AuthenticationView::Refused
                },
            },
            (Some(_), Some(_), None) => AuthenticationView::Refused,
            _ => AuthenticationView::Open,
        }
    }

    /// What comes of the credentials, as far as they could be read.
    pub fn check(&self, credentials: Option<&str>) -> (res: Authentication)
        ensures
            res@ == self.verdict(
                match credentials {
                    None => None,
                    Some(credentials) => Some(credentials@),
                },
            ),
    {
        let (username, password) = match (&self.username, &self.password) {
            (Some(username), Some(password)) => (username, password),
            _ => {
                return Authentication::Open;
            },
        };
        let credentials = match credentials {
            None => {
                return Authentication::Refused;
            },
            Some(credentials) => credentials,
        };
        match rsplit_once(credentials, ':') {
            None => Authentication::Refused,
            Some((presented, secret)) => {
                if strip_prefix(presented, username.as_str()).is_none() || !same_text(
                    secret,
                    password.as_str(),
                ) {
                    Authentication::Refused
                } else {
                    Authentication::Granted {
                        username: username.clone(),
                        presented: presented.to_owned(),
                    }
                }
            },
        }
    }
}

/// Reads the credentials in the first `proxy-authorization` field.
fn read_credentials(headers: &HeaderMap<HeaderValue>) -> (res: Option<String>)
    ensures
        outside::text_view(res) == basic_credentials(outside::header_map_content(*headers)),
{
    proof {
        reveal_strlit("proxy-authorization");
    }
    let value = match first_value(headers, "proxy-authorization") {
        None => {
            return None;
        },
        Some(value) => value,
    };
    let value = match value_text(value) {
        None => {
            return None;
        },
        Some(value) => value,
    };
    let encoded = match strip_prefix(value, "Basic ") {
        None => {
            return None;
        },
        Some(encoded) => encoded,
    };
    match decode_base64(encoded) {
        None => None,
        Some(bytes) => string_from_utf8(bytes),
    }
}

/// Judges the credentials that a request presents.
pub fn authenticate(auth: &AuthMode, request: &RequestHead) -> (res: Authentication)
    ensures
        res@ == auth.verdict(basic_credentials(request.fields())),
{
    match read_credentials(&request.headers) {
        None => auth.check(None),
        Some(credentials) => auth.check(Some(credentials.as_str())),
    }
}

/// Where credentials are asked for, only those who present them are served; where they are
/// not, everyone is.
pub proof fn access_needs_the_password(auth: AuthMode, credentials: Option<Seq<char>>)
    ensures
        auth.verdict(credentials) == AuthenticationView::Open <==> auth.is_open(),
        auth.verdict(credentials) is Granted ==> {
            &&& credentials is Some
            &&& auth.username is Some
            &&& auth.password is Some
            &&& auth.verdict(credentials)->presented + seq![':'] + auth.password->Some_0@
                == credentials->Some_0
            &&& auth.username->Some_0@.is_prefix_of(auth.verdict(credentials)->presented)
        },
{
    if let Some(credentials) = credentials {
        text::lemma_split_rejoins(credentials, ':');
    }
}

/// The configured user name, whatever is appended to it, and the configured password are let
/// in, and what was appended is kept, provided that the password holds no colon.
pub proof fn right_credentials_are_granted(auth: AuthMode, appended: Seq<char>)
    requires
        !auth.is_open(),
        !auth.password->Some_0@.contains(':'),
    ensures
        auth.verdict(
            Some(auth.username->Some_0@ + appended + seq![':'] + auth.password->Some_0@),
        ) == (AuthenticationView::Granted {
            username: auth.username->Some_0@,
            presented: auth.username->Some_0@ + appended,
        }),
{
    let username = auth.username->Some_0@;
    let password = auth.password->Some_0@;
    let presented = username + appended;
    let credentials = presented + seq![':'] + password;
    assert forall|i: int| presented.len() < i < credentials.len() implies credentials[i]
        != ':' by {
        assert(password.contains(password[i - presented.len() - 1]));
    }
    text::lemma_split_at_last(credentials, ':', presented.len() as int);
    assert(credentials.take(presented.len() as int) =~= presented);
    assert(credentials.skip(presented.len() as int + 1) =~= password);
}

/// A password that holds a colon lets nobody in.
pub proof fn password_with_a_colon_refuses_everyone(auth: AuthMode, credentials: Option<Seq<char>>)
    requires
        !auth.is_open(),
        auth.password->Some_0@.contains(':'),
    ensures
        auth.verdict(credentials) == AuthenticationView::Refused,
{
    if let Some(credentials) = credentials {
        text::lemma_split_rejoins(credentials, ':');
    }
}

/// Credentials that are written to the first `proxy-authorization` field are read as they are,
/// character for character: "Basic ", and then their UTF-8 in base64.
pub proof fn credentials_are_read_as_written(
    fields: Map<Seq<char>, Seq<Seq<u8>>>,
    encoded: Seq<char>,
    credentials: Seq<char>,
)
    requires
        fields.contains_key("proxy-authorization"@),
        fields["proxy-authorization"@][0] == outside::plain_bytes("Basic "@ + encoded),
        outside::is_plain(encoded),
        outside::base64_decoded(encoded) == Some(encode_utf8(credentials)),
    ensures
        basic_credentials(fields) == Some(credentials),
{
    reveal_strlit("Basic ");
    let value = "Basic "@ + encoded;
    assert forall|i: int| 0 <= i < value.len() implies ' ' <= (#[trigger] value[i]) <= '~' by {
        if i >= 6 {
            assert(value[i] == encoded[i - 6]);
        }
    }
    outside::values_are_read_as_written(value);
    text::prefixes_are_cut_exactly(encoded, "Basic "@);
    outside::utf8_is_read_as_written(credentials, Seq::empty());
}

/// Credentials that are read stand in the first `proxy-authorization` field: its text is
/// "Basic " and then base64 of their UTF-8. Without that there are none.
pub proof fn only_written_credentials_are_read(fields: Map<Seq<char>, Seq<Seq<u8>>>)
    ensures
        basic_credentials(fields) matches Some(credentials)
            ==> fields.contains_key("proxy-authorization"@) && exists|encoded: Seq<char>|
            #[trigger] outside::base64_decoded(encoded) == Some(encode_utf8(credentials))
                && outside::visible_text(fields["proxy-authorization"@][0]) == Some(
                "Basic "@ + encoded,
            ),
{
    if let Some(credentials) = basic_credentials(fields) {
        let value = outside::visible_text(fields["proxy-authorization"@][0])->Some_0;
        let encoded = text::after_prefix(value, "Basic "@)->Some_0;
        let bytes = outside::base64_decoded(encoded)->Some_0;
        text::prefixes_are_cut_exactly(value, "Basic "@);
        outside::utf8_is_read_as_written(credentials, bytes);
        assert(outside::base64_decoded(encoded) == Some(encode_utf8(credentials)));
    }
}

/// A request that carries the configured user name, whatever is appended to it, a colon and
/// the configured password is granted, and the user name is kept with what was appended; the
/// password holds no colon.
pub proof fn requests_with_the_password_are_granted(
    auth: AuthMode,
    request: RequestHead,
    encoded: Seq<char>,
    appended: Seq<char>,
    res: Authentication,
)
    requires
        auth.username is Some,
        auth.password is Some,
        !auth.password->Some_0@.contains(':'),
        outside::header_map_content(request.headers).contains_key("proxy-authorization"@),
        outside::header_map_content(request.headers)["proxy-authorization"@][0]
            == outside::plain_bytes("Basic "@ + encoded),
        outside::is_plain(encoded),
        outside::base64_decoded(encoded) == Some(
            encode_utf8(
                auth.username->Some_0@ + appended + seq![':'] + auth.password->Some_0@,
            ),
        ),
        res@ == auth.verdict(basic_credentials(request.fields())),
    ensures
        res matches Authentication::Granted { username, presented } && username@
            == auth.username->Some_0@ && presented@ == auth.username->Some_0@ + appended,
{
    credentials_are_read_as_written(
        request.fields(),
        encoded,
        auth.username->Some_0@ + appended + seq![':'] + auth.password->Some_0@,
    );
    right_credentials_are_granted(auth, appended);
}

/// Where a user name and a password are set, a request is granted only if it carries them; and
/// it is refused otherwise. Where one of them is not set, every request is let in.
pub proof fn requests_without_the_password_are_refused(
    auth: AuthMode,
    request: RequestHead,
    res: Authentication,
)
    requires
        res@ == auth.verdict(basic_credentials(request.fields())),
    ensures
        res is Open <==> auth.username is None || auth.password is None,
        res matches Authentication::Granted { username, presented } ==> {
            &&& auth.username matches Some(name) && username@ == name@
            &&& auth.password is Some
            &&& exists|appended: Seq<char>| presented@ == #[trigger] (username@ + appended)
            &&& exists|encoded: Seq<char>|
                #[trigger] outside::base64_decoded(encoded) == Some(
                    encode_utf8(presented@ + seq![':'] + auth.password->Some_0@),
                ) && outside::visible_text(
                    outside::header_map_content(request.headers)["proxy-authorization"@][0],
                ) == Some("Basic "@ + encoded)
        },
{
    let credentials = basic_credentials(request.fields());
    access_needs_the_password(auth, credentials);
    only_written_credentials_are_read(request.fields());
    if let Authentication::Granted { username, presented } = res {
        let name = auth.username->Some_0@;
        assert(presented@ =~= username@ + presented@.skip(name.len() as int));
    }
}

} // verus!
