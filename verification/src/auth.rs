//! Credentials of the two static authentication methods, kept in memory that
//! is wiped when dropped, and the header values they send.

use vstd::prelude::*;
use base64::Engine;
use zeroize::Zeroizing;
use crate::text::{owned, push_str};

verus! {

/// A text held in a `zeroize::Zeroizing<String>`, wiped from memory when dropped.
#[verifier::external_body]
pub struct Secret {
    text: Zeroizing<String>,
}

/// The text a secret holds.
pub uninterp spec fn spec_secret(z: Secret) -> Seq<char>;

/// `Zeroizing::new`: moves a string into memory that is wiped when dropped;
/// the secret holds exactly that string.
#[verifier::external_body]
fn secret(s: String) -> (r: Secret)
    ensures
        spec_secret(r) == s@,
{
    Secret { text: Zeroizing::new(s) }
}

/// `Deref` of `Zeroizing<String>`: the string a secret holds.
#[verifier::external_body]
fn secret_str(z: &Secret) -> (r: &str)
    ensures
        r@ == spec_secret(*z),
{
    z.text.as_str()
}

impl Secret {
    /// The text held.
    pub fn as_str(&self) -> (r: &str)
        ensures
            r@ == spec_secret(*self),
    {
        secret_str(self)
    }
}

/// The standard base64 encoding, with padding, of the UTF-8 bytes of a text.
pub uninterp spec fn spec_base64(text: Seq<char>) -> Seq<char>;

/// `base64::engine::general_purpose::STANDARD.encode` of the text's bytes;
/// the encoding is named, not stated. The encoder computes its output size as
/// four characters per three bytes and panics when that overflows `usize`; a
/// text of at most `usize::MAX / 8` characters has at most half as many bytes
/// as `usize` can count, which keeps the computation in range.
#[verifier::external_body]
fn base64_standard(text: &str) -> (r: String)
    requires
        text@.len() <= usize::MAX / 8,
    ensures
        r@ == spec_base64(text@),
{
    base64::engine::general_purpose::STANDARD.encode(text.as_bytes())
}

/// HTTP Basic authentication.
///
/// Only the username and the encoded `username:password` are kept, the
/// latter in memory that is wiped when dropped; the password itself is not
/// kept. Session cookies are reused unless turned off.
pub struct BasicAuth {
    username: String,
    encoded: Secret,
    use_session: bool,
}

impl BasicAuth {
    /// The username.
    pub closed spec fn spec_username(&self) -> Seq<char> {
        self.username@
    }

    /// The encoded credentials.
    pub closed spec fn spec_encoded(&self) -> Seq<char> {
        spec_secret(self.encoded)
    }

    /// Whether session cookies are reused.
    pub closed spec fn spec_use_session(&self) -> bool {
        self.use_session
    }

    /// Basic authentication with a username and a password.
    pub fn new(username: &str, password: &str) -> (r: Self)
        requires
            username@.len() + password@.len() + 1 <= usize::MAX / 8,
        ensures
            r.spec_username() == username@,
            r.spec_encoded() == spec_base64(username@ + ":"@ + password@),
            r.spec_use_session(),
    {
        let mut text = owned(username);
        push_str(&mut text, ":");
        push_str(&mut text, password);
        proof {
            reveal_strlit(":");
        }
        assert(text@ == username@ + ":"@ + password@);
        assert(text@.len() == username@.len() + 1 + password@.len());
        let credentials = secret(text);
        let encoded = secret(base64_standard(secret_str(&credentials)));
        BasicAuth { username: owned(username), encoded, use_session: true }
    }

    /// The same credentials without session cookie reuse.
    pub fn without_session(self) -> (r: Self)
        ensures
            r.spec_username() == self.spec_username(),
            r.spec_encoded() == self.spec_encoded(),
            !r.spec_use_session(),
    {
        let mut a = self;
        a.use_session = false;
        a
    }

    /// The username.
    pub fn username(&self) -> (r: &str)
        ensures
            r@ == self.spec_username(),
    {
        self.username.as_str()
    }

    /// The base64 encoding of `username:password`.
    pub fn encoded_credentials(&self) -> (r: &str)
        ensures
            r@ == self.spec_encoded(),
    {
        secret_str(&self.encoded)
    }

    /// Whether session cookies are reused.
    pub fn supports_session(&self) -> (r: bool)
        ensures
            r == self.spec_use_session(),
    {
        self.use_session
    }

    /// The name of the method: `basic`.
    pub fn method_name(&self) -> (r: &'static str)
        ensures
            r@ == "basic"@,
    {
        "basic"
    }

    /// The value of the `Authorization` header: `Basic ` and the encoded
    /// credentials, kept in memory that is wiped when dropped.
    pub fn authorization_value(&self) -> (r: Secret)
        ensures
            spec_secret(r) == "Basic "@ + self.spec_encoded(),
    {
        let mut v = owned("Basic ");
        push_str(&mut v, secret_str(&self.encoded));
        secret(v)
    }
}

/// Token authentication: a bearer token in the `Authorization` header, or a
/// token in a header of the instance's choosing. The token is kept in memory
/// that is wiped when dropped.
pub struct TokenAuth {
    token: Secret,
    header_name: String,
    header_prefix: Option<String>,
}

impl TokenAuth {
    /// The token.
    pub closed spec fn spec_token(&self) -> Seq<char> {
        spec_secret(self.token)
    }

    /// The header the token is sent in.
    pub closed spec fn spec_header_name(&self) -> Seq<char> {
        self.header_name@
    }

    /// The word written before the token, if any.
    pub closed spec fn spec_header_prefix(&self) -> Option<Seq<char>> {
        crate::model::value::opt_view(self.header_prefix)
    }

    /// `Authorization: Bearer <token>`.
    pub fn bearer(token: &str) -> (r: Self)
        ensures
            r.spec_token() == token@,
            r.spec_header_name() == "Authorization"@,
            r.spec_header_prefix() == Some("Bearer"@),
    {
        TokenAuth { token: secret(owned(token)), header_name: owned("Authorization"), header_prefix: Some(owned("Bearer")) }
    }

    /// The token alone in a header of the given name, such as `X-sn-api-token`.
    pub fn custom_header(header_name: &str, token: &str) -> (r: Self)
        ensures
            r.spec_token() == token@,
            r.spec_header_name() == header_name@,
            r.spec_header_prefix().is_none(),
    {
        TokenAuth { token: secret(owned(token)), header_name: owned(header_name), header_prefix: None }
    }

    /// The header the token is sent in.
    pub fn header_name(&self) -> (r: &str)
        ensures
            r@ == self.spec_header_name(),
    {
        self.header_name.as_str()
    }

    /// The word written before the token, if any.
    pub fn header_prefix(&self) -> (r: Option<&str>)
        ensures
            crate::model::value::opt_str_view(r) == self.spec_header_prefix(),
    {
        match &self.header_prefix {
            Some(p) => Some(p.as_str()),
            None => None,
        }
    }

    /// Token authentication never reuses session cookies.
    pub fn supports_session(&self) -> (r: bool)
        ensures
            !r,
    {
        false
    }

    /// The name of the method: `token`.
    pub fn method_name(&self) -> (r: &'static str)
        ensures
            r@ == "token"@,
    {
        "token"
    }

    /// The header value: the prefix, a space and the token; or the token
    /// alone without a prefix. Kept in memory that is wiped when dropped.
    pub fn authorization_value(&self) -> (r: Secret)
        ensures
            spec_secret(r) == match self.spec_header_prefix() {
                Some(p) => p + " "@ + self.spec_token(),
                None => self.spec_token(),
            },
    {
        let mut v = match &self.header_prefix {
            Some(p) => {
                let mut s = owned(p.as_str());
                push_str(&mut s, " ");
                s
            },
            None => String::new(),
        };
        push_str(&mut v, secret_str(&self.token));
        secret(v)
    }
}

} // verus!
