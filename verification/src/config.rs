//! Client configuration: the settings a configuration file gives, the
//! environment overrides, and the instance URL they name.

use vstd::prelude::*;
use crate::error::Error;
use crate::model::record::starts_with;
use crate::model::value::opt_view;
use crate::transport::selection::TransportMode;
use crate::text::{owned, push_str, spec_trim, str_chars, string_from_range, trim};

verus! {

/// Top-level configuration, typically read from `servicenow.toml`.
#[derive(Debug)]
pub struct Config {
    pub instance: InstanceConfig,
    pub auth: AuthConfig,
    pub schema: SchemaFileConfig,
    pub transport: TransportConfig,
}

/// Instance connection settings.
#[derive(Debug)]
pub struct InstanceConfig {
    /// Instance URL or short name (e.g. `"mycompany"` or `"https://mycompany.service-now.com"`).
    pub url: Option<String>,
}

/// Authentication settings.
#[derive(Debug)]
pub struct AuthConfig {
    /// Auth method: `"basic"`, `"oauth"`, `"token"`.
    pub method: Option<String>,
    /// Username for basic auth.
    pub username: Option<String>,
    /// Password for basic auth.
    pub password: Option<String>,
    /// OAuth settings.
    pub oauth: Option<OAuthConfig>,
    /// API token for token auth.
    pub token: Option<String>,
}

/// OAuth-specific settings.
#[derive(Debug)]
pub struct OAuthConfig {
    pub client_id: Option<String>,
    pub client_secret: Option<String>,
}

/// Schema settings.
#[derive(Debug)]
pub struct SchemaFileConfig {
    /// ServiceNow release name (e.g. `"xanadu"`).
    pub release: Option<String>,
    /// Path of a custom overlay JSON file.
    pub overlay: Option<String>,
}

/// Transport settings.
#[derive(Debug)]
pub struct TransportConfig {
    /// Request timeout in seconds.
    pub timeout_secs: Option<u64>,
    /// Maximum number of retries.
    pub max_retries: Option<u32>,
    /// Rate limit in requests per second.
    pub rate_limit: Option<u32>,
    /// Preferred transport.
    pub preferred: TransportMode,
    /// Whether GraphQL reads fall back to REST.
    pub graphql_fallback: bool,
    /// Minimum number of fields for routing a list read through GraphQL.
    pub graphql_batch_threshold: usize,
}

impl Default for InstanceConfig {
    fn default() -> (r: Self)
        ensures
            r.url.is_none(),
    {
        InstanceConfig { url: None }
    }
}

impl Default for AuthConfig {
    fn default() -> (r: Self)
        ensures
            r.method.is_none(),
            r.username.is_none(),
            r.password.is_none(),
            r.oauth.is_none(),
            r.token.is_none(),
    {
        AuthConfig { method: None, username: None, password: None, oauth: None, token: None }
    }
}

impl Default for OAuthConfig {
    fn default() -> (r: Self)
        ensures
            r.client_id.is_none(),
            r.client_secret.is_none(),
    {
        OAuthConfig { client_id: None, client_secret: None }
    }
}

impl Default for SchemaFileConfig {
    fn default() -> (r: Self)
        ensures
            r.release.is_none(),
            r.overlay.is_none(),
    {
        SchemaFileConfig { release: None, overlay: None }
    }
}

impl Default for TransportConfig {
    /// No timeout, retry or rate settings; automatic transport choice, with
    /// GraphQL falling back to REST and lists of three or more fields routed
    /// through GraphQL.
    fn default() -> (r: Self)
        ensures
            r.timeout_secs.is_none(),
            r.max_retries.is_none(),
            r.rate_limit.is_none(),
            r.preferred == TransportMode::Auto,
            r.graphql_fallback,
            r.graphql_batch_threshold == 3,
    {
        TransportConfig {
            timeout_secs: None,
            max_retries: None,
            rate_limit: None,
            preferred: TransportMode::Auto,
            graphql_fallback: true,
            graphql_batch_threshold: 3,
        }
    }
}

impl Default for Config {
    fn default() -> (r: Self)
        ensures
            r.instance.url.is_none(),
            r.auth.method.is_none() && r.auth.username.is_none() && r.auth.password.is_none()
                && r.auth.oauth.is_none() && r.auth.token.is_none(),
            r.schema.release.is_none() && r.schema.overlay.is_none(),
            r.transport.timeout_secs.is_none() && r.transport.max_retries.is_none()
                && r.transport.rate_limit.is_none(),
            r.transport.preferred == TransportMode::Auto,
            r.transport.graphql_fallback,
            r.transport.graphql_batch_threshold == 3,
    {
        Config {
            instance: InstanceConfig::default(),
            auth: AuthConfig::default(),
            schema: SchemaFileConfig::default(),
            transport: TransportConfig::default(),
        }
    }
}

/// The environment variables that override a configuration, each when set:
/// `SERVICENOW_INSTANCE`, `SERVICENOW_USERNAME`, `SERVICENOW_PASSWORD`,
/// `SERVICENOW_OAUTH_CLIENT_ID`, `SERVICENOW_OAUTH_CLIENT_SECRET`,
/// `SERVICENOW_API_TOKEN` and `SERVICENOW_SCHEMA_PATH`.
#[derive(Debug)]
pub struct EnvSettings {
    pub instance: Option<String>,
    pub username: Option<String>,
    pub password: Option<String>,
    pub oauth_client_id: Option<String>,
    pub oauth_client_secret: Option<String>,
    pub api_token: Option<String>,
    pub schema_path: Option<String>,
}

/// An override when given, the current value otherwise.
pub open spec fn overridden(current: Option<Seq<char>>, env: Option<Seq<char>>) -> Option<Seq<char>> {
    match env {
        Some(v) => Some(v),
        None => current,
    }
}

/// The OAuth settings as plain values.
pub open spec fn oauth_view(o: Option<OAuthConfig>) -> Option<(Option<Seq<char>>, Option<Seq<char>>)> {
    match o {
        Some(c) => Some((opt_view(c.client_id), opt_view(c.client_secret))),
        None => None,
    }
}

/// The OAuth settings after the overrides: settings appear as soon as one of
/// the two OAuth variables is set.
pub open spec fn spec_oauth_after_env(
    o: Option<(Option<Seq<char>>, Option<Seq<char>>)>,
    id: Option<Seq<char>>,
    secret: Option<Seq<char>>,
) -> Option<(Option<Seq<char>>, Option<Seq<char>>)> {
    if id.is_none() && secret.is_none() {
        o
    } else {
        let base = match o {
            Some(c) => c,
            None => (None, None),
        };
        Some((overridden(base.0, id), overridden(base.1, secret)))
    }
}

fn take_override(current: &mut Option<String>, env: Option<String>)
    ensures
        opt_view(*final(current)) == overridden(opt_view(*old(current)), opt_view(env)),
{
    match env {
        Some(v) => {
            *current = Some(v);
        },
        None => {},
    }
}

impl Config {
    /// Apply environment overrides on top of this configuration: each variable
    /// that is set replaces the setting it names.
    pub fn apply_env_settings(&mut self, env: EnvSettings)
        ensures
            opt_view(final(self).instance.url) == overridden(opt_view(old(self).instance.url), opt_view(env.instance)),
            opt_view(final(self).auth.username) == overridden(opt_view(old(self).auth.username), opt_view(env.username)),
            opt_view(final(self).auth.password) == overridden(opt_view(old(self).auth.password), opt_view(env.password)),
            oauth_view(final(self).auth.oauth) == spec_oauth_after_env(
                oauth_view(old(self).auth.oauth),
                opt_view(env.oauth_client_id),
                opt_view(env.oauth_client_secret),
            ),
            opt_view(final(self).auth.token) == overridden(opt_view(old(self).auth.token), opt_view(env.api_token)),
            opt_view(final(self).schema.overlay) == overridden(opt_view(old(self).schema.overlay), opt_view(env.schema_path)),
            opt_view(final(self).auth.method) == opt_view(old(self).auth.method),
            opt_view(final(self).schema.release) == opt_view(old(self).schema.release),
            final(self).transport.timeout_secs == old(self).transport.timeout_secs,
            final(self).transport.max_retries == old(self).transport.max_retries,
            final(self).transport.rate_limit == old(self).transport.rate_limit,
            final(self).transport.preferred == old(self).transport.preferred,
            final(self).transport.graphql_fallback == old(self).transport.graphql_fallback,
            final(self).transport.graphql_batch_threshold == old(self).transport.graphql_batch_threshold,
    {
        let EnvSettings { instance, username, password, oauth_client_id, oauth_client_secret, api_token, schema_path } =
            env;
        take_override(&mut self.instance.url, instance);
        take_override(&mut self.auth.username, username);
        take_override(&mut self.auth.password, password);
        if oauth_client_id.is_some() || oauth_client_secret.is_some() {
            let mut oauth = match self.auth.oauth.take() {
                Some(o) => o,
                None => OAuthConfig::default(),
            };
            take_override(&mut oauth.client_id, oauth_client_id);
            take_override(&mut oauth.client_secret, oauth_client_secret);
            self.auth.oauth = Some(oauth);
        }
        take_override(&mut self.auth.token, api_token);
        take_override(&mut self.schema.overlay, schema_path);
    }
}

/// The serialization of a URL as `url::Url::parse` reads it, or the parser's
/// message when it cannot.
pub uninterp spec fn spec_url_parse(text: Seq<char>) -> core::result::Result<Seq<char>, Seq<char>>;

/// `url::Url::parse`: the URL's serialization, or the parser's error message.
/// The result is named, not stated.
#[verifier::external_body]
pub(crate) fn url_serialization(text: &str) -> (r: core::result::Result<String, String>)
    ensures
        match r {
            Ok(s) => spec_url_parse(text@) == Ok::<Seq<char>, Seq<char>>(s@),
            Err(m) => spec_url_parse(text@) == Err::<Seq<char>, Seq<char>>(m@),
        },
{
    match url::Url::parse(text) {
        Ok(u) => Ok(String::from(u)),
        Err(e) => Err(e.to_string()),
    }
}

/// A URL with every trailing `/` removed.
pub open spec fn spec_strip_trailing_slashes(s: Seq<char>) -> Seq<char>
    decreases s.len(),
{
    if s.len() > 0 && s.last() == '/' {
        spec_strip_trailing_slashes(s.drop_last())
    } else {
        s
    }
}

/// The URL an instance name or URL stands for, before parsing: a URL with a
/// scheme stays; a bare name becomes `https://{name}.service-now.com`;
/// another host gets `https://`.
pub open spec fn spec_with_scheme(input: Seq<char>) -> Seq<char> {
    if (input.len() >= 7 && input.take(7) == "http://"@) || (input.len() >= 8 && input.take(8) == "https://"@) {
        input
    } else if !input.contains('.') {
        "https://"@ + input + ".service-now.com"@
    } else {
        "https://"@ + input
    }
}

/// What normalizing an instance URL gives: the base URL, or the message of
/// the configuration error; an empty name and an unparsable URL are errors,
/// and a parsed URL loses its trailing slashes.
pub open spec fn spec_normalized_url(input: Seq<char>) -> core::result::Result<Seq<char>, Seq<char>> {
    let t = spec_trim(input);
    if t.len() == 0 {
        Err("instance URL/name cannot be empty"@)
    } else {
        match spec_url_parse(spec_with_scheme(t)) {
            Ok(s) => Ok(spec_strip_trailing_slashes(s)),
            Err(e) => Err("invalid instance URL '"@ + t + "': "@ + e),
        }
    }
}

/// Whether `r` is what normalizing `input` gives, a configuration error on failure.
pub open spec fn spec_normalize_instance_url(input: Seq<char>, r: core::result::Result<String, Error>) -> bool {
    match spec_normalized_url(input) {
        Ok(s) => r matches Ok(u) && u@ == s,
        Err(m) => r matches Err(Error::Config(mm)) && mm@ == m,
    }
}

fn contains_char(s: &str, c: char) -> (r: bool)
    ensures
        r == s@.contains(c),
{
    let v = str_chars(s);
    let mut i: usize = 0;
    while i < v.len()
        invariant
            0 <= i <= v@.len(),
            v@ == s@,
            forall|j: int| 0 <= j < i ==> v@[j] != c,
        decreases v@.len() - i,
    {
        if v[i] == c {
            return true;
        }
        i = i + 1;
    }
    false
}

fn strip_trailing_slashes(s: &str) -> (r: String)
    ensures
        r@ == spec_strip_trailing_slashes(s@),
{
    let v = str_chars(s);
    let mut end = v.len();
    assert(v@.take(end as int) =~= v@);
    while end > 0 && v[end - 1] == '/'
        invariant
            0 <= end <= v@.len(),
            v@ == s@,
            spec_strip_trailing_slashes(s@) == spec_strip_trailing_slashes(v@.take(end as int)),
        decreases end,
    {
        assert(v@.take(end as int).drop_last() =~= v@.take(end - 1));
        end = end - 1;
    }
    let r = string_from_range(&v, 0, end);
    assert(r@ =~= v@.take(end as int));
    r
}

/// Normalize an instance URL or name into a base URL.
///
/// - `"mycompany"` gives `"https://mycompany.service-now.com"`
/// - `"https://mycompany.service-now.com/"` gives `"https://mycompany.service-now.com"`
/// - `"servicenow.mycompany.com"` gives `"https://servicenow.mycompany.com"`
pub fn normalize_instance_url(input: &str) -> (r: core::result::Result<String, Error>)
    ensures
        spec_normalize_instance_url(input@, r),
{
    let t = trim(input);
    if t.as_str().is_empty() {
        return Err(Error::Config(owned("instance URL/name cannot be empty")));
    }
    let with_scheme = if starts_with(t.as_str(), "http://") || starts_with(t.as_str(), "https://") {
        proof {
            reveal_strlit("http://");
            reveal_strlit("https://");
        }
        t.clone()
    } else if !contains_char(t.as_str(), '.') {
        proof {
            reveal_strlit("http://");
            reveal_strlit("https://");
        }
        let mut u = owned("https://");
        push_str(&mut u, t.as_str());
        push_str(&mut u, ".service-now.com");
        u
    } else {
        proof {
            reveal_strlit("http://");
            reveal_strlit("https://");
        }
        let mut u = owned("https://");
        push_str(&mut u, t.as_str());
        u
    };
    assert(with_scheme@ == spec_with_scheme(t@));
    match url_serialization(with_scheme.as_str()) {
        Ok(s) => Ok(strip_trailing_slashes(s.as_str())),
        Err(e) => {
            let mut m = owned("invalid instance URL '");
            push_str(&mut m, t.as_str());
            push_str(&mut m, "': ");
            push_str(&mut m, e.as_str());
            Err(Error::Config(m))
        },
    }
}

/// The scheme of a URL serialization: the part before its first `:`.
pub open spec fn spec_scheme(s: Seq<char>) -> Seq<char> {
    match crate::text::spec_find_char(s, ':') {
        Some(i) => s.take(i),
        None => s,
    }
}

/// Whether a serialized URL uses the plain `http` scheme.
pub fn is_http_url(serialized: &str) -> (r: bool)
    ensures
        r == (spec_scheme(serialized@) == "http"@),
{
    let v = str_chars(serialized);
    let mut i: usize = 0;
    while i < v.len() && v[i] != ':'
        invariant
            0 <= i <= v@.len(),
            v@ == serialized@,
            forall|j: int| 0 <= j < i ==> v@[j] != ':',
        decreases v@.len() - i,
    {
        i = i + 1;
    }
    proof {
        if i < v@.len() {
            crate::text::lemma_find_char_at(v@, ':', i as int);
        } else {
            crate::text::lemma_find_char_none(v@, ':');
            assert(v@.take(i as int) =~= v@);
        }
    }
    let scheme = string_from_range(&v, 0, i);
    assert(scheme@ =~= v@.take(i as int));
    crate::text::str_eq(scheme.as_str(), "http")
}

} // verus!
