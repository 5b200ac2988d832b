//! Clients for calling the REST API, supporting both the hosted service
//! and direct appliance connections.
//!
//! A client owns everything needed to describe an authenticated request:
//! the API root, and either a static API key (appliance) or a temporary
//! bearer token together with the credentials that renew it (hosted).
//! Building a request never performs I/O; it yields an [`ApiRequest`]
//! value that a transport executes. The hosted token lifecycle is likewise
//! split: [`Client::maintain_access`] decides whether a renewal exchange
//! is due and describes it, and [`Client::install_token`] installs what
//! the exchange returned.

use vstd::prelude::*;

use crate::api_key::{header_prefix, ApiKey};
use crate::error::Error;
use crate::json::{chars_to_string, push_str_chars};

verus! {

/// What the URL library yields when the `https` scheme is put in front of
/// a host name: the canonical base URL, or nothing when the host is not a
/// valid domain.
pub uninterp spec fn host_base(host: Seq<char>) -> Option<Seq<char>>;

/// Relies on `url::Url::parse` of a fixed valid base followed by
/// `Url::set_host`: yields the canonical `https://<host>/` base, or
/// nothing when the library rejects the host. The result depends on the
/// host alone; [`host_base`] names it.
#[verifier::external_body]
fn make_host_base(host: &str) -> (r: Option<String>)
    ensures
        match r {
            Option::Some(b) => host_base(host@) == Option::Some(b@),
            Option::None => host_base(host@) is None,
        },
{
    let mut root = match url::Url::parse("https://base.invalid/") {
        Ok(u) => u,
        Err(_) => return None,
    };
    if root.set_host(Some(host)).is_err() {
        return None;
    }
    Some(String::from(root))
}

/// What the URL library yields for a reference resolved against a base:
/// the combined URL, or nothing when the two do not combine.
pub uninterp spec fn url_joined(base: Seq<char>, reference: Seq<char>) -> Option<Seq<char>>;

/// Relies on `url::Url::parse` of the base and `Url::join` of the
/// reference. The result depends on the two texts alone; [`url_joined`]
/// names it.
#[verifier::external_body]
fn join_url(base: &str, reference: &str) -> (r: Option<String>)
    ensures
        match r {
            Option::Some(u) => url_joined(base@, reference@) == Option::Some(u@),
            Option::None => url_joined(base@, reference@) is None,
        },
{
    let b = match url::Url::parse(base) {
        Ok(u) => u,
        Err(_) => return None,
    };
    match b.join(reference) {
        Ok(j) => Some(String::from(j)),
        Err(_) => None,
    }
}

/// The URL of an endpoint under a client's API root: the base, then
/// `api/`, then the endpoint reference.
pub open spec fn api_url(base: Seq<char>, endpoint: Seq<char>) -> Option<Seq<char>> {
    match url_joined(base, "api/"@) {
        Option::Some(prefix) => url_joined(prefix, endpoint),
        Option::None => Option::None,
    }
}

/// An HTTP method of the narrow API subset the library speaks.
#[derive(Debug, Clone, Copy, PartialEq, Eq, Structural)]
pub enum Method {
    Get,
    Post,
    Put,
    Patch,
    Delete,
}

/// A fully described API request: what a transport must send. The
/// authorization field is the complete `Authorization` header value.
#[derive(Debug, Clone)]
pub struct ApiRequest {
    pub method: Method,
    pub url: String,
    pub authorization: String,
}

/// An error while connecting to — or refreshing credentials with — a
/// hosted tenant.
#[derive(Debug, Clone)]
pub enum SaasConnectError {
    /// The host is not a valid domain.
    InvalidDomain,
    /// The credential exchange itself failed; the transport's description
    /// of the failure is kept.
    Exchange(String),
}

/// An error encountered while connecting to a specific appliance.
#[derive(Debug, Clone)]
pub enum ApplianceClientError {
    /// The host is not a valid domain.
    InvalidHost,
}

/// A temporary access token for the hosted service, together with the
/// instant it was issued, in milliseconds of the caller's clock.
pub struct SaasAccessToken {
    access_token: String,
    start_ms: u64,
}

impl SaasAccessToken {
    /// The secret token value.
    pub closed spec fn token(self) -> Seq<char> {
        self.access_token@
    }

    /// The issuance instant, in milliseconds of the caller's clock.
    pub closed spec fn issued_at_ms(self) -> u64 {
        self.start_ms
    }

    /// The issuance instant, so a caller can see how its clock reading
    /// relates to the token before asking about expiry.
    pub fn issued_at(&self) -> (r: u64)
        ensures
            r == self.issued_at_ms(),
    {
        self.start_ms
    }

    /// Wraps a token obtained from the credential exchange, recording its
    /// issuance instant. Capture the instant before the exchange starts,
    /// so the server cannot expire the token before the client expects.
    pub fn new(access_token: String, start_ms: u64) -> (r: Self)
        ensures
            r.token() == access_token@,
            r.issued_at_ms() == start_ms,
    {
        SaasAccessToken { access_token, start_ms }
    }

    /// Whether the access token will expire before the specified duration
    /// has passed: tokens live 3600 seconds from issuance, and the check
    /// is inclusive at the boundary.
    pub fn expires_in_next(&self, now_ms: u64, duration_ms: u64) -> (r: bool)
        requires
            now_ms >= self.issued_at_ms(),
        ensures
            r == (now_ms - self.issued_at_ms() + duration_ms >= 3_600_000),
    {
        let elapsed: u64 = now_ms - self.start_ms;
        (elapsed as u128) + (duration_ms as u128) >= 3_600_000u128
    }

    /// The value of a bearer `Authorization` header drawn from this token.
    pub fn authorization(&self) -> (r: String)
        ensures
            r@ == "Bearer "@ + self.token(),
    {
        let mut out: Vec<char> = Vec::new();
        push_str_chars(&mut out, "Bearer ");
        push_str_chars(&mut out, self.access_token.as_str());
        chars_to_string(&out)
    }
}

/// The description of an OAuth2 client-credentials exchange: a `POST` to
/// the token endpoint, basic-authenticated with the credential ID and
/// secret, carrying the fixed form body `grant_type=client_credentials`.
#[derive(Debug, Clone)]
pub struct TokenRequest {
    pub url: String,
    pub basic_id: String,
    pub basic_secret: String,
    pub grant_type: String,
}

/// A client for making requests of a hosted tenant.
///
/// The held token is replaced wholesale on renewal, never mutated in
/// place; a caller that shares the client puts it behind a single-writer
/// cell so that readers always see one consistent token.
pub struct Saas {
    root: String,
    id: String,
    secret: String,
    access_token: SaasAccessToken,
}

impl Saas {
    /// The canonical tenant base URL.
    pub closed spec fn root_spec(self) -> Seq<char> {
        self.root@
    }

    /// The API credential's ID.
    pub closed spec fn id_spec(self) -> Seq<char> {
        self.id@
    }

    /// The API credential's secret, used only to request access tokens.
    pub closed spec fn secret_spec(self) -> Seq<char> {
        self.secret@
    }

    /// The currently held access token.
    pub closed spec fn token(self) -> SaasAccessToken {
        self.access_token
    }

    /// The exchange that obtains the first access token for a tenant;
    /// fails exactly when the domain is not valid.
    pub fn token_request(domain: &str, id: &str, secret: &str) -> (r: Option<TokenRequest>)
        ensures
            match r {
                Option::Some(t) => host_base(domain@) is Some && url_joined(
                    host_base(domain@)->0,
                    "oauth2/token"@,
                ) == Option::Some(t.url@) && t.basic_id@ == id@ && t.basic_secret@ == secret@
                    && t.grant_type@ == "client_credentials"@,
                Option::None => host_base(domain@) is None || url_joined(
                    host_base(domain@)->0,
                    "oauth2/token"@,
                ) is None,
            },
    {
        let base = match make_host_base(domain) {
            Option::Some(b) => b,
            Option::None => {
                return Option::None;
            },
        };
        let url = match join_url(base.as_str(), "oauth2/token") {
            Option::Some(u) => u,
            Option::None => {
                return Option::None;
            },
        };
        Option::Some(
            TokenRequest {
                url,
                basic_id: id.to_owned(),
                basic_secret: secret.to_owned(),
                grant_type: "client_credentials".to_owned(),
            },
        )
    }

    /// Assembles a hosted client once the first exchange has produced a
    /// token. Construction fails entirely when the domain is invalid: no
    /// partially-initialized client is ever returned.
    pub fn new(domain: &str, id: String, secret: String, token: SaasAccessToken) -> (r: Result<
        Saas,
        SaasConnectError,
    >)
        ensures
            match r {
                Result::Ok(c) => host_base(domain@) == Option::Some(c.root_spec()) && c.id_spec()
                    == id@ && c.secret_spec() == secret@ && c.token() == token,
                Result::Err(e) => host_base(domain@) is None && e is InvalidDomain,
            },
    {
        match make_host_base(domain) {
            Option::Some(root) => Result::Ok(Saas { root, id, secret, access_token: token }),
            Option::None => Result::Err(SaasConnectError::InvalidDomain),
        }
    }

    /// Describes a request to the specified endpoint: the endpoint joined
    /// under the API root, with a bearer authorization drawn from the
    /// currently held token. An endpoint that does not join into a valid
    /// URL is an error, never a panic.
    pub fn request(&self, method: Method, endpoint: &str) -> (r: Result<ApiRequest, Error>)
        ensures
            match r {
                Result::Ok(req) => api_url(self.root_spec(), endpoint@) == Option::Some(req.url@)
                    && req.method == method && req.authorization@ == "Bearer "@
                    + self.token().token(),
                Result::Err(e) => api_url(self.root_spec(), endpoint@) is None && e is Url,
            },
    {
        let prefix = match join_url(self.root.as_str(), "api/") {
            Option::Some(p) => p,
            Option::None => {
                return Result::Err(Error::Url);
            },
        };
        let url = match join_url(prefix.as_str(), endpoint) {
            Option::Some(u) => u,
            Option::None => {
                return Result::Err(Error::Url);
            },
        };
        Result::Ok(ApiRequest { method, url, authorization: self.access_token.authorization() })
    }

    /// The exchange that renews this client's access token.
    pub fn renew_request(&self) -> (r: Result<TokenRequest, Error>)
        ensures
            match r {
                Result::Ok(t) => url_joined(self.root_spec(), "oauth2/token"@) == Option::Some(
                    t.url@,
                ) && t.basic_id@ == self.id_spec() && t.basic_secret@ == self.secret_spec()
                    && t.grant_type@ == "client_credentials"@,
                Result::Err(e) => url_joined(self.root_spec(), "oauth2/token"@) is None
                    && e is Url,
            },
    {
        match join_url(self.root.as_str(), "oauth2/token") {
            Option::Some(url) => Result::Ok(
                TokenRequest {
                    url,
                    basic_id: self.id.clone(),
                    basic_secret: self.secret.clone(),
                    grant_type: "client_credentials".to_owned(),
                },
            ),
            Option::None => Result::Err(Error::Url),
        }
    }

    /// Replaces the held token wholesale with one a renewal exchange
    /// produced; nothing else changes.
    pub fn install_token(&mut self, token: SaasAccessToken)
        ensures
            final(self).token() == token,
            final(self).root_spec() == old(self).root_spec(),
            final(self).id_spec() == old(self).id_spec(),
            final(self).secret_spec() == old(self).secret_spec(),
    {
        self.access_token = token;
    }
}

/// A client to communicate with a specific appliance: its base URL and the
/// static API key attached to every request. Certificate handling belongs
/// to the transport, not to the request-building logic here.
pub struct Appliance {
    root: String,
    api_key: ApiKey,
}

impl Appliance {
    /// The canonical appliance base URL.
    pub closed spec fn root_spec(self) -> Seq<char> {
        self.root@
    }

    /// The static API key.
    pub closed spec fn key_spec(self) -> Seq<char> {
        self.api_key@
    }

    /// Create a new client for communicating with a specific appliance;
    /// fails exactly when the host is not a valid domain.
    pub fn new(host: &str, api_key: ApiKey) -> (r: Result<Appliance, ApplianceClientError>)
        ensures
            match r {
                Result::Ok(c) => host_base(host@) == Option::Some(c.root_spec()) && c.key_spec()
                    == api_key@,
                Result::Err(e) => host_base(host@) is None && e is InvalidHost,
            },
    {
        match make_host_base(host) {
            Option::Some(root) => Result::Ok(Appliance { root, api_key }),
            Option::None => Result::Err(ApplianceClientError::InvalidHost),
        }
    }

    /// Describes a request to the specified endpoint: the endpoint joined
    /// under the API root, authorized by the static API key header. No
    /// network round trip is ever needed to authenticate.
    pub fn request(&self, method: Method, endpoint: &str) -> (r: Result<ApiRequest, Error>)
        ensures
            match r {
                Result::Ok(req) => api_url(self.root_spec(), endpoint@) == Option::Some(req.url@)
                    && req.method == method && req.authorization@ == header_prefix()
                    + self.key_spec(),
                Result::Err(e) => api_url(self.root_spec(), endpoint@) is None && e is Url,
            },
    {
        let prefix = match join_url(self.root.as_str(), "api/") {
            Option::Some(p) => p,
            Option::None => {
                return Result::Err(Error::Url);
            },
        };
        let url = match join_url(prefix.as_str(), endpoint) {
            Option::Some(u) => u,
            Option::None => {
                return Result::Err(Error::Url);
            },
        };
        Result::Ok(ApiRequest { method, url, authorization: self.api_key.to_header() })
    }
}

/// Concrete client implementation. This is not public, so callers cannot
/// rely on its internal structure.
enum Inner {
    Saas(Saas),
    Appliance(Appliance),
}

/// What a maintenance check decides: either the client can keep making
/// requests as it is, or the described exchange must be performed and its
/// token installed.
pub enum MaintenanceAction {
    Ready,
    Renew(TokenRequest),
}

/// A client for either the hosted REST API or a specific appliance.
///
/// The two APIs overlap strongly, so most code written for one works
/// unmodified for the other; functions can accept `Client` to stay
/// agnostic about which one they talk to.
pub struct Client {
    inner: Inner,
}

impl Client {
    /// Whether this client talks to a hosted tenant.
    pub closed spec fn is_saas_spec(self) -> bool {
        self.inner is Saas
    }

    /// The hosted client behind this one.
    pub closed spec fn saas_spec(self) -> Saas
        recommends
            self.is_saas_spec(),
    {
        self.inner->Saas_0
    }

    /// The appliance client behind this one.
    pub closed spec fn appliance_spec(self) -> Appliance
        recommends
            !self.is_saas_spec(),
    {
        self.inner->Appliance_0
    }

    /// Create a new client for a hosted tenant, from a first exchanged
    /// token.
    pub fn new_saas(domain: &str, id: String, secret: String, token: SaasAccessToken) -> (r:
        Result<Client, SaasConnectError>)
        ensures
            match r {
                Result::Ok(c) => c.is_saas_spec() && host_base(domain@) == Option::Some(
                    c.saas_spec().root_spec(),
                ) && c.saas_spec().id_spec() == id@ && c.saas_spec().secret_spec() == secret@
                    && c.saas_spec().token() == token,
                Result::Err(e) => host_base(domain@) is None && e is InvalidDomain,
            },
    {
        match Saas::new(domain, id, secret, token) {
            Result::Ok(s) => Result::Ok(Client { inner: Inner::Saas(s) }),
            Result::Err(e) => Result::Err(e),
        }
    }

    /// Create a new client for a specific appliance.
    pub fn new_appliance(host: &str, api_key: ApiKey) -> (r: Result<Client, ApplianceClientError>)
        ensures
            match r {
                Result::Ok(c) => !c.is_saas_spec() && host_base(host@) == Option::Some(
                    c.appliance_spec().root_spec(),
                ) && c.appliance_spec().key_spec() == api_key@,
                Result::Err(e) => host_base(host@) is None && e is InvalidHost,
            },
    {
        match Appliance::new(host, api_key) {
            Result::Ok(a) => Result::Ok(Client { inner: Inner::Appliance(a) }),
            Result::Err(e) => Result::Err(e),
        }
    }

    /// Check if the client is talking to a hosted tenant.
    pub fn is_saas(&self) -> (r: bool)
        ensures
            r == self.is_saas_spec(),
    {
        match &self.inner {
            Inner::Saas(_) => true,
            Inner::Appliance(_) => false,
        }
    }

    /// Check if the client is talking to a specific appliance.
    pub fn is_appliance(&self) -> (r: bool)
        ensures
            r == !self.is_saas_spec(),
    {
        !self.is_saas()
    }

    /// Describes a request to the specified endpoint using the specified
    /// method, with whichever authorization this client carries.
    pub fn request(&self, method: Method, endpoint: &str) -> (r: Result<ApiRequest, Error>)
        ensures
            self.is_saas_spec() ==> match r {
                Result::Ok(req) => api_url(self.saas_spec().root_spec(), endpoint@)
                    == Option::Some(req.url@) && req.method == method && req.authorization@
                    == "Bearer "@ + self.saas_spec().token().token(),
                Result::Err(e) => api_url(self.saas_spec().root_spec(), endpoint@) is None
                    && e is Url,
            },
            !self.is_saas_spec() ==> match r {
                Result::Ok(req) => api_url(self.appliance_spec().root_spec(), endpoint@)
                    == Option::Some(req.url@) && req.method == method && req.authorization@
                    == header_prefix() + self.appliance_spec().key_spec(),
                Result::Err(e) => api_url(self.appliance_spec().root_spec(), endpoint@) is None
                    && e is Url,
            },
    {
        match &self.inner {
            Inner::Saas(c) => c.request(method, endpoint),
            Inner::Appliance(c) => c.request(method, endpoint),
        }
    }

    /// Make a `GET` request description for the specified endpoint: a thin
    /// alias for `request` with that method.
    pub fn get(&self, endpoint: &str) -> (r: Result<ApiRequest, Error>)
        ensures
            self.is_saas_spec() ==> match r {
                Result::Ok(req) => api_url(self.saas_spec().root_spec(), endpoint@)
                    == Option::Some(req.url@) && req.method == Method::Get && req.authorization@
                    == "Bearer "@ + self.saas_spec().token().token(),
                Result::Err(e) => api_url(self.saas_spec().root_spec(), endpoint@) is None
                    && e is Url,
            },
            !self.is_saas_spec() ==> match r {
                Result::Ok(req) => api_url(self.appliance_spec().root_spec(), endpoint@)
                    == Option::Some(req.url@) && req.method == Method::Get && req.authorization@
                    == header_prefix() + self.appliance_spec().key_spec(),
                Result::Err(e) => api_url(self.appliance_spec().root_spec(), endpoint@) is None
                    && e is Url,
            },
    {
        self.request(Method::Get, endpoint)
    }

    /// Make a `POST` request description for the specified endpoint: a thin
    /// alias for `request` with that method.
    pub fn post(&self, endpoint: &str) -> (r: Result<ApiRequest, Error>)
        ensures
            self.is_saas_spec() ==> match r {
                Result::Ok(req) => api_url(self.saas_spec().root_spec(), endpoint@)
                    == Option::Some(req.url@) && req.method == Method::Post && req.authorization@
                    == "Bearer "@ + self.saas_spec().token().token(),
                Result::Err(e) => api_url(self.saas_spec().root_spec(), endpoint@) is None
                    && e is Url,
            },
            !self.is_saas_spec() ==> match r {
                Result::Ok(req) => api_url(self.appliance_spec().root_spec(), endpoint@)
                    == Option::Some(req.url@) && req.method == Method::Post && req.authorization@
                    == header_prefix() + self.appliance_spec().key_spec(),
                Result::Err(e) => api_url(self.appliance_spec().root_spec(), endpoint@) is None
                    && e is Url,
            },
    {
        self.request(Method::Post, endpoint)
    }

    /// Make a `PUT` request description for the specified endpoint: a thin
    /// alias for `request` with that method.
    pub fn put(&self, endpoint: &str) -> (r: Result<ApiRequest, Error>)
        ensures
            self.is_saas_spec() ==> match r {
                Result::Ok(req) => api_url(self.saas_spec().root_spec(), endpoint@)
                    == Option::Some(req.url@) && req.method == Method::Put && req.authorization@
                    == "Bearer "@ + self.saas_spec().token().token(),
                Result::Err(e) => api_url(self.saas_spec().root_spec(), endpoint@) is None
                    && e is Url,
            },
            !self.is_saas_spec() ==> match r {
                Result::Ok(req) => api_url(self.appliance_spec().root_spec(), endpoint@)
                    == Option::Some(req.url@) && req.method == Method::Put && req.authorization@
                    == header_prefix() + self.appliance_spec().key_spec(),
                Result::Err(e) => api_url(self.appliance_spec().root_spec(), endpoint@) is None
                    && e is Url,
            },
    {
        self.request(Method::Put, endpoint)
    }

    /// Make a `PATCH` request description for the specified endpoint: a
    /// thin alias for `request` with that method.
    pub fn patch(&self, endpoint: &str) -> (r: Result<ApiRequest, Error>)
        ensures
            self.is_saas_spec() ==> match r {
                Result::Ok(req) => api_url(self.saas_spec().root_spec(), endpoint@)
                    == Option::Some(req.url@) && req.method == Method::Patch
                    && req.authorization@ == "Bearer "@ + self.saas_spec().token().token(),
                Result::Err(e) => api_url(self.saas_spec().root_spec(), endpoint@) is None
                    && e is Url,
            },
            !self.is_saas_spec() ==> match r {
                Result::Ok(req) => api_url(self.appliance_spec().root_spec(), endpoint@)
                    == Option::Some(req.url@) && req.method == Method::Patch
                    && req.authorization@ == header_prefix() + self.appliance_spec().key_spec(),
                Result::Err(e) => api_url(self.appliance_spec().root_spec(), endpoint@) is None
                    && e is Url,
            },
    {
        self.request(Method::Patch, endpoint)
    }

    /// Make a `DELETE` request description for the specified endpoint: a
    /// thin alias for `request` with that method.
    pub fn delete(&self, endpoint: &str) -> (r: Result<ApiRequest, Error>)
        ensures
            self.is_saas_spec() ==> match r {
                Result::Ok(req) => api_url(self.saas_spec().root_spec(), endpoint@)
                    == Option::Some(req.url@) && req.method == Method::Delete
                    && req.authorization@ == "Bearer "@ + self.saas_spec().token().token(),
                Result::Err(e) => api_url(self.saas_spec().root_spec(), endpoint@) is None
                    && e is Url,
            },
            !self.is_saas_spec() ==> match r {
                Result::Ok(req) => api_url(self.appliance_spec().root_spec(), endpoint@)
                    == Option::Some(req.url@) && req.method == Method::Delete
                    && req.authorization@ == header_prefix() + self.appliance_spec().key_spec(),
                Result::Err(e) => api_url(self.appliance_spec().root_spec(), endpoint@) is None
                    && e is Url,
            },
    {
        self.request(Method::Delete, endpoint)
    }

    /// Decides whether the client will continue to be able to make API
    /// requests. For appliance clients this is always so. For hosted
    /// clients, when the held token comes within 300 seconds of the end of
    /// its 3600 second life, the renewal exchange is described; perform it
    /// and hand the new token to [`Client::install_token`]. A clock
    /// reading before the token's own issuance instant reports the token
    /// fresh rather than underflowing.
    pub fn maintain_access(&self, now_ms: u64) -> (r: Result<MaintenanceAction, Error>)
        ensures
            match r {
                Result::Ok(a) => match a {
                    MaintenanceAction::Ready => !self.is_saas_spec() || now_ms
                        < self.saas_spec().token().issued_at_ms() || now_ms
                        - self.saas_spec().token().issued_at_ms() + 300_000 < 3_600_000,
                    MaintenanceAction::Renew(t) => self.is_saas_spec() && now_ms
                        >= self.saas_spec().token().issued_at_ms() && now_ms
                        - self.saas_spec().token().issued_at_ms() + 300_000 >= 3_600_000
                        && url_joined(self.saas_spec().root_spec(), "oauth2/token"@)
                        == Option::Some(t.url@) && t.basic_id@ == self.saas_spec().id_spec()
                        && t.basic_secret@ == self.saas_spec().secret_spec(),
                },
                Result::Err(e) => self.is_saas_spec() && url_joined(
                    self.saas_spec().root_spec(),
                    "oauth2/token"@,
                ) is None && e is Url,
            },
    {
        match &self.inner {
            Inner::Saas(c) => {
                if now_ms >= c.access_token.issued_at() && c.access_token.expires_in_next(
                    now_ms,
                    300_000,
                ) {
                    match c.renew_request() {
                        Result::Ok(t) => Result::Ok(MaintenanceAction::Renew(t)),
                        Result::Err(e) => Result::Err(e),
                    }
                } else {
                    Result::Ok(MaintenanceAction::Ready)
                }
            },
            Inner::Appliance(_) => Result::Ok(MaintenanceAction::Ready),
        }
    }

    /// Installs a renewed token on a hosted client; an appliance client is
    /// left untouched.
    pub fn install_token(&mut self, token: SaasAccessToken)
        ensures
            old(self).is_saas_spec() ==> (final(self).is_saas_spec()
                && final(self).saas_spec().token() == token
                && final(self).saas_spec().root_spec() == old(self).saas_spec().root_spec()
                && final(self).saas_spec().id_spec() == old(self).saas_spec().id_spec()
                && final(self).saas_spec().secret_spec() == old(self).saas_spec().secret_spec()),
            !old(self).is_saas_spec() ==> *final(self) == *old(self),
    {
        match &mut self.inner {
            Inner::Saas(c) => {
                c.install_token(token);
            },
            Inner::Appliance(_) => {},
        }
    }
}

} // verus!
