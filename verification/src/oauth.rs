use vstd::prelude::*;

use crate::hash::{sha256, sha256_digest};
use crate::text::{spec_join, str_eq};
use crate::url::{pair_views, parse_url, text_result, url_parts, url_with_query, url_with_query_text};
use vstd::utf8::encode_utf8;

verus! {

#[derive(Debug, PartialEq, Eq)]
pub enum OAuthError {
    Network(String),
    Timeout(String),
    TokenExpired,
    ExchangeFailed(String),
    InvalidUrl(String),
    InvalidCallback,
    StateMismatch,
    AuthorizationDenied(String),
    Cancelled,
    AlreadyCompleted,
    DeviceUnsupported,
    DeviceExpired,
}

impl OAuthError {
    pub open spec fn spec_message(&self) -> Seq<char> {
        match *self {
            OAuthError::Network(m) => "Network error: "@ + m@,
            OAuthError::Timeout(m) => "OAuth request timed out: "@ + m@,
            OAuthError::TokenExpired => "Token expired and no refresh token available"@,
            OAuthError::ExchangeFailed(m) => "OAuth token exchange failed: "@ + m@,
            OAuthError::InvalidUrl(m) => "Invalid OAuth URL: "@ + m@,
            OAuthError::InvalidCallback => "OAuth callback did not match the expected redirect"@,
            OAuthError::StateMismatch => "OAuth callback state did not match"@,
            OAuthError::AuthorizationDenied(m) => "OAuth authorization was denied: "@ + m@,
            OAuthError::Cancelled => "OAuth flow was cancelled"@,
            OAuthError::AlreadyCompleted => "OAuth flow was already completed"@,
            OAuthError::DeviceUnsupported => "This connection does not expose device authorization"@,
            OAuthError::DeviceExpired => "Device authorization expired"@,
        }
    }

    /// The error as a sentence.
    pub fn message(&self) -> (r: String)
        ensures
            r@ == self.spec_message(),
    {
        match self {
            OAuthError::Network(m) => String::from_str("Network error: ").concat(m.as_str()),
            OAuthError::Timeout(m) => String::from_str("OAuth request timed out: ").concat(
                m.as_str(),
            ),
            OAuthError::TokenExpired => String::from_str(
                "Token expired and no refresh token available",
            ),
            OAuthError::ExchangeFailed(m) => String::from_str("OAuth token exchange failed: ").concat(
                m.as_str(),
            ),
            OAuthError::InvalidUrl(m) => String::from_str("Invalid OAuth URL: ").concat(m.as_str()),
            OAuthError::InvalidCallback => String::from_str(
                "OAuth callback did not match the expected redirect",
            ),
            OAuthError::StateMismatch => String::from_str("OAuth callback state did not match"),
            OAuthError::AuthorizationDenied(m) => String::from_str(
                "OAuth authorization was denied: ",
            ).concat(m.as_str()),
            OAuthError::Cancelled => String::from_str("OAuth flow was cancelled"),
            OAuthError::AlreadyCompleted => String::from_str("OAuth flow was already completed"),
            OAuthError::DeviceUnsupported => String::from_str(
                "This connection does not expose device authorization",
            ),
            OAuthError::DeviceExpired => String::from_str("Device authorization expired"),
        }
    }
}

/// The current Unix time in seconds, by `chrono::Utc::now().timestamp()`;
/// it depends on the clock, so nothing is stated of it.
#[verifier::external_body]
pub(crate) fn now_timestamp() -> (r: i64) {
    chrono::Utc::now().timestamp()
}

/// A fresh random identifier, by `uuid::Uuid::new_v4().simple()`: 32
/// hexadecimal digits, different on each call.
#[verifier::external_body]
fn random_token() -> (r: String)
    ensures
        r@.len() == 32,
{
    uuid::Uuid::new_v4().simple().to_string()
}

/// The character of a six-bit value in the URL-safe base64 alphabet
/// (RFC 4648, section 5): `A`-`Z`, `a`-`z`, `0`-`9`, `-` and `_`.
pub open spec fn base64_url_char(n: int) -> char {
    if n < 26 {
        (65 + n) as char
    } else if n < 52 {
        (97 + n - 26) as char
    } else if n < 62 {
        (48 + n - 52) as char
    } else if n == 62 {
        '-'
    } else {
        '_'
    }
}

/// The URL-safe base64 text of bytes without padding (RFC 4648, sections 4
/// and 5), as the `base64` crate's `URL_SAFE_NO_PAD` engine writes it: each
/// group of three bytes gives four characters, and a last group of one or
/// two bytes gives two or three.
pub open spec fn spec_base64_url(bytes: Seq<u8>) -> Seq<char>
    decreases bytes.len(),
{
    if bytes.len() == 0 {
        Seq::empty()
    } else if bytes.len() == 1 {
        seq![base64_url_char((bytes[0] as int) / 4), base64_url_char(((bytes[0] as int) % 4) * 16)]
    } else if bytes.len() == 2 {
        seq![
            base64_url_char((bytes[0] as int) / 4),
            base64_url_char(((bytes[0] as int) % 4) * 16 + (bytes[1] as int) / 16),
            base64_url_char(((bytes[1] as int) % 16) * 4),
        ]
    } else {
        seq![
            base64_url_char((bytes[0] as int) / 4),
            base64_url_char(((bytes[0] as int) % 4) * 16 + (bytes[1] as int) / 16),
            base64_url_char(((bytes[1] as int) % 16) * 4 + (bytes[2] as int) / 64),
            base64_url_char((bytes[2] as int) % 64),
        ] + spec_base64_url(bytes.subrange(3, bytes.len() as int))
    }
}

/// Encodes bytes with `base64`'s `URL_SAFE_NO_PAD` engine.
#[verifier::external_body]
fn base64_url_no_pad(bytes: &Vec<u8>) -> (r: String)
    ensures
        r@ == spec_base64_url(bytes@),
{
    base64::Engine::encode(&base64::engine::general_purpose::URL_SAFE_NO_PAD, bytes)
}

/// Access and refresh tokens, with when the access token expires.
#[derive(PartialEq, Eq)]
pub struct OAuthTokens {
    pub access_token: String,
    pub refresh_token: Option<String>,
    pub expires_at_timestamp: i64,
    pub token_type: String,
}

impl Clone for OAuthTokens {
    fn clone(&self) -> (r: Self)
        ensures
            r == *self,
    {
        OAuthTokens {
            access_token: self.access_token.clone(),
            refresh_token: crate::evidence::clone_opt_string(&self.refresh_token),
            expires_at_timestamp: self.expires_at_timestamp,
            token_type: self.token_type.clone(),
        }
    }
}

impl OAuthTokens {
    /// Whether the access token counts as expired at Unix time `now`.
    pub open spec fn expired_at(&self, now: i64) -> bool {
        now >= self.expires_at_timestamp
    }

    /// Whether the access token has expired at time `now`.
    pub fn is_expired_at(&self, now: i64) -> (r: bool)
        ensures
            r == self.expired_at(now),
    {
        now >= self.expires_at_timestamp
    }

    /// Whether the access token has expired now, by the clock: the answer for
    /// the moment the clock was read.
    pub fn is_expired(&self) -> (r: bool)
        ensures
            exists|now: i64| r == #[trigger] self.expired_at(now),
    {
        let now: i64 = now_timestamp();
        let r = self.is_expired_at(now);
        assert(r == self.expired_at(now));
        r
    }
}

/// How tokens read in a log: both tokens replaced by `[redacted]`, so the
/// text depends only on whether a refresh token is held, the expiry and the
/// token type.
pub open spec fn spec_redacted_tokens(has_refresh: bool, expires_at: i64, token_type: Seq<char>) -> Seq<char> {
    "OAuthTokens { access_token: \"[redacted]\", refresh_token: "@ + (if has_refresh {
        "Some(\"[redacted]\")"@
    } else {
        "None"@
    }) + ", expires_at_timestamp: "@ + crate::text::spec_signed_decimal(expires_at as int)
        + ", token_type: \""@ + token_type + "\" }"@
}

impl OAuthTokens {
    /// The tokens as a log may show them, with no secret in the text.
    pub fn redacted(&self) -> (r: String)
        ensures
            r@ == spec_redacted_tokens(
                self.refresh_token is Some,
                self.expires_at_timestamp,
                self.token_type@,
            ),
    {
        let mut out = String::from_str("OAuthTokens { access_token: \"[redacted]\", refresh_token: ");
        match &self.refresh_token {
            Some(_) => out.append("Some(\"[redacted]\")"),
            None => out.append("None"),
        }
        out.append(", expires_at_timestamp: ");
        let n = crate::text::signed_decimal(self.expires_at_timestamp);
        out.append(n.as_str());
        out.append(", token_type: \"");
        out.append(self.token_type.as_str());
        out.append("\" }");
        out
    }
}

/// A token or device endpoint that answers with a non-success status fails
/// the exchange, naming the status. `status_line` is the status as HTTP
/// displays it.
pub fn check_token_status(success: bool, status_line: &str) -> (r: Result<(), OAuthError>)
    ensures
        success ==> r is Ok,
        !success ==> (r matches Err(OAuthError::ExchangeFailed(m)) && m@ == "HTTP "@ + status_line@),
{
    if success {
        Ok(())
    } else {
        Err(OAuthError::ExchangeFailed(String::from_str("HTTP ").concat(status_line)))
    }
}

/// The tokens a token response gives at time `now`: a missing refresh token
/// keeps the previous one, a missing lifetime is an hour, and a missing type
/// is `Bearer`.
pub fn tokens_from_response(
    access_token: String,
    refresh_token: Option<String>,
    expires_in: Option<i64>,
    token_type: Option<String>,
    previous_refresh_token: Option<&str>,
    now: i64,
) -> (r: OAuthTokens)
    requires
        i64::MIN <= now + match expires_in {
            Some(e) => e as int,
            None => 3600,
        } <= i64::MAX,
    ensures
        r.access_token == access_token,
        r.refresh_token == match refresh_token {
            Some(t) => Some(t),
            None => match previous_refresh_token {
                Some(p) => Some(r.refresh_token->0),
                None => None,
            },
        },
        refresh_token is None && previous_refresh_token is Some ==> (r.refresh_token matches Some(t)
            && t@ == previous_refresh_token->0@),
        r.expires_at_timestamp == now + match expires_in {
            Some(e) => e as int,
            None => 3600,
        },
        match token_type {
            Some(t) => r.token_type == t,
            None => r.token_type@ == "Bearer"@,
        },
{
    let refresh = match refresh_token {
        Some(t) => Some(t),
        None => match previous_refresh_token {
            Some(p) => Some(p.to_owned()),
            None => None,
        },
    };
    let lifetime = match expires_in {
        Some(e) => e,
        None => 3600,
    };
    let kind = match token_type {
        Some(t) => t,
        None => String::from_str("Bearer"),
    };
    OAuthTokens {
        access_token,
        refresh_token: refresh,
        expires_at_timestamp: now + lifetime,
        token_type: kind,
    }
}

/// What to do to have fresh tokens.
#[derive(PartialEq, Eq)]
pub enum Freshness {
    /// The tokens are still valid.
    Fresh(OAuthTokens),
    /// Refresh with this refresh token.
    Refresh(String),
}

/// Valid tokens are kept; expired ones are refreshed with their refresh
/// token; expired tokens without one cannot be renewed.
pub fn freshness(tokens: &OAuthTokens, now: i64) -> (r: Result<Freshness, OAuthError>)
    ensures
        now < tokens.expires_at_timestamp ==> r == Ok::<Freshness, OAuthError>(
            Freshness::Fresh(*tokens),
        ),
        now >= tokens.expires_at_timestamp ==> match tokens.refresh_token {
            Some(t) => r == Ok::<Freshness, OAuthError>(Freshness::Refresh(t)),
            None => r == Err::<Freshness, OAuthError>(OAuthError::TokenExpired),
        },
{
    if !tokens.is_expired_at(now) {
        return Ok(Freshness::Fresh(tokens.clone()));
    }
    match &tokens.refresh_token {
        Some(t) => Ok(Freshness::Refresh(t.clone())),
        None => Err(OAuthError::TokenExpired),
    }
}

/// A browser authorization in progress.
pub struct OAuthAuthorization {
    pub authorization_url: String,
    pub state: String,
    redirect_uri: String,
    code_verifier: String,
    cancelled: bool,
    completed: bool,
}

impl OAuthAuthorization {
    pub closed spec fn spec_state(&self) -> Seq<char> {
        self.state@
    }

    pub closed spec fn spec_authorization_url(&self) -> Seq<char> {
        self.authorization_url@
    }

    pub closed spec fn spec_redirect_uri(&self) -> Seq<char> {
        self.redirect_uri@
    }

    pub closed spec fn spec_code_verifier(&self) -> Seq<char> {
        self.code_verifier@
    }

    pub closed spec fn spec_cancelled(&self) -> bool {
        self.cancelled
    }

    pub closed spec fn spec_completed(&self) -> bool {
        self.completed
    }

    pub fn cancel(&mut self)
        ensures
            final(self).spec_cancelled(),
            final(self).spec_completed() == old(self).spec_completed(),
            final(self).spec_state() == old(self).spec_state(),
            final(self).spec_redirect_uri() == old(self).spec_redirect_uri(),
            final(self).spec_code_verifier() == old(self).spec_code_verifier(),
    {
        self.cancelled = true;
    }

    /// Marks the flow done once its tokens were obtained.
    pub fn mark_completed(&mut self)
        ensures
            final(self).spec_completed(),
            final(self).spec_cancelled() == old(self).spec_cancelled(),
            final(self).spec_state() == old(self).spec_state(),
            final(self).spec_redirect_uri() == old(self).spec_redirect_uri(),
            final(self).spec_code_verifier() == old(self).spec_code_verifier(),
    {
        self.completed = true;
    }

    pub fn redirect_uri(&self) -> (r: &str)
        ensures
            r@ == self.spec_redirect_uri(),
    {
        self.redirect_uri.as_str()
    }

    pub fn code_verifier(&self) -> (r: &str)
        ensures
            r@ == self.spec_code_verifier(),
    {
        self.code_verifier.as_str()
    }
}

/// A device authorization in progress.
pub struct DeviceAuthorization {
    pub user_code: String,
    pub verification_uri: String,
    pub verification_uri_complete: Option<String>,
    pub expires_at_timestamp: i64,
    pub interval_secs: u64,
    device_code: String,
    cancelled: bool,
    completed: bool,
}

impl DeviceAuthorization {
    pub closed spec fn spec_user_code(&self) -> Seq<char> {
        self.user_code@
    }

    pub closed spec fn spec_verification_uri(&self) -> Seq<char> {
        self.verification_uri@
    }

    pub closed spec fn spec_verification_uri_complete(&self) -> Option<Seq<char>> {
        crate::url::opt_text(self.verification_uri_complete)
    }

    pub closed spec fn spec_expires_at(&self) -> i64 {
        self.expires_at_timestamp
    }

    pub closed spec fn spec_interval(&self) -> u64 {
        self.interval_secs
    }

    pub closed spec fn spec_device_code(&self) -> Seq<char> {
        self.device_code@
    }

    pub closed spec fn spec_cancelled(&self) -> bool {
        self.cancelled
    }

    pub closed spec fn spec_completed(&self) -> bool {
        self.completed
    }

    /// The authorization a device-code response describes at time `now`:
    /// the polling interval defaults to five seconds and is at least one.
    pub fn from_response(
        device_code: String,
        user_code: String,
        verification_uri: String,
        verification_uri_complete: Option<String>,
        expires_in: i64,
        interval: Option<u64>,
        now: i64,
    ) -> (r: Self)
        requires
            i64::MIN <= now + expires_in <= i64::MAX,
        ensures
            r.spec_device_code() == device_code@,
            r.spec_user_code() == user_code@,
            r.spec_verification_uri() == verification_uri@,
            r.spec_verification_uri_complete() == crate::url::opt_text(verification_uri_complete),
            r.spec_expires_at() == now + expires_in,
            r.spec_interval() == match interval {
                Some(i) => if i > 1 { i } else { 1 },
                None => 5,
            },
            !r.spec_cancelled(),
            !r.spec_completed(),
    {
        let interval_secs = match interval {
            Some(i) => if i > 1 {
                i
            } else {
                1
            },
            None => 5,
        };
        DeviceAuthorization {
            user_code,
            verification_uri,
            verification_uri_complete,
            expires_at_timestamp: now + expires_in,
            interval_secs,
            device_code,
            cancelled: false,
            completed: false,
        }
    }

    pub fn cancel(&mut self)
        ensures
            final(self).spec_cancelled(),
            final(self).spec_completed() == old(self).spec_completed(),
            final(self).spec_device_code() == old(self).spec_device_code(),
            final(self).spec_interval() == old(self).spec_interval(),
            final(self).spec_expires_at() == old(self).spec_expires_at(),
    {
        self.cancelled = true;
    }

    pub fn mark_completed(&mut self)
        ensures
            final(self).spec_completed(),
            final(self).spec_cancelled() == old(self).spec_cancelled(),
            final(self).spec_device_code() == old(self).spec_device_code(),
            final(self).spec_interval() == old(self).spec_interval(),
            final(self).spec_expires_at() == old(self).spec_expires_at(),
    {
        self.completed = true;
    }

    pub fn device_code(&self) -> (r: &str)
        ensures
            r@ == self.spec_device_code(),
    {
        self.device_code.as_str()
    }

    /// Whether a poll may be sent at time `now`: not after cancelling,
    /// completing, or expiry.
    pub fn check_poll(&self, now: i64) -> (r: Result<(), OAuthError>)
        ensures
            self.spec_cancelled() ==> r == Err::<(), OAuthError>(OAuthError::Cancelled),
            !self.spec_cancelled() && self.spec_completed() ==> r == Err::<(), OAuthError>(
                OAuthError::AlreadyCompleted,
            ),
            !self.spec_cancelled() && !self.spec_completed() && now >= self.spec_expires_at()
                ==> r == Err::<(), OAuthError>(OAuthError::DeviceExpired),
            !self.spec_cancelled() && !self.spec_completed() && now < self.spec_expires_at()
                ==> r is Ok,
    {
        if self.cancelled {
            return Err(OAuthError::Cancelled);
        }
        if self.completed {
            return Err(OAuthError::AlreadyCompleted);
        }
        if now >= self.expires_at_timestamp {
            return Err(OAuthError::DeviceExpired);
        }
        Ok(())
    }
}

#[derive(PartialEq, Eq)]
pub enum DevicePollResult {
    Pending { retry_after_secs: u64 },
    Complete(OAuthTokens),
}

/// What an error answer to a device poll means: still pending (or pending
/// with a slower pace), expired, denied, or a failed exchange.
pub fn device_poll_error(error: &str, description: Option<String>, interval_secs: u64) -> (r: Result<
    DevicePollResult,
    OAuthError,
>)
    requires
        interval_secs <= u64::MAX - 5,
    ensures
        error@ == "authorization_pending"@ ==> r == Ok::<DevicePollResult, OAuthError>(
            DevicePollResult::Pending { retry_after_secs: interval_secs },
        ),
        error@ == "slow_down"@ ==> r == Ok::<DevicePollResult, OAuthError>(
            DevicePollResult::Pending { retry_after_secs: (interval_secs + 5) as u64 },
        ),
        error@ == "expired_token"@ ==> r == Err::<DevicePollResult, OAuthError>(
            OAuthError::DeviceExpired,
        ),
        error@ == "access_denied"@ ==> (r matches Err(OAuthError::AuthorizationDenied(m)) && m@
            == match description {
            Some(d) => d@,
            None => "device authorization denied"@,
        }),
        error@ != "authorization_pending"@ && error@ != "slow_down"@ && error@ != "expired_token"@
            && error@ != "access_denied"@ ==> (r matches Err(OAuthError::ExchangeFailed(m)) && m@
            == match description {
            Some(d) => d@,
            None => error@,
        }),
{
    proof {
        reveal_strlit("authorization_pending");
        reveal_strlit("slow_down");
        reveal_strlit("expired_token");
        reveal_strlit("access_denied");
        assert("authorization_pending"@.len() == 21);
        assert("slow_down"@.len() == 9);
        assert("expired_token"@[0] != "access_denied"@[0]);
    }
    if str_eq(error, "authorization_pending") {
        return Ok(DevicePollResult::Pending { retry_after_secs: interval_secs });
    }
    if str_eq(error, "slow_down") {
        return Ok(DevicePollResult::Pending { retry_after_secs: interval_secs + 5 });
    }
    if str_eq(error, "expired_token") {
        return Err(OAuthError::DeviceExpired);
    }
    if str_eq(error, "access_denied") {
        return Err(
            OAuthError::AuthorizationDenied(
                match description {
                    Some(d) => d,
                    None => String::from_str("device authorization denied"),
                },
            ),
        );
    }
    Err(
        OAuthError::ExchangeFailed(
            match description {
                Some(d) => d,
                None => error.to_owned(),
            },
        ),
    )
}

/// The value of the last query pair named `key`, as a map built from the
/// pairs keeps it.
pub open spec fn query_value(pairs: Seq<(Seq<char>, Seq<char>)>, key: Seq<char>) -> Option<Seq<char>>
    decreases pairs.len(),
{
    if pairs.len() == 0 {
        None
    } else if pairs.last().0 == key {
        Some(pairs.last().1)
    } else {
        query_value(pairs.drop_last(), key)
    }
}

fn lookup(pairs: &Vec<(String, String)>, key: &str) -> (r: Option<String>)
    ensures
        crate::url::opt_text(r) == query_value(pair_views(pairs@), key@),
{
    let ghost pv = pair_views(pairs@);
    let mut i: usize = pairs.len();
    assert(pv.take(i as int) =~= pv);
    while i > 0
        invariant
            i <= pairs.len(),
            pv == pair_views(pairs@),
            query_value(pv, key@) == query_value(pv.take(i as int), key@),
        decreases i,
    {
        let k = i - 1;
        proof {
            assert(pv.take(i as int).drop_last() =~= pv.take(k as int));
        }
        if str_eq(pairs[k].0.as_str(), key) {
            return Some(pairs[k].1.clone());
        }
        i = k;
    }
    None
}

/// The query pairs of an authorization request: response type, client,
/// redirect and state; the scopes, space-separated, when there are any; and
/// the S256 code challenge when there is one.
pub open spec fn authorization_pairs(
    client_id: Seq<char>,
    redirect_uri: Seq<char>,
    state: Seq<char>,
    challenge: Option<Seq<char>>,
    scopes: Seq<Seq<char>>,
) -> Seq<(Seq<char>, Seq<char>)> {
    let scope = spec_join(scopes, " "@);
    seq![
        ("response_type"@, "code"@),
        ("client_id"@, client_id),
        ("redirect_uri"@, redirect_uri),
        ("state"@, state),
    ] + (if scope.len() > 0 {
        seq![("scope"@, scope)]
    } else {
        Seq::empty()
    }) + match challenge {
        Some(c) => seq![("code_challenge"@, c), ("code_challenge_method"@, "S256"@)],
        None => Seq::empty(),
    }
}

/// The PKCE challenge of a verifier: the URL-safe base64 of its SHA-256.
pub open spec fn spec_challenge(verifier: Seq<char>) -> Seq<char> {
    spec_base64_url(sha256_digest(encode_utf8(verifier)))
}

pub open spec fn text_views(v: Seq<String>) -> Seq<Seq<char>> {
    v.map_values(|s: String| s@)
}

/// An OAuth client: its identity and endpoints.
pub struct OAuthClient {
    pub client_id: String,
    pub auth_url: String,
    pub token_url: String,
    device_authorization_url: Option<String>,
    timeout_millis: u64,
}

fn join_scopes(scopes: &Vec<String>) -> (r: String)
    ensures
        r@ == spec_join(text_views(scopes@), " "@),
{
    let mut pieces: Vec<Vec<char>> = Vec::new();
    let mut i: usize = 0;
    while i < scopes.len()
        invariant
            i <= scopes.len(),
            crate::text::views(pieces@) == text_views(scopes@).take(i as int),
        decreases scopes.len() - i,
    {
        let ghost before = pieces@;
        pieces.push(crate::text::chars_of(scopes[i].as_str()));
        assert(crate::text::views(pieces@) =~= crate::text::views(before).push(scopes@[i as int]@));
        assert(crate::text::views(pieces@) =~= text_views(scopes@).take(i + 1));
        i = i + 1;
    }
    assert(text_views(scopes@).take(i as int) =~= text_views(scopes@));
    let r = crate::text::join_range(&pieces, 0, pieces.len(), " ");
    assert(crate::text::views(pieces@).subrange(0, pieces@.len() as int) =~= crate::text::views(
        pieces@,
    ));
    r
}

impl OAuthClient {
    pub closed spec fn spec_client_id(&self) -> Seq<char> {
        self.client_id@
    }

    pub closed spec fn spec_auth_url(&self) -> Seq<char> {
        self.auth_url@
    }

    pub closed spec fn spec_token_url(&self) -> Seq<char> {
        self.token_url@
    }

    pub closed spec fn spec_device_url(&self) -> Option<Seq<char>> {
        crate::url::opt_text(self.device_authorization_url)
    }

    pub closed spec fn spec_timeout_millis(&self) -> u64 {
        self.timeout_millis
    }

    /// A client with a 45 second timeout and no device endpoint.
    pub fn new(client_id: &str, auth_url: &str, token_url: &str) -> (r: Self)
        ensures
            r.spec_client_id() == client_id@,
            r.spec_auth_url() == auth_url@,
            r.spec_token_url() == token_url@,
            r.spec_device_url() is None,
            r.spec_timeout_millis() == 45_000,
    {
        OAuthClient {
            client_id: client_id.to_owned(),
            auth_url: auth_url.to_owned(),
            token_url: token_url.to_owned(),
            device_authorization_url: None,
            timeout_millis: 45_000,
        }
    }

    pub fn with_device_authorization_url(self, url: &str) -> (r: Self)
        ensures
            r.spec_client_id() == self.spec_client_id(),
            r.spec_auth_url() == self.spec_auth_url(),
            r.spec_token_url() == self.spec_token_url(),
            r.spec_device_url() == Some(url@),
            r.spec_timeout_millis() == self.spec_timeout_millis(),
    {
        OAuthClient { device_authorization_url: Some(url.to_owned()), ..self }
    }

    pub fn with_timeout(self, timeout_millis: u64) -> (r: Self)
        ensures
            r.spec_client_id() == self.spec_client_id(),
            r.spec_auth_url() == self.spec_auth_url(),
            r.spec_token_url() == self.spec_token_url(),
            r.spec_device_url() == self.spec_device_url(),
            r.spec_timeout_millis() == timeout_millis,
    {
        OAuthClient { timeout_millis, ..self }
    }

    pub fn timeout_millis(&self) -> (r: u64)
        ensures
            r == self.spec_timeout_millis(),
    {
        self.timeout_millis
    }

    /// The device endpoint; clients without one do not expose device
    /// authorization.
    pub fn device_endpoint(&self) -> (r: Result<&str, OAuthError>)
        ensures
            match self.spec_device_url() {
                Some(u) => r matches Ok(s) && s@ == u,
                None => r == Err::<&str, OAuthError>(OAuthError::DeviceUnsupported),
            },
    {
        match &self.device_authorization_url {
            Some(u) => Ok(u.as_str()),
            None => Err(OAuthError::DeviceUnsupported),
        }
    }

    /// The authorization URL for a redirect, state, optional challenge and
    /// scopes; an authorization endpoint the parser refuses is an invalid
    /// URL.
    fn authorization_url(
        &self,
        redirect_uri: &str,
        state: &str,
        challenge: Option<&str>,
        scopes: &Vec<String>,
    ) -> (r: Result<String, OAuthError>)
        ensures
            match url_with_query_text(
                self.spec_auth_url(),
                authorization_pairs(
                    self.spec_client_id(),
                    redirect_uri@,
                    state@,
                    match challenge {
                        Some(c) => Some(c@),
                        None => None,
                    },
                    text_views(scopes@),
                ),
            ) {
                Ok(u) => r matches Ok(s) && s@ == u,
                Err(m) => r matches Err(OAuthError::InvalidUrl(e)) && e@ == m,
            },
            match url_parts(self.spec_auth_url()) {
                Ok(_) => r is Ok,
                Err(m) => r matches Err(OAuthError::InvalidUrl(e)) && e@ == m,
            },
    {
        let scope = join_scopes(scopes);
        let mut pairs: Vec<(String, String)> = vec![
            (String::from_str("response_type"), String::from_str("code")),
            (String::from_str("client_id"), self.client_id.clone()),
            (String::from_str("redirect_uri"), redirect_uri.to_owned()),
            (String::from_str("state"), state.to_owned()),
        ];
        let ghost base = pair_views(pairs@);
        if !scope.as_str().is_empty() {
            pairs.push((String::from_str("scope"), scope));
        }
        let ghost with_scope = pair_views(pairs@);
        match challenge {
            Some(c) => {
                pairs.push((String::from_str("code_challenge"), c.to_owned()));
                pairs.push((String::from_str("code_challenge_method"), String::from_str("S256")));
            },
            None => {},
        }
        proof {
            let expected = authorization_pairs(
                self.spec_client_id(),
                redirect_uri@,
                state@,
                match challenge {
                    Some(c) => Some(c@),
                    None => None,
                },
                text_views(scopes@),
            );
            assert(pair_views(pairs@) =~= expected);
        }
        match url_with_query(self.auth_url.as_str(), &pairs) {
            Ok(u) => Ok(u),
            Err(m) => Err(OAuthError::InvalidUrl(m)),
        }
    }

    /// The authorization URL for a redirect and state, without scopes or a
    /// challenge; when the endpoint cannot be parsed, the query is written
    /// out by hand.
    pub fn get_authorization_url(&self, redirect_uri: &str, state: &str) -> (r: String)
        ensures
            match url_with_query_text(
                self.spec_auth_url(),
                authorization_pairs(self.spec_client_id(), redirect_uri@, state@, None, Seq::empty()),
            ) {
                Ok(u) => r@ == u,
                Err(_) => r@ == self.spec_auth_url() + "?response_type=code&client_id="@ + self.spec_client_id()
                    + "&redirect_uri="@ + redirect_uri@ + "&state="@ + state@,
            },
    {
        let none: Vec<String> = Vec::new();
        assert(text_views(none@) =~= Seq::<Seq<char>>::empty());
        match self.authorization_url(redirect_uri, state, None, &none) {
            Ok(u) => u,
            Err(_) => self.auth_url.clone().concat("?response_type=code&client_id=").concat(
                self.client_id.as_str(),
            ).concat("&redirect_uri=").concat(redirect_uri).concat("&state=").concat(state),
        }
    }

    /// Starts a browser authorization with PKCE: a redirect URI the parser
    /// refuses is invalid, and so is an authorization endpoint it refuses;
    /// otherwise a fresh random state and verifier are drawn and the
    /// authorization URL carries the verifier's challenge.
    pub fn start_authorization(&self, redirect_uri: &str, scopes: &Vec<String>) -> (r: Result<
        OAuthAuthorization,
        OAuthError,
    >)
        ensures
            url_parts(redirect_uri@) matches Err(m) ==> (r matches Err(OAuthError::InvalidUrl(e))
                && e@ == m),
            r matches Ok(a) ==> {
                &&& url_parts(redirect_uri@) is Ok
                &&& a.spec_redirect_uri() == redirect_uri@
                &&& a.spec_state().len() == 32
                &&& a.spec_code_verifier().len() == 64
                &&& !a.spec_cancelled()
                &&& !a.spec_completed()
                &&& url_with_query_text(
                    self.spec_auth_url(),
                    authorization_pairs(
                        self.spec_client_id(),
                        redirect_uri@,
                        a.spec_state(),
                        Some(spec_challenge(a.spec_code_verifier())),
                        text_views(scopes@),
                    ),
                ) == Ok::<Seq<char>, Seq<char>>(a.spec_authorization_url())
            },
            url_parts(redirect_uri@) is Ok ==> match url_parts(self.spec_auth_url()) {
                Ok(_) => r is Ok,
                Err(m) => r matches Err(OAuthError::InvalidUrl(e)) && e@ == m,
            },
    {
        match parse_url(redirect_uri) {
            Ok(_) => {},
            Err(m) => {
                return Err(OAuthError::InvalidUrl(m));
            },
        }
        let state = random_token();
        let verifier = random_token().concat(random_token().as_str());
        let bytes = verifier.as_str().as_bytes();
        let mut buf: Vec<u8> = Vec::new();
        let mut i: usize = 0;
        while i < bytes.len()
            invariant
                i <= bytes@.len(),
                bytes@ == encode_utf8(verifier@),
                buf@ == bytes@.take(i as int),
            decreases bytes@.len() - i,
        {
            buf.push(bytes[i]);
            assert(buf@ =~= bytes@.take(i + 1));
            i = i + 1;
        }
        assert(bytes@.take(i as int) =~= bytes@);
        let challenge = base64_url_no_pad(&sha256(&buf));
        let authorization_url = self.authorization_url(
            redirect_uri,
            state.as_str(),
            Some(challenge.as_str()),
            scopes,
        )?;
        Ok(
            OAuthAuthorization {
                authorization_url,
                state,
                redirect_uri: redirect_uri.to_owned(),
                code_verifier: verifier,
                cancelled: false,
                completed: false,
            },
        )
    }

    /// Checks a browser callback before any token request: the flow must
    /// be open, both URLs must parse, the callback must come back to the
    /// redirect (same scheme, host, port and path), carry no error, carry
    /// the flow's state, and carry a code, which is returned.
    pub fn check_callback(&self, authorization: &OAuthAuthorization, callback_url: &str) -> (r:
        Result<String, OAuthError>)
        ensures
            authorization.spec_cancelled() ==> r == Err::<String, OAuthError>(OAuthError::Cancelled),
            !authorization.spec_cancelled() && authorization.spec_completed() ==> r == Err::<
                String,
                OAuthError,
            >(OAuthError::AlreadyCompleted),
            !authorization.spec_cancelled() && !authorization.spec_completed() ==> match url_parts(
                callback_url@,
            ) {
                Err(m) => r matches Err(OAuthError::InvalidUrl(e)) && e@ == m,
                Ok(cb) => match url_parts(authorization.spec_redirect_uri()) {
                    Err(m) => r matches Err(OAuthError::InvalidUrl(e)) && e@ == m,
                    Ok(ex) => if cb.scheme != ex.scheme || cb.host != ex.host || cb.port != ex.port
                        || cb.path != ex.path {
                        r == Err::<String, OAuthError>(OAuthError::InvalidCallback)
                    } else if query_value(cb.query, "error"@) is Some {
                        r matches Err(OAuthError::AuthorizationDenied(m)) && m@ == match query_value(
                            cb.query,
                            "error_description"@,
                        ) {
                            Some(d) => d,
                            None => query_value(cb.query, "error"@)->0,
                        }
                    } else if query_value(cb.query, "state"@) != Some(authorization.spec_state()) {
                        r == Err::<String, OAuthError>(OAuthError::StateMismatch)
                    } else {
                        match query_value(cb.query, "code"@) {
                            Some(c) => r matches Ok(s) && s@ == c,
                            None => r matches Err(OAuthError::ExchangeFailed(m)) && m@
                                == "callback did not contain a code"@,
                        }
                    },
                },
            },
    {
        if authorization.cancelled {
            return Err(OAuthError::Cancelled);
        }
        if authorization.completed {
            return Err(OAuthError::AlreadyCompleted);
        }
        let callback = match parse_url(callback_url) {
            Ok(u) => u,
            Err(m) => {
                return Err(OAuthError::InvalidUrl(m));
            },
        };
        let expected = match parse_url(authorization.redirect_uri.as_str()) {
            Ok(u) => u,
            Err(m) => {
                return Err(OAuthError::InvalidUrl(m));
            },
        };
        let same_host = match (&callback.host, &expected.host) {
            (Some(a), Some(b)) => str_eq(a.as_str(), b.as_str()),
            (None, None) => true,
            _ => false,
        };
        if !str_eq(callback.scheme.as_str(), expected.scheme.as_str()) || !same_host
            || callback.port != expected.port || !str_eq(
            callback.path.as_str(),
            expected.path.as_str(),
        ) {
            return Err(OAuthError::InvalidCallback);
        }
        match lookup(&callback.query, "error") {
            Some(error) => {
                let message = match lookup(&callback.query, "error_description") {
                    Some(d) => d,
                    None => error,
                };
                return Err(OAuthError::AuthorizationDenied(message));
            },
            None => {},
        }
        let state_ok = match lookup(&callback.query, "state") {
            Some(s) => str_eq(s.as_str(), authorization.state.as_str()),
            None => false,
        };
        if !state_ok {
            return Err(OAuthError::StateMismatch);
        }
        match lookup(&callback.query, "code") {
            Some(code) => Ok(code),
            None => Err(
                OAuthError::ExchangeFailed(String::from_str("callback did not contain a code")),
            ),
        }
    }

    /// The form of an authorization-code exchange, with the PKCE verifier
    /// when there is one.
    pub fn exchange_form(&self, code: &str, redirect_uri: &str, code_verifier: Option<&str>) -> (r: Vec<
        (String, String),
    >)
        ensures
            pair_views(r@) == seq![
                ("grant_type"@, "authorization_code"@),
                ("code"@, code@),
                ("client_id"@, self.spec_client_id()),
                ("redirect_uri"@, redirect_uri@),
            ] + match code_verifier {
                Some(v) => seq![("code_verifier"@, v@)],
                None => Seq::empty(),
            },
    {
        let mut form = vec![
            (String::from_str("grant_type"), String::from_str("authorization_code")),
            (String::from_str("code"), code.to_owned()),
            (String::from_str("client_id"), self.client_id.clone()),
            (String::from_str("redirect_uri"), redirect_uri.to_owned()),
        ];
        match code_verifier {
            Some(v) => {
                form.push((String::from_str("code_verifier"), v.to_owned()));
            },
            None => {},
        }
        proof {
            let expected = seq![
                ("grant_type"@, "authorization_code"@),
                ("code"@, code@),
                ("client_id"@, self.spec_client_id()),
                ("redirect_uri"@, redirect_uri@),
            ] + match code_verifier {
                Some(v) => seq![("code_verifier"@, v@)],
                None => Seq::empty(),
            };
            assert(pair_views(form@) =~= expected);
        }
        form
    }

    /// The form of a refresh request.
    pub fn refresh_form(&self, refresh_token: &str) -> (r: Vec<(String, String)>)
        ensures
            pair_views(r@) == seq![
                ("grant_type"@, "refresh_token"@),
                ("refresh_token"@, refresh_token@),
                ("client_id"@, self.spec_client_id()),
            ],
    {
        let form = vec![
            (String::from_str("grant_type"), String::from_str("refresh_token")),
            (String::from_str("refresh_token"), refresh_token.to_owned()),
            (String::from_str("client_id"), self.client_id.clone()),
        ];
        assert(pair_views(form@) =~= seq![
            ("grant_type"@, "refresh_token"@),
            ("refresh_token"@, refresh_token@),
            ("client_id"@, self.spec_client_id()),
        ]);
        form
    }

    /// The form of a device-code poll.
    pub fn device_poll_form(&self, authorization: &DeviceAuthorization) -> (r: Vec<(String, String)>)
        ensures
            pair_views(r@) == seq![
                ("grant_type"@, "urn:ietf:params:oauth:grant-type:device_code"@),
                ("device_code"@, authorization.spec_device_code()),
                ("client_id"@, self.spec_client_id()),
            ],
    {
        let form = vec![
            (
                String::from_str("grant_type"),
                String::from_str("urn:ietf:params:oauth:grant-type:device_code"),
            ),
            (String::from_str("device_code"), authorization.device_code.clone()),
            (String::from_str("client_id"), self.client_id.clone()),
        ];
        assert(pair_views(form@) =~= seq![
            ("grant_type"@, "urn:ietf:params:oauth:grant-type:device_code"@),
            ("device_code"@, authorization.spec_device_code()),
            ("client_id"@, self.spec_client_id()),
        ]);
        form
    }

    /// The form of a device-authorization request.
    pub fn device_start_form(&self, scopes: &Vec<String>) -> (r: Vec<(String, String)>)
        ensures
            pair_views(r@) == seq![
                ("client_id"@, self.spec_client_id()),
                ("scope"@, spec_join(text_views(scopes@), " "@)),
            ],
    {
        let form = vec![
            (String::from_str("client_id"), self.client_id.clone()),
            (String::from_str("scope"), join_scopes(scopes)),
        ];
        assert(pair_views(form@) =~= seq![
            ("client_id"@, self.spec_client_id()),
            ("scope"@, spec_join(text_views(scopes@), " "@)),
        ]);
        form
    }
}

/// How a failed request reads: a timeout, or else a network error.
pub fn classify_network_error(timed_out: bool, message: String) -> (r: OAuthError)
    ensures
        timed_out ==> r == OAuthError::Timeout(message),
        !timed_out ==> r == OAuthError::Network(message),
{
    if timed_out {
        OAuthError::Timeout(message)
    } else {
        OAuthError::Network(message)
    }
}

} // verus!
