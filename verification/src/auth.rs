//! Sign-in state: the stored access settings, the token's freshness, and
//! what the front end is told about both.

use crate::json::{member, text_member, Json, JsonView};
use crate::text::{
    concat2, replace_all, replace_all_chars, str_eq, string_of, to_chars, trim, trim_chars,
};
use vstd::prelude::*;

verus! {

/// Seconds before its expiry from which a token no longer counts as fresh.
pub const EXPIRY_MARGIN_SECS: i64 = 300;

/// The stored access settings: `mode` is `oauth` or `api_key`.
#[derive(Debug)]
pub struct AuthConfig {
    pub mode: String,
    pub api_key: Option<String>,
    pub api_base: Option<String>,
}

impl Default for AuthConfig {
    fn default() -> (r: Self)
        ensures
            r.mode@ == "oauth"@,
            r.api_key is None,
            r.api_base is None,
    {
        AuthConfig { mode: string_of(&to_chars("oauth")), api_key: None, api_base: None }
    }
}

impl Clone for AuthConfig {
    fn clone(&self) -> (r: Self)
        ensures
            r == *self,
    {
        AuthConfig {
            mode: self.mode.clone(),
            api_key: match &self.api_key {
                Some(k) => Some(k.clone()),
                None => None,
            },
            api_base: match &self.api_base {
                Some(b) => Some(b.clone()),
                None => None,
            },
        }
    }
}

impl AuthConfig {
    /// Whether the settings hold an API key that can be used: the mode is
    /// `api_key` and the key is not empty.
    pub open spec fn has_api_key(&self) -> bool {
        self.mode@ == "api_key"@ && (self.api_key matches Some(k) && k@.len() > 0)
    }

    /// The settings for access by API key. An empty base counts as none.
    pub fn with_api_key(api_key: String, api_base: Option<String>) -> (r: Self)
        ensures
            r.mode@ == "api_key"@,
            r.api_key == Some(api_key),
            r.api_base == (match api_base {
                Some(b) => if b@.len() > 0 {
                    Some(b)
                } else {
                    None
                },
                None => None,
            }),
    {
        let base = match api_base {
            Some(b) => if b.as_str().unicode_len() > 0 {
                Some(b)
            } else {
                None
            },
            None => None,
        };
        AuthConfig { mode: string_of(&to_chars("api_key")), api_key: Some(api_key), api_base: base }
    }

    /// Whether the settings hold an API key that can be used.
    pub fn api_key_valid(&self) -> (r: bool)
        ensures
            r == self.has_api_key(),
    {
        str_eq(self.mode.as_str(), "api_key") && match &self.api_key {
            Some(k) => k.as_str().unicode_len() > 0,
            None => false,
        }
    }
}

/// What the front end is told about the sign-in.
#[derive(Debug)]
pub struct AuthStatus {
    pub is_logged_in: bool,
    pub user: Option<String>,
    /// `oauth`, `api_key` or `none`.
    pub mode: String,
}

/// The sign-in status. A fresh token takes precedence over an API key.
pub fn auth_check_status(oauth_logged_in: bool, config: &AuthConfig) -> (r: AuthStatus)
    ensures
        r.is_logged_in == (oauth_logged_in || config.has_api_key()),
        r.user is Some == r.is_logged_in,
        r.user matches Some(u) ==> u@ == "User"@,
        r.mode@ == (if oauth_logged_in {
            "oauth"@
        } else if config.has_api_key() {
            "api_key"@
        } else {
            "none"@
        }),
{
    let key = config.api_key_valid();
    let logged_in = oauth_logged_in || key;
    let mode = if oauth_logged_in {
        "oauth"
    } else if key {
        "api_key"
    } else {
        "none"
    };
    AuthStatus {
        is_logged_in: logged_in,
        user: if logged_in {
            Some(string_of(&to_chars("User")))
        } else {
            None
        },
        mode: string_of(&to_chars(mode)),
    }
}

/// A stored token. Its expiry is kept in microseconds since the epoch.
#[derive(Debug)]
pub struct OAuthToken {
    pub access_token: String,
    pub refresh_token: String,
    pub expires_at_micros: i64,
    pub scope: String,
    pub token_type: String,
}

/// What the authorization server hands out at the start of a device login.
#[derive(Debug)]
pub struct DeviceAuthorization {
    pub user_code: String,
    pub device_code: String,
    pub verification_uri: String,
    pub verification_uri_complete: String,
    pub expires_in: Option<i32>,
    pub interval: i32,
}

impl Clone for DeviceAuthorization {
    fn clone(&self) -> (r: Self)
        ensures
            r == *self,
    {
        DeviceAuthorization {
            user_code: self.user_code.clone(),
            device_code: self.device_code.clone(),
            verification_uri: self.verification_uri.clone(),
            verification_uri_complete: self.verification_uri_complete.clone(),
            expires_in: self.expires_in,
            interval: self.interval,
        }
    }
}

/// A token is fresh at `now` when it expires more than
/// [`EXPIRY_MARGIN_SECS`] later.
pub open spec fn is_fresh(expires_at_micros: i64, now_micros: i64) -> bool {
    expires_at_micros > now_micros + EXPIRY_MARGIN_SECS * 1_000_000
}

/// Whether a token is fresh at `now`.
pub fn token_is_fresh(expires_at_micros: i64, now_micros: i64) -> (r: bool)
    ensures
        r == is_fresh(expires_at_micros, now_micros),
{
    (expires_at_micros as i128) > (now_micros as i128) + 300_000_000i128
}

/// Whether a user is signed in at the time that the clock shows.
pub fn is_logged_in(token: Option<&OAuthToken>) -> (r: bool)
    ensures
        match token {
            Some(t) => exists|now_micros: i64|
                r == #[trigger] is_fresh(t.expires_at_micros, now_micros),
            None => !r,
        },
{
    let now = crate::clock::to_micros(crate::clock::utc_now());
    is_logged_in_at(token, now)
}

/// Whether a user is signed in at `now`: there is a stored token, and it is
/// fresh.
pub fn is_logged_in_at(token: Option<&OAuthToken>, now_micros: i64) -> (r: bool)
    ensures
        r == (token matches Some(t) && is_fresh(t.expires_at_micros, now_micros)),
{
    match token {
        Some(t) => token_is_fresh(t.expires_at_micros, now_micros),
        None => false,
    }
}

/// How long to wait between two polls for a token: the interval that the
/// server asked for, at least one second.
pub fn poll_interval_secs(auth: &DeviceAuthorization) -> (r: u64)
    ensures
        r == (if auth.interval < 1 {
            1
        } else {
            auth.interval as int
        }),
{
    if auth.interval < 1 {
        1
    } else {
        auth.interval as u64
    }
}

// ---------------------------------------------------------------------------
// The device login
// ---------------------------------------------------------------------------

/// The client id under which the application signs in.
pub open spec fn client_id() -> Seq<char> {
    "17e5f671-d194-4dfb-9706-5516cb48c098"@
}

/// The text of the member with this key, or `default` where there is none
/// that is a string.
pub open spec fn text_or(v: JsonView, key: Seq<char>, default: Seq<char>) -> Seq<char> {
    match text_member(v, key) {
        Some(t) => t,
        None => default,
    }
}

/// The number of the member with this key, where it is a whole number that
/// fits `i64`.
pub open spec fn int_member(v: JsonView, key: Seq<char>) -> Option<i64> {
    match member(v, key) {
        Some(JsonView::Int(i)) => Some(i),
        _ => None,
    }
}

/// Whether the member with this key is a number.
pub open spec fn number_member(v: JsonView, key: Seq<char>) -> bool {
    match member(v, key) {
        Some(JsonView::Int(_)) => true,
        Some(JsonView::UInt(_)) => true,
        Some(JsonView::Real(_)) => true,
        _ => false,
    }
}

fn text_or_default(v: &Json, key: &str, default: &str) -> (r: String)
    ensures
        r@ == text_or(v@, key@, default@),
{
    match v.text_at(key) {
        Some(t) => string_of(&to_chars(t)),
        None => string_of(&to_chars(default)),
    }
}

fn int_at(v: &Json, key: &str) -> (r: Option<i64>)
    ensures
        r == int_member(v@, key@),
{
    match v.get(key) {
        Some(Json::Int(i)) => Some(*i),
        _ => None,
    }
}

/// The client id under which the application signs in.
pub fn oauth_client_id() -> (r: String)
    ensures
        r@ == client_id(),
{
    string_of(&to_chars("17e5f671-d194-4dfb-9706-5516cb48c098"))
}

/// What the server's answer to a request for device authorization holds.
/// A text that is missing is empty; the interval is five seconds where the
/// server names none. Numbers are cut to 32 bits.
pub fn device_authorization(body: &Json) -> (r: DeviceAuthorization)
    ensures
        r.user_code@ == text_or(body@, "user_code"@, ""@),
        r.device_code@ == text_or(body@, "device_code"@, ""@),
        r.verification_uri@ == text_or(body@, "verification_uri"@, ""@),
        r.verification_uri_complete@ == text_or(body@, "verification_uri_complete"@, ""@),
        r.expires_in == (match int_member(body@, "expires_in"@) {
            Some(v) => Some(v as i32),
            None => None,
        }),
        r.interval == (match int_member(body@, "interval"@) {
            Some(v) => v as i32,
            None => 5i32,
        }),
{
    DeviceAuthorization {
        user_code: text_or_default(body, "user_code", ""),
        device_code: text_or_default(body, "device_code", ""),
        verification_uri: text_or_default(body, "verification_uri", ""),
        verification_uri_complete: text_or_default(body, "verification_uri_complete", ""),
        expires_in: match int_at(body, "expires_in") {
            Some(v) => Some(#[verifier::truncate] (v as i32)),
            None => None,
        },
        interval: match int_at(body, "interval") {
            Some(v) => #[verifier::truncate] (v as i32),
            None => 5,
        },
    }
}

/// What a token answer grants. How long the token lives is handed on as
/// the server wrote it; it counts as an hour where the server is silent.
#[derive(Debug)]
pub struct TokenGrant {
    pub access_token: String,
    pub refresh_token: String,
    pub scope: String,
    pub token_type: String,
    pub expires_in: Option<Json>,
}

/// What one poll for the token gave.
#[derive(Debug)]
pub enum PollOutcome {
    /// The user has authorized the device.
    Granted { grant: TokenGrant },
    /// The user has not decided yet: tell the front end, wait, poll again.
    Pending,
    /// The login has failed for good.
    Failed { error: String },
}

/// Seconds that a token lives where the server does not say.
pub const DEFAULT_TOKEN_LIFETIME_SECS: i64 = 3600;

/// Whether a grant is what the answer `body` holds, with `refresh_default`
/// for a refresh token that is missing.
pub open spec fn is_grant_of(grant: TokenGrant, body: JsonView, refresh_default: Seq<char>) -> bool {
    &&& grant.access_token@ == text_or(body, "access_token"@, ""@)
    &&& grant.refresh_token@ == text_or(body, "refresh_token"@, refresh_default)
    &&& grant.scope@ == text_or(body, "scope"@, ""@)
    &&& grant.token_type@ == text_or(body, "token_type"@, "Bearer"@)
    &&& (match grant.expires_in {
        Some(n) => number_member(body, "expires_in"@) && member(body, "expires_in"@) == Some(n@),
        None => !number_member(body, "expires_in"@),
    })
}

/// Why a login failed, by the error that the server names.
pub open spec fn poll_failure(body: JsonView) -> Seq<char> {
    let error = text_or(body, "error"@, "unknown_error"@);
    if error == "expired_token"@ {
        "Device code expired. Please try again."@
    } else if error == "access_denied"@ {
        "Authorization was denied."@
    } else {
        "Authorization failed: "@ + text_or(body, "error_description"@, error)
    }
}

fn clone_number(n: &Json) -> (r: Option<Json>)
    ensures
        match r {
            Some(c) => c@ == n@ && (n@ is Int || n@ is UInt || n@ is Real),
            None => !(n@ is Int || n@ is UInt || n@ is Real),
        },
{
    match n {
        Json::Int(i) => Some(Json::Int(*i)),
        Json::UInt(u) => Some(Json::UInt(*u)),
        Json::Real(t) => Some(Json::Real(t.clone())),
        _ => None,
    }
}

fn grant_from(body: &Json, refresh_default: &str) -> (r: TokenGrant)
    ensures
        is_grant_of(r, body@, refresh_default@),
{
    TokenGrant {
        access_token: text_or_default(body, "access_token", ""),
        refresh_token: text_or_default(body, "refresh_token", refresh_default),
        scope: text_or_default(body, "scope", ""),
        token_type: text_or_default(body, "token_type", "Bearer"),
        expires_in: match body.get("expires_in") {
            Some(n) => clone_number(n),
            None => None,
        },
    }
}

/// Reads one answer to a poll for the token. An answer that succeeded and
/// holds an access token grants it. Any other answer is judged by its
/// error: a pending authorization means to poll again; everything else ends
/// the login.
pub fn poll_for_token(success: bool, body: &Json) -> (r: PollOutcome)
    ensures
        match r {
            PollOutcome::Granted { grant } => success && member(body@, "access_token"@) is Some
                && is_grant_of(grant, body@, ""@),
            PollOutcome::Pending => !(success && member(body@, "access_token"@) is Some)
                && text_or(body@, "error"@, "unknown_error"@) == "authorization_pending"@,
            PollOutcome::Failed { error } => !(success && member(body@, "access_token"@) is Some)
                && text_or(body@, "error"@, "unknown_error"@) != "authorization_pending"@
                && error@ == poll_failure(body@),
        },
{
    if success && body.get("access_token").is_some() {
        return PollOutcome::Granted { grant: grant_from(body, "") };
    }
    let error = text_or_default(body, "error", "unknown_error");
    if str_eq(error.as_str(), "authorization_pending") {
        PollOutcome::Pending
    } else if str_eq(error.as_str(), "expired_token") {
        PollOutcome::Failed { error: string_of(&to_chars("Device code expired. Please try again.")) }
    } else if str_eq(error.as_str(), "access_denied") {
        PollOutcome::Failed { error: string_of(&to_chars("Authorization was denied.")) }
    } else {
        let description = text_or_default(body, "error_description", error.as_str());
        PollOutcome::Failed { error: concat2("Authorization failed: ", description.as_str()) }
    }
}

/// Reads the answer to a refresh. The refresh token stays the old one
/// where the server sends no new one.
pub fn refresh_token(body: &Json, old_token: &str) -> (r: TokenGrant)
    ensures
        is_grant_of(r, body@, old_token@),
{
    grant_from(body, old_token)
}

/// The token that a credentials document holds. It needs the four texts
/// and an expiry that is a number; `expires_at_micros` is that number in
/// microseconds, worked out by the caller.
pub fn load_token(document: &Json, expires_at_micros: Option<i64>) -> (r: Option<OAuthToken>)
    ensures
        r is Some <==> (text_member(document@, "access_token"@) is Some && text_member(
            document@,
            "refresh_token"@,
        ) is Some && number_member(document@, "expires_at"@) && expires_at_micros is Some
            && text_member(document@, "scope"@) is Some && text_member(
            document@,
            "token_type"@,
        ) is Some),
        r matches Some(t) ==> Some(t.access_token@) == text_member(document@, "access_token"@)
            && Some(t.refresh_token@) == text_member(document@, "refresh_token"@) && Some(
            t.expires_at_micros,
        ) == expires_at_micros && Some(t.scope@) == text_member(document@, "scope"@) && Some(
            t.token_type@,
        ) == text_member(document@, "token_type"@),
{
    let access_token = match document.text_at("access_token") {
        Some(t) => string_of(&to_chars(t)),
        None => {
            return None;
        },
    };
    let refresh_token = match document.text_at("refresh_token") {
        Some(t) => string_of(&to_chars(t)),
        None => {
            return None;
        },
    };
    let is_number = match document.get("expires_at") {
        Some(n) => clone_number(n).is_some(),
        None => false,
    };
    if !is_number {
        return None;
    }
    let expires = match expires_at_micros {
        Some(e) => e,
        None => {
            return None;
        },
    };
    let scope = match document.text_at("scope") {
        Some(t) => string_of(&to_chars(t)),
        None => {
            return None;
        },
    };
    let token_type = match document.text_at("token_type") {
        Some(t) => string_of(&to_chars(t)),
        None => {
            return None;
        },
    };
    Some(
        OAuthToken { access_token, refresh_token, expires_at_micros: expires, scope, token_type },
    )
}

/// A token is due for a refresh at `now` when it expires less than
/// [`EXPIRY_MARGIN_SECS`] later.
pub open spec fn is_due(expires_at_micros: i64, now_micros: i64) -> bool {
    expires_at_micros < now_micros + EXPIRY_MARGIN_SECS * 1_000_000
}

/// Whether a token is due for a refresh at `now`.
pub fn needs_refresh(token: &OAuthToken, now_micros: i64) -> (r: bool)
    ensures
        r == is_due(token.expires_at_micros, now_micros),
{
    (token.expires_at_micros as i128) < (now_micros as i128) + 300_000_000i128
}

/// What came of refreshing a token that was due.
#[derive(Debug)]
pub enum RefreshOutcome {
    /// The server granted a new token; `saved` says whether it could be
    /// stored.
    Refreshed { access_token: String, saved: bool },
    /// The refresh failed.
    Failed,
}

/// The access token to use. A token that is not due is used as it is. One
/// that is due is replaced by the refreshed one, if that could be stored;
/// where the refresh failed, the old token is tried once more.
pub fn ensure_fresh_token(token: &OAuthToken, now_micros: i64, refresh: &RefreshOutcome) -> (r:
    Option<String>)
    ensures
        r matches Some(t) ==> t@ == (if !is_due(token.expires_at_micros, now_micros) {
            token.access_token@
        } else {
            match *refresh {
                RefreshOutcome::Refreshed { access_token, saved } => access_token@,
                RefreshOutcome::Failed => token.access_token@,
            }
        }),
        r is None <==> (is_due(token.expires_at_micros, now_micros) && (match *refresh {
            RefreshOutcome::Refreshed { access_token, saved } => !saved,
            RefreshOutcome::Failed => false,
        })),
{
    if !needs_refresh(token, now_micros) {
        return Some(token.access_token.clone());
    }
    match refresh {
        RefreshOutcome::Refreshed { access_token, saved } => {
            if *saved {
                Some(access_token.clone())
            } else {
                None
            }
        },
        RefreshOutcome::Failed => Some(token.access_token.clone()),
    }
}

/// The id of this device: the stored one, trimmed, or else `fresh` without
/// its hyphens.
pub open spec fn device_id_spec(stored: Option<Seq<char>>, fresh: Seq<char>) -> Seq<char> {
    match stored {
        Some(id) => trim(id),
        None => replace_all(fresh, seq!['-'], Seq::empty()),
    }
}

/// The id of this device, given a freshly drawn identifier for the case
/// that none is stored. The flag says whether the id is new and has to be
/// stored.
pub fn device_id_from(stored: Option<&str>, fresh: &str) -> (r: (String, bool))
    ensures
        r.0@ == device_id_spec(
            match stored {
                Some(s) => Some(s@),
                None => None,
            },
            fresh@,
        ),
        r.1 == (stored is None),
{
    match stored {
        Some(id) => (string_of(&trim_chars(&to_chars(id))), false),
        None => {
            let mut hyphen: Vec<char> = Vec::new();
            hyphen.push('-');
            assert(hyphen@ =~= seq!['-']);
            let nothing: Vec<char> = Vec::new();
            let (id, _) = replace_all_chars(&to_chars(fresh), &hyphen, &nothing);
            (string_of(&id), true)
        },
    }
}

/// The id of this device: the stored one, trimmed, or else a random one,
/// which then has to be stored.
pub fn get_or_create_device_id(stored: Option<&str>) -> (r: (String, bool))
    ensures
        r.1 == (stored is None),
        match stored {
            Some(s) => r.0@ == trim(s@),
            None => exists|fresh: Seq<char>|
                r.0@ == #[trigger] device_id_spec(None, fresh),
        },
{
    let fresh = crate::clock::random_uuid();
    device_id_from(stored, fresh.as_str())
}

} // verus!
