//! The open-banking payment client: its configuration, access-token
//! cache, request targets and errors.

use vstd::prelude::*;
use crate::text::{chars_of, decimal, decimal_text, eq_str, owned, push_str};

verus! {

broadcast use vstd::string::group_string_axioms;

#[derive(Debug, Clone)]
pub struct CreateMandateResponse {
    pub id: String,
    pub status: String,
    pub authorization_url: Option<String>,
}

#[derive(Debug, Clone)]
pub struct MandateStatus {
    pub id: String,
    pub status: String,
    pub authorization_url: Option<String>,
}

#[derive(Debug, Clone)]
pub struct CreatePaymentResponse {
    pub id: String,
    pub status: String,
    pub amount_in_minor: u64,
    pub currency: String,
    pub reference: Option<String>,
}

#[derive(Debug, Clone)]
pub struct PaymentStatusResponse {
    pub id: String,
    pub status: String,
    pub amount_in_minor: u64,
    pub currency: String,
    pub settled_at: Option<String>,
}

/// Why a payment-provider call failed.
#[derive(Debug)]
pub enum TrueLayerError {
    ApiError { status: u16, message: String },
    AuthError(String),
    ConfigError(String),
    RequestError(String),
    Disabled,
}

impl TrueLayerError {
    /// The human-readable message of the error.
    pub fn message(&self) -> (r: String)
        ensures
            r@ == match self {
                TrueLayerError::ApiError { status, message } => "API error "@ + decimal(*status as nat)
                    + ": "@ + message@,
                TrueLayerError::AuthError(m) => "Authentication error: "@ + m@,
                TrueLayerError::ConfigError(m) => "Configuration error: "@ + m@,
                TrueLayerError::RequestError(m) => m@,
                TrueLayerError::Disabled => "TrueLayer is not enabled"@,
            },
    {
        match self {
            TrueLayerError::ApiError { status, message } => {
                let mut r = owned("API error ");
                push_str(&mut r, decimal_text(*status as u64).as_str());
                push_str(&mut r, ": ");
                push_str(&mut r, message.as_str());
                r
            },
            TrueLayerError::AuthError(m) => {
                let mut r = owned("Authentication error: ");
                push_str(&mut r, m.as_str());
                r
            },
            TrueLayerError::ConfigError(m) => {
                let mut r = owned("Configuration error: ");
                push_str(&mut r, m.as_str());
                r
            },
            TrueLayerError::RequestError(m) => m.clone(),
            TrueLayerError::Disabled => owned("TrueLayer is not enabled"),
        }
    }
}

/// The provider settings read from the server configuration.
#[derive(Debug, Clone)]
pub struct TrueLayerConfig {
    pub enabled: bool,
    pub environment: String,
    pub client_id: String,
    pub client_secret: String,
    pub merchant_account_id: String,
    pub webhook_secret: String,
}

/// The API base of an environment: production or, for anything else, the
/// sandbox.
pub open spec fn api_base(environment: Seq<char>) -> Seq<char> {
    if environment == "production"@ {
        "https://api.truelayer.com"@
    } else {
        "https://api.truelayer-sandbox.com"@
    }
}

/// The client is usable when switched on and all of its credentials are set.
pub open spec fn client_enabled(c: TrueLayerConfig) -> bool {
    c.enabled && c.client_id@.len() > 0 && c.client_secret@.len() > 0 && c.merchant_account_id@.len() > 0
}

/// The payment client: credentials, API base and the cached access token
/// with the clock reading (milliseconds) at which it stops being used.
pub struct TrueLayerClient {
    client_id: String,
    client_secret: String,
    base_url: String,
    merchant_account_id: String,
    webhook_secret: String,
    token_cache: Option<(String, u64)>,
    enabled: bool,
}

impl TrueLayerClient {
    pub closed spec fn base_url_view(&self) -> Seq<char> {
        self.base_url@
    }

    pub closed spec fn enabled_view(&self) -> bool {
        self.enabled
    }

    pub closed spec fn cache_view(&self) -> Option<(Seq<char>, u64)> {
        match self.token_cache {
            Some((t, e)) => Some((t@, e)),
            None => None,
        }
    }

    pub closed spec fn credentials_view(&self) -> (Seq<char>, Seq<char>, Seq<char>, Seq<char>) {
        (self.client_id@, self.client_secret@, self.merchant_account_id@, self.webhook_secret@)
    }

    pub fn new(config: &TrueLayerConfig) -> (r: Self)
        ensures
            r.base_url_view() == api_base(config.environment@),
            r.enabled_view() == client_enabled(*config),
            r.cache_view() is None,
            r.credentials_view() == (
                config.client_id@,
                config.client_secret@,
                config.merchant_account_id@,
                config.webhook_secret@,
            ),
    {
        let env = chars_of(config.environment.as_str());
        let base = if eq_str(env.as_slice(), "production") {
            owned("https://api.truelayer.com")
        } else {
            owned("https://api.truelayer-sandbox.com")
        };
        let enabled = config.enabled && chars_of(config.client_id.as_str()).len() > 0 && chars_of(
            config.client_secret.as_str(),
        ).len() > 0 && chars_of(config.merchant_account_id.as_str()).len() > 0;
        TrueLayerClient {
            client_id: config.client_id.clone(),
            client_secret: config.client_secret.clone(),
            base_url: base,
            merchant_account_id: config.merchant_account_id.clone(),
            webhook_secret: config.webhook_secret.clone(),
            token_cache: None,
            enabled,
        }
    }

    pub fn is_enabled(&self) -> (r: bool)
        ensures
            r == self.enabled_view(),
    {
        self.enabled
    }

    pub fn webhook_secret(&self) -> (r: &str)
        ensures
            r@ == self.credentials_view().3,
    {
        self.webhook_secret.as_str()
    }

    /// Every call is refused while the client is disabled.
    pub fn ensure_enabled(&self) -> (r: Result<(), TrueLayerError>)
        ensures
            self.enabled_view() ==> r is Ok,
            !self.enabled_view() ==> r matches Err(TrueLayerError::Disabled),
    {
        if self.enabled {
            Ok(())
        } else {
            Err(TrueLayerError::Disabled)
        }
    }

    /// The cached access token, while it has not expired.
    pub fn cached_token(&self, now_ms: u64) -> (r: Option<String>)
        ensures
            match self.cache_view() {
                Some((t, expires_at)) => if expires_at > now_ms {
                    r matches Some(x) && x@ == t
                } else {
                    r is None
                },
                None => r is None,
            },
    {
        match &self.token_cache {
            Some((t, e)) => if *e > now_ms {
                Some(t.clone())
            } else {
                None
            },
            None => None,
        }
    }

    /// Caches a fresh access token; it is used until a minute before the
    /// provider says it expires.
    pub fn store_token(&mut self, token: String, expires_in_secs: u64, now_ms: u64)
        requires
            now_ms + (if expires_in_secs > 60 { expires_in_secs - 60 } else { 0 }) * 1000 <= u64::MAX,
        ensures
            final(self).cache_view() == Some(
                (
                    token@,
                    (now_ms + (if expires_in_secs > 60 { expires_in_secs - 60 } else { 0 }) * 1000) as u64,
                ),
            ),
            final(self).base_url_view() == old(self).base_url_view(),
            final(self).enabled_view() == old(self).enabled_view(),
            final(self).credentials_view() == old(self).credentials_view(),
    {
        let lifetime = expires_in_secs.saturating_sub(60);
        assert(lifetime * 1000 <= u64::MAX);
        let expires_at = now_ms + lifetime * 1000;
        self.token_cache = Some((token, expires_at));
    }

    /// The fields of the client-credentials token request, in order.
    pub fn token_request_form(&self) -> (r: Vec<(String, String)>)
        ensures
            r@.map_values(|f: (String, String)| (f.0@, f.1@)) == seq![
                ("grant_type"@, "client_credentials"@),
                ("client_id"@, self.credentials_view().0),
                ("client_secret"@, self.credentials_view().1),
                ("scope"@, "payments"@),
            ],
    {
        let mut v: Vec<(String, String)> = Vec::new();
        v.push((owned("grant_type"), owned("client_credentials")));
        v.push((owned("client_id"), self.client_id.clone()));
        v.push((owned("client_secret"), self.client_secret.clone()));
        v.push((owned("scope"), owned("payments")));
        assert(v@.map_values(|f: (String, String)| (f.0@, f.1@)) =~= seq![
            ("grant_type"@, "client_credentials"@),
            ("client_id"@, self.credentials_view().0),
            ("client_secret"@, self.credentials_view().1),
            ("scope"@, "payments"@),
        ]);
        v
    }

    /// The URL of an API path.
    pub fn endpoint(&self, path: &str) -> (r: String)
        ensures
            r@ == self.base_url_view() + path@,
    {
        let mut u = self.base_url.clone();
        push_str(&mut u, path);
        u
    }

    /// The URL of one resource under an API path.
    pub fn resource(&self, path: &str, id: &str) -> (r: String)
        ensures
            r@ == self.base_url_view() + path@ + "/"@ + id@,
    {
        let mut u = self.base_url.clone();
        push_str(&mut u, path);
        push_str(&mut u, "/");
        push_str(&mut u, id);
        u
    }

    /// The merchant account payments are made to.
    pub fn merchant_account_id(&self) -> (r: &str)
        ensures
            r@ == self.credentials_view().2,
    {
        self.merchant_account_id.as_str()
    }
}

/// The reference of a user's payment mandate.
pub fn mandate_reference(user_id: &str) -> (r: String)
    ensures
        r@ == "tachyon-"@ + user_id@,
{
    let mut s = owned("tachyon-");
    push_str(&mut s, user_id);
    s
}

/// The `Authorization` header value of a request.
pub fn bearer_header(token: &str) -> (r: String)
    ensures
        r@ == "Bearer "@ + token@,
{
    let mut s = owned("Bearer ");
    push_str(&mut s, token);
    s
}

/// The error of a response whose status is not a success.
pub fn api_failure(status: u16, body: String) -> (r: TrueLayerError)
    ensures
        r matches TrueLayerError::ApiError { status: s, message: m } && s == status && m == body,
{
    TrueLayerError::ApiError { status, message: body }
}

} // verus!
