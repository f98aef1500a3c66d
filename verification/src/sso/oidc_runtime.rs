//! OpenID Connect authorize and callback requests and responses.

use vstd::prelude::*;
use vstd::utf8::encode_utf8;
use crate::text::{chars_of, owned, push_str};
use crate::totp::{percent_encoded, url_encode};

verus! {

broadcast use vstd::string::group_string_axioms;

/// The claims an identity provider returns for a signed-in user.
#[derive(Debug, Clone)]
pub struct OidcUserInfo {
    pub sub: String,
    pub email: Option<String>,
    pub name: Option<String>,
    pub given_name: Option<String>,
    pub family_name: Option<String>,
    pub picture: Option<String>,
}

#[derive(Debug)]
pub struct OidcAuthorizeQuery {
    pub redirect_url: Option<String>,
    pub state: Option<String>,
}

#[derive(Debug)]
pub struct OidcCallbackQuery {
    pub code: String,
    pub state: Option<String>,
    pub error: Option<String>,
    pub error_description: Option<String>,
}

#[derive(Debug)]
pub struct OidcAuthorizeResponse {
    pub authorization_url: String,
    pub state: String,
}

#[derive(Debug)]
pub struct OidcCallbackResponse {
    pub access_token: String,
    pub token_type: String,
    pub expires_in: u64,
    pub user: OidcUserInfo,
}

/// The message of a callback the identity provider reported an error on.
pub fn idp_error_message(error: &str, description: Option<&str>) -> (r: String)
    ensures
        r@ == "OIDC error: "@ + error@ + match description {
            Some(d) => ": "@ + d@,
            None => Seq::<char>::empty(),
        },
{
    let mut m = owned("OIDC error: ");
    push_str(&mut m, error);
    match description {
        Some(d) => {
            push_str(&mut m, ": ");
            push_str(&mut m, d);
        },
        None => {
            assert(m@ + Seq::<char>::empty() =~= m@);
        },
    }
    m
}

/// The first checks of a callback: an error the provider reported, then a
/// missing state.  Returns the state to validate.
pub fn callback_state(query: &OidcCallbackQuery) -> (r: Result<String, String>)
    ensures
        match query.error {
            Some(e) => r matches Err(m) && m@ == "OIDC error: "@ + e@ + match query.error_description {
                Some(d) => ": "@ + d@,
                None => Seq::<char>::empty(),
            },
            None => match query.state {
                Some(st) => r matches Ok(x) && x@ == st@,
                None => r matches Err(m) && m@ == "Missing required state parameter for CSRF validation"@,
            },
        },
{
    match &query.error {
        Some(e) => {
            let d = match &query.error_description {
                Some(d) => Some(d.as_str()),
                None => None,
            };
            Err(idp_error_message(e.as_str(), d))
        },
        None => match &query.state {
            Some(st) => Ok(st.clone()),
            None => Err(owned("Missing required state parameter for CSRF validation")),
        },
    }
}

/// The outcome of checking a returned state against what the store handed
/// back for it (the stored nonce and redirect URL, if it was stored): the
/// redirect URL when the nonce matches, else the refusal.
pub fn check_csrf_state(stored: Option<(String, Option<String>)>, returned_state: &str) -> (r: Result<
    Option<String>,
    String,
>)
    ensures
        match stored {
            Some((nonce, redirect)) => if nonce@ == returned_state@ {
                r == Ok::<Option<String>, String>(redirect)
            } else {
                r matches Err(m) && m@ == "Invalid or expired CSRF state parameter"@
            },
            None => r matches Err(m) && m@ == "Invalid or expired CSRF state parameter"@,
        },
{
    match stored {
        Some((nonce, redirect)) => {
            let a = chars_of(nonce.as_str());
            let b = chars_of(returned_state);
            if crate::text::chars_eq(a.as_slice(), b.as_slice()) {
                Ok(redirect)
            } else {
                Err(owned("Invalid or expired CSRF state parameter"))
            }
        },
        None => Err(owned("Invalid or expired CSRF state parameter")),
    }
}

/// The discovery document of a provider, under its discovery URL.
pub fn discovery_document_url(discovery_url: &str) -> (r: String)
    ensures
        r@ == if discovery_url@.len() > 0 && discovery_url@.last() == '/' {
            discovery_url@ + ".well-known/openid-configuration"@
        } else {
            discovery_url@ + "/.well-known/openid-configuration"@
        },
{
    let v = chars_of(discovery_url);
    let mut u = owned(discovery_url);
    if v.len() > 0 && v[v.len() - 1] == '/' {
        push_str(&mut u, ".well-known/openid-configuration");
    } else {
        push_str(&mut u, "/.well-known/openid-configuration");
    }
    u
}

/// The words joined by single spaces.
pub open spec fn space_joined(words: Seq<Seq<char>>) -> Seq<char>
    decreases words.len(),
{
    if words.len() == 0 {
        Seq::empty()
    } else if words.len() == 1 {
        words[0]
    } else {
        space_joined(words.drop_last()) + " "@ + words.last()
    }
}

fn join_with_spaces(words: &Vec<String>) -> (r: String)
    ensures
        r@ == space_joined(words@.map_values(|w: String| w@)),
{
    let ghost ws = words@.map_values(|w: String| w@);
    let mut out = String::new();
    let mut i: usize = 0;
    assert(ws.take(0) =~= Seq::<Seq<char>>::empty());
    while i < words.len()
        invariant
            i <= words@.len(),
            ws == words@.map_values(|w: String| w@),
            out@ == space_joined(ws.take(i as int)),
        decreases words@.len() - i,
    {
        assert(ws.take(i as int + 1).drop_last() =~= ws.take(i as int));
        assert(ws.take(i as int + 1).last() == words@[i as int]@);
        if i > 0 {
            push_str(&mut out, " ");
        } else {
            assert(out@ =~= Seq::<char>::empty());
        }
        push_str(&mut out, words[i].as_str());
        proof {
            if i == 0 {
                assert(out@ =~= words@[0]@);
            }
        }
        i = i + 1;
    }
    assert(ws.take(words@.len() as int) =~= ws);
    out
}

/// The URL the user is sent to at the provider: the authorization endpoint
/// with the code flow's parameters, the redirect URI, scopes (joined by
/// spaces) and state percent-encoded.
pub fn authorization_url(
    authorization_endpoint: &str,
    client_id: &str,
    redirect_uri: &str,
    scope: &Vec<String>,
    state: &str,
) -> (r: String)
    ensures
        r@ == authorization_endpoint@ + "?response_type=code&client_id="@ + client_id@
            + "&redirect_uri="@ + percent_encoded(encode_utf8(redirect_uri@)) + "&scope="@
            + percent_encoded(encode_utf8(space_joined(scope@.map_values(|w: String| w@))))
            + "&state="@ + percent_encoded(encode_utf8(state@)),
{
    let scopes = join_with_spaces(scope);
    let mut u = owned(authorization_endpoint);
    push_str(&mut u, "?response_type=code&client_id=");
    push_str(&mut u, client_id);
    push_str(&mut u, "&redirect_uri=");
    push_str(&mut u, url_encode(redirect_uri).as_str());
    push_str(&mut u, "&scope=");
    push_str(&mut u, url_encode(scopes.as_str()).as_str());
    push_str(&mut u, "&state=");
    push_str(&mut u, url_encode(state).as_str());
    u
}

/// The form fields of the authorization-code exchange, in order.
pub fn token_request_form(code: &str, redirect_uri: &str, client_id: &str, client_secret: &str) -> (r: Vec<
    (String, String),
>)
    ensures
        r@.map_values(|f: (String, String)| (f.0@, f.1@)) == seq![
            ("grant_type"@, "authorization_code"@),
            ("code"@, code@),
            ("redirect_uri"@, redirect_uri@),
            ("client_id"@, client_id@),
            ("client_secret"@, client_secret@),
        ],
{
    let mut v: Vec<(String, String)> = Vec::new();
    v.push((owned("grant_type"), owned("authorization_code")));
    v.push((owned("code"), owned(code)));
    v.push((owned("redirect_uri"), owned(redirect_uri)));
    v.push((owned("client_id"), owned(client_id)));
    v.push((owned("client_secret"), owned(client_secret)));
    assert(v@.map_values(|f: (String, String)| (f.0@, f.1@)) =~= seq![
        ("grant_type"@, "authorization_code"@),
        ("code"@, code@),
        ("redirect_uri"@, redirect_uri@),
        ("client_id"@, client_id@),
        ("client_secret"@, client_secret@),
    ]);
    v
}

/// The claims used when the provider's user-info endpoint fails.
pub fn fallback_user_info() -> (r: OidcUserInfo)
    ensures
        r.sub@ == "unknown"@,
        r.email is None && r.name is None && r.given_name is None && r.family_name is None
            && r.picture is None,
{
    OidcUserInfo {
        sub: owned("unknown"),
        email: None,
        name: None,
        given_name: None,
        family_name: None,
        picture: None,
    }
}

/// The provider tag stored with an account signed in through OIDC.
pub fn sso_provider_tag(provider: &str) -> (r: String)
    ensures
        r@ == "oidc:"@ + provider@,
{
    let mut t = owned("oidc:");
    push_str(&mut t, provider);
    t
}

/// The display name of an OIDC account: the provider's name claim, else
/// the subject.
pub fn sso_display_name(info: &OidcUserInfo) -> (r: &str)
    ensures
        r@ == match info.name {
            Some(n) => n@,
            None => info.sub@,
        },
{
    match &info.name {
        Some(n) => n.as_str(),
        None => info.sub.as_str(),
    }
}

/// The lifetime of the issued token: the provider's, else an hour.
pub fn token_lifetime(expires_in: Option<u64>) -> (r: u64)
    ensures
        r == match expires_in {
            Some(e) => e,
            None => 3600,
        },
{
    match expires_in {
        Some(e) => e,
        None => 3600,
    }
}

} // verus!
