//! Single sign-on: LDAP, OpenID Connect and SAML.

pub mod ldap_runtime;
pub mod oidc_runtime;
pub mod saml;
pub mod saml_runtime;
