//! Plugin management requests.

use vstd::prelude::*;
use crate::routes::scim::JsonValue;
use crate::text::{chars_of, owned, trim_chars, trimmed};

verus! {

#[derive(Debug)]
pub struct PluginResponse {
    pub id: String,
    pub name: String,
    pub description: Option<String>,
    pub version: String,
    pub author: Option<String>,
    pub homepage: Option<String>,
    pub license: Option<String>,
    pub extension_points: Vec<String>,
    pub manifest: Option<JsonValue>,
    pub runtime_type: String,
    pub entry_point: Option<String>,
    pub enabled: bool,
    pub installed_at: String,
    pub updated_at: String,
}

#[derive(Debug)]
pub struct CreatePluginBody {
    pub name: String,
    pub description: Option<String>,
    pub version: String,
    pub author: Option<String>,
    pub homepage: Option<String>,
    pub license: Option<String>,
    pub extension_points: Option<Vec<String>>,
    pub manifest: Option<JsonValue>,
    pub runtime_type: Option<String>,
    pub entry_point: Option<String>,
    pub enabled: Option<bool>,
}

#[derive(Debug)]
pub struct UpdatePluginBody {
    pub description: Option<String>,
    pub version: Option<String>,
    pub author: Option<String>,
    pub homepage: Option<String>,
    pub license: Option<String>,
    pub extension_points: Option<Vec<String>>,
    pub manifest: Option<JsonValue>,
    pub entry_point: Option<String>,
    pub enabled: Option<bool>,
}

#[derive(Debug)]
pub struct InvokeHookRequest {
    pub hook: String,
    pub input: JsonValue,
    pub timeout_ms: u64,
}

#[derive(Debug)]
pub struct InvokeHookResponse {
    pub results: Vec<JsonValue>,
    pub hook: String,
    pub plugins_invoked: usize,
}

#[derive(Debug)]
pub struct PluginQuery {
    pub enabled: Option<bool>,
    pub runtime_type: Option<String>,
    pub limit: Option<i64>,
    pub offset: Option<i64>,
}

/// The hook timeout, in milliseconds, used when an invocation gives none.
pub fn default_timeout() -> (r: u64)
    ensures
        r == 5000,
{
    5000
}

/// A plugin needs a name and a version that are not blank, checked in that
/// order.
pub fn validate_plugin_fields(name: &str, version: &str) -> (r: Result<(), String>)
    ensures
        trimmed(name@).len() == 0 ==> (r matches Err(e) && e@ == "Plugin name is required"@),
        trimmed(name@).len() > 0 && trimmed(version@).len() == 0 ==> (r matches Err(e) && e@
            == "Plugin version is required"@),
        trimmed(name@).len() > 0 && trimmed(version@).len() > 0 ==> r is Ok,
{
    let n = chars_of(name);
    if trim_chars(n.as_slice()).len() == 0 {
        return Err(owned("Plugin name is required"));
    }
    let v = chars_of(version);
    if trim_chars(v.as_slice()).len() == 0 {
        return Err(owned("Plugin version is required"));
    }
    Ok(())
}

} // verus!
