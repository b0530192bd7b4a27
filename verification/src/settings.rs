//! The provider configuration consumed when a completion request is built.
//!
//! A [`Settings`] record is constructed once by the host — either from a
//! configuration file it read itself, or from [`Default::default`] when no
//! file could be read — and is treated as immutable afterwards.

use vstd::prelude::*;
use vstd::string::StringExecFns;
use crate::text::{dec_str, u16_to_decimal};

verus! {

/// API credentials, model name and token budget; read-only after load.
pub struct Settings {
    api_base: String,
    api_key: String,
    org_id: String,
    model: String,
    max_tokens: u16,
}

impl Settings {
    /// The base URL of the provider's API.
    pub closed spec fn spec_api_base(&self) -> Seq<char> {
        self.api_base@
    }

    /// The API key handed to the provider.
    pub closed spec fn spec_api_key(&self) -> Seq<char> {
        self.api_key@
    }

    /// The organization identifier handed to the provider.
    pub closed spec fn spec_org_id(&self) -> Seq<char> {
        self.org_id@
    }

    /// The model requested from the provider.
    pub closed spec fn spec_model(&self) -> Seq<char> {
        self.model@
    }

    /// The largest number of tokens an answer may use.
    pub closed spec fn spec_max_tokens(&self) -> u16 {
        self.max_tokens
    }

    /// Builds a settings record from loaded values.
    pub fn new(
        api_base: String,
        api_key: String,
        org_id: String,
        model: String,
        max_tokens: u16,
    ) -> (s: Settings)
        ensures
            s.spec_api_base() == api_base@,
            s.spec_api_key() == api_key@,
            s.spec_org_id() == org_id@,
            s.spec_model() == model@,
            s.spec_max_tokens() == max_tokens,
    {
        Settings { api_base, api_key, org_id, model, max_tokens }
    }

    pub fn get_api_base(&self) -> (r: &str)
        ensures
            r@ == self.spec_api_base(),
    {
        self.api_base.as_str()
    }

    pub fn get_api_key(&self) -> (r: &str)
        ensures
            r@ == self.spec_api_key(),
    {
        self.api_key.as_str()
    }

    pub fn get_org_id(&self) -> (r: &str)
        ensures
            r@ == self.spec_org_id(),
    {
        self.org_id.as_str()
    }

    pub fn get_model(&self) -> (r: &str)
        ensures
            r@ == self.spec_model(),
    {
        self.model.as_str()
    }

    pub fn get_max_tokens(&self) -> (r: u16)
        ensures
            r == self.spec_max_tokens(),
    {
        self.max_tokens
    }
}

impl Default for Settings {
    /// The documented defaults, substituted when no settings file can be
    /// read: the public API base, empty credentials, the `gpt-3.5-turbo`
    /// model and a budget of 512 tokens.
    fn default() -> (s: Settings)
        ensures
            s.spec_api_base() == "https://api.openai.com/v1"@,
            s.spec_api_key() == Seq::<char>::empty(),
            s.spec_org_id() == Seq::<char>::empty(),
            s.spec_model() == "gpt-3.5-turbo"@,
            s.spec_max_tokens() == 512,
    {
        Settings {
            api_base: "https://api.openai.com/v1".to_owned(),
            api_key: String::new(),
            org_id: String::new(),
            model: "gpt-3.5-turbo".to_owned(),
            max_tokens: 512,
        }
    }
}

/// A settings record as a host holds it for the process lifetime.
pub struct GlobalSettings {
    pub settings: Settings,
}

/// The rendered settings snapshot: one `name: value` line per field.
pub open spec fn spec_settings_text(s: &Settings) -> Seq<char> {
    "api_base: "@ + s.spec_api_base() + "\n"@ + "api_key: "@ + s.spec_api_key() + "\n"@
        + "org_id: "@ + s.spec_org_id() + "\n"@ + "model: "@ + s.spec_model() + "\n"@
        + "max_tokens: "@ + dec_str(s.spec_max_tokens() as nat) + "\n"@
}

/// Renders a human-readable snapshot of `settings`.
pub fn get_settings(settings: &Settings) -> (r: String)
    ensures
        r@ == spec_settings_text(settings),
{
    let mut r = String::new();
    r.append("api_base: ");
    r.append(settings.get_api_base());
    r.append("\n");
    r.append("api_key: ");
    r.append(settings.get_api_key());
    r.append("\n");
    r.append("org_id: ");
    r.append(settings.get_org_id());
    r.append("\n");
    r.append("model: ");
    r.append(settings.get_model());
    r.append("\n");
    r.append("max_tokens: ");
    let tokens = u16_to_decimal(settings.get_max_tokens());
    r.append(tokens.as_str());
    r.append("\n");
    proof {
        assert(r@ =~= spec_settings_text(settings));
    }
    r
}

} // verus!
