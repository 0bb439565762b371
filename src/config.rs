//! The tool's settings, as read from its JSON settings file. They are built once at startup
//! and handed to whatever needs them.

use vstd::prelude::*;

use crate::text::concat_str;

verus! {

/// The search API's URL in each environment.
pub struct SearchUrl {
    pub test: String,
    pub prod: String,
    pub oft: String,
}

/// The tool's settings.
pub struct Config {
    pub sql_password: String,
    pub rancher_base_url: String,
    pub search_urls: SearchUrl,
}

/// The page of the Rancher dashboard where a user creates an API key.
pub fn create_key_url(config: &Config) -> (r: String)
    ensures
        r@ == config.rancher_base_url@ + "/dashboard/account/create-key"@,
{
    concat_str(config.rancher_base_url.as_str(), "/dashboard/account/create-key")
}

} // verus!
