//! Application wide settings defined in the configuration file; the
//! unverified outer layer parses the file and hands the values in.

use vstd::prelude::*;

verus! {

/// Application wide settings defined in configuration file.
#[derive(Debug)]
pub struct Settings {
    /// Database url (unused by the in-memory store, kept for the config
    /// file's shape)
    pub database_url: String,
    /// IP address to bind to
    pub host_address: String,
    /// Toggles for enabling and disabling features
    pub features: Features,
    /// Cookie settings
    pub cookie: Cookie,
}

/// Feature toggles
#[derive(Debug)]
pub struct Features {
    /// Allow registering an account
    pub signups: bool,
    /// Allow unregistered users to make comments
    pub guest_comments: bool,
}

/// Cookie related settings
#[derive(Debug)]
pub struct Cookie {
    /// Require HTTPS for cookies
    pub secure: bool,
    /// Restrict cookies to given domain if set
    pub domain: Option<String>,
}

} // verus!
