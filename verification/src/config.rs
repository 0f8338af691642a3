//! Process configuration assembled from plain values.
//!
//! The surrounding program reads the environment and hands the raw values
//! here; this module only packages them, so the rest of the library can
//! state contracts over the fields.

use vstd::prelude::*;

verus! {

/// Runtime configuration of the bot process.
pub struct Config {
    pub bot_token: String,
    pub data_dir: String,
    pub database_url: Option<String>,
    pub admin_token: String,
    pub directus_url: String,
    pub directus_token: String,
}

/// Builds the configuration record from the raw values read from the
/// environment by the caller.
pub fn config(
    bot_token: String,
    data_dir: String,
    database_url: Option<String>,
    admin_token: String,
    directus_url: String,
    directus_token: String,
) -> (c: Config)
    ensures
        c.bot_token@ == bot_token@,
        c.data_dir@ == data_dir@,
        c.database_url == database_url,
        c.admin_token@ == admin_token@,
        c.directus_url@ == directus_url@,
        c.directus_token@ == directus_token@,
{
    Config { bot_token, data_dir, database_url, admin_token, directus_url, directus_token }
}

} // verus!
