//! Management of per-host git identities: a directory of accounts, a codec
//! for remote URLs, and an idempotent markered-stanza editor for the SSH
//! client configuration text.

use vstd::prelude::*;

pub mod config;
pub mod git;
pub mod laws;
pub mod models;
pub mod ssh;
pub mod strutil;
pub mod ui;
pub mod use_cmd;

verus! {

/// The hostname assumed whenever an account leaves its `host` field empty.
pub const DEFAULT_HOST: &'static str = "github.com";

pub fn default_host() -> (r: &'static str)
    ensures
        r@ == DEFAULT_HOST@,
{
    DEFAULT_HOST
}

} // verus!
