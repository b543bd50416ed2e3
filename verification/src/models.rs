//! The account record: one configured hosting-service identity.

use vstd::prelude::*;

verus! {

/// One configured identity. All fields are stored verbatim; an empty `host`
/// stands for the default host wherever it is read.
#[derive(Debug)]
pub struct Account {
    /// Hosting-service login name.
    pub username: String,
    /// Commit author email; may be empty.
    pub email: String,
    /// Hosting-service hostname; empty means the default host.
    pub host: String,
    /// Path to the private key file, or empty when SSH is not configured.
    pub ssh_key: String,
    /// Access token for HTTPS remotes, or empty.
    pub https_token: String,
}

/// The mathematical image of an [`Account`]: its five fields as character
/// sequences.
pub struct AccountView {
    pub username: Seq<char>,
    pub email: Seq<char>,
    pub host: Seq<char>,
    pub ssh_key: Seq<char>,
    pub https_token: Seq<char>,
}

impl View for Account {
    type V = AccountView;

    open spec fn view(&self) -> AccountView {
        AccountView {
            username: self.username@,
            email: self.email@,
            host: self.host@,
            ssh_key: self.ssh_key@,
            https_token: self.https_token@,
        }
    }
}

impl Clone for Account {
    fn clone(&self) -> (r: Self)
        ensures
            r == *self,
    {
        Account {
            username: self.username.clone(),
            email: self.email.clone(),
            host: self.host.clone(),
            ssh_key: self.ssh_key.clone(),
            https_token: self.https_token.clone(),
        }
    }
}

/// The in-memory image of the account record store: the ordered list of
/// configured accounts.
pub struct AccountsFile {
    pub accounts: Vec<Account>,
}

/// A host field with the empty-field default applied.
pub open spec fn spec_effective_host_of(host: Seq<char>) -> Seq<char> {
    if host.len() == 0 {
        crate::DEFAULT_HOST@
    } else {
        host
    }
}

/// The account's host with the empty-field default applied.
pub open spec fn spec_effective_host(a: AccountView) -> Seq<char> {
    spec_effective_host_of(a.host)
}

/// The account's natural identity key, `username@effective-host`.
pub open spec fn spec_account_id(a: AccountView) -> Seq<char> {
    a.username + "@"@ + spec_effective_host(a)
}

/// The derived SSH `Host` pattern, `effective-host-username`.
pub open spec fn spec_ssh_host_alias(a: AccountView) -> Seq<char> {
    spec_effective_host(a) + "-"@ + a.username
}

/// The account's host, with an empty field read as the default host.
pub fn effective_host<'a>(acc: &'a Account) -> (r: &'a str)
    ensures
        r@ == spec_effective_host(acc@),
{
    if acc.host.as_str().is_empty() {
        crate::default_host()
    } else {
        acc.host.as_str()
    }
}

} // verus!
