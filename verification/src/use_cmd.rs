//! The identity reconciler: select an account by key, validate the
//! transport flags, and decide per remote whether and how its URL is
//! rewritten to match the chosen account. Pure decisions; running `git` is
//! the caller's concern.

use vstd::prelude::*;

use crate::models::{Account, AccountView, spec_effective_host, spec_ssh_host_alias,
    effective_host};
use crate::config::{Lookup, lookup_post, find_account, ssh_host_alias};
use crate::git::{spec_parse, spec_ssh_url, spec_https_url, parse_remote_url, build_ssh_url,
    build_https_url};
use crate::strutil::{is_prefix, starts_with_str, str_eq};

verus! {

/// Where the chosen identity applies: one repository or the global
/// configuration.
#[derive(Clone, Copy, Debug, PartialEq, Eq, Structural)]
pub enum Scope {
    Local,
    Global,
}

/// What is to happen to one remote.
pub enum RemoteOutcome {
    /// The remote reports no URL; nothing to do.
    SkippedEmpty,
    /// The URL fits neither recognised shape; skipped with a warning.
    SkippedUnrecognized,
    /// The remote is unrelated to the chosen account; left alone.
    SkippedUnrelated,
    /// The URL composed for the account equals the current one.
    Unchanged { fell_back: bool },
    /// The remote is to be set to `url`. `fell_back` warns that SSH was
    /// wanted but the account has no key, so an HTTPS URL was produced.
    Changed { url: String, fell_back: bool },
}

/// The mathematical image of a [`RemoteOutcome`].
pub enum SpecOutcome {
    SkippedEmpty,
    SkippedUnrecognized,
    SkippedUnrelated,
    Unchanged { fell_back: bool },
    Changed { url: Seq<char>, fell_back: bool },
}

impl View for RemoteOutcome {
    type V = SpecOutcome;

    open spec fn view(&self) -> SpecOutcome {
        match self {
            RemoteOutcome::SkippedEmpty => SpecOutcome::SkippedEmpty,
            RemoteOutcome::SkippedUnrecognized => SpecOutcome::SkippedUnrecognized,
            RemoteOutcome::SkippedUnrelated => SpecOutcome::SkippedUnrelated,
            RemoteOutcome::Unchanged { fell_back } => SpecOutcome::Unchanged {
                fell_back: *fell_back,
            },
            RemoteOutcome::Changed { url, fell_back } => SpecOutcome::Changed {
                url: url@,
                fell_back: *fell_back,
            },
        }
    }
}

/// The decision for one remote URL: keep its transport unless one is
/// forced, fall back to HTTPS when SSH is wanted but the account has no
/// key, and report whether the composed URL differs from the current one.
pub open spec fn spec_remote_decision(
    a: AccountView,
    url: Seq<char>,
    force_ssh: bool,
    force_https: bool,
) -> SpecOutcome {
    if url.len() == 0 {
        SpecOutcome::SkippedEmpty
    } else {
        match spec_parse(url) {
            None => SpecOutcome::SkippedUnrecognized,
            Some(p) => {
                let want_ssh0 = if force_ssh {
                    true
                } else if force_https {
                    false
                } else {
                    p.0 == "ssh"@
                };
                let fell_back = want_ssh0 && a.ssh_key.len() == 0;
                let want_ssh = want_ssh0 && !fell_back;
                let new_url = if want_ssh {
                    spec_ssh_url(spec_ssh_host_alias(a), p.2, p.3)
                } else {
                    spec_https_url(a.https_token, p.1, p.2, p.3)
                };
                if new_url == url {
                    SpecOutcome::Unchanged { fell_back }
                } else {
                    SpecOutcome::Changed { url: new_url, fell_back }
                }
            },
        }
    }
}

/// Decide what happens to one remote URL (see [`spec_remote_decision`]).
pub fn remote_decision(acc: &Account, current_url: &str, force_ssh: bool, force_https: bool) -> (r:
    RemoteOutcome)
    requires
        !(force_ssh && force_https),
    ensures
        r@ == spec_remote_decision(acc@, current_url@, force_ssh, force_https),
{
    if current_url.is_empty() {
        return RemoteOutcome::SkippedEmpty;
    }
    match parse_remote_url(current_url) {
        None => RemoteOutcome::SkippedUnrecognized,
        Some(parsed) => {
            let want_ssh0 = if force_ssh {
                true
            } else if force_https {
                false
            } else {
                str_eq(parsed.0.as_str(), "ssh")
            };
            let fell_back = want_ssh0 && acc.ssh_key.as_str().is_empty();
            let want_ssh = want_ssh0 && !fell_back;
            let new_url = if want_ssh {
                build_ssh_url(acc, parsed.2.as_str(), parsed.3.as_str())
            } else {
                build_https_url(
                    acc.https_token.as_str(),
                    parsed.1.as_str(),
                    parsed.2.as_str(),
                    parsed.3.as_str(),
                )
            };
            if str_eq(new_url.as_str(), current_url) {
                RemoteOutcome::Unchanged { fell_back }
            } else {
                RemoteOutcome::Changed { url: new_url, fell_back }
            }
        }
    }
}

/// Is this remote one the chosen account is responsible for: `origin`, a
/// remote whose host and owner match the account, or one already on the
/// account's SSH alias?
pub open spec fn spec_remote_applies(a: AccountView, name: Seq<char>, url: Seq<char>) -> bool {
    ||| name == "origin"@
    ||| (spec_parse(url) matches Some(p) && p.1 == spec_effective_host(a) && p.2 == a.username)
    ||| is_prefix("git@"@ + spec_ssh_host_alias(a) + ":"@, url)
}

/// The outcome for one named remote: the per-URL decision, gated by the
/// responsibility filter.
pub open spec fn spec_update_outcome(
    a: AccountView,
    name: Seq<char>,
    url: Seq<char>,
    force_ssh: bool,
    force_https: bool,
) -> SpecOutcome {
    if url.len() == 0 {
        SpecOutcome::SkippedEmpty
    } else if spec_parse(url) is None {
        SpecOutcome::SkippedUnrecognized
    } else if !spec_remote_applies(a, name, url) {
        SpecOutcome::SkippedUnrelated
    } else {
        spec_remote_decision(a, url, force_ssh, force_https)
    }
}

/// Decide, for every observed remote `(name, url)`, what is to happen to
/// it (see [`spec_update_outcome`]). One undecipherable remote never blocks
/// the others.
pub fn update_matching_remotes(
    acc: &Account,
    remotes: &Vec<(String, String)>,
    force_ssh: bool,
    force_https: bool,
) -> (r: Vec<RemoteOutcome>)
    requires
        !(force_ssh && force_https),
    ensures
        r@.len() == remotes@.len(),
        forall|i: int|
            0 <= i < r@.len() ==> r@[i]@ == spec_update_outcome(
                acc@,
                remotes@[i].0@,
                remotes@[i].1@,
                force_ssh,
                force_https,
            ),
{
    let eff = String::from_str(effective_host(acc));
    let mut alias_prefix = String::from_str("git@");
    alias_prefix.append(ssh_host_alias(acc).as_str());
    alias_prefix.append(":");
    let n = remotes.len();
    let mut r: Vec<RemoteOutcome> = Vec::new();
    let mut i: usize = 0;
    while i < n
        invariant
            i <= n,
            n == remotes@.len(),
            eff@ == spec_effective_host(acc@),
            alias_prefix@ == "git@"@ + spec_ssh_host_alias(acc@) + ":"@,
            !(force_ssh && force_https),
            r@.len() == i,
            forall|j: int|
                0 <= j < i ==> r@[j]@ == spec_update_outcome(
                    acc@,
                    remotes@[j].0@,
                    remotes@[j].1@,
                    force_ssh,
                    force_https,
                ),
        decreases n - i,
    {
        let name = &remotes[i].0;
        let url = &remotes[i].1;
        let outcome = if url.as_str().is_empty() {
            RemoteOutcome::SkippedEmpty
        } else {
            match parse_remote_url(url.as_str()) {
                None => RemoteOutcome::SkippedUnrecognized,
                Some(parsed) => {
                    let applies = str_eq(name.as_str(), "origin") || (str_eq(
                        parsed.1.as_str(),
                        eff.as_str(),
                    ) && str_eq(parsed.2.as_str(), acc.username.as_str())) || starts_with_str(
                        url.as_str(),
                        alias_prefix.as_str(),
                    );
                    if applies {
                        remote_decision(acc, url.as_str(), force_ssh, force_https)
                    } else {
                        RemoteOutcome::SkippedUnrelated
                    }
                }
            }
        };
        r.push(outcome);
        i += 1;
    }
    r
}

/// A user error detected before any mutation.
#[derive(Debug)]
pub enum UseError {
    /// Both transports were forced at once.
    ConflictingTransport,
    /// No account answers the key.
    NotFound,
    /// Several accounts answer the bare username; the candidates' identity
    /// keys are carried for disambiguation.
    Ambiguous(Vec<String>),
}

/// The validated outcome of selecting an identity to apply.
#[derive(Debug)]
pub struct UsePlan {
    /// The chosen account.
    pub account: Account,
    /// Where the identity applies.
    pub scope: Scope,
}

/// Validate the transport flags and select the account for an identity
/// switch. Conflicting flags fail fast, before any lookup; the lookup
/// itself answers exactly as [`find_account`] does.
pub fn cmd_use(
    accounts: &Vec<Account>,
    key: &str,
    global: bool,
    force_ssh: bool,
    force_https: bool,
) -> (r: Result<UsePlan, UseError>)
    ensures
        match r {
            Ok(plan) => !(force_ssh && force_https) && lookup_post(
                accounts@,
                key@,
                Lookup::Found(plan.account),
            ) && plan.scope == (if global {
                Scope::Global
            } else {
                Scope::Local
            }),
            Err(e) => match e {
                UseError::ConflictingTransport => force_ssh && force_https,
                UseError::NotFound => !(force_ssh && force_https) && lookup_post(
                    accounts@,
                    key@,
                    Lookup::NotFound,
                ),
                UseError::Ambiguous(hints) => !(force_ssh && force_https) && lookup_post(
                    accounts@,
                    key@,
                    Lookup::Ambiguous(hints),
                ),
            },
        },
{
    if force_ssh && force_https {
        return Err(UseError::ConflictingTransport);
    }
    match find_account(accounts, key) {
        Lookup::Found(account) => Ok(
            UsePlan {
                account,
                scope: if global {
                    Scope::Global
                } else {
                    Scope::Local
                },
            },
        ),
        Lookup::NotFound => Err(UseError::NotFound),
        Lookup::Ambiguous(hints) => Err(UseError::Ambiguous(hints)),
    }
}

} // verus!
