//! The remote URL codec: decompose a repository remote URL into
//! `(transport, host, owner, repo)` and compose such a triple back into an
//! SSH-alias or HTTPS URL string.

use vstd::prelude::*;

use crate::models::{Account, spec_ssh_host_alias};
use crate::strutil::{spec_find, spec_rfind_char, spec_trim_suffix, spec_trim_char_end, is_prefix,
    find_char, rfind_char, contains_char, starts_with_str, substring, trim_suffix, trim_char_end,
    str_eq};
use crate::config::ssh_host_alias;

verus! {

// ---------------------------------------------------------------------------
// Specification
// ---------------------------------------------------------------------------

/// Strip a `-suffix` whose suffix holds no dot from an SSH host alias,
/// recovering the plain host; a host that is a plain domain is returned
/// unchanged. Best effort: ambiguous for hosts that themselves end in a
/// hyphen-plus-dotless segment.
pub open spec fn spec_strip_alias(raw: Seq<char>) -> Seq<char> {
    match spec_rfind_char(raw, '-') {
        Some(d) => if !raw.subrange(d + 1, raw.len() as int).contains('.') {
            raw.subrange(0, d)
        } else {
            raw
        },
        None => raw,
    }
}

/// Decompose an HTTPS remote URL: drop the scheme and any credential prefix
/// up to the first `@`, trim `.git`, and split the remainder into exactly
/// host, owner and repo.
pub open spec fn spec_parse_https(url: Seq<char>) -> Option<
    (Seq<char>, Seq<char>, Seq<char>, Seq<char>),
> {
    let scheme = "https://"@;
    if is_prefix(scheme, url) {
        let rest0 = url.subrange(scheme.len() as int, url.len() as int);
        let rest1 = match spec_find(rest0, seq!['@'], 0) {
            Some(at) => rest0.subrange(at + 1, rest0.len() as int),
            None => rest0,
        };
        let rest = spec_trim_suffix(rest1, ".git"@);
        match spec_find(rest, seq!['/'], 0) {
            Some(s1) => {
                let host = rest.subrange(0, s1);
                let tail = rest.subrange(s1 + 1, rest.len() as int);
                match spec_find(tail, seq!['/'], 0) {
                    Some(s2) => Some(
                        (
                            "https"@,
                            host,
                            tail.subrange(0, s2),
                            tail.subrange(s2 + 1, tail.len() as int),
                        ),
                    ),
                    None => None,
                }
            },
            None => None,
        }
    } else {
        None
    }
}

/// Decompose a remote URL of either shape. An SSH-form URL is split at the
/// first `:` and first `/`, its `.git` suffix trimmed and its host alias
/// stripped; anything else is tried as HTTPS.
pub open spec fn spec_parse(url: Seq<char>) -> Option<
    (Seq<char>, Seq<char>, Seq<char>, Seq<char>),
> {
    let g = "git@"@;
    if is_prefix(g, url) {
        let rest = url.subrange(g.len() as int, url.len() as int);
        match spec_find(rest, seq![':'], 0) {
            Some(colon) => {
                let raw_host = rest.subrange(0, colon);
                let path = spec_trim_suffix(
                    rest.subrange(colon + 1, rest.len() as int),
                    ".git"@,
                );
                match spec_find(path, seq!['/'], 0) {
                    Some(slash) => Some(
                        (
                            "ssh"@,
                            spec_strip_alias(raw_host),
                            path.subrange(0, slash),
                            path.subrange(slash + 1, path.len() as int),
                        ),
                    ),
                    None => spec_parse_https(url),
                }
            },
            None => spec_parse_https(url),
        }
    } else {
        spec_parse_https(url)
    }
}

/// The SSH remote URL composed from an alias and an owner/repo pair.
pub open spec fn spec_ssh_url(alias: Seq<char>, owner: Seq<char>, repo: Seq<char>) -> Seq<char> {
    "git@"@ + alias + ":"@ + owner + "/"@ + repo + ".git"@
}

/// The HTTPS remote URL composed from a token, host and owner/repo pair;
/// an empty token is left out entirely.
pub open spec fn spec_https_url(
    token: Seq<char>,
    host: Seq<char>,
    owner: Seq<char>,
    repo: Seq<char>,
) -> Seq<char> {
    if token.len() > 0 {
        "https://"@ + token + "@"@ + host + "/"@ + owner + "/"@ + repo + ".git"@
    } else {
        "https://"@ + host + "/"@ + owner + "/"@ + repo + ".git"@
    }
}

// ---------------------------------------------------------------------------
// Executable codec
// ---------------------------------------------------------------------------

/// Strip a dotless `-suffix` from an SSH host alias (see [`spec_strip_alias`]).
pub fn strip_host_alias_suffix(raw_host: &str) -> (r: String)
    ensures
        r@ == spec_strip_alias(raw_host@),
{
    let n = raw_host.unicode_len();
    match rfind_char(raw_host, '-') {
        Some(d) => {
            let suffix = substring(raw_host, d + 1, n);
            if !contains_char(suffix, '.') {
                String::from_str(substring(raw_host, 0, d))
            } else {
                String::from_str(raw_host)
            }
        }
        None => String::from_str(raw_host),
    }
}

/// Decompose an HTTPS remote URL (see [`spec_parse_https`]).
fn parse_https(url: &str) -> (r: Option<(String, String, String, String)>)
    ensures
        r matches Some(t) ==> spec_parse_https(url@) == Some((t.0@, t.1@, t.2@, t.3@)),
        r is None ==> spec_parse_https(url@) is None,
{
    if !starts_with_str(url, "https://") {
        return None;
    }
    let n = url.unicode_len();
    let slen = "https://".unicode_len();
    let rest0 = substring(url, slen, n);
    let r0len = rest0.unicode_len();
    let rest1 = match find_char(rest0, '@', 0) {
        Some(at) => substring(rest0, at + 1, r0len),
        None => rest0,
    };
    let rest = trim_suffix(rest1, ".git");
    let rlen = rest.unicode_len();
    match find_char(rest, '/', 0) {
        Some(s1) => {
            let host = substring(rest, 0, s1);
            let tail = substring(rest, s1 + 1, rlen);
            let tlen = tail.unicode_len();
            match find_char(tail, '/', 0) {
                Some(s2) => Some(
                    (
                        String::from_str("https"),
                        String::from_str(host),
                        String::from_str(substring(tail, 0, s2)),
                        String::from_str(substring(tail, s2 + 1, tlen)),
                    ),
                ),
                None => None,
            }
        }
        None => None,
    }
}

/// Decompose a remote URL into `(transport, host, owner, repo)` strings,
/// where the transport is `"ssh"` or `"https"` (see [`spec_parse`]).
pub fn parse_remote_url(url: &str) -> (r: Option<(String, String, String, String)>)
    ensures
        r matches Some(t) ==> spec_parse(url@) == Some((t.0@, t.1@, t.2@, t.3@)),
        r is None ==> spec_parse(url@) is None,
{
    if starts_with_str(url, "git@") {
        let n = url.unicode_len();
        let glen = "git@".unicode_len();
        let rest = substring(url, glen, n);
        let rest_len = rest.unicode_len();
        match find_char(rest, ':', 0) {
            Some(colon) => {
                let raw_host = substring(rest, 0, colon);
                let path = trim_suffix(substring(rest, colon + 1, rest_len), ".git");
                let plen = path.unicode_len();
                match find_char(path, '/', 0) {
                    Some(slash) => {
                        return Some(
                            (
                                String::from_str("ssh"),
                                strip_host_alias_suffix(raw_host),
                                String::from_str(substring(path, 0, slash)),
                                String::from_str(substring(path, slash + 1, plen)),
                            ),
                        );
                    }
                    None => {}
                }
            }
            None => {}
        }
    }
    parse_https(url)
}

/// Compose the SSH remote URL for an account: always through the account's
/// host alias, never the raw host.
pub fn build_ssh_url(acc: &Account, owner: &str, repo: &str) -> (r: String)
    ensures
        r@ == spec_ssh_url(spec_ssh_host_alias(acc@), owner@, repo@),
{
    let mut r = String::from_str("git@");
    r.append(ssh_host_alias(acc).as_str());
    r.append(":");
    r.append(owner);
    r.append("/");
    r.append(repo);
    r.append(".git");
    r
}

/// Compose the HTTPS remote URL, embedding the token when one is given.
pub fn build_https_url(token: &str, host: &str, owner: &str, repo: &str) -> (r: String)
    ensures
        r@ == spec_https_url(token@, host@, owner@, repo@),
{
    let mut r = String::from_str("https://");
    if !token.is_empty() {
        r.append(token);
        r.append("@");
    }
    r.append(host);
    r.append("/");
    r.append(owner);
    r.append("/");
    r.append(repo);
    r.append(".git");
    r
}

/// The repository's display name: the last path component of the work-tree
/// path, or `"."` when the path is empty or yields no component.
pub open spec fn spec_repo_name(t: Seq<char>) -> Seq<char> {
    if t.len() == 0 {
        "."@
    } else {
        let trimmed = spec_trim_char_end(t, '/');
        if trimmed.len() == 0 {
            "."@
        } else {
            let name = match spec_rfind_char(trimmed, '/') {
                Some(d) => trimmed.subrange(d + 1, trimmed.len() as int),
                None => trimmed,
            };
            if name == ".."@ || name == "."@ {
                "."@
            } else {
                name
            }
        }
    }
}

/// The repository's display name from the work-tree path (see
/// [`spec_repo_name`]).
pub fn repo_name(toplevel: &str) -> (r: String)
    ensures
        r@ == spec_repo_name(toplevel@),
{
    if toplevel.is_empty() {
        return String::from_str(".");
    }
    let trimmed = trim_char_end(toplevel, '/');
    let tlen = trimmed.unicode_len();
    if tlen == 0 {
        return String::from_str(".");
    }
    let name = match rfind_char(trimmed, '/') {
        Some(d) => substring(trimmed, d + 1, tlen),
        None => trimmed,
    };
    if str_eq(name, "..") || str_eq(name, ".") {
        String::from_str(".")
    } else {
        String::from_str(name)
    }
}

} // verus!
