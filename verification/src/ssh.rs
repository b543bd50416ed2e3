//! The SSH configuration stanza manager: render a per-account stanza and
//! insert, replace or delete its uniquely markered region inside the larger
//! configuration text. Pure text transforms; reading and writing the file
//! is the caller's concern.

use vstd::prelude::*;

use crate::models::{Account, AccountView, spec_account_id, spec_effective_host,
    spec_ssh_host_alias, effective_host};
use crate::config::{account_id, ssh_host_alias};
use crate::strutil::{spec_find, spec_trim_char_end, find_sub, substring, trim_char_end};

verus! {

// ---------------------------------------------------------------------------
// Markers and stanza text
// ---------------------------------------------------------------------------

/// The opening marker line for an account's stanza, newline not included.
pub open spec fn spec_marker_start(id: Seq<char>) -> Seq<char> {
    "# >>> git-id: "@ + id + " >>>"@
}

/// The closing marker line for an account's stanza, newline not included.
pub open spec fn spec_marker_end(id: Seq<char>) -> Seq<char> {
    "# <<< git-id: "@ + id + " <<<"@
}

/// The key file named by the stanza: the account's key, or the default
/// `~/.ssh` location derived from the username when none is configured.
pub open spec fn spec_keyfile(a: AccountView) -> Seq<char> {
    if a.ssh_key.len() == 0 {
        "~/.ssh/id_ed25519_"@ + a.username
    } else {
        a.ssh_key
    }
}

/// The complete markered stanza text for one account, final newline
/// included.
pub open spec fn spec_stanza(a: AccountView) -> Seq<char> {
    spec_marker_start(spec_account_id(a)) + "\nHost "@ + spec_ssh_host_alias(a)
        + "\n    HostName "@ + spec_effective_host(a) + "\n    User git\n    IdentityFile "@
        + spec_keyfile(a) + "\n    IdentitiesOnly yes\n"@ + spec_marker_end(spec_account_id(a))
        + "\n"@
}

/// The opening marker line for the given account identity key.
pub fn marker_start(id: &str) -> (r: String)
    ensures
        r@ == spec_marker_start(id@),
{
    let mut r = String::from_str("# >>> git-id: ");
    r.append(id);
    r.append(" >>>");
    r
}

/// The closing marker line for the given account identity key.
pub fn marker_end(id: &str) -> (r: String)
    ensures
        r@ == spec_marker_end(id@),
{
    let mut r = String::from_str("# <<< git-id: ");
    r.append(id);
    r.append(" <<<");
    r
}

/// The default private key path for a username, under the given home
/// directory.
pub fn default_key_path(home: &str, username: &str) -> (r: String)
    ensures
        r@ == home@ + "/.ssh/id_ed25519_"@ + username@,
{
    let mut r = String::from_str(home);
    r.append("/.ssh/id_ed25519_");
    r.append(username);
    r
}

/// The per-user SSH directory under the given home directory.
pub fn ssh_dir(home: &str) -> (r: String)
    ensures
        r@ == home@ + "/.ssh"@,
{
    let mut r = String::from_str(home);
    r.append("/.ssh");
    r
}

/// The SSH client configuration file under the given home directory.
pub fn ssh_config_path(home: &str) -> (r: String)
    ensures
        r@ == home@ + "/.ssh"@ + "/config"@,
{
    let mut r = ssh_dir(home);
    r.append("/config");
    r
}

/// Render the markered stanza for one account (see [`spec_stanza`]).
pub fn make_stanza(acc: &Account) -> (r: String)
    ensures
        r@ == spec_stanza(acc@),
{
    let id = account_id(acc);
    let mut r = marker_start(id.as_str());
    r.append("\nHost ");
    r.append(ssh_host_alias(acc).as_str());
    r.append("\n    HostName ");
    r.append(effective_host(acc));
    r.append("\n    User git\n    IdentityFile ");
    if acc.ssh_key.as_str().is_empty() {
        r.append("~/.ssh/id_ed25519_");
        r.append(acc.username.as_str());
    } else {
        r.append(acc.ssh_key.as_str());
    }
    r.append("\n    IdentitiesOnly yes\n");
    r.append(marker_end(id.as_str()).as_str());
    r.append("\n");
    r
}

// ---------------------------------------------------------------------------
// Markered-region surgery
// ---------------------------------------------------------------------------

/// Does the text contain the given marker anywhere?
pub fn contains_marker(content: &str, marker: &str) -> (r: bool)
    ensures
        r == (spec_find(content@, marker@, 0) is Some),
{
    find_sub(content, marker, 0).is_some()
}

/// The text after replacing one markered region: from the first occurrence
/// of `start`, through the first occurrence of `end` at or after it, plus
/// one trailing newline if present. Unchanged when either marker is missing.
pub open spec fn spec_replace_stanza(
    content: Seq<char>,
    start: Seq<char>,
    end: Seq<char>,
    replacement: Seq<char>,
) -> Seq<char> {
    match spec_find(content, start, 0) {
        None => content,
        Some(s) => match spec_find(content, end, s as nat) {
            None => content,
            Some(e) => {
                let cut = e + end.len();
                let cut2 = if cut < content.len() && content[cut] == '\n' {
                    cut + 1
                } else {
                    cut
                };
                content.subrange(0, s) + replacement + content.subrange(cut2, content.len() as int)
            },
        },
    }
}

/// The text after deleting one markered region, swallowing one trailing and
/// one immediately preceding newline. Unchanged when either marker is
/// missing.
pub open spec fn spec_remove_stanza(
    content: Seq<char>,
    start: Seq<char>,
    end: Seq<char>,
) -> Seq<char> {
    match spec_find(content, start, 0) {
        None => content,
        Some(s) => match spec_find(content, end, s as nat) {
            None => content,
            Some(e) => {
                let cut = e + end.len();
                let cut2 = if cut < content.len() && content[cut] == '\n' {
                    cut + 1
                } else {
                    cut
                };
                let s2 = if s > 0 && content[s - 1] == '\n' {
                    s - 1
                } else {
                    s
                };
                content.subrange(0, s2) + content.subrange(cut2, content.len() as int)
            },
        },
    }
}

/// Replace the markered region of the text (see [`spec_replace_stanza`]).
pub fn replace_stanza(content: &str, start: &str, end: &str, replacement: &str) -> (r: String)
    ensures
        r@ == spec_replace_stanza(content@, start@, end@, replacement@),
{
    let n = content.unicode_len();
    let s = match find_sub(content, start, 0) {
        Some(s) => s,
        None => {
            return String::from_str(content);
        },
    };
    let e = match find_sub(content, end, s) {
        Some(e) => e,
        None => {
            return String::from_str(content);
        },
    };
    let elen = end.unicode_len();
    let cut = e + elen;
    let cut2 = if cut < n && content.get_char(cut) == '\n' {
        cut + 1
    } else {
        cut
    };
    let mut r = String::from_str(substring(content, 0, s));
    r.append(replacement);
    r.append(substring(content, cut2, n));
    r
}

/// Delete the markered region of the text (see [`spec_remove_stanza`]).
/// When the text holds no such region it is returned unchanged; the caller
/// can observe that nothing was removed with [`contains_marker`].
pub fn remove_stanza(content: &str, start: &str, end: &str) -> (r: String)
    ensures
        r@ == spec_remove_stanza(content@, start@, end@),
        spec_find(content@, start@, 0) is None ==> r@ == content@,
{
    let n = content.unicode_len();
    let s = match find_sub(content, start, 0) {
        Some(s) => s,
        None => {
            return String::from_str(content);
        },
    };
    let e = match find_sub(content, end, s) {
        Some(e) => e,
        None => {
            return String::from_str(content);
        },
    };
    let elen = end.unicode_len();
    let cut = e + elen;
    let cut2 = if cut < n && content.get_char(cut) == '\n' {
        cut + 1
    } else {
        cut
    };
    let s2 = if s > 0 && content.get_char(s - 1) == '\n' {
        s - 1
    } else {
        s
    };
    let mut r = String::from_str(substring(content, 0, s2));
    r.append(substring(content, cut2, n));
    r
}

/// The text after bringing one account's stanza up to date: its markered
/// region is replaced in place when present, else the freshly rendered
/// stanza is appended after one separating blank line.
pub open spec fn spec_upsert(text: Seq<char>, a: AccountView) -> Seq<char> {
    let start = spec_marker_start(spec_account_id(a));
    let end = spec_marker_end(spec_account_id(a));
    if spec_find(text, start, 0) is Some {
        spec_replace_stanza(text, start, end, spec_stanza(a))
    } else {
        spec_trim_char_end(text, '\n') + "\n\n"@ + spec_stanza(a)
    }
}

/// Bring one account's stanza up to date inside the configuration text
/// (see [`spec_upsert`]).
pub fn upsert_stanza(existing: &str, acc: &Account) -> (r: String)
    ensures
        r@ == spec_upsert(existing@, acc@),
{
    let id = account_id(acc);
    let start = marker_start(id.as_str());
    let end = marker_end(id.as_str());
    let stanza = make_stanza(acc);
    if contains_marker(existing, start.as_str()) {
        replace_stanza(existing, start.as_str(), end.as_str(), stanza.as_str())
    } else {
        let mut r = String::from_str(trim_char_end(existing, '\n'));
        r.append("\n\n");
        r.append(stanza.as_str());
        r
    }
}

/// The configuration text after bringing every account's stanza up to date,
/// in directory order.
pub open spec fn spec_upsert_all(text: Seq<char>, accs: Seq<Account>) -> Seq<char>
    decreases accs.len(),
{
    if accs.len() == 0 {
        text
    } else {
        spec_upsert(spec_upsert_all(text, accs.drop_last()), accs.last()@)
    }
}

/// Bring every account's stanza up to date inside the configuration text
/// (see [`spec_upsert_all`]).
pub fn update_ssh_config_text(accounts: &Vec<Account>, existing: &str) -> (r: String)
    ensures
        r@ == spec_upsert_all(existing@, accounts@),
{
    let n = accounts.len();
    let mut cur = String::from_str(existing);
    let mut i: usize = 0;
    while i < n
        invariant
            i <= n,
            n == accounts@.len(),
            cur@ == spec_upsert_all(existing@, accounts@.subrange(0, i as int)),
        decreases n - i,
    {
        cur = upsert_stanza(cur.as_str(), &accounts[i]);
        proof {
            assert(accounts@.subrange(0, i + 1).drop_last() =~= accounts@.subrange(0, i as int));
            assert(accounts@.subrange(0, i + 1).last() == accounts@[i as int]);
        }
        i += 1;
    }
    proof {
        assert(accounts@.subrange(0, n as int) =~= accounts@);
    }
    cur
}

} // verus!
