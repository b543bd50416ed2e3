//! The account directory: identity keys, lookup with ambiguity reporting,
//! paths of the per-user configuration files, and rendering of the account
//! record store text.

use vstd::prelude::*;

use crate::models::{Account, spec_account_id, spec_effective_host, spec_effective_host_of,
    spec_ssh_host_alias, effective_host};
use crate::strutil::{spec_find, find_char, str_eq, substring};

verus! {

// ---------------------------------------------------------------------------
// Identity keys and paths
// ---------------------------------------------------------------------------

/// The account's natural identity key, `username@effective-host`.
pub fn account_id(acc: &Account) -> (r: String)
    ensures
        r@ == spec_account_id(acc@),
{
    let mut r = String::from_str(acc.username.as_str());
    r.append("@");
    r.append(effective_host(acc));
    r
}

/// The derived SSH `Host` pattern, `effective-host-username`.
pub fn ssh_host_alias(acc: &Account) -> (r: String)
    ensures
        r@ == spec_ssh_host_alias(acc@),
{
    let mut r = String::from_str(effective_host(acc));
    r.append("-");
    r.append(acc.username.as_str());
    r
}

/// The per-user configuration directory under the given home directory.
pub fn config_dir(home: &str) -> (r: String)
    ensures
        r@ == home@ + "/.config/git-id"@,
{
    let mut r = String::from_str(home);
    r.append("/.config/git-id");
    r
}

/// The account record store file under the given home directory.
pub fn accounts_file(home: &str) -> (r: String)
    ensures
        r@ == home@ + "/.config/git-id"@ + "/accounts.toml"@,
{
    let mut r = config_dir(home);
    r.append("/accounts.toml");
    r
}

// ---------------------------------------------------------------------------
// Rendering the record store
// ---------------------------------------------------------------------------

/// A string value with backslashes and double quotes escaped for a quoted
/// record field.
pub open spec fn spec_escape(s: Seq<char>) -> Seq<char>
    decreases s.len(),
{
    if s.len() == 0 {
        Seq::empty()
    } else {
        spec_escape(s.drop_last()) + (if s.last() == '\\' {
            seq!['\\', '\\']
        } else if s.last() == '"' {
            seq!['\\', '"']
        } else {
            seq![s.last()]
        })
    }
}

/// One `name = "value"` line of a record, newline included.
pub open spec fn spec_field_line(name: Seq<char>, val: Seq<char>) -> Seq<char> {
    name + " = \""@ + spec_escape(val) + "\"\n"@
}

/// The record block of one account, preceded by its separating blank line.
pub open spec fn spec_account_block(a: crate::models::AccountView) -> Seq<char> {
    "\n[[accounts]]\n"@ + spec_field_line("username"@, a.username) + spec_field_line(
        "email"@,
        a.email,
    ) + spec_field_line("host"@, a.host) + spec_field_line("ssh_key"@, a.ssh_key)
        + spec_field_line("https_token"@, a.https_token)
}

/// The record blocks of a list of accounts, in order.
pub open spec fn spec_blocks(accs: Seq<Account>) -> Seq<char>
    decreases accs.len(),
{
    if accs.len() == 0 {
        Seq::empty()
    } else {
        spec_blocks(accs.drop_last()) + spec_account_block(accs.last()@)
    }
}

/// The full text of the account record store for a list of accounts.
pub open spec fn spec_accounts_toml(accs: Seq<Account>) -> Seq<char> {
    "# git-id accounts - managed by git-id (safe to edit manually)\n# Add a new [[accounts]] section to register another identity.\n"@
        + spec_blocks(accs) + "\n"@
}

/// Escape a field value for its quoted position in a record line.
pub fn escape_toml_value(s: &str) -> (r: String)
    ensures
        r@ == spec_escape(s@),
{
    let n = s.unicode_len();
    let mut r = String::new();
    let mut i: usize = 0;
    while i < n
        invariant
            i <= n,
            n == s@.len(),
            r@ == spec_escape(s@.subrange(0, i as int)),
        decreases n - i,
    {
        let c = s.get_char(i);
        if c == '\\' {
            r.append("\\\\");
            proof {
                reveal_strlit("\\\\");
                assert("\\\\"@ =~= seq!['\\', '\\']);
            }
        } else if c == '"' {
            r.append("\\\"");
            proof {
                reveal_strlit("\\\"");
                assert("\\\""@ =~= seq!['\\', '"']);
            }
        } else {
            r.append(s.substring_char(i, i + 1));
            proof {
                assert(s@.subrange(i as int, i + 1) =~= seq![s@[i as int]]);
            }
        }
        proof {
            assert(s@.subrange(0, i + 1).drop_last() =~= s@.subrange(0, i as int));
            assert(s@.subrange(0, i + 1).last() == s@[i as int]);
        }
        i += 1;
    }
    proof {
        assert(s@.subrange(0, n as int) =~= s@);
    }
    r
}

/// One `name = "value"` record line, newline included.
fn field_line(name: &str, val: &str) -> (r: String)
    ensures
        r@ == spec_field_line(name@, val@),
{
    let mut r = String::from_str(name);
    r.append(" = \"");
    r.append(escape_toml_value(val).as_str());
    r.append("\"\n");
    r
}

/// Render the whole account record store text.
#[verifier::rlimit(50)]
pub fn accounts_to_toml(accounts: &Vec<Account>) -> (r: String)
    ensures
        r@ == spec_accounts_toml(accounts@),
{
    let mut r = String::from_str(
        "# git-id accounts - managed by git-id (safe to edit manually)\n# Add a new [[accounts]] section to register another identity.\n",
    );
    let n = accounts.len();
    let mut i: usize = 0;
    while i < n
        invariant
            i <= n,
            n == accounts@.len(),
            r@
                == "# git-id accounts - managed by git-id (safe to edit manually)\n# Add a new [[accounts]] section to register another identity.\n"@
                + spec_blocks(accounts@.subrange(0, i as int)),
        decreases n - i,
    {
        let acc = &accounts[i];
        r.append("\n[[accounts]]\n");
        r.append(field_line("username", acc.username.as_str()).as_str());
        r.append(field_line("email", acc.email.as_str()).as_str());
        r.append(field_line("host", acc.host.as_str()).as_str());
        r.append(field_line("ssh_key", acc.ssh_key.as_str()).as_str());
        r.append(field_line("https_token", acc.https_token.as_str()).as_str());
        proof {
            assert(accounts@.subrange(0, i + 1).drop_last() =~= accounts@.subrange(0, i as int));
            assert(accounts@.subrange(0, i + 1).last() == accounts@[i as int]);
        }
        i += 1;
    }
    r.append("\n");
    proof {
        assert(accounts@.subrange(0, n as int) =~= accounts@);
    }
    r
}

// ---------------------------------------------------------------------------
// Lookup
// ---------------------------------------------------------------------------

/// Index of the first account whose `username` and effective host both
/// match: an account's identity key is `(username, effective host)`, so an
/// empty stored host answers to the default host here too.
pub open spec fn spec_find_pair(
    accs: Seq<Account>,
    uname: Seq<char>,
    host: Seq<char>,
    from: nat,
) -> Option<int>
    decreases accs.len() - from + 1,
{
    if from >= accs.len() {
        None
    } else if accs[from as int].username@ == uname && spec_effective_host(accs[from as int]@)
        == host {
        Some(from as int)
    } else {
        spec_find_pair(accs, uname, host, from + 1)
    }
}

/// The accounts whose `username` equals the key, in directory order.
pub open spec fn spec_matching(accs: Seq<Account>, key: Seq<char>) -> Seq<Account>
    decreases accs.len(),
{
    if accs.len() == 0 {
        Seq::empty()
    } else {
        let rest = spec_matching(accs.drop_last(), key);
        if accs.last().username@ == key {
            rest.push(accs.last())
        } else {
            rest
        }
    }
}

/// The identity keys of the accounts whose `username` equals the key.
pub open spec fn spec_matching_ids(accs: Seq<Account>, key: Seq<char>) -> Seq<Seq<char>>
    decreases accs.len(),
{
    if accs.len() == 0 {
        Seq::empty()
    } else {
        let rest = spec_matching_ids(accs.drop_last(), key);
        if accs.last().username@ == key {
            rest.push(spec_account_id(accs.last()@))
        } else {
            rest
        }
    }
}

/// Is some account already stored under this `(username, host)` identity?
/// Both the stored host and the candidate host are read with the
/// empty-field default, so `(user, "")` and `(user, "github.com")` name the
/// same identity.
pub fn account_exists(accounts: &Vec<Account>, username: &str, host: &str) -> (r: bool)
    ensures
        r == (spec_find_pair(accounts@, username@, spec_effective_host_of(host@), 0) is Some),
{
    let eff = if host.is_empty() {
        crate::default_host()
    } else {
        host
    };
    let ghost geff = spec_effective_host_of(host@);
    let n = accounts.len();
    let mut i: usize = 0;
    loop
        invariant
            i <= n,
            n == accounts@.len(),
            eff@ == geff,
            geff == spec_effective_host_of(host@),
            spec_find_pair(accounts@, username@, geff, 0) == spec_find_pair(
                accounts@,
                username@,
                geff,
                i as nat,
            ),
        decreases n - i,
    {
        if i == n {
            proof {
                assert(spec_find_pair(accounts@, username@, geff, i as nat) is None);
            }
            return false;
        }
        let a = &accounts[i];
        if str_eq(a.username.as_str(), username) && str_eq(effective_host(a), eff) {
            proof {
                assert(spec_find_pair(accounts@, username@, geff, i as nat) == Some(i as int));
            }
            return true;
        }
        proof {
            assert(spec_find_pair(accounts@, username@, geff, i as nat) == spec_find_pair(
                accounts@,
                username@,
                geff,
                (i + 1) as nat,
            ));
        }
        i += 1;
    }
}

/// The accounts whose identity key differs from `id`, in order.
pub open spec fn spec_without_id(accs: Seq<Account>, id: Seq<char>) -> Seq<Account>
    decreases accs.len(),
{
    if accs.len() == 0 {
        Seq::empty()
    } else {
        let rest = spec_without_id(accs.drop_last(), id);
        if spec_account_id(accs.last()@) != id {
            rest.push(accs.last())
        } else {
            rest
        }
    }
}

/// The directory with every account of the given identity key removed.
pub fn remove_account(accounts: &Vec<Account>, id: &str) -> (r: Vec<Account>)
    ensures
        r@ == spec_without_id(accounts@, id@),
{
    let n = accounts.len();
    let mut r: Vec<Account> = Vec::new();
    let mut i: usize = 0;
    while i < n
        invariant
            i <= n,
            n == accounts@.len(),
            r@ == spec_without_id(accounts@.subrange(0, i as int), id@),
        decreases n - i,
    {
        let a = &accounts[i];
        if !str_eq(account_id(a).as_str(), id) {
            r.push(a.clone());
        }
        proof {
            assert(accounts@.subrange(0, i + 1).drop_last() =~= accounts@.subrange(0, i as int));
            assert(accounts@.subrange(0, i + 1).last() == accounts@[i as int]);
        }
        i += 1;
    }
    proof {
        assert(accounts@.subrange(0, n as int) =~= accounts@);
    }
    r
}

/// Index of the first account whose email equals the given one.
pub open spec fn spec_find_email(accs: Seq<Account>, email: Seq<char>, from: nat) -> Option<int>
    decreases accs.len() - from + 1,
{
    if from >= accs.len() {
        None
    } else if accs[from as int].email@ == email {
        Some(from as int)
    } else {
        spec_find_email(accs, email, from + 1)
    }
}

/// The first account using the given commit email, if any.
pub fn find_by_email(accounts: &Vec<Account>, email: &str) -> (r: Option<Account>)
    ensures
        match r {
            Some(a) => spec_find_email(accounts@, email@, 0) matches Some(i) && a == accounts@[i],
            None => spec_find_email(accounts@, email@, 0) is None,
        },
{
    let n = accounts.len();
    let mut i: usize = 0;
    loop
        invariant
            i <= n,
            n == accounts@.len(),
            spec_find_email(accounts@, email@, 0) == spec_find_email(accounts@, email@, i as nat),
        decreases n - i,
    {
        if i == n {
            proof {
                assert(spec_find_email(accounts@, email@, i as nat) is None);
            }
            return None;
        }
        let a = &accounts[i];
        if str_eq(a.email.as_str(), email) {
            proof {
                assert(spec_find_email(accounts@, email@, i as nat) == Some(i as int));
            }
            return Some(a.clone());
        }
        proof {
            assert(spec_find_email(accounts@, email@, i as nat) == spec_find_email(
                accounts@,
                email@,
                (i + 1) as nat,
            ));
        }
        i += 1;
    }
}

/// The result of selecting an account by key.
pub enum Lookup {
    /// Exactly one account answers the key.
    Found(Account),
    /// No account answers the key.
    NotFound,
    /// Several accounts share the bare username; the candidates' identity
    /// keys are carried for disambiguation.
    Ambiguous(Vec<String>),
}

/// What selecting an account by key returns: an `@`-qualified key names the
/// `(username, effective host)` identity pair, a bare key selects by
/// username with the ambiguity rule.
pub open spec fn lookup_post(accs: Seq<Account>, k: Seq<char>, r: Lookup) -> bool {
    match spec_find(k, seq!['@'], 0) {
        Some(at) => match spec_find_pair(
            accs,
            k.subrange(0, at),
            k.subrange(at + 1, k.len() as int),
            0,
        ) {
            Some(i) => r matches Lookup::Found(a) && a == accs[i],
            None => r is NotFound,
        },
        None => {
            let m = spec_matching(accs, k);
            if m.len() == 0 {
                r is NotFound
            } else if m.len() == 1 {
                r matches Lookup::Found(a) && a == m[0]
            } else {
                r matches Lookup::Ambiguous(hints) && hints@.len() == spec_matching_ids(
                    accs,
                    k,
                ).len() && (forall|j: int|
                    0 <= j < hints@.len() ==> hints@[j]@ == spec_matching_ids(accs, k)[j])
            }
        },
    }
}

/// Select an account from the directory by key.
///
/// A key of the form `username@host` names the exact identity pair, with
/// the stored host read through the empty-field default: an account whose
/// host field is empty answers to `username@github.com`, the very key its
/// identity hints show. A bare username matches across hosts: one match is
/// returned, none is `NotFound`, and several are `Ambiguous` with the
/// candidates' identity keys.
pub fn find_account(accounts: &Vec<Account>, key: &str) -> (r: Lookup)
    ensures
        lookup_post(accounts@, key@, r),
{
    let klen = key.unicode_len();
    match find_char(key, '@', 0) {
        Some(at) => {
            let uname = substring(key, 0, at);
            let host = substring(key, at + 1, klen);
            let ghost guname = key@.subrange(0, at as int);
            let ghost ghost_host = key@.subrange(at + 1, key@.len() as int);
            let n = accounts.len();
            let mut i: usize = 0;
            loop
                invariant
                    i <= n,
                    n == accounts@.len(),
                    at < key@.len(),
                    spec_find(key@, seq!['@'], 0) == Some(at as int),
                    guname == key@.subrange(0, at as int),
                    ghost_host == key@.subrange(at + 1, key@.len() as int),
                    uname@ == guname,
                    host@ == ghost_host,
                    spec_find_pair(accounts@, guname, ghost_host, 0) == spec_find_pair(
                        accounts@,
                        guname,
                        ghost_host,
                        i as nat,
                    ),
                decreases n - i,
            {
                if i == n {
                    proof {
                        assert(spec_find_pair(accounts@, guname, ghost_host, i as nat) is None);
                    }
                    return Lookup::NotFound;
                }
                let a = &accounts[i];
                if str_eq(a.username.as_str(), uname) && str_eq(effective_host(a), host) {
                    proof {
                        assert(spec_find_pair(accounts@, guname, ghost_host, i as nat) == Some(
                            i as int,
                        ));
                    }
                    return Lookup::Found(a.clone());
                }
                proof {
                    assert(spec_find_pair(accounts@, guname, ghost_host, i as nat)
                        == spec_find_pair(accounts@, guname, ghost_host, (i + 1) as nat));
                }
                i += 1;
            }
        }
        None => {
            let n = accounts.len();
            let mut matched: Vec<Account> = Vec::new();
            let mut hints: Vec<String> = Vec::new();
            let mut i: usize = 0;
            while i < n
                invariant
                    i <= n,
                    n == accounts@.len(),
                    matched@ == spec_matching(accounts@.subrange(0, i as int), key@),
                    hints@.len() == spec_matching_ids(accounts@.subrange(0, i as int), key@).len(),
                    forall|j: int|
                        0 <= j < hints@.len() ==> hints@[j]@ == spec_matching_ids(
                            accounts@.subrange(0, i as int),
                            key@,
                        )[j],
                decreases n - i,
            {
                let a = &accounts[i];
                if str_eq(a.username.as_str(), key) {
                    matched.push(a.clone());
                    hints.push(account_id(a));
                }
                proof {
                    assert(accounts@.subrange(0, i + 1).drop_last() =~= accounts@.subrange(
                        0,
                        i as int,
                    ));
                    assert(accounts@.subrange(0, i + 1).last() == accounts@[i as int]);
                }
                i += 1;
            }
            proof {
                assert(accounts@.subrange(0, n as int) =~= accounts@);
            }
            if matched.len() == 0 {
                Lookup::NotFound
            } else if matched.len() == 1 {
                let a = matched.pop().unwrap();
                proof {
                    assert(a == spec_matching(accounts@, key@)[0]);
                }
                Lookup::Found(a)
            } else {
                Lookup::Ambiguous(hints)
            }
        }
    }
}

} // verus!
