//! The library's laws: round-trip of the URL codec, idempotence of the
//! stanza upsert, and idempotence of the per-remote reconciliation, each
//! stated over the specification functions the executable contracts use.

use vstd::prelude::*;

use crate::models::{AccountView, spec_effective_host, spec_ssh_host_alias};
use crate::git::{spec_parse, spec_strip_alias, spec_ssh_url, spec_https_url};
use crate::use_cmd::{SpecOutcome, spec_remote_decision};
use crate::ssh::{spec_marker_start, spec_marker_end, spec_keyfile, spec_stanza, spec_upsert};
use crate::models::spec_account_id;
use crate::strutil::{occurs_at, spec_find, spec_rfind_char, spec_trim_suffix, spec_trim_char_end,
    is_prefix, is_suffix, lemma_spec_find, lemma_spec_find_of_occurrence, lemma_spec_find_none,
    lemma_occurs_single, lemma_occurs_char, lemma_occurs_agree, lemma_occurs_in_mid,
    lemma_spec_rfind_char_of_position, lemma_trim_char_end_prefix, lemma_trim_suffix_fixed,
    lemma_trim_suffix_step};

verus! {

// ---------------------------------------------------------------------------
// Helpers
// ---------------------------------------------------------------------------

/// A text whose final component sits after a `/` does not end in `.git`
/// unless that component does.
proof fn lemma_no_dotgit_suffix(x: Seq<char>, repo: Seq<char>)
    requires
        x.len() >= repo.len() + 1,
        x[x.len() - repo.len() - 1] == '/',
        x.subrange(x.len() - repo.len(), x.len() as int) == repo,
        !is_suffix(".git"@, repo),
    ensures
        !is_suffix(".git"@, x),
{
    reveal_strlit(".git");
    if is_suffix(".git"@, x) {
        if repo.len() >= 4 {
            assert(repo.subrange(repo.len() - 4, repo.len() as int) =~= x.subrange(
                x.len() - 4,
                x.len() as int,
            ));
        } else {
            let k = x.len() - repo.len() - 1;
            let j = k - (x.len() - 4);
            assert(x.subrange(x.len() - 4, x.len() as int)[j] == x[k]);
            assert(".git"@[j] == '/');
            assert(j == 0 || j == 1 || j == 2 || j == 3);
            assert(".git"@[0] == '.' && ".git"@[1] == 'g' && ".git"@[2] == 'i' && ".git"@[3]
                == 't');
        }
    }
}

/// Trimming `.git` from a text that ends in exactly one copy removes
/// exactly that copy.
proof fn lemma_trim_one_git(x: Seq<char>)
    requires
        !is_suffix(".git"@, x),
    ensures
        spec_trim_suffix(x + ".git"@, ".git"@) == x,
{
    reveal_strlit(".git");
    let t = x + ".git"@;
    assert(t.subrange(t.len() - 4, t.len() as int) =~= ".git"@);
    lemma_trim_suffix_step(t, ".git"@);
    assert(t.subrange(0, t.len() - 4) =~= x);
    lemma_trim_suffix_fixed(x, ".git"@);
}

// ---------------------------------------------------------------------------
// Round trip of the codec
// ---------------------------------------------------------------------------

/// Decomposing a freshly composed SSH URL recovers the transport, the
/// account's effective host (through the alias-stripping rule), the owner
/// and the repo. The username must be free of `-`, `.` and `:` and the
/// effective host free of `:` for the alias to be reversible; the owner
/// carries no `/` and the repo must not already end in `.git`.
pub proof fn lemma_ssh_round_trip(a: AccountView, owner: Seq<char>, repo: Seq<char>)
    requires
        !a.username.contains('-'),
        !a.username.contains('.'),
        !a.username.contains(':'),
        !spec_effective_host(a).contains(':'),
        !owner.contains('/'),
        !is_suffix(".git"@, repo),
    ensures
        spec_parse(spec_ssh_url(spec_ssh_host_alias(a), owner, repo)) == Some(
            ("ssh"@, spec_effective_host(a), owner, repo),
        ),
{
    reveal_strlit("git@");
    reveal_strlit(":");
    reveal_strlit("/");
    reveal_strlit(".git");
    reveal_strlit("-");
    let eff = spec_effective_host(a);
    let alias = spec_ssh_host_alias(a);
    let url = spec_ssh_url(alias, owner, repo);
    let g = "git@"@;
    assert(g.len() == 4);

    // The scheme prefix and the remainder.
    assert(alias.len() == eff.len() + 1 + a.username.len());
    assert(url.subrange(0, 4) =~= g);
    assert(is_prefix(g, url));
    let rest = url.subrange(4, url.len() as int);
    assert(rest =~= alias + ":"@ + owner + "/"@ + repo + ".git"@);

    // The first colon separates the alias from the path.
    let colon = alias.len() as int;
    assert(rest[colon] == ':');
    assert forall|q: int| 0 <= q < colon implies rest[q] != ':' by {
        assert(rest[q] == alias[q]);
        if q < eff.len() {
            assert(alias[q] == eff[q]);
        } else if q == eff.len() {
            assert(alias[q] == '-');
        } else {
            assert(alias[q] == a.username[q - eff.len() - 1]);
        }
    }
    assert forall|q: int| 0 <= q < colon implies !occurs_at(rest, seq![':'], q) by {
        lemma_occurs_single(rest, ':', q);
    }
    lemma_occurs_single(rest, ':', colon);
    lemma_spec_find_of_occurrence(rest, seq![':'], 0, colon);

    // The raw host is the alias; the path is owner/repo.git.
    assert(rest.subrange(0, colon) =~= alias);
    let path0 = rest.subrange(colon + 1, rest.len() as int);
    let x = owner + "/"@ + repo;
    assert(path0 =~= x + ".git"@);

    // Trimming .git yields owner/repo.
    assert(x[x.len() - repo.len() - 1] == '/');
    assert(x.subrange(x.len() - repo.len(), x.len() as int) =~= repo);
    lemma_no_dotgit_suffix(x, repo);
    lemma_trim_one_git(x);
    assert(spec_trim_suffix(path0, ".git"@) == x);

    // The first slash separates owner from repo.
    let slash = owner.len() as int;
    assert(x[slash] == '/');
    assert forall|q: int| 0 <= q < slash implies !occurs_at(x, seq!['/'], q) by {
        lemma_occurs_single(x, '/', q);
        assert(x[q] == owner[q]);
    }
    lemma_occurs_single(x, '/', slash);
    lemma_spec_find_of_occurrence(x, seq!['/'], 0, slash);
    assert(x.subrange(0, slash) =~= owner);
    assert(x.subrange(slash + 1, x.len() as int) =~= repo);

    // Stripping the alias recovers the effective host.
    let d = eff.len() as int;
    assert(alias[d] == '-');
    assert forall|j: int| d < j < alias.len() implies alias[j] != '-' by {
        assert(alias[j] == a.username[j - d - 1]);
    }
    lemma_spec_rfind_char_of_position(alias, '-', d);
    let suffix = alias.subrange(d + 1, alias.len() as int);
    assert(suffix =~= a.username);
    assert(!suffix.contains('.'));
    assert(alias.subrange(0, d) =~= eff);
    assert(spec_strip_alias(alias) == eff);
}

/// Decomposing a freshly composed HTTPS URL recovers the transport, host,
/// owner and repo, with the token dropped as a credential prefix. The
/// token, host and owner must be free of `@` and `/`, the repo free of `@`,
/// and the repo must not already end in `.git`.
pub proof fn lemma_https_round_trip(
    token: Seq<char>,
    host: Seq<char>,
    owner: Seq<char>,
    repo: Seq<char>,
)
    requires
        !token.contains('@'),
        !token.contains('/'),
        !host.contains('@'),
        !host.contains('/'),
        !owner.contains('@'),
        !owner.contains('/'),
        !repo.contains('@'),
        !is_suffix(".git"@, repo),
    ensures
        spec_parse(spec_https_url(token, host, owner, repo)) == Some(
            ("https"@, host, owner, repo),
        ),
{
    reveal_strlit("https://");
    reveal_strlit("git@");
    reveal_strlit("@");
    reveal_strlit("/");
    reveal_strlit(".git");
    let url = spec_https_url(token, host, owner, repo);
    let s = "https://"@;
    assert(s.len() == 8);
    let z = host + "/"@ + owner + "/"@ + repo;
    let y = z + ".git"@;

    // Not the SSH shape: the first character is already wrong.
    assert(url[0] == 'h');
    if is_prefix("git@"@, url) {
        assert(url.subrange(0, 4)[0] == url[0]);
        assert(false);
    }

    assert(url.subrange(0, 8) =~= s);
    assert(is_prefix(s, url));
    let rest0 = url.subrange(8, url.len() as int);

    // The credential prefix, when there is one, ends at the first `@`.
    if token.len() > 0 {
        assert(rest0 =~= token + "@"@ + y);
        let at = token.len() as int;
        assert(rest0[at] == '@');
        assert forall|q: int| 0 <= q < at implies !occurs_at(rest0, seq!['@'], q) by {
            lemma_occurs_single(rest0, '@', q);
            assert(rest0[q] == token[q]);
        }
        lemma_occurs_single(rest0, '@', at);
        lemma_spec_find_of_occurrence(rest0, seq!['@'], 0, at);
        assert(rest0.subrange(at + 1, rest0.len() as int) =~= y);
    } else {
        assert(rest0 =~= y);
        assert forall|q: int| 0 <= q implies !occurs_at(rest0, seq!['@'], q) by {
            lemma_occurs_single(rest0, '@', q);
            if 0 <= q < rest0.len() {
                if q < host.len() {
                    assert(rest0[q] == host[q]);
                } else if q == host.len() {
                    assert(rest0[q] == '/');
                } else if q < host.len() + 1 + owner.len() {
                    assert(rest0[q] == owner[q - host.len() - 1]);
                } else if q == host.len() + 1 + owner.len() {
                    assert(rest0[q] == '/');
                } else if q < z.len() {
                    assert(rest0[q] == repo[q - host.len() - owner.len() - 2]);
                } else {
                    let j = q - z.len();
                    assert(rest0[q] == ".git"@[j]);
                    assert(j == 0 || j == 1 || j == 2 || j == 3);
                }
            }
        }
        lemma_spec_find_none(rest0, seq!['@'], 0);
    }

    // Trimming .git yields host/owner/repo.
    assert(z[z.len() - repo.len() - 1] == '/');
    assert(z.subrange(z.len() - repo.len(), z.len() as int) =~= repo);
    lemma_no_dotgit_suffix(z, repo);
    lemma_trim_one_git(z);
    assert(spec_trim_suffix(y, ".git"@) == z);

    // The first slash separates the host.
    let s1 = host.len() as int;
    assert(z[s1] == '/');
    assert forall|q: int| 0 <= q < s1 implies !occurs_at(z, seq!['/'], q) by {
        lemma_occurs_single(z, '/', q);
        assert(z[q] == host[q]);
    }
    lemma_occurs_single(z, '/', s1);
    lemma_spec_find_of_occurrence(z, seq!['/'], 0, s1);
    assert(z.subrange(0, s1) =~= host);
    let tail = z.subrange(s1 + 1, z.len() as int);
    assert(tail =~= owner + "/"@ + repo);

    // The second slash separates owner from repo.
    let s2 = owner.len() as int;
    assert(tail[s2] == '/');
    assert forall|q: int| 0 <= q < s2 implies !occurs_at(tail, seq!['/'], q) by {
        lemma_occurs_single(tail, '/', q);
        assert(tail[q] == owner[q]);
    }
    lemma_occurs_single(tail, '/', s2);
    lemma_spec_find_of_occurrence(tail, seq!['/'], 0, s2);
    assert(tail.subrange(0, s2) =~= owner);
    assert(tail.subrange(s2 + 1, tail.len() as int) =~= repo);
}

// ---------------------------------------------------------------------------
// Idempotence of the stanza upsert
// ---------------------------------------------------------------------------

/// The markers of an account's stanza are well formed: the opening marker
/// line holds no newline, and the closing marker first occurs in the
/// rendered stanza at its own closing line. This holds for every account
/// whose username, host and key path are ordinary text — it can fail only
/// when a field itself embeds a newline or a marker line.
pub open spec fn stanza_markers_wf(a: AccountView) -> bool {
    let id = spec_account_id(a);
    let stz = spec_stanza(a);
    let e = spec_marker_end(id);
    &&& !spec_marker_start(id).contains('\n')
    &&& spec_find(stz, e, 0) == Some(stz.len() - e.len() - 1)
}

/// The characters of one fixed piece of the stanza template.
proof fn chars_of_open_marker()
    ensures
        forall|q: int| 0 <= q < ("# >>> git-id: "@).len() ==> ("# >>> git-id: "@)[q] != '\n',
        forall|q: int| 1 <= q < ("# >>> git-id: "@).len() ==> ("# >>> git-id: "@)[q] != '#',
{
    reveal_strlit("# >>> git-id: ");
    assert(("# >>> git-id: "@).len() == 14);
    assert forall|q: int| 0 <= q < 14 implies ("# >>> git-id: "@)[q] != '\n' && (("# >>> git-id: "@)[q] != '#' || q == 0) by {
        assert(q == 0 || q == 1 || q == 2 || q == 3 || q == 4 || q == 5 || q == 6 || q == 7 || q == 8 || q == 9 || q == 10 || q == 11 || q == 12 || q == 13);
        assert(("# >>> git-id: "@)[0] == '#');
        assert(("# >>> git-id: "@)[1] == ' ');
        assert(("# >>> git-id: "@)[2] == '>');
        assert(("# >>> git-id: "@)[3] == '>');
        assert(("# >>> git-id: "@)[4] == '>');
        assert(("# >>> git-id: "@)[5] == ' ');
        assert(("# >>> git-id: "@)[6] == 'g');
        assert(("# >>> git-id: "@)[7] == 'i');
        assert(("# >>> git-id: "@)[8] == 't');
        assert(("# >>> git-id: "@)[9] == '-');
        assert(("# >>> git-id: "@)[10] == 'i');
        assert(("# >>> git-id: "@)[11] == 'd');
        assert(("# >>> git-id: "@)[12] == ':');
        assert(("# >>> git-id: "@)[13] == ' ');
    }
}

/// The characters of one fixed piece of the stanza template.
proof fn chars_of_close_angles()
    ensures
        forall|q: int| 0 <= q < (" >>>"@).len() ==> (" >>>"@)[q] != '\n',
        forall|q: int| 0 <= q < (" >>>"@).len() ==> (" >>>"@)[q] != '#',
{
    reveal_strlit(" >>>");
    assert((" >>>"@).len() == 4);
    assert forall|q: int| 0 <= q < 4 implies (" >>>"@)[q] != '\n' && (" >>>"@)[q] != '#' by {
        assert(q == 0 || q == 1 || q == 2 || q == 3);
        assert((" >>>"@)[0] == ' ');
        assert((" >>>"@)[1] == '>');
        assert((" >>>"@)[2] == '>');
        assert((" >>>"@)[3] == '>');
    }
}

/// The characters of one fixed piece of the stanza template.
proof fn chars_of_at_sign()
    ensures
        forall|q: int| 0 <= q < ("@"@).len() ==> ("@"@)[q] != '\n',
        forall|q: int| 0 <= q < ("@"@).len() ==> ("@"@)[q] != '#',
{
    reveal_strlit("@");
    assert(("@"@).len() == 1);
    assert forall|q: int| 0 <= q < 1 implies ("@"@)[q] != '\n' && ("@"@)[q] != '#' by {
        assert(q == 0);
        assert(("@"@)[0] == '@');
    }
}

/// The characters of one fixed piece of the stanza template.
proof fn chars_of_default_host()
    ensures
        forall|q: int| 0 <= q < ("github.com"@).len() ==> ("github.com"@)[q] != '\n',
        forall|q: int| 0 <= q < ("github.com"@).len() ==> ("github.com"@)[q] != '#',
{
    reveal_strlit("github.com");
    assert(("github.com"@).len() == 10);
    assert forall|q: int| 0 <= q < 10 implies ("github.com"@)[q] != '\n' && ("github.com"@)[q] != '#' by {
        assert(q == 0 || q == 1 || q == 2 || q == 3 || q == 4 || q == 5 || q == 6 || q == 7 || q == 8 || q == 9);
        assert(("github.com"@)[0] == 'g');
        assert(("github.com"@)[1] == 'i');
        assert(("github.com"@)[2] == 't');
        assert(("github.com"@)[3] == 'h');
        assert(("github.com"@)[4] == 'u');
        assert(("github.com"@)[5] == 'b');
        assert(("github.com"@)[6] == '.');
        assert(("github.com"@)[7] == 'c');
        assert(("github.com"@)[8] == 'o');
        assert(("github.com"@)[9] == 'm');
    }
}

/// The characters of one fixed piece of the stanza template.
proof fn chars_of_dash()
    ensures
        forall|q: int| 0 <= q < ("-"@).len() ==> ("-"@)[q] != '\n',
        forall|q: int| 0 <= q < ("-"@).len() ==> ("-"@)[q] != '#',
{
    reveal_strlit("-");
    assert(("-"@).len() == 1);
    assert forall|q: int| 0 <= q < 1 implies ("-"@)[q] != '\n' && ("-"@)[q] != '#' by {
        assert(q == 0);
        assert(("-"@)[0] == '-');
    }
}

/// The characters of one fixed piece of the stanza template.
proof fn chars_of_host_line()
    ensures
        forall|q: int| 0 <= q < ("\nHost "@).len() ==> ("\nHost "@)[q] != '#',
{
    reveal_strlit("\nHost ");
    assert(("\nHost "@).len() == 6);
    assert forall|q: int| 0 <= q < 6 implies ("\nHost "@)[q] != '#' by {
        assert(q == 0 || q == 1 || q == 2 || q == 3 || q == 4 || q == 5);
        assert(("\nHost "@)[0] == '\n');
        assert(("\nHost "@)[1] == 'H');
        assert(("\nHost "@)[2] == 'o');
        assert(("\nHost "@)[3] == 's');
        assert(("\nHost "@)[4] == 't');
        assert(("\nHost "@)[5] == ' ');
    }
}

/// The characters of one fixed piece of the stanza template.
proof fn chars_of_hostname_line()
    ensures
        forall|q: int| 0 <= q < ("\n    HostName "@).len() ==> ("\n    HostName "@)[q] != '#',
{
    reveal_strlit("\n    HostName ");
    assert(("\n    HostName "@).len() == 14);
    assert forall|q: int| 0 <= q < 14 implies ("\n    HostName "@)[q] != '#' by {
        assert(q == 0 || q == 1 || q == 2 || q == 3 || q == 4 || q == 5 || q == 6 || q == 7 || q == 8 || q == 9 || q == 10 || q == 11 || q == 12 || q == 13);
        assert(("\n    HostName "@)[0] == '\n');
        assert(("\n    HostName "@)[1] == ' ');
        assert(("\n    HostName "@)[2] == ' ');
        assert(("\n    HostName "@)[3] == ' ');
        assert(("\n    HostName "@)[4] == ' ');
        assert(("\n    HostName "@)[5] == 'H');
        assert(("\n    HostName "@)[6] == 'o');
        assert(("\n    HostName "@)[7] == 's');
        assert(("\n    HostName "@)[8] == 't');
        assert(("\n    HostName "@)[9] == 'N');
        assert(("\n    HostName "@)[10] == 'a');
        assert(("\n    HostName "@)[11] == 'm');
        assert(("\n    HostName "@)[12] == 'e');
        assert(("\n    HostName "@)[13] == ' ');
    }
}

/// The characters of one fixed piece of the stanza template.
proof fn chars_of_user_identity_lines()
    ensures
        forall|q: int| 0 <= q < ("\n    User git\n    IdentityFile "@).len() ==> ("\n    User git\n    IdentityFile "@)[q] != '#',
{
    reveal_strlit("\n    User git\n    IdentityFile ");
    assert(("\n    User git\n    IdentityFile "@).len() == 31);
    assert forall|q: int| 0 <= q < 31 implies ("\n    User git\n    IdentityFile "@)[q] != '#' by {
        assert(q == 0 || q == 1 || q == 2 || q == 3 || q == 4 || q == 5 || q == 6 || q == 7 || q == 8 || q == 9 || q == 10 || q == 11 || q == 12 || q == 13 || q == 14 || q == 15 || q == 16 || q == 17 || q == 18 || q == 19 || q == 20 || q == 21 || q == 22 || q == 23 || q == 24 || q == 25 || q == 26 || q == 27 || q == 28 || q == 29 || q == 30);
        assert(("\n    User git\n    IdentityFile "@)[0] == '\n');
        assert(("\n    User git\n    IdentityFile "@)[1] == ' ');
        assert(("\n    User git\n    IdentityFile "@)[2] == ' ');
        assert(("\n    User git\n    IdentityFile "@)[3] == ' ');
        assert(("\n    User git\n    IdentityFile "@)[4] == ' ');
        assert(("\n    User git\n    IdentityFile "@)[5] == 'U');
        assert(("\n    User git\n    IdentityFile "@)[6] == 's');
        assert(("\n    User git\n    IdentityFile "@)[7] == 'e');
        assert(("\n    User git\n    IdentityFile "@)[8] == 'r');
        assert(("\n    User git\n    IdentityFile "@)[9] == ' ');
        assert(("\n    User git\n    IdentityFile "@)[10] == 'g');
        assert(("\n    User git\n    IdentityFile "@)[11] == 'i');
        assert(("\n    User git\n    IdentityFile "@)[12] == 't');
        assert(("\n    User git\n    IdentityFile "@)[13] == '\n');
        assert(("\n    User git\n    IdentityFile "@)[14] == ' ');
        assert(("\n    User git\n    IdentityFile "@)[15] == ' ');
        assert(("\n    User git\n    IdentityFile "@)[16] == ' ');
        assert(("\n    User git\n    IdentityFile "@)[17] == ' ');
        assert(("\n    User git\n    IdentityFile "@)[18] == 'I');
        assert(("\n    User git\n    IdentityFile "@)[19] == 'd');
        assert(("\n    User git\n    IdentityFile "@)[20] == 'e');
        assert(("\n    User git\n    IdentityFile "@)[21] == 'n');
        assert(("\n    User git\n    IdentityFile "@)[22] == 't');
        assert(("\n    User git\n    IdentityFile "@)[23] == 'i');
        assert(("\n    User git\n    IdentityFile "@)[24] == 't');
        assert(("\n    User git\n    IdentityFile "@)[25] == 'y');
        assert(("\n    User git\n    IdentityFile "@)[26] == 'F');
        assert(("\n    User git\n    IdentityFile "@)[27] == 'i');
        assert(("\n    User git\n    IdentityFile "@)[28] == 'l');
        assert(("\n    User git\n    IdentityFile "@)[29] == 'e');
        assert(("\n    User git\n    IdentityFile "@)[30] == ' ');
    }
}

/// The characters of one fixed piece of the stanza template.
proof fn chars_of_default_key_prefix()
    ensures
        forall|q: int| 0 <= q < ("~/.ssh/id_ed25519_"@).len() ==> ("~/.ssh/id_ed25519_"@)[q] != '#',
{
    reveal_strlit("~/.ssh/id_ed25519_");
    assert(("~/.ssh/id_ed25519_"@).len() == 18);
    assert forall|q: int| 0 <= q < 18 implies ("~/.ssh/id_ed25519_"@)[q] != '#' by {
        assert(q == 0 || q == 1 || q == 2 || q == 3 || q == 4 || q == 5 || q == 6 || q == 7 || q == 8 || q == 9 || q == 10 || q == 11 || q == 12 || q == 13 || q == 14 || q == 15 || q == 16 || q == 17);
        assert(("~/.ssh/id_ed25519_"@)[0] == '~');
        assert(("~/.ssh/id_ed25519_"@)[1] == '/');
        assert(("~/.ssh/id_ed25519_"@)[2] == '.');
        assert(("~/.ssh/id_ed25519_"@)[3] == 's');
        assert(("~/.ssh/id_ed25519_"@)[4] == 's');
        assert(("~/.ssh/id_ed25519_"@)[5] == 'h');
        assert(("~/.ssh/id_ed25519_"@)[6] == '/');
        assert(("~/.ssh/id_ed25519_"@)[7] == 'i');
        assert(("~/.ssh/id_ed25519_"@)[8] == 'd');
        assert(("~/.ssh/id_ed25519_"@)[9] == '_');
        assert(("~/.ssh/id_ed25519_"@)[10] == 'e');
        assert(("~/.ssh/id_ed25519_"@)[11] == 'd');
        assert(("~/.ssh/id_ed25519_"@)[12] == '2');
        assert(("~/.ssh/id_ed25519_"@)[13] == '5');
        assert(("~/.ssh/id_ed25519_"@)[14] == '5');
        assert(("~/.ssh/id_ed25519_"@)[15] == '1');
        assert(("~/.ssh/id_ed25519_"@)[16] == '9');
        assert(("~/.ssh/id_ed25519_"@)[17] == '_');
    }
}

/// The characters of one fixed piece of the stanza template.
proof fn chars_of_identities_only_line()
    ensures
        forall|q: int| 0 <= q < ("\n    IdentitiesOnly yes\n"@).len() ==> ("\n    IdentitiesOnly yes\n"@)[q] != '#',
{
    reveal_strlit("\n    IdentitiesOnly yes\n");
    assert(("\n    IdentitiesOnly yes\n"@).len() == 24);
    assert forall|q: int| 0 <= q < 24 implies ("\n    IdentitiesOnly yes\n"@)[q] != '#' by {
        assert(q == 0 || q == 1 || q == 2 || q == 3 || q == 4 || q == 5 || q == 6 || q == 7 || q == 8 || q == 9 || q == 10 || q == 11 || q == 12 || q == 13 || q == 14 || q == 15 || q == 16 || q == 17 || q == 18 || q == 19 || q == 20 || q == 21 || q == 22 || q == 23);
        assert(("\n    IdentitiesOnly yes\n"@)[0] == '\n');
        assert(("\n    IdentitiesOnly yes\n"@)[1] == ' ');
        assert(("\n    IdentitiesOnly yes\n"@)[2] == ' ');
        assert(("\n    IdentitiesOnly yes\n"@)[3] == ' ');
        assert(("\n    IdentitiesOnly yes\n"@)[4] == ' ');
        assert(("\n    IdentitiesOnly yes\n"@)[5] == 'I');
        assert(("\n    IdentitiesOnly yes\n"@)[6] == 'd');
        assert(("\n    IdentitiesOnly yes\n"@)[7] == 'e');
        assert(("\n    IdentitiesOnly yes\n"@)[8] == 'n');
        assert(("\n    IdentitiesOnly yes\n"@)[9] == 't');
        assert(("\n    IdentitiesOnly yes\n"@)[10] == 'i');
        assert(("\n    IdentitiesOnly yes\n"@)[11] == 't');
        assert(("\n    IdentitiesOnly yes\n"@)[12] == 'i');
        assert(("\n    IdentitiesOnly yes\n"@)[13] == 'e');
        assert(("\n    IdentitiesOnly yes\n"@)[14] == 's');
        assert(("\n    IdentitiesOnly yes\n"@)[15] == 'O');
        assert(("\n    IdentitiesOnly yes\n"@)[16] == 'n');
        assert(("\n    IdentitiesOnly yes\n"@)[17] == 'l');
        assert(("\n    IdentitiesOnly yes\n"@)[18] == 'y');
        assert(("\n    IdentitiesOnly yes\n"@)[19] == ' ');
        assert(("\n    IdentitiesOnly yes\n"@)[20] == 'y');
        assert(("\n    IdentitiesOnly yes\n"@)[21] == 'e');
        assert(("\n    IdentitiesOnly yes\n"@)[22] == 's');
        assert(("\n    IdentitiesOnly yes\n"@)[23] == '\n');
    }
}

/// The characters of one fixed piece of the stanza template.
proof fn chars_of_newline()
    ensures
        forall|q: int| 0 <= q < ("\n"@).len() ==> ("\n"@)[q] != '#',
{
    reveal_strlit("\n");
    assert(("\n"@).len() == 1);
    assert forall|q: int| 0 <= q < 1 implies ("\n"@)[q] != '#' by {
        assert(q == 0);
        assert(("\n"@)[0] == '\n');
    }
}

/// Every account whose username, host and key path hold no newline and no
/// `#` renders a stanza with well-formed markers: ordinary field values
/// always satisfy [`stanza_markers_wf`].
pub proof fn lemma_stanza_markers_wf(a: AccountView)
    requires
        !a.username.contains('\n'),
        !a.username.contains('#'),
        !a.host.contains('\n'),
        !a.host.contains('#'),
        !a.ssh_key.contains('\n'),
        !a.ssh_key.contains('#'),
    ensures
        stanza_markers_wf(a),
{
    chars_of_open_marker();
    chars_of_close_angles();
    chars_of_at_sign();
    chars_of_default_host();
    chars_of_dash();
    chars_of_host_line();
    chars_of_hostname_line();
    chars_of_user_identity_lines();
    chars_of_default_key_prefix();
    chars_of_identities_only_line();
    chars_of_newline();
    reveal_strlit("# >>> git-id: ");
    reveal_strlit(" >>>");
    reveal_strlit("# <<< git-id: ");
    reveal_strlit(" <<<");
    reveal_strlit("@");
    reveal_strlit("-");
    reveal_strlit("github.com");
    reveal_strlit("\nHost ");
    reveal_strlit("\n    HostName ");
    reveal_strlit("\n    User git\n    IdentityFile ");
    reveal_strlit("~/.ssh/id_ed25519_");
    reveal_strlit("\n    IdentitiesOnly yes\n");
    reveal_strlit("\n");

    let id = spec_account_id(a);
    let eff = spec_effective_host(a);
    let s_m = spec_marker_start(id);
    let e_m = spec_marker_end(id);
    let stz = spec_stanza(a);
    let alias = spec_ssh_host_alias(a);
    let kf = spec_keyfile(a);
    let ilen = stz.len() - e_m.len() - 1;

    // The effective host, the identity key, the alias and the key file all
    // inherit the fields' freedom from newlines and `#`.
    assert forall|q: int| 0 <= q < eff.len() implies eff[q] != '\n' && eff[q] != '#' by {
        if a.host.len() > 0 {
            assert(eff[q] == a.host[q]);
        }
    }
    assert forall|q: int| 0 <= q < id.len() implies id[q] != '\n' && id[q] != '#' by {
        if q < a.username.len() {
            assert(id[q] == a.username[q]);
        } else if q == a.username.len() {
            assert(id[q] == ("@"@)[0]);
        } else {
            assert(id[q] == eff[q - a.username.len() - 1]);
        }
    }
    assert forall|q: int| 0 <= q < alias.len() implies alias[q] != '#' by {
        if q < eff.len() {
            assert(alias[q] == eff[q]);
        } else if q == eff.len() {
            assert(alias[q] == ("-"@)[0]);
        } else {
            assert(alias[q] == a.username[q - eff.len() - 1]);
        }
    }
    assert forall|q: int| 0 <= q < kf.len() implies kf[q] != '#' by {
        if a.ssh_key.len() == 0 {
            if q < 18 {
                assert(kf[q] == ("~/.ssh/id_ed25519_"@)[q]);
            } else {
                assert(kf[q] == a.username[q - 18]);
            }
        } else {
            assert(kf[q] == a.ssh_key[q]);
        }
    }

    // The opening marker line holds no newline, and `#` only leads it.
    assert forall|q: int| 0 <= q < s_m.len() implies s_m[q] != '\n' && (q != 0 ==> s_m[q]
        != '#') by {
        if q < 14 {
            assert(s_m[q] == ("# >>> git-id: "@)[q]);
        } else if q < 14 + id.len() {
            assert(s_m[q] == id[q - 14]);
        } else {
            assert(s_m[q] == (" >>>"@)[q - 14 - id.len()]);
        }
    }
    assert(!s_m.contains('\n'));

    // Inside the stanza, `#` stands only at the two marker lines' heads.
    let b1 = s_m.len() as int;
    let b2 = b1 + 6;
    let b3 = b2 + alias.len();
    let b4 = b3 + 14;
    let b5 = b4 + eff.len();
    let b6 = b5 + 31;
    let b7 = b6 + kf.len();
    let b8 = b7 + 24;
    assert(b8 == ilen);
    assert forall|q: int| 1 <= q < ilen implies stz[q] != '#' by {
        if q < b1 {
            assert(stz[q] == s_m[q]);
        } else if q < b2 {
            assert(stz[q] == ("\nHost "@)[q - b1]);
        } else if q < b3 {
            assert(stz[q] == alias[q - b2]);
        } else if q < b4 {
            assert(stz[q] == ("\n    HostName "@)[q - b3]);
        } else if q < b5 {
            assert(stz[q] == eff[q - b4]);
        } else if q < b6 {
            assert(stz[q] == ("\n    User git\n    IdentityFile "@)[q - b5]);
        } else if q < b7 {
            assert(stz[q] == kf[q - b6]);
        } else {
            assert(stz[q] == ("\n    IdentitiesOnly yes\n"@)[q - b7]);
        }
    }

    // So the closing marker occurs first at its own line.
    assert(stz.subrange(ilen, ilen + e_m.len() as int) =~= e_m);
    assert(occurs_at(stz, e_m, ilen));
    assert(e_m[0] == ("# <<< git-id: "@)[0]);
    assert(("# <<< git-id: "@)[0] == '#');
    assert(("# <<< git-id: "@)[2] == '<');
    assert(("# >>> git-id: "@)[2] == '>');
    assert forall|q: int| 0 <= q < ilen implies !occurs_at(stz, e_m, q) by {
        if occurs_at(stz, e_m, q) {
            lemma_occurs_char(stz, e_m, q, q);
            if q >= 1 {
                assert(stz[q] != '#');
            } else {
                lemma_occurs_char(stz, e_m, 0, 2);
                assert(stz[2] == s_m[2]);
            }
        }
    }
    lemma_spec_find_of_occurrence(stz, e_m, 0, ilen);
}

/// Bringing the same account's stanza up to date twice yields the same
/// text as doing it once, for every starting text and every account whose
/// username, host and key path hold no newline and no `#`.
pub proof fn lemma_upsert_idempotent_plain(text: Seq<char>, a: AccountView)
    requires
        !a.username.contains('\n'),
        !a.username.contains('#'),
        !a.host.contains('\n'),
        !a.host.contains('#'),
        !a.ssh_key.contains('\n'),
        !a.ssh_key.contains('#'),
    ensures
        spec_upsert(spec_upsert(text, a), a) == spec_upsert(text, a),
{
    lemma_stanza_markers_wf(a);
    lemma_upsert_idempotent(text, a);
}

/// Bringing the same account's stanza up to date twice yields the same
/// text as doing it once, for every starting text.
pub proof fn lemma_upsert_idempotent(text: Seq<char>, a: AccountView)
    requires
        stanza_markers_wf(a),
    ensures
        spec_upsert(spec_upsert(text, a), a) == spec_upsert(text, a),
{
    reveal_strlit("\n");
    reveal_strlit("\n\n");
    reveal_strlit("# >>> git-id: ");
    reveal_strlit(" >>>");
    let id = spec_account_id(a);
    let s_m = spec_marker_start(id);
    let e_m = spec_marker_end(id);
    let stz = spec_stanza(a);
    let ilen = stz.len() - e_m.len() - 1;

    // The stanza begins with the opening marker and ends with a newline;
    // the closing marker's first occurrence inside it is at `ilen`.
    assert(s_m.len() >= 18);
    assert(stz.len() >= s_m.len() + e_m.len() + 1);
    lemma_spec_find(stz, e_m, 0);
    assert(occurs_at(stz, e_m, ilen));
    assert(stz.subrange(0, s_m.len() as int) =~= s_m);
    assert(occurs_at(stz, s_m, 0));
    assert(stz[stz.len() - 1] == '\n');

    match spec_find(text, s_m, 0) {
        None => {
            // First pass appends the stanza after a blank-line separator.
            lemma_spec_find(text, s_m, 0);
            let tr = spec_trim_char_end(text, '\n');
            lemma_trim_char_end_prefix(text, '\n');
            let t1 = tr + "\n\n"@ + stz;
            let pos = tr.len() + 2;
            assert(spec_upsert(text, a) == t1);
            assert(t1.len() == pos + stz.len());
            assert(forall|i: int| 0 <= i < tr.len() ==> t1[i] == text[i]);
            assert(t1[tr.len() as int] == '\n');
            assert(t1[tr.len() + 1 as int] == '\n');
            assert(forall|i: int| 0 <= i < stz.len() ==> t1[pos + i] == stz[i]);

            // The opening marker first occurs in t1 where the stanza begins.
            lemma_occurs_in_mid(t1, pos as int, stz, s_m, pos as int);
            assert(occurs_at(t1, s_m, pos as int));
            assert forall|q: int| 0 <= q < pos implies !occurs_at(t1, s_m, q) by {
                if occurs_at(t1, s_m, q) {
                    if q + s_m.len() <= tr.len() {
                        lemma_occurs_agree(t1, text, s_m, q, tr.len() as int);
                        assert(occurs_at(text, s_m, q));
                    } else if q <= tr.len() {
                        lemma_occurs_char(t1, s_m, q, tr.len() as int);
                        assert(s_m.contains('\n'));
                    } else {
                        lemma_occurs_char(t1, s_m, q, q);
                        assert(s_m[0] == '\n');
                        assert(s_m.contains('\n'));
                    }
                }
            }
            lemma_spec_find_of_occurrence(t1, s_m, 0, pos as int);

            // The closing marker first occurs at the stanza's closing line.
            assert forall|q: int| pos <= q < pos + ilen implies !occurs_at(t1, e_m, q) by {
                if occurs_at(t1, e_m, q) {
                    lemma_occurs_in_mid(t1, pos as int, stz, e_m, q);
                }
            }
            lemma_occurs_in_mid(t1, pos as int, stz, e_m, pos + ilen);
            assert(occurs_at(t1, e_m, pos + ilen));
            lemma_spec_find_of_occurrence(t1, e_m, pos as nat, pos + ilen);

            // The replaced window is exactly the appended stanza.
            let cut = pos + ilen + e_m.len();
            assert(cut == t1.len() - 1);
            assert(t1[cut as int] == '\n');
            let r2 = t1.subrange(0, pos as int) + stz + t1.subrange(
                t1.len() as int,
                t1.len() as int,
            );
            assert(spec_upsert(t1, a) == r2);
            assert(r2 =~= t1);
        }
        Some(s) => {
            lemma_spec_find(text, s_m, 0);
            assert(occurs_at(text, s_m, s));
            match spec_find(text, e_m, s as nat) {
                None => {
                    // Malformed region: both passes leave the text alone.
                    assert(spec_upsert(text, a) == text);
                }
                Some(e) => {
                    lemma_spec_find(text, e_m, s as nat);
                    let cut = e + e_m.len();
                    let cut2 = if cut < text.len() && text[cut] == '\n' {
                        cut + 1
                    } else {
                        cut
                    };
                    let t1 = text.subrange(0, s) + stz + text.subrange(cut2, text.len() as int);
                    assert(spec_upsert(text, a) == t1);
                    assert(t1.len() == s + stz.len() + (text.len() - cut2));
                    assert(forall|i: int| 0 <= i < s ==> t1[i] == text[i]);
                    assert(forall|i: int| 0 <= i < stz.len() ==> t1[s + i] == stz[i]);

                    // The opening marker still first occurs at s.
                    lemma_occurs_in_mid(t1, s, stz, s_m, s);
                    assert(occurs_at(t1, s_m, s));
                    assert forall|i: int| 0 <= i < s + s_m.len() implies t1[i] == text[i] by {
                        if s <= i {
                            assert(t1[i] == stz[i - s]);
                            lemma_occurs_char(text, s_m, s, i);
                        }
                    }
                    assert forall|q: int| 0 <= q < s implies !occurs_at(t1, s_m, q) by {
                        if occurs_at(t1, s_m, q) {
                            lemma_occurs_agree(t1, text, s_m, q, s + s_m.len() as int);
                            assert(occurs_at(text, s_m, q));
                        }
                    }
                    lemma_spec_find_of_occurrence(t1, s_m, 0, s);

                    // The closing marker first occurs at the stanza's
                    // closing line.
                    assert forall|q: int| s <= q < s + ilen implies !occurs_at(t1, e_m, q) by {
                        if occurs_at(t1, e_m, q) {
                            lemma_occurs_in_mid(t1, s, stz, e_m, q);
                        }
                    }
                    lemma_occurs_in_mid(t1, s, stz, e_m, s + ilen);
                    assert(occurs_at(t1, e_m, s + ilen));
                    lemma_spec_find_of_occurrence(t1, e_m, s as nat, s + ilen);

                    // The replaced window is exactly the stanza put in by
                    // the first pass.
                    let cutb = s + ilen + e_m.len();
                    assert(cutb == s + stz.len() - 1);
                    assert(t1[cutb] == stz[stz.len() - 1]);
                    let r2 = t1.subrange(0, s) + stz + t1.subrange(
                        s + stz.len(),
                        t1.len() as int,
                    );
                    assert(spec_upsert(t1, a) == r2);
                    assert(t1.subrange(0, s) =~= text.subrange(0, s));
                    assert(t1.subrange(s + stz.len(), t1.len() as int) =~= text.subrange(
                        cut2,
                        text.len() as int,
                    ));
                    assert(r2 =~= t1);
                }
            }
        }
    }
}

// ---------------------------------------------------------------------------
// Idempotence of the per-remote reconciliation
// ---------------------------------------------------------------------------

/// An account without a configured key never yields an SSH URL: when SSH
/// is forced on a parseable remote, the decision falls back to the HTTPS
/// URL and flags the fallback — it neither skips the remote nor fails.
pub proof fn lemma_ssh_fallback(a: AccountView, url: Seq<char>)
    requires
        a.ssh_key.len() == 0,
        url.len() > 0,
        spec_parse(url) is Some,
    ensures
        ({
            let d = spec_remote_decision(a, url, true, false);
            let p = spec_parse(url)->Some_0;
            let target = spec_https_url(a.https_token, p.1, p.2, p.3);
            if target == url {
                d == SpecOutcome::Unchanged { fell_back: true }
            } else {
                d == SpecOutcome::Changed { url: target, fell_back: true }
            }
        }),
{
}

/// Applying the same account and forced transport a second time to the URL
/// the first application produced changes nothing: the composed URL
/// decomposes and recomposes to itself. Holds under the same reversibility
/// conditions as the codec round trip, for any current URL whose decomposed
/// host, owner and repo are free of the codec's separator characters.
pub proof fn lemma_apply_idempotent(
    a: AccountView,
    url: Seq<char>,
    force_ssh: bool,
    force_https: bool,
)
    requires
        !(force_ssh && force_https),
        !a.username.contains('-'),
        !a.username.contains('.'),
        !a.username.contains(':'),
        !spec_effective_host(a).contains(':'),
        !a.https_token.contains('@'),
        !a.https_token.contains('/'),
        spec_parse(url) matches Some(p) && {
            &&& !p.1.contains('@')
            &&& !p.1.contains('/')
            &&& !p.2.contains('@')
            &&& !p.2.contains('/')
            &&& !p.3.contains('@')
            &&& !is_suffix(".git"@, p.3)
        },
    ensures
        spec_remote_decision(a, url, force_ssh, force_https) matches SpecOutcome::Changed {
            url: u,
            fell_back,
        } ==> spec_remote_decision(a, u, force_ssh, force_https) matches SpecOutcome::Unchanged {
            ..
        },
{
    let p = spec_parse(url)->Some_0;
    if url.len() == 0 {
    } else {
        let want_ssh0 = if force_ssh {
            true
        } else if force_https {
            false
        } else {
            p.0 == "ssh"@
        };
        let fell = want_ssh0 && a.ssh_key.len() == 0;
        let want_ssh = want_ssh0 && !fell;
        if want_ssh {
            let u = spec_ssh_url(spec_ssh_host_alias(a), p.2, p.3);
            lemma_ssh_round_trip(a, p.2, p.3);
            reveal_strlit("git@");
            assert(u.len() > 0);
        } else {
            let u = spec_https_url(a.https_token, p.1, p.2, p.3);
            lemma_https_round_trip(a.https_token, p.1, p.2, p.3);
            reveal_strlit("https://");
            reveal_strlit("https");
            reveal_strlit("ssh");
            assert(u.len() > 0);
            assert("https"@.len() == 5);
            assert("ssh"@.len() == 3);
            assert("https"@ != "ssh"@);
        }
    }
}

} // verus!
