use git_id::models::Account;
use git_id::use_cmd::{cmd_use, remote_decision, update_matching_remotes, RemoteOutcome, Scope,
    UseError};

fn rec_account(username: &str, host: &str, ssh_key: &str, token: &str) -> Account {
    Account {
        username: String::from(username),
        email: String::from("u@example.org"),
        host: String::from(host),
        ssh_key: String::from(ssh_key),
        https_token: String::from(token),
    }
}

#[test]
fn unchanged_when_url_already_matches() {
    // End to end: an SSH remote already on the account's alias is reported
    // unchanged.
    let acc = rec_account("alice", "github.com", "/home/alice/.ssh/id_ed25519_alice", "");
    let r = remote_decision(&acc, "git@github.com-alice:alice/repo.git", false, false);
    assert!(matches!(r, RemoteOutcome::Unchanged { fell_back: false }));
}

#[test]
fn changed_when_token_differs() {
    // An HTTPS remote with a stale token is rewritten with the account's.
    let acc = rec_account("bob", "github.com", "", "newtoken");
    let r = remote_decision(&acc, "https://oldtoken@github.com/bob/repo.git", false, false);
    match r {
        RemoteOutcome::Changed { url, fell_back } => {
            assert_eq!(url, "https://newtoken@github.com/bob/repo.git");
            assert!(!fell_back);
        }
        _ => panic!("expected a change"),
    }
}

#[test]
fn forced_ssh_falls_back_to_https_without_key() {
    let acc = rec_account("alice", "github.com", "", "");
    let r = remote_decision(&acc, "git@github.com-alice:alice/repo.git", true, false);
    match r {
        RemoteOutcome::Changed { url, fell_back } => {
            assert_eq!(url, "https://github.com/alice/repo.git");
            assert!(fell_back);
        }
        _ => panic!("expected an https fallback"),
    }
}

#[test]
fn forced_ssh_fallback_reports_unchanged_when_https_already_right() {
    let acc = rec_account("alice", "github.com", "", "");
    let r = remote_decision(&acc, "https://github.com/alice/repo.git", true, false);
    assert!(matches!(r, RemoteOutcome::Unchanged { fell_back: true }));
}

#[test]
fn forced_https_converts_ssh_remote() {
    let acc = rec_account("alice", "github.com", "/k", "tok");
    let r = remote_decision(&acc, "git@github.com-alice:alice/repo.git", false, true);
    match r {
        RemoteOutcome::Changed { url, fell_back } => {
            assert_eq!(url, "https://tok@github.com/alice/repo.git");
            assert!(!fell_back);
        }
        _ => panic!("expected an https rewrite"),
    }
}

#[test]
fn forced_ssh_converts_https_remote() {
    let acc = rec_account("alice", "github.com", "/k", "");
    let r = remote_decision(&acc, "https://github.com/alice/repo.git", true, false);
    match r {
        RemoteOutcome::Changed { url, fell_back } => {
            assert_eq!(url, "git@github.com-alice:alice/repo.git");
            assert!(!fell_back);
        }
        _ => panic!("expected an ssh rewrite"),
    }
}

#[test]
fn decision_skips_empty_and_unrecognized() {
    let acc = rec_account("alice", "github.com", "/k", "");
    assert!(matches!(remote_decision(&acc, "", false, false), RemoteOutcome::SkippedEmpty));
    assert!(matches!(
        remote_decision(&acc, "svn://weird", false, false),
        RemoteOutcome::SkippedUnrecognized
    ));
}

#[test]
fn applying_twice_changes_nothing_more() {
    let acc = rec_account("alice", "github.com", "", "tok");
    let first = remote_decision(&acc, "git@github.com-alice:alice/repo.git", true, false);
    let url = match first {
        RemoteOutcome::Changed { url, .. } => url,
        _ => panic!("expected a change on the first application"),
    };
    let second = remote_decision(&acc, &url, true, false);
    assert!(matches!(second, RemoteOutcome::Unchanged { .. }));
}

#[test]
fn applying_twice_without_force_changes_nothing_more() {
    let acc = rec_account("carol", "gitlab.com", "/k", "");
    let first = remote_decision(&acc, "git@gitlab.com:carol/tool.git", false, false);
    let url = match first {
        RemoteOutcome::Changed { url, .. } => url,
        _ => panic!("expected a change on the first application"),
    };
    assert_eq!(url, "git@gitlab.com-carol:carol/tool.git");
    let second = remote_decision(&acc, &url, false, false);
    assert!(matches!(second, RemoteOutcome::Unchanged { fell_back: false }));
}

#[test]
fn remotes_filter_processes_origin_and_matching_only() {
    let acc = rec_account("alice", "github.com", "/k", "");
    let remotes = vec![
        (String::from("origin"), String::from("https://github.com/someone/else.git")),
        (String::from("upstream"), String::from("https://github.com/unrelated/repo.git")),
        (String::from("mine"), String::from("https://github.com/alice/repo.git")),
        (String::from("aliased"), String::from("git@github.com-alice:alice/x.git")),
        (String::from("empty"), String::new()),
        (String::from("junk"), String::from("not a url")),
    ];
    let outcomes = update_matching_remotes(&acc, &remotes, false, false);
    assert_eq!(outcomes.len(), 6);
    assert!(matches!(outcomes[0], RemoteOutcome::Unchanged { .. }));
    assert!(matches!(outcomes[1], RemoteOutcome::SkippedUnrelated));
    assert!(matches!(outcomes[2], RemoteOutcome::Unchanged { .. }));
    assert!(matches!(outcomes[3], RemoteOutcome::Unchanged { .. }));
    assert!(matches!(outcomes[4], RemoteOutcome::SkippedEmpty));
    assert!(matches!(outcomes[5], RemoteOutcome::SkippedUnrecognized));
}

#[test]
fn one_bad_remote_never_blocks_the_others() {
    let acc = rec_account("alice", "github.com", "/k", "");
    let remotes = vec![
        (String::from("junk"), String::from("not a url")),
        (String::from("origin"), String::from("https://github.com/alice/repo.git")),
    ];
    let outcomes = update_matching_remotes(&acc, &remotes, true, false);
    assert!(matches!(outcomes[0], RemoteOutcome::SkippedUnrecognized));
    assert!(matches!(outcomes[1], RemoteOutcome::Changed { .. }));
}

#[test]
fn cmd_use_rejects_conflicting_transports() {
    let dir = vec![rec_account("alice", "github.com", "/k", "")];
    let r = cmd_use(&dir, "alice", false, true, true);
    assert!(matches!(r, Err(UseError::ConflictingTransport)));
}

#[test]
fn cmd_use_reports_missing_account() {
    let dir = vec![rec_account("alice", "github.com", "/k", "")];
    assert!(matches!(cmd_use(&dir, "nobody", false, false, false), Err(UseError::NotFound)));
}

#[test]
fn cmd_use_reports_ambiguity_with_hints() {
    let dir = vec![
        rec_account("alice", "github.com", "/k", ""),
        rec_account("alice", "gitlab.com", "/k", ""),
    ];
    match cmd_use(&dir, "alice", false, false, false) {
        Err(UseError::Ambiguous(hints)) => {
            assert_eq!(hints, vec!["alice@github.com", "alice@gitlab.com"]);
        }
        _ => panic!("expected an ambiguous lookup"),
    }
}

#[test]
fn cmd_use_picks_scope_from_flag() {
    let dir = vec![rec_account("alice", "github.com", "/k", "")];
    let local = cmd_use(&dir, "alice", false, false, false).unwrap();
    assert_eq!(local.scope, Scope::Local);
    assert_eq!(local.account.username, "alice");
    let global = cmd_use(&dir, "alice", true, false, false).unwrap();
    assert_eq!(global.scope, Scope::Global);
}
