use git_id::config::{account_exists, account_id, accounts_file, config_dir, find_account,
    find_by_email, remove_account, ssh_host_alias, Lookup};
use git_id::models::{Account, AccountsFile};

fn dir_account(username: &str, email: &str, host: &str) -> Account {
    Account {
        username: String::from(username),
        email: String::from(email),
        host: String::from(host),
        ssh_key: String::new(),
        https_token: String::new(),
    }
}

#[test]
fn account_id_uses_effective_host() {
    assert_eq!(account_id(&dir_account("alice", "", "gitlab.com")), "alice@gitlab.com");
    assert_eq!(account_id(&dir_account("alice", "", "")), "alice@github.com");
}

#[test]
fn alias_is_host_dash_username() {
    assert_eq!(ssh_host_alias(&dir_account("alice", "", "gitlab.com")), "gitlab.com-alice");
    assert_eq!(ssh_host_alias(&dir_account("bob", "", "")), "github.com-bob");
}

#[test]
fn lookup_bare_username_single_match() {
    let dir = vec![dir_account("alice", "a@x", "github.com"), dir_account("bob", "b@x", "")];
    match find_account(&dir, "bob") {
        Lookup::Found(a) => assert_eq!(a.username, "bob"),
        _ => panic!("expected a single match"),
    }
}

#[test]
fn lookup_bare_username_no_match() {
    let dir = vec![dir_account("alice", "a@x", "github.com")];
    assert!(matches!(find_account(&dir, "carol"), Lookup::NotFound));
}

#[test]
fn lookup_ambiguous_lists_both_candidates() {
    let dir = vec![
        dir_account("alice", "a@x", "github.com"),
        dir_account("alice", "a@y", "gitlab.com"),
    ];
    match find_account(&dir, "alice") {
        Lookup::Ambiguous(hints) => {
            assert_eq!(hints, vec!["alice@github.com", "alice@gitlab.com"]);
        }
        _ => panic!("expected an ambiguous lookup"),
    }
}

#[test]
fn lookup_qualified_key_is_exact() {
    let dir = vec![
        dir_account("alice", "a@x", "github.com"),
        dir_account("alice", "a@y", "gitlab.com"),
    ];
    match find_account(&dir, "alice@gitlab.com") {
        Lookup::Found(a) => {
            assert_eq!(a.host, "gitlab.com");
            assert_eq!(a.email, "a@y");
        }
        _ => panic!("expected the gitlab account"),
    }
    assert!(matches!(find_account(&dir, "alice@example.org"), Lookup::NotFound));
}

#[test]
fn lookup_qualified_key_uses_effective_host() {
    // An account with an empty host field answers to the default host: the
    // qualified form names the identity pair, which is the very key the
    // ambiguity hints print.
    let dir = vec![dir_account("alice", "a@x", "")];
    assert!(matches!(find_account(&dir, "alice@github.com"), Lookup::Found(_)));
    assert!(matches!(find_account(&dir, "alice"), Lookup::Found(_)));
    assert!(matches!(find_account(&dir, "alice@gitlab.com"), Lookup::NotFound));
}

#[test]
fn exists_checks_the_exact_pair() {
    let dir = vec![dir_account("alice", "a@x", "github.com")];
    assert!(account_exists(&dir, "alice", "github.com"));
    assert!(!account_exists(&dir, "alice", "gitlab.com"));
    assert!(!account_exists(&dir, "bob", "github.com"));
}

#[test]
fn exists_reads_empty_hosts_as_the_default() {
    // (user, "") and (user, "github.com") are one identity: neither form
    // can be inserted beside the other.
    let stored_empty = vec![dir_account("alice", "a@x", "")];
    assert!(account_exists(&stored_empty, "alice", "github.com"));
    assert!(account_exists(&stored_empty, "alice", ""));
    let stored_named = vec![dir_account("alice", "a@x", "github.com")];
    assert!(account_exists(&stored_named, "alice", ""));
    assert!(!account_exists(&stored_named, "alice", "gitlab.com"));
}

#[test]
fn remove_account_drops_only_the_named_identity() {
    let dir = vec![
        dir_account("alice", "a@x", "github.com"),
        dir_account("bob", "b@x", ""),
        dir_account("alice", "a@y", "gitlab.com"),
    ];
    let rest = remove_account(&dir, "alice@github.com");
    assert_eq!(rest.len(), 2);
    assert_eq!(rest[0].username, "bob");
    assert_eq!(rest[1].host, "gitlab.com");
    // the empty-host account is addressed by its effective identity
    let rest2 = remove_account(&dir, "bob@github.com");
    assert_eq!(rest2.len(), 2);
    assert_eq!(rest2[0].username, "alice");
}

#[test]
fn find_by_email_takes_first_match() {
    let dir = vec![
        dir_account("alice", "same@x", "github.com"),
        dir_account("bob", "same@x", "gitlab.com"),
    ];
    let found = find_by_email(&dir, "same@x").unwrap();
    assert_eq!(found.username, "alice");
    assert!(find_by_email(&dir, "other@x").is_none());
}

#[test]
fn accounts_file_keeps_directory_order() {
    let store = AccountsFile {
        accounts: vec![dir_account("alice", "a@x", ""), dir_account("bob", "b@x", "")],
    };
    assert_eq!(store.accounts.len(), 2);
    assert_eq!(account_id(&store.accounts[0]), "alice@github.com");
    assert_eq!(account_id(&store.accounts[1]), "bob@github.com");
}

#[test]
fn config_paths_are_under_home() {
    assert_eq!(config_dir("/home/u"), "/home/u/.config/git-id");
    assert_eq!(accounts_file("/home/u"), "/home/u/.config/git-id/accounts.toml");
}
