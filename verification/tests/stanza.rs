use git_id::models::Account;
use git_id::ssh::{contains_marker, default_key_path, make_stanza, marker_end, marker_start,
    remove_stanza, replace_stanza, ssh_config_path, ssh_dir, update_ssh_config_text,
    upsert_stanza};

fn stanza_account(username: &str, host: &str, ssh_key: &str) -> Account {
    Account {
        username: String::from(username),
        email: String::new(),
        host: String::from(host),
        ssh_key: String::from(ssh_key),
        https_token: String::new(),
    }
}

#[test]
fn markers_embed_the_identity() {
    assert_eq!(marker_start("alice@github.com"), "# >>> git-id: alice@github.com >>>");
    assert_eq!(marker_end("alice@github.com"), "# <<< git-id: alice@github.com <<<");
}

#[test]
fn stanza_text_is_exact() {
    let acc = stanza_account("alice", "github.com", "/home/alice/.ssh/id_ed25519_alice");
    let expected = "# >>> git-id: alice@github.com >>>\n\
                    Host github.com-alice\n\
                    \x20   HostName github.com\n\
                    \x20   User git\n\
                    \x20   IdentityFile /home/alice/.ssh/id_ed25519_alice\n\
                    \x20   IdentitiesOnly yes\n\
                    # <<< git-id: alice@github.com <<<\n";
    assert_eq!(make_stanza(&acc), expected);
}

#[test]
fn stanza_defaults_key_and_host() {
    let acc = stanza_account("bob", "", "");
    let stanza = make_stanza(&acc);
    assert!(stanza.contains("Host github.com-bob\n"));
    assert!(stanza.contains("IdentityFile ~/.ssh/id_ed25519_bob\n"));
    assert!(stanza.starts_with("# >>> git-id: bob@github.com >>>\n"));
}

#[test]
fn upsert_appends_after_blank_line() {
    let acc = stanza_account("alice", "github.com", "/k");
    let stanza = make_stanza(&acc);
    let out = upsert_stanza("Host other\n    User me\n", &acc);
    assert_eq!(out, format!("Host other\n    User me\n\n{stanza}"));
}

#[test]
fn upsert_on_empty_text_starts_with_separator() {
    let acc = stanza_account("alice", "github.com", "/k");
    let stanza = make_stanza(&acc);
    assert_eq!(upsert_stanza("", &acc), format!("\n\n{stanza}"));
}

#[test]
fn upsert_replaces_in_place() {
    let acc_old = stanza_account("alice", "github.com", "/old/key");
    let acc_new = stanza_account("alice", "github.com", "/new/key");
    let base = format!("before\n\n{}\nafter\n", make_stanza(&acc_old));
    let out = upsert_stanza(&base, &acc_new);
    assert_eq!(out, format!("before\n\n{}\nafter\n", make_stanza(&acc_new)));
}

#[test]
fn upsert_is_idempotent_on_fresh_text() {
    let acc = stanza_account("alice", "github.com", "/k");
    let once = upsert_stanza("Host other\n", &acc);
    let twice = upsert_stanza(&once, &acc);
    assert_eq!(twice, once);
}

#[test]
fn upsert_is_idempotent_on_text_with_stanza() {
    let acc = stanza_account("carol", "gitlab.com", "");
    let base = format!("x\n\n{}rest\n", make_stanza(&stanza_account("carol", "gitlab.com", "/k")));
    let once = upsert_stanza(&base, &acc);
    let twice = upsert_stanza(&once, &acc);
    assert_eq!(twice, once);
}

#[test]
fn upsert_leaves_malformed_region_alone() {
    // A start marker without its end marker marks a partially edited file:
    // the upsert must not corrupt it.
    let acc = stanza_account("alice", "github.com", "/k");
    let start = marker_start("alice@github.com");
    let text = format!("{start}\nHost broken\n");
    assert_eq!(upsert_stanza(&text, &acc), text);
}

#[test]
fn upsert_normalizes_trailing_newlines() {
    let acc = stanza_account("alice", "github.com", "/k");
    let stanza = make_stanza(&acc);
    assert_eq!(upsert_stanza("a\n\n\n\n", &acc), format!("a\n\n{stanza}"));
}

#[test]
fn upsert_keeps_other_accounts_stanzas() {
    let alice = stanza_account("alice", "github.com", "/ka");
    let bob = stanza_account("bob", "gitlab.com", "/kb");
    let both = update_ssh_config_text(&vec![alice.clone(), bob.clone()], "");
    assert!(both.contains("# >>> git-id: alice@github.com >>>"));
    assert!(both.contains("# >>> git-id: bob@gitlab.com >>>"));
    let alice2 = stanza_account("alice", "github.com", "/elsewhere");
    let updated = upsert_stanza(&both, &alice2);
    assert!(updated.contains("IdentityFile /elsewhere\n"));
    assert!(updated.contains("IdentityFile /kb\n"));
}

#[test]
fn remove_without_marker_returns_text_unchanged() {
    let start = marker_start("alice@github.com");
    let end = marker_end("alice@github.com");
    let text = "Host other\n    User me\n";
    assert!(!contains_marker(text, &start));
    assert_eq!(remove_stanza(text, &start, &end), text);
}

#[test]
fn remove_deletes_region_and_preceding_newline() {
    let acc = stanza_account("alice", "github.com", "/k");
    let start = marker_start("alice@github.com");
    let end = marker_end("alice@github.com");
    let text = format!("before\n\n{}after\n", make_stanza(&acc));
    let out = remove_stanza(&text, &start, &end);
    assert_eq!(out, "before\nafter\n");
}

#[test]
fn remove_with_missing_end_marker_leaves_text() {
    let start = marker_start("alice@github.com");
    let end = marker_end("alice@github.com");
    let text = format!("{start}\nHost broken\n");
    assert_eq!(remove_stanza(&text, &start, &end), text);
}

#[test]
fn replace_with_missing_end_marker_leaves_text() {
    let start = marker_start("alice@github.com");
    let end = marker_end("alice@github.com");
    let text = format!("{start}\nHost broken\n");
    assert_eq!(replace_stanza(&text, &start, &end, "NEW"), text);
}

#[test]
fn replace_swaps_region_for_replacement() {
    let text = "a\nSTART\nmiddle\nEND\nb\n";
    assert_eq!(replace_stanza(text, "START", "END", "X\n"), "a\nX\nb\n");
}

#[test]
fn two_stanzas_stay_sequential_not_interleaved() {
    let alice = stanza_account("alice", "github.com", "/ka");
    let bob = stanza_account("bob", "github.com", "/kb");
    let text = update_ssh_config_text(&vec![alice.clone(), bob.clone()], "");
    let alice_end = text.find("# <<< git-id: alice@github.com <<<").unwrap();
    let bob_start = text.find("# >>> git-id: bob@github.com >>>").unwrap();
    assert!(alice_end < bob_start);
}

#[test]
fn ssh_paths_are_under_home() {
    assert_eq!(ssh_dir("/home/u"), "/home/u/.ssh");
    assert_eq!(ssh_config_path("/home/u"), "/home/u/.ssh/config");
    assert_eq!(default_key_path("/home/u", "alice"), "/home/u/.ssh/id_ed25519_alice");
}
