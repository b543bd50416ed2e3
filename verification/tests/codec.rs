use git_id::git::{build_https_url, build_ssh_url, parse_remote_url, repo_name,
    strip_host_alias_suffix};
use git_id::models::Account;

fn codec_account(username: &str, host: &str, ssh_key: &str, token: &str) -> Account {
    Account {
        username: String::from(username),
        email: String::new(),
        host: String::from(host),
        ssh_key: String::from(ssh_key),
        https_token: String::from(token),
    }
}

#[test]
fn parse_ssh_alias_url() {
    let parsed = parse_remote_url("git@github.com-alice:alice/repo.git").unwrap();
    assert_eq!(parsed.0, "ssh");
    assert_eq!(parsed.1, "github.com");
    assert_eq!(parsed.2, "alice");
    assert_eq!(parsed.3, "repo");
}

#[test]
fn parse_ssh_plain_host_url() {
    let parsed = parse_remote_url("git@github.com:owner/project.git").unwrap();
    assert_eq!(parsed.0, "ssh");
    assert_eq!(parsed.1, "github.com");
    assert_eq!(parsed.2, "owner");
    assert_eq!(parsed.3, "project");
}

#[test]
fn parse_ssh_without_git_suffix() {
    let parsed = parse_remote_url("git@gitlab.com-bob:bob/tool").unwrap();
    assert_eq!(parsed.1, "gitlab.com");
    assert_eq!(parsed.2, "bob");
    assert_eq!(parsed.3, "tool");
}

#[test]
fn parse_ssh_trims_repeated_git_suffix() {
    let parsed = parse_remote_url("git@github.com:o/r.git.git").unwrap();
    assert_eq!(parsed.3, "r");
}

#[test]
fn parse_https_plain() {
    let parsed = parse_remote_url("https://github.com/owner/repo.git").unwrap();
    assert_eq!(parsed.0, "https");
    assert_eq!(parsed.1, "github.com");
    assert_eq!(parsed.2, "owner");
    assert_eq!(parsed.3, "repo");
}

#[test]
fn parse_https_strips_credential() {
    let parsed = parse_remote_url("https://oldtoken@github.com/bob/repo.git").unwrap();
    assert_eq!(parsed.0, "https");
    assert_eq!(parsed.1, "github.com");
    assert_eq!(parsed.2, "bob");
    assert_eq!(parsed.3, "repo");
}

#[test]
fn parse_rejects_unknown_scheme() {
    assert!(parse_remote_url("ftp://github.com/a/b").is_none());
    assert!(parse_remote_url("").is_none());
    assert!(parse_remote_url("plain text").is_none());
}

#[test]
fn parse_rejects_ssh_without_colon_or_slash() {
    assert!(parse_remote_url("git@github.com").is_none());
    assert!(parse_remote_url("git@github.com:justarepo").is_none());
}

#[test]
fn parse_rejects_https_with_too_few_parts() {
    assert!(parse_remote_url("https://github.com/owneronly").is_none());
}

#[test]
fn strip_alias_removes_dotless_suffix() {
    assert_eq!(strip_host_alias_suffix("github.com-alice"), "github.com");
    assert_eq!(strip_host_alias_suffix("github.com"), "github.com");
    assert_eq!(strip_host_alias_suffix("gitlab.com-two-part"), "gitlab.com-two");
}

#[test]
fn strip_alias_keeps_dotted_suffix() {
    assert_eq!(strip_host_alias_suffix("my-git.example.org"), "my-git.example.org");
}

#[test]
fn strip_alias_known_limitation_on_dotless_hyphenated_host() {
    // A host that itself ends in a hyphen plus a dotless segment cannot be
    // told apart from an alias; the heuristic strips it. Documented
    // behaviour, not fixed.
    assert_eq!(strip_host_alias_suffix("my-host"), "my");
    // A dotted enterprise host with an alias suffix still round-trips.
    assert_eq!(strip_host_alias_suffix("github-enterprise.corp-alice"), "github-enterprise.corp");
}

#[test]
fn build_ssh_url_always_uses_alias() {
    let acc = codec_account("alice", "github.com", "/k", "");
    assert_eq!(build_ssh_url(&acc, "alice", "repo"), "git@github.com-alice:alice/repo.git");
}

#[test]
fn build_ssh_url_defaults_empty_host() {
    let acc = codec_account("bob", "", "/k", "");
    assert_eq!(build_ssh_url(&acc, "bob", "tool"), "git@github.com-bob:bob/tool.git");
}

#[test]
fn build_https_url_embeds_token_when_present() {
    assert_eq!(
        build_https_url("tok", "github.com", "o", "r"),
        "https://tok@github.com/o/r.git"
    );
    assert_eq!(build_https_url("", "github.com", "o", "r"), "https://github.com/o/r.git");
}

#[test]
fn ssh_round_trip_recovers_components() {
    let acc = codec_account("alice", "gitlab.example.org", "/k", "");
    let url = build_ssh_url(&acc, "owner", "repo");
    let parsed = parse_remote_url(&url).unwrap();
    assert_eq!(parsed.0, "ssh");
    assert_eq!(parsed.1, "gitlab.example.org");
    assert_eq!(parsed.2, "owner");
    assert_eq!(parsed.3, "repo");
}

#[test]
fn https_round_trip_recovers_components() {
    let url = build_https_url("secret", "example.com", "owner", "repo");
    let parsed = parse_remote_url(&url).unwrap();
    assert_eq!(parsed.0, "https");
    assert_eq!(parsed.1, "example.com");
    assert_eq!(parsed.2, "owner");
    assert_eq!(parsed.3, "repo");
}

#[test]
fn parse_https_credential_drop_is_greedy() {
    // The credential drop cuts at the first `@` after the scheme, wherever
    // it stands; an `@` later in the path therefore spoils the split.
    assert!(parse_remote_url("https://github.com/o/r@tag.git").is_none());
}

#[test]
fn alias_round_trip_limitation_with_hyphenated_username() {
    // A username holding a hyphen defeats the alias-stripping heuristic:
    // only the last dotless segment is stripped. Documented behaviour.
    let acc = codec_account("al-ice", "github.com", "/k", "");
    let url = build_ssh_url(&acc, "al-ice", "repo");
    let parsed = parse_remote_url(&url).unwrap();
    assert_eq!(parsed.1, "github.com-al");
}

#[test]
fn alias_round_trip_survives_hyphenated_dotless_host() {
    let acc = codec_account("alice", "my-host", "/k", "");
    let url = build_ssh_url(&acc, "o", "r");
    assert_eq!(url, "git@my-host-alice:o/r.git");
    let parsed = parse_remote_url(&url).unwrap();
    assert_eq!(parsed.1, "my-host");
}

#[test]
fn repo_name_takes_last_component() {
    assert_eq!(repo_name("/home/alice/work/project"), "project");
    assert_eq!(repo_name("project"), "project");
    assert_eq!(repo_name(""), ".");
    assert_eq!(repo_name("/"), ".");
    assert_eq!(repo_name("/home/alice/project/"), "project");
    assert_eq!(repo_name("/home/alice/.."), ".");
}
