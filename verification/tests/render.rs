use git_id::config::{accounts_to_toml, escape_toml_value};
use git_id::models::Account;
use git_id::ui::color;

fn render_account(username: &str, email: &str, host: &str, key: &str, token: &str) -> Account {
    Account {
        username: String::from(username),
        email: String::from(email),
        host: String::from(host),
        ssh_key: String::from(key),
        https_token: String::from(token),
    }
}

#[test]
fn toml_of_empty_directory_is_header_and_blank_line() {
    let text = accounts_to_toml(&vec![]);
    assert_eq!(
        text,
        "# git-id accounts - managed by git-id (safe to edit manually)\n\
         # Add a new [[accounts]] section to register another identity.\n\n"
    );
}

#[test]
fn toml_of_one_account_is_exact() {
    let acc = render_account("alice", "a@x.org", "github.com", "/k", "tok");
    let text = accounts_to_toml(&vec![acc]);
    assert_eq!(
        text,
        "# git-id accounts - managed by git-id (safe to edit manually)\n\
         # Add a new [[accounts]] section to register another identity.\n\
         \n\
         [[accounts]]\n\
         username = \"alice\"\n\
         email = \"a@x.org\"\n\
         host = \"github.com\"\n\
         ssh_key = \"/k\"\n\
         https_token = \"tok\"\n\
         \n"
    );
}

#[test]
fn toml_renders_accounts_in_order() {
    let a = render_account("alice", "", "", "", "");
    let b = render_account("bob", "", "", "", "");
    let text = accounts_to_toml(&vec![a, b]);
    let first = text.find("username = \"alice\"").unwrap();
    let second = text.find("username = \"bob\"").unwrap();
    assert!(first < second);
    assert_eq!(text.matches("\n[[accounts]]\n").count(), 2);
}

#[test]
fn toml_escapes_quotes_and_backslashes() {
    assert_eq!(escape_toml_value("plain"), "plain");
    assert_eq!(escape_toml_value("a\\b"), "a\\\\b");
    assert_eq!(escape_toml_value("say \"hi\""), "say \\\"hi\\\"");
    let acc = render_account("q\"u", "", "", "", "");
    let text = accounts_to_toml(&vec![acc]);
    assert!(text.contains("username = \"q\\\"u\"\n"));
}

#[test]
fn color_wraps_only_on_a_terminal() {
    assert_eq!(color("red", "boom", false), "boom");
    assert_eq!(color("red", "boom", true), "\x1b[31mboom\x1b[0m");
    assert_eq!(color("green", "ok", true), "\x1b[32mok\x1b[0m");
    assert_eq!(color("bold", "t", true), "\x1b[1mt\x1b[0m");
    assert_eq!(color("dim", "t", true), "\x1b[2mt\x1b[0m");
    assert_eq!(color("cyan", "t", true), "\x1b[36mt\x1b[0m");
    assert_eq!(color("unknown", "t", true), "\x1b[0mt\x1b[0m");
}
