use clawhip_lanes::shell::{default_keyword_window_secs, shell_quote, DEFAULT_KEYWORD_WINDOW_SECS};

#[test]
fn safe_strings_are_unquoted() {
    assert_eq!(shell_quote("hello"), "hello");
    assert_eq!(shell_quote("foo-bar"), "foo-bar");
    assert_eq!(shell_quote("path/to/file.txt"), "path/to/file.txt");
    assert_eq!(shell_quote("user@host"), "user@host");
    assert_eq!(shell_quote("key=value"), "key=value");
    assert_eq!(shell_quote("100%"), "100%");
    assert_eq!(shell_quote("a+b"), "a+b");
    assert_eq!(shell_quote("a,b"), "a,b");
    assert_eq!(shell_quote("a:b"), "a:b");
    assert_eq!(shell_quote("_priv"), "_priv");
}

#[test]
fn unsafe_strings_are_single_quoted() {
    assert_eq!(shell_quote("hello world"), "'hello world'");
    assert_eq!(shell_quote("<@123>"), "'<@123>'");
    assert_eq!(shell_quote("it's"), "'it'\\''s'");
    assert_eq!(shell_quote(""), "''");
    assert_eq!(shell_quote("$HOME"), "'$HOME'");
    assert_eq!(shell_quote("a b"), "'a b'");
}

#[test]
fn ledger_shell_quote_compat_alphanumeric_and_dash() {
    assert_eq!(shell_quote("agent-1"), "agent-1");
    assert_eq!(shell_quote("alerts"), "alerts");
    assert_eq!(
        shell_quote("READY_FOR_REVIEW,BLOCKED"),
        "READY_FOR_REVIEW,BLOCKED"
    );
    assert_eq!(shell_quote("<@123>"), "'<@123>'");
}

#[test]
fn tmux_shell_escape_compat() {
    assert_eq!(shell_quote("tmux-session"), "tmux-session");
    assert_eq!(shell_quote("key=value"), "key=value");
    assert_eq!(shell_quote("path/to"), "path/to");
}

#[test]
fn letters_outside_ascii_are_quoted() {
    assert_eq!(shell_quote("é"), "'é'");
    assert_eq!(shell_quote("''"), "''\\'''\\'''");
    assert_eq!(shell_quote("a\nb"), "'a\nb'");
}

#[test]
fn keyword_window_default() {
    assert_eq!(default_keyword_window_secs(), 30);
    assert_eq!(DEFAULT_KEYWORD_WINDOW_SECS, 30);
}
