use rust_shell::complete::{
    contain_nocase, gen_autocomplete_item, is_prefix, is_prefix_nocase, AttachCommandCompleter,
    Completer, CompleterKind, PadCommandCompleter, PathCompleter, ShellCompleter,
};

fn pair(a: &str, b: &str) -> (String, String) {
    (a.to_string(), b.to_string())
}

#[test]
fn prefix_checks() {
    assert!(is_prefix("attach", "att"));
    assert!(is_prefix("attach", ""));
    assert!(!is_prefix("att", "attach"));
    assert!(!is_prefix("attach", "Att"));
    assert!(is_prefix_nocase("attach", "ATT"));
    assert!(!is_prefix_nocase("at", "ATT"));
    assert!(is_prefix("é1", "é"));
}

#[test]
fn substring_check() {
    assert!(contain_nocase("Hello World", "lo w"));
    assert!(!contain_nocase("Hello", "xyz"));
    assert!(!contain_nocase("ab", "abc"));
    assert!(contain_nocase("ab", ""));
}

#[test]
fn table_prefers_exact_prefix() {
    let mut c = ShellCompleter::new();
    c.set_autocomplete_data(vec![pair("attach", "attach"), pair("Attr", "Attr"), pair("detach", "detach")]);
    assert_eq!(c.debug_command_complete("att"), Some(vec![pair("attach", "attach")]));
    assert_eq!(
        c.debug_command_complete("ATT"),
        Some(vec![pair("attach", "attach"), pair("Attr", "Attr")])
    );
    assert_eq!(
        c.debug_command_complete("tach"),
        Some(vec![pair("attach", "attach"), pair("detach", "detach")])
    );
    assert_eq!(c.debug_command_complete("zzz"), None);
}

#[test]
fn append_puts_new_entries_first() {
    let mut c = ShellCompleter::new();
    c.set_autocomplete_data(vec![pair("exit", "exit")]);
    c.append_complete_data(vec![pair("hello", "hello")]);
    assert_eq!(c.autocomplete_data, vec![pair("hello", "hello"), pair("exit", "exit")]);
}

#[test]
fn process_candidates() {
    let rows = vec![pair("101", "bash"), pair("202", "server"), pair("303", "Server2")];
    assert_eq!(gen_autocomplete_item(&rows, "10"), Some(vec![pair("101", "101(bash)")]));
    assert_eq!(gen_autocomplete_item(&rows, "ser"), Some(vec![pair("server", "202(server)")]));
    assert_eq!(
        gen_autocomplete_item(&rows, "SER"),
        Some(vec![pair("server", "202(server)"), pair("Server2", "303(Server2)")])
    );
    assert_eq!(gen_autocomplete_item(&rows, "ash"), Some(vec![pair("bash", "101(bash)")]));
    assert_eq!(gen_autocomplete_item(&rows, "qq"), None);
}

#[test]
fn completer_filters() {
    assert!(AttachCommandCompleter::filter("b", "attach b"));
    assert!(!AttachCommandCompleter::filter("b", "detach b"));
    assert!(PadCommandCompleter::filter("", "  pad "));
    assert!(PathCompleter::filter("x", "cat x"));
    assert!(!PathCompleter::filter("cat", "cat "));
    assert!(CompleterKind::Attach.filter("", "attach"));
}

#[test]
fn chain_then_table() {
    let mut c = ShellCompleter::new();
    c.set_autocomplete_data(vec![pair("attach", "attach")]);
    let found = vec![vec![pair("101", "101(bash)")], vec![]];
    assert_eq!(c.complete("1", "attach 1", found), Some(vec![pair("101", "101(bash)")]));
    let found = vec![vec![pair("101", "101(bash)")], vec![]];
    assert_eq!(c.complete("at", "at", found), Some(vec![pair("attach", "attach")]));
    let found = vec![vec![], vec![pair("/tmp", "/tmp")]];
    assert_eq!(c.complete("/t", "ls /t", found), Some(vec![pair("/tmp", "/tmp")]));
}
