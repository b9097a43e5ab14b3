use rust_shell::client::{
    attach_target, attached_prompt, builtin_completions, completion_pairs, default_prompt,
    interpret_line, parse_auto_complete, AttachError, LineAction,
};
use rust_shell::grammar::Argument;
use rust_shell::procs::{find_process, process_entries, process_list_rows};
use rust_shell::server::{socket_paths, Server};
use rust_shell::registry::Shell;

fn procs() -> Vec<(String, u64)> {
    vec![("bash".to_string(), 11), ("server".to_string(), 22), ("server2".to_string(), 33)]
}

#[test]
fn line_actions() {
    assert!(matches!(interpret_line(""), LineAction::Skip));
    assert!(matches!(interpret_line(" detach "), LineAction::Detach));
    assert!(matches!(interpret_line("exit"), LineAction::Exit));
    assert!(matches!(interpret_line("hello 1"), LineAction::Forward));
    match interpret_line("attach 22") {
        LineAction::Attach(a) => assert_eq!(a, vec![Argument::Int(22)]),
        _ => panic!("not an attach"),
    }
}

#[test]
fn attach_by_pid_and_name() {
    let p = procs();
    assert_eq!(attach_target(&p, &vec![Argument::Int(22)]).ok(), Some(("server".to_string(), 22)));
    assert_eq!(attach_target(&p, &vec![Argument::Str("ba".to_string())]).ok(), Some(("bash".to_string(), 11)));
}

#[test]
fn attach_errors() {
    let p = procs();
    let e = attach_target(&p, &vec![]).err().unwrap();
    assert_eq!(e.message(), "argument number error");
    let e = attach_target(&p, &vec![Argument::Int(99)]).err().unwrap();
    assert!(matches!(e, AttachError::NoSuchTarget));
    assert_eq!(e.message(), "process not found");
    let e = attach_target(&p, &vec![Argument::Str("serv".to_string())]).err().unwrap();
    assert_eq!(e.message(), "multiple process found: \nserver: 22\nserver2: 33");
}

#[test]
fn find_by_prefix() {
    assert_eq!(find_process(&procs(), &Argument::Str("server".to_string())).len(), 2);
    assert_eq!(find_process(&procs(), &Argument::Int(11)).len(), 1);
}

#[test]
fn process_listing_rows() {
    let out = "  PID TTY          TIME CMD\n    1 ?        00:00:01 systemd\n  42 pts/0    00:00:00 my server\nbad line\n";
    let rows = process_list_rows(out);
    assert_eq!(
        rows,
        vec![("1".to_string(), "systemd".to_string()), ("42".to_string(), "my server".to_string())]
    );
    assert_eq!(
        process_entries(&rows),
        vec![("systemd".to_string(), 1), ("my server".to_string(), 42)]
    );
}

#[test]
fn paths_and_prompts() {
    assert_eq!(
        socket_paths(1234),
        ("/tmp/rust_shell_cmd_1234".to_string(), "/tmp/rust_shell_output_1234".to_string())
    );
    assert_eq!(attached_prompt("srv"), "\x1B[32msrv >> \x1B[0m");
    assert_eq!(default_prompt(), "\x1B[33m>> \x1B[0m");
    let server = Server::for_process(Shell::new(), 7);
    assert_eq!(server.cmd_path(), "/tmp/rust_shell_cmd_7");
    assert_eq!(server.output_path(), "/tmp/rust_shell_output_7");
}

#[test]
fn command_names_frame() {
    let names = parse_auto_complete("  hello add_two\tprint_str  ");
    assert_eq!(names, vec!["hello", "add_two", "print_str"]);
    let pairs = completion_pairs(&names);
    assert_eq!(pairs[1], ("add_two".to_string(), "add_two".to_string()));
    assert_eq!(builtin_completions().len(), 3);
}
