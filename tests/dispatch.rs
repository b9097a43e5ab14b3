use rust_shell::dispatch::{begin_banner, end_banner, join_words, DispatchError};
use rust_shell::grammar::Argument;
use rust_shell::registry::Shell;

fn demo() -> Shell {
    let mut shell = Shell::new();
    shell.reg_func("hello".to_string(), 0x1000);
    shell.reg_func("add_two".to_string(), 0x2000);
    shell.reg_func("print_str".to_string(), 0x3000);
    shell.reg_func("add_seven".to_string(), 0x4000);
    shell
}

#[test]
fn registry_lookup_and_overwrite() {
    let mut shell = demo();
    assert_eq!(shell.lookup("hello"), Some(0x1000));
    assert_eq!(shell.lookup("nope"), None);
    shell.reg_func("hello".to_string(), 0x5000);
    assert_eq!(shell.lookup("hello"), Some(0x5000));
    assert_eq!(shell.get_reg_commands().len(), 4);
}

#[test]
fn registry_names() {
    let mut names = demo().get_reg_commands();
    names.sort();
    assert_eq!(names, vec!["add_seven", "add_two", "hello", "print_str"]);
    assert_eq!(Shell::new().get_reg_commands().len(), 0);
    assert_eq!(Shell::default().lookup("hello"), None);
    let copy = demo().clone();
    assert_eq!(copy.lookup("add_seven"), Some(0x4000));
}

#[test]
fn command_list_frame() {
    let words = vec!["a".to_string(), "bc".to_string(), "d".to_string()];
    assert_eq!(join_words(&words), "a bc d");
    assert_eq!(join_words(&vec![]), "");
}

#[test]
fn zero_arg_call() {
    let inv = demo().resolve("hello\n").ok().unwrap();
    assert_eq!(inv.name, "hello");
    assert_eq!(inv.addr, 0x1000);
    assert!(inv.args.is_empty());
    assert!(begin_banner("hello").contains("---[begin to excel func hello]---"));
}

#[test]
fn two_int_call() {
    let inv = demo().resolve("add_two 3,4").ok().unwrap();
    assert_eq!(inv.addr, 0x2000);
    assert_eq!(inv.args, vec![Argument::Int(3), Argument::Int(4)]);
    let end = end_banner("add_two", 7);
    assert_eq!(end, "\x1B[35m---[end to excel func add_two]: 7---\x1B[0m");
}

#[test]
fn string_arg_call() {
    let inv = demo().resolve("print_str \"hello, world\"").ok().unwrap();
    assert_eq!(inv.addr, 0x3000);
    assert_eq!(inv.args, vec![Argument::Str("hello, world".to_string())]);
}

#[test]
fn seven_int_call() {
    let inv = demo().resolve("  add_seven 1,2,3,4,5,6,7  ").ok().unwrap();
    assert_eq!(inv.args.len(), 7);
    assert!(end_banner("add_seven", 28).ends_with(": 28---\x1B[0m"));
}

#[test]
fn unknown_command() {
    let shell = demo();
    match shell.resolve("nope") {
        Err(e) => assert_eq!(e.message(), "nope not found"),
        Ok(_) => panic!("resolved an unknown command"),
    }
    assert!(shell.resolve("hello").is_ok());
}

#[test]
fn too_many_arguments() {
    let shell = demo();
    assert!(matches!(
        shell.resolve("hello 1,2,3,4,5,6,7,8,9,10,11"),
        Err(DispatchError::TooManyArguments)
    ));
    assert!(shell.resolve("hello 1,2,3,4,5,6,7,8,9,10").is_ok());
    assert_eq!(DispatchError::TooManyArguments.message(), "too many arguments");
    assert_eq!(
        DispatchError::CalleeFailed("boom".to_string()).message(),
        "run command err: boom"
    );
}

#[test]
fn banners() {
    assert_eq!(begin_banner("f"), "\x1B[34m---[begin to excel func f]---\x1B[0m");
    assert_eq!(end_banner("f", 0), "\x1B[35m---[end to excel func f]: 0---\x1B[0m");
}
