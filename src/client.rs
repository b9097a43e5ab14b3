//! The attach client's decisions: what a typed line asks for, which process
//! an `attach` names, and the prompts and completion entries that follow.
use vstd::prelude::*;
use crate::decimal::{nat_text, push_decimal};
use crate::dispatch::{command_part, lemma_first_space_split, rest_part, string_views};
use crate::grammar::{arg_values, parse_arguments, parse_spec, split_command, Argument};
use crate::procs::{find_process, matching_processes, proc_views};
use crate::text::{char_is_space, is_space, push_char, trim, trim_text};

verus! {

/// What a line typed at the client asks for.
pub enum LineAction {
    /// Nothing: the line is empty.
    Skip,
    /// Attach to the process that the arguments name.
    Attach(Vec<Argument>),
    /// Drop the connection to the target.
    Detach,
    /// End the session.
    Exit,
    /// Send the line, as typed, to the target.
    Forward,
}

/// Whether `r` is what the line `line` asks for: an empty line nothing; else
/// the built-in that the text before the first space of the trimmed line
/// names, with the arguments after it; else forwarding.
pub open spec fn line_asks(line: Seq<char>, r: LineAction) -> bool {
    let t = trim(line);
    let name = command_part(t);
    if line.len() == 0 {
        r is Skip
    } else if name == "attach"@ {
        r matches LineAction::Attach(a) && arg_values(a@) == parse_spec(rest_part(t))
    } else if name == "detach"@ {
        r is Detach
    } else if name == "exit"@ {
        r is Exit
    } else {
        r is Forward
    }
}

/// What the typed line asks for.
pub fn interpret_line(line: &str) -> (r: LineAction)
    ensures
        line_asks(line@, r),
{
    if line.is_empty() {
        return LineAction::Skip;
    }
    let t = trim_text(line);
    // `split_command` always cuts a line; its contract rules the other arm out.
    let (name, rest) = match split_command(t) {
        Some(p) => p,
        None => {
            return LineAction::Forward;
        },
    };
    proof {
        lemma_first_space_split(t@, name@, rest@);
    }
    if name == String::from_str("attach") {
        LineAction::Attach(parse_arguments(rest.as_str()))
    } else if name == String::from_str("detach") {
        LineAction::Detach
    } else if name == String::from_str("exit") {
        LineAction::Exit
    } else {
        LineAction::Forward
    }
}

/// Why `attach` found no single target.
pub enum AttachError {
    /// `attach` takes exactly one argument.
    ArgumentCount,
    /// No process matches.
    NoSuchTarget,
    /// Several processes match; they are listed.
    AmbiguousTarget(Vec<(String, u64)>),
}

/// The process that `attach` with the arguments `args` picks out of `procs`.
pub open spec fn attach_picks(
    procs: Seq<(Seq<char>, u64)>,
    args: Seq<Argument>,
    r: Result<(String, u64), AttachError>,
) -> bool {
    if args.len() != 1 {
        r matches Err(AttachError::ArgumentCount)
    } else {
        let m = matching_processes(procs, args[0]@);
        if m.len() == 0 {
            r matches Err(AttachError::NoSuchTarget)
        } else if m.len() > 1 {
            r matches Err(AttachError::AmbiguousTarget(v)) && proc_views(v@) == m
        } else {
            r matches Ok(p) && (p.0@, p.1) == m[0]
        }
    }
}

/// The one process of `procs` that the `attach` arguments name.
pub fn attach_target(procs: &Vec<(String, u64)>, args: &Vec<Argument>) -> (r: Result<
    (String, u64),
    AttachError,
>)
    ensures
        attach_picks(proc_views(procs@), args@, r),
{
    if args.len() != 1 {
        return Err(AttachError::ArgumentCount);
    }
    let found = find_process(procs, &args[0]);
    if found.len() == 0 {
        return Err(AttachError::NoSuchTarget);
    }
    if found.len() > 1 {
        return Err(AttachError::AmbiguousTarget(found));
    }
    assert(proc_views(found@)[0] == (found@[0].0@, found@[0].1));
    Ok((found[0].0.clone(), found[0].1))
}

/// The lines `name: pid` of the processes, joined by line feeds.
pub open spec fn process_listing(v: Seq<(Seq<char>, u64)>) -> Seq<char>
    decreases v.len(),
{
    if v.len() == 0 {
        seq![]
    } else {
        let line = v.last().0 + ": "@ + nat_text(v.last().1 as nat);
        if v.len() == 1 {
            line
        } else {
            process_listing(v.drop_last()) + "\n"@ + line
        }
    }
}

/// The report of an attach error.
pub open spec fn attach_error_text(e: AttachError) -> Seq<char> {
    match e {
        AttachError::ArgumentCount => "argument number error"@,
        AttachError::NoSuchTarget => "process not found"@,
        AttachError::AmbiguousTarget(v) => "multiple process found: \n"@ + process_listing(
            proc_views(v@),
        ),
    }
}

impl AttachError {
    /// The report of this error, as the client prints it.
    pub fn message(&self) -> (r: String)
        ensures
            r@ == attach_error_text(*self),
    {
        match self {
            AttachError::ArgumentCount => String::from_str("argument number error"),
            AttachError::NoSuchTarget => String::from_str("process not found"),
            AttachError::AmbiguousTarget(v) => {
                let mut s = String::from_str("multiple process found: \n");
                let ghost head = s@;
                let mut i: usize = 0;
                assert(proc_views(v@.take(0)) =~= Seq::empty());
                assert(s@ =~= head + process_listing(proc_views(v@.take(0))));
                while i < v.len()
                    invariant
                        i <= v@.len(),
                        s@ == head + process_listing(proc_views(v@.take(i as int))),
                    decreases v@.len() - i,
                {
                    let ghost t = proc_views(v@.take(i + 1));
                    assert(t.drop_last() =~= proc_views(v@.take(i as int)));
                    assert(t.last() == (v@[i as int].0@, v@[i as int].1));
                    if i > 0 {
                        s.append("\n");
                    }
                    s.append(v[i].0.as_str());
                    s.append(": ");
                    push_decimal(&mut s, v[i].1);
                    proof {
                        if i == 0 {
                            assert(proc_views(v@.take(i as int)).len() == 0);
                        }
                        assert(s@ =~= head + process_listing(t));
                    }
                    i = i + 1;
                }
                assert(v@.take(v@.len() as int) =~= v@);
                s
            },
        }
    }
}

/// The prompt while attached to the process `name`.
pub open spec fn attached_prompt_text(name: Seq<char>) -> Seq<char> {
    "\x1B[32m"@ + name + " >> \x1B[0m"@
}

/// The prompt while attached to the process `name`.
pub fn attached_prompt(name: &str) -> (r: String)
    ensures
        r@ == attached_prompt_text(name@),
{
    let mut s = String::from_str("\x1B[32m");
    s.append(name);
    s.append(" >> \x1B[0m");
    s
}

/// The prompt while detached.
pub fn default_prompt() -> (r: String)
    ensures
        r@ == "\x1B[33m>> \x1B[0m"@,
{
    String::from_str("\x1B[33m>> \x1B[0m")
}

/// The words that `s` closed with white space, and the word being read.
pub open spec fn word_scan(s: Seq<char>) -> (Seq<Seq<char>>, Seq<char>)
    decreases s.len(),
{
    if s.len() == 0 {
        (seq![], seq![])
    } else {
        let (words, cur) = word_scan(s.drop_last());
        if is_space(s.last()) {
            if cur.len() > 0 {
                (words.push(cur), seq![])
            } else {
                (words, cur)
            }
        } else {
            (words, cur.push(s.last()))
        }
    }
}

/// The white-space-separated words of `s`, as `str::split_whitespace` gives them.
pub open spec fn words_of(s: Seq<char>) -> Seq<Seq<char>> {
    let (words, cur) = word_scan(s);
    if cur.len() > 0 {
        words.push(cur)
    } else {
        words
    }
}

/// The command names that a target lists in its first frame.
pub fn parse_auto_complete(line: &str) -> (r: Vec<String>)
    ensures
        string_views(r@) == words_of(line@),
{
    let n = line.unicode_len();
    let mut words: Vec<String> = Vec::new();
    let mut cur = String::new();
    let mut i: usize = 0;
    assert(line@.take(0) =~= Seq::<char>::empty());
    assert(string_views(words@) =~= Seq::empty());
    while i < n
        invariant
            n == line@.len(),
            i <= n,
            string_views(words@) == word_scan(line@.take(i as int)).0,
            cur@ == word_scan(line@.take(i as int)).1,
        decreases n - i,
    {
        let c = line.get_char(i);
        assert(line@.take(i + 1).drop_last() =~= line@.take(i as int));
        if char_is_space(c) {
            if !cur.as_str().is_empty() {
                let ghost before = words@;
                words.push(cur);
                assert(string_views(words@) =~= string_views(before).push(cur@));
                cur = String::new();
            }
        } else {
            push_char(&mut cur, c);
        }
        i = i + 1;
    }
    assert(line@.take(n as int) =~= line@);
    if !cur.as_str().is_empty() {
        let ghost before = words@;
        words.push(cur);
        assert(string_views(words@) =~= string_views(before).push(cur@));
    }
    words
}

/// Completion entries for command names: each name completes and displays as itself.
pub fn completion_pairs(names: &Vec<String>) -> (r: Vec<(String, String)>)
    ensures
        r@.len() == names@.len(),
        forall|i: int| 0 <= i < r@.len() ==> (#[trigger] r@[i]).0@ == names@[i]@ && r@[i].1@ == names@[i]@,
{
    let mut r: Vec<(String, String)> = Vec::new();
    let mut i: usize = 0;
    while i < names.len()
        invariant
            i <= names@.len(),
            r@.len() == i,
            forall|j: int| 0 <= j < i ==> (#[trigger] r@[j]).0@ == names@[j]@ && r@[j].1@ == names@[j]@,
        decreases names@.len() - i,
    {
        r.push((names[i].clone(), names[i].clone()));
        i = i + 1;
    }
    r
}

/// The completion entries of the client's own commands.
pub fn builtin_completions() -> (r: Vec<(String, String)>)
    ensures
        r@.len() == 3,
        r@[0].0@ == "exit"@ && r@[0].1@ == "exit"@,
        r@[1].0@ == "attach"@ && r@[1].1@ == "attach"@,
        r@[2].0@ == "detach"@ && r@[2].1@ == "detach"@,
{
    vec![
        (String::from_str("exit"), String::from_str("exit")),
        (String::from_str("attach"), String::from_str("attach")),
        (String::from_str("detach"), String::from_str("detach")),
    ]
}

} // verus!
