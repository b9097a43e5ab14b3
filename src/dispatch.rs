//! Turning a command line into a call: which entry point, with which
//! arguments, and the banners and messages that frame it on standard output.
use vstd::prelude::*;
use crate::decimal::{nat_text, u64_text};
use crate::grammar::{
    arg_values, is_first_space_split, parse_arguments, parse_spec, split_command, Argument,
};
use crate::registry::{Shell, MAX_ARGUMENTS};
use crate::text::{push_char, trim, trim_text};

verus! {

/// The index of the first space of `s`, or its length when it has none.
pub open spec fn first_space(s: Seq<char>) -> int
    decreases s.len(),
{
    if s.len() == 0 {
        0
    } else if s[0] == ' ' {
        0
    } else {
        1 + first_space(s.drop_first())
    }
}

/// The command name of a line: the text before its first space.
pub open spec fn command_part(s: Seq<char>) -> Seq<char> {
    s.take(first_space(s))
}

/// The argument text of a line: the text after its first space, if any.
pub open spec fn rest_part(s: Seq<char>) -> Seq<char> {
    if first_space(s) < s.len() {
        s.skip(first_space(s) + 1)
    } else {
        seq![]
    }
}

proof fn lemma_first_space_at(s: Seq<char>, k: int)
    requires
        0 <= k <= s.len(),
        forall|j: int| 0 <= j < k ==> s[j] != ' ',
        k == s.len() || s[k] == ' ',
    ensures
        first_space(s) == k,
    decreases s.len(),
{
    if s.len() > 0 && k > 0 {
        lemma_first_space_at(s.drop_first(), k - 1);
    }
}

/// A split at the first space is the one that `command_part` and `rest_part` give.
pub proof fn lemma_first_space_split(line: Seq<char>, cmd: Seq<char>, rest: Seq<char>)
    requires
        is_first_space_split(line, cmd, rest),
    ensures
        cmd == command_part(line),
        rest == rest_part(line),
{
    if cmd == line && rest.len() == 0 {
        lemma_first_space_at(line, line.len() as int);
        assert(line.take(line.len() as int) =~= line);
        assert(rest =~= seq![]);
    } else {
        let k = cmd.len() as int;
        assert(line[k] == ' ');
        assert forall|j: int| 0 <= j < k implies line[j] != ' ' by {
            assert(line[j] == cmd[j]);
        }
        lemma_first_space_at(line, k);
        assert(line.take(k) =~= cmd);
        assert(line.skip(k + 1) =~= rest);
    }
}

/// Why a command line could not be handed to an entry point.
#[derive(Debug)]
pub enum DispatchError {
    /// No entry point is registered under the name.
    UnknownCommand(String),
    /// The line holds more arguments than an entry point can take.
    TooManyArguments,
    /// The entry point failed; the text says how.
    CalleeFailed(String),
}

/// A resolved call: the entry point's name and address, and its arguments.
pub struct Invocation {
    pub name: String,
    pub addr: u64,
    pub args: Vec<Argument>,
}

/// The outcome that a command line has on the registry `reg`: the entry point
/// named by the text before the first space of the trimmed line, with the
/// arguments that the text after it holds.
pub open spec fn resolves_to(
    reg: Map<Seq<char>, u64>,
    line: Seq<char>,
    r: Result<Invocation, DispatchError>,
) -> bool {
    let t = trim(line);
    let name = command_part(t);
    let args = parse_spec(rest_part(t));
    match r {
        Ok(inv) => {
            &&& reg.dom().contains(name)
            &&& args.len() <= MAX_ARGUMENTS
            &&& inv.name@ == name
            &&& inv.addr == reg[name]
            &&& arg_values(inv.args@) == args
        },
        Err(DispatchError::UnknownCommand(n)) => !reg.dom().contains(name) && n@ == name,
        Err(DispatchError::TooManyArguments) => reg.dom().contains(name) && args.len()
            > MAX_ARGUMENTS,
        Err(DispatchError::CalleeFailed(_)) => false,
    }
}

impl Shell {
    /// Resolves a command line against the registry: the entry point that it
    /// names and the arguments it passes, or why there is none.
    pub fn resolve(&self, command_line: &str) -> (r: Result<Invocation, DispatchError>)
        ensures
            resolves_to(self@, command_line@, r),
    {
        let line = trim_text(command_line);
        // `split_command` always cuts a line; its contract rules this arm out.
        let (name, rest) = match split_command(line) {
            Some(p) => p,
            None => {
                return Err(DispatchError::UnknownCommand(String::new()));
            },
        };
        proof {
            lemma_first_space_split(line@, name@, rest@);
        }
        let addr = match self.lookup(name.as_str()) {
            Some(a) => a,
            None => {
                return Err(DispatchError::UnknownCommand(name));
            },
        };
        let args = parse_arguments(rest.as_str());
        if args.len() > MAX_ARGUMENTS {
            return Err(DispatchError::TooManyArguments);
        }
        Ok(Invocation { name, addr, args })
    }
}

/// The banner printed before an entry point is called.
pub open spec fn begin_banner_text(name: Seq<char>) -> Seq<char> {
    "\x1B[34m---[begin to excel func "@ + name + "]---\x1B[0m"@
}

/// The banner printed after an entry point has returned `ret`.
pub open spec fn end_banner_text(name: Seq<char>, ret: u64) -> Seq<char> {
    "\x1B[35m---[end to excel func "@ + name + "]: "@ + nat_text(ret as nat) + "---\x1B[0m"@
}

/// The banner printed before the entry point `name` is called.
pub fn begin_banner(name: &str) -> (r: String)
    ensures
        r@ == begin_banner_text(name@),
{
    let mut s = String::from_str("\x1B[34m---[begin to excel func ");
    s.append(name);
    s.append("]---\x1B[0m");
    s
}

/// The banner printed after the entry point `name` has returned `ret`.
pub fn end_banner(name: &str, ret: u64) -> (r: String)
    ensures
        r@ == end_banner_text(name@, ret),
{
    let mut s = String::from_str("\x1B[35m---[end to excel func ");
    s.append(name);
    s.append("]: ");
    let digits = u64_text(ret);
    s.append(digits.as_str());
    s.append("---\x1B[0m");
    s
}

/// The report of a dispatch error.
pub open spec fn error_text(e: DispatchError) -> Seq<char> {
    match e {
        DispatchError::UnknownCommand(n) => n@ + " not found"@,
        DispatchError::TooManyArguments => "too many arguments"@,
        DispatchError::CalleeFailed(d) => "run command err: "@ + d@,
    }
}

impl DispatchError {
    /// The report of this error, as it is printed on standard output.
    pub fn message(&self) -> (r: String)
        ensures
            r@ == error_text(*self),
    {
        match self {
            DispatchError::UnknownCommand(n) => {
                let mut s = n.clone();
                s.append(" not found");
                s
            },
            DispatchError::TooManyArguments => String::from_str("too many arguments"),
            DispatchError::CalleeFailed(d) => {
                let mut s = String::from_str("run command err: ");
                s.append(d.as_str());
                s
            },
        }
    }
}

/// `words` joined by single spaces.
pub open spec fn joined(words: Seq<Seq<char>>) -> Seq<char>
    decreases words.len(),
{
    if words.len() == 0 {
        seq![]
    } else if words.len() == 1 {
        words[0]
    } else {
        joined(words.drop_last()) + seq![' '] + words.last()
    }
}

/// The views of a list of strings.
pub open spec fn string_views(v: Seq<String>) -> Seq<Seq<char>> {
    v.map_values(|s: String| s@)
}

/// Joins `words` with single spaces, as the command-list frame carries them.
pub fn join_words(words: &Vec<String>) -> (r: String)
    ensures
        r@ == joined(string_views(words@)),
{
    let mut s = String::new();
    let mut i: usize = 0;
    while i < words.len()
        invariant
            i <= words@.len(),
            s@ == joined(string_views(words@.take(i as int))),
        decreases words@.len() - i,
    {
        let ghost before = s@;
        if i > 0 {
            push_char(&mut s, ' ');
        }
        s.append(words[i].as_str());
        proof {
            let w = string_views(words@.take(i + 1));
            assert(w.drop_last() =~= string_views(words@.take(i as int)));
            if i == 0 {
                assert(s@ =~= w[0]);
            } else {
                assert(s@ =~= joined(w.drop_last()) + seq![' '] + w.last());
            }
        }
        i = i + 1;
    }
    assert(words@.take(words@.len() as int) =~= words@);
    s
}

} // verus!
