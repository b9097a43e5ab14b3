//! The command-line grammar: a line is a command name, a space, and a
//! comma-separated list of arguments, each a quoted string, an integer or
//! bare text.
use vstd::prelude::*;
use crate::decimal::{
    i64_text, int_text, is_digit, lemma_int_text_parses, lemma_nat_text, nat_text, parse_i64,
    parse_i64_text,
};
use crate::text::{is_space, push_char, trim, trim_start, trim_text};

verus! {

/// A parsed argument: text with its quotes and escapes removed, or an integer.
#[derive(Debug)]
pub enum Argument {
    Str(String),
    Int(i64),
}

/// What an [`Argument`] holds.
pub enum ArgValue {
    Str(Seq<char>),
    Int(i64),
}

impl View for Argument {
    type V = ArgValue;

    open spec fn view(&self) -> ArgValue {
        match self {
            Argument::Str(s) => ArgValue::Str(s@),
            Argument::Int(n) => ArgValue::Int(*n),
        }
    }
}

impl PartialEq for Argument {
    fn eq(&self, other: &Argument) -> (r: bool) {
        match (self, other) {
            (Argument::Str(a), Argument::Str(b)) => *a == *b,
            (Argument::Int(a), Argument::Int(b)) => *a == *b,
            _ => false,
        }
    }
}

impl vstd::std_specs::cmp::PartialEqSpecImpl for Argument {
    open spec fn obeys_eq_spec() -> bool {
        true
    }

    open spec fn eq_spec(&self, other: &Argument) -> bool {
        self@ == other@
    }
}

/// The text that an argument is displayed as.
pub open spec fn arg_text(a: ArgValue) -> Seq<char> {
    match a {
        ArgValue::Str(s) => s,
        ArgValue::Int(n) => int_text(n as int),
    }
}

impl Argument {
    /// The argument as text: a string as it is, an integer in decimal.
    pub fn to_text(&self) -> (r: String)
        ensures
            r@ == arg_text(self@),
    {
        match self {
            Argument::Str(s) => s.clone(),
            Argument::Int(n) => i64_text(*n),
        }
    }
}

/// Where the tokenizer stands after a prefix of the input: the tokens that a
/// separator has closed, the token being gathered, and the two flags.
pub struct ScanState {
    pub tokens: Seq<Seq<char>>,
    pub current: Seq<char>,
    pub in_quotes: bool,
    pub escape: bool,
}

pub open spec fn scan_start() -> ScanState {
    ScanState { tokens: seq![], current: seq![], in_quotes: false, escape: false }
}

/// Whether `c` closes the current token when it comes in state `st`.
pub open spec fn is_separator(st: ScanState, c: char) -> bool {
    !st.escape && c == ',' && !st.in_quotes
}

/// One character of input: an escaped character is kept as it is; a backslash
/// escapes the next one; a quote is kept and toggles quoting; a comma outside
/// quotes closes the token; anything else is kept.
pub open spec fn scan_step(st: ScanState, c: char) -> ScanState {
    if st.escape {
        ScanState { current: st.current.push(c), escape: false, ..st }
    } else if c == '\\' {
        ScanState { escape: true, ..st }
    } else if c == '"' {
        ScanState { current: st.current.push(c), in_quotes: !st.in_quotes, ..st }
    } else if c == ',' && !st.in_quotes {
        ScanState { tokens: st.tokens.push(st.current), current: seq![], ..st }
    } else {
        ScanState { current: st.current.push(c), ..st }
    }
}

/// The tokenizer's state after reading all of `s`.
pub open spec fn scan(s: Seq<char>) -> ScanState
    decreases s.len(),
{
    if s.len() == 0 {
        scan_start()
    } else {
        scan_step(scan(s.drop_last()), s.last())
    }
}

/// The tokens of `s`: those closed by separators, then the last one if it is
/// not empty.
pub open spec fn raw_tokens(s: Seq<char>) -> Seq<Seq<char>> {
    let st = scan(s);
    if st.current.len() > 0 {
        st.tokens.push(st.current)
    } else {
        st.tokens
    }
}

/// Whether a token both starts and ends with a quote (and has both).
pub open spec fn is_quoted(t: Seq<char>) -> bool {
    t.len() >= 2 && t[0] == '"' && t.last() == '"'
}

/// The argument a token stands for: a quoted token without its two quotes;
/// else the integer that the trimmed token writes; else the token itself.
pub open spec fn classify(t: Seq<char>) -> ArgValue {
    if is_quoted(t) {
        ArgValue::Str(t.subrange(1, t.len() - 1))
    } else {
        match parse_i64_text(trim(t)) {
            Some(n) => ArgValue::Int(n),
            None => ArgValue::Str(t),
        }
    }
}

/// The arguments that the text `s` holds.
pub open spec fn parse_spec(s: Seq<char>) -> Seq<ArgValue> {
    raw_tokens(s).map_values(|t: Seq<char>| classify(t))
}

/// The views of a list of arguments.
pub open spec fn arg_values(v: Seq<Argument>) -> Seq<ArgValue> {
    v.map_values(|a: Argument| a@)
}

/// The argument that one token stands for.
fn classify_token(token: &str) -> (r: Argument)
    ensures
        r@ == classify(token@),
{
    let n = token.unicode_len();
    if n >= 2 && token.get_char(0) == '"' && token.get_char(n - 1) == '"' {
        Argument::Str(token.substring_char(1, n - 1).to_owned())
    } else {
        match parse_i64(trim_text(token)) {
            Some(v) => Argument::Int(v),
            None => Argument::Str(token.to_owned()),
        }
    }
}

/// Parses the argument list of a command line.
pub fn parse_arguments(input: &str) -> (r: Vec<Argument>)
    ensures
        arg_values(r@) == parse_spec(input@),
{
    let mut result: Vec<Argument> = Vec::new();
    let mut current = String::new();
    let mut in_quotes = false;
    let mut escape = false;
    let n = input.unicode_len();
    let mut i: usize = 0;
    assert(input@.take(0) =~= Seq::<char>::empty());
    while i < n
        invariant
            n == input@.len(),
            i <= n,
            arg_values(result@) == scan(input@.take(i as int)).tokens.map_values(
                |t: Seq<char>| classify(t),
            ),
            current@ == scan(input@.take(i as int)).current,
            in_quotes == scan(input@.take(i as int)).in_quotes,
            escape == scan(input@.take(i as int)).escape,
        decreases n - i,
    {
        let c = input.get_char(i);
        let ghost before = result@;
        assert(input@.take(i + 1).drop_last() =~= input@.take(i as int));
        assert(input@.take(i + 1).last() == c);
        if escape {
            push_char(&mut current, c);
            escape = false;
        } else if c == '\\' {
            escape = true;
        } else if c == '"' {
            push_char(&mut current, c);
            in_quotes = !in_quotes;
        } else if c == ',' && !in_quotes {
            let a = classify_token(current.as_str());
            result.push(a);
            assert(arg_values(result@) =~= arg_values(before).push(a@));
            current = String::new();
        } else {
            push_char(&mut current, c);
        }
        i = i + 1;
    }
    assert(input@.take(n as int) =~= input@);
    if !current.as_str().is_empty() {
        let ghost before = result@;
        let a = classify_token(current.as_str());
        result.push(a);
        assert(arg_values(result@) =~= arg_values(before).push(a@));
    }
    assert(arg_values(result@) =~= parse_spec(input@));
    result
}

/// Whether `(cmd, rest)` is `line` cut at its first space: `cmd` holds no
/// space, and either the line has none and `rest` is empty, or `line` is
/// `cmd`, a space, and `rest`.
pub open spec fn is_first_space_split(line: Seq<char>, cmd: Seq<char>, rest: Seq<char>) -> bool {
    &&& forall|j: int| 0 <= j < cmd.len() ==> cmd[j] != ' '
    &&& (cmd == line && rest.len() == 0) || line == cmd + seq![' '] + rest
}

/// Cuts a command line at its first space into the command name and the rest.
pub fn split_command(command_line: &str) -> (r: Option<(String, String)>)
    ensures
        r matches Some((cmd, rest)) && is_first_space_split(command_line@, cmd@, rest@),
{
    let n = command_line.unicode_len();
    let mut k: usize = 0;
    while k < n && command_line.get_char(k) != ' '
        invariant
            n == command_line@.len(),
            k <= n,
            forall|j: int| 0 <= j < k ==> command_line@[j] != ' ',
        decreases n - k,
    {
        k = k + 1;
    }
    if k == n {
        assert(command_line@.subrange(0, n as int) =~= command_line@);
        Some((command_line.to_owned(), String::new()))
    } else {
        let cmd = command_line.substring_char(0, k).to_owned();
        let rest = command_line.substring_char(k + 1, n).to_owned();
        assert(command_line@ =~= cmd@ + seq![' '] + rest@);
        Some((cmd, rest))
    }
}

/// The number of separators in `s`: unescaped commas outside quotes.
pub open spec fn separator_count(s: Seq<char>) -> nat
    decreases s.len(),
{
    if s.len() == 0 {
        0
    } else {
        separator_count(s.drop_last()) + if is_separator(scan(s.drop_last()), s.last()) {
            1nat
        } else {
            0nat
        }
    }
}

proof fn lemma_closed_tokens(s: Seq<char>)
    ensures
        scan(s).tokens.len() == separator_count(s),
    decreases s.len(),
{
    if s.len() > 0 {
        lemma_closed_tokens(s.drop_last());
    }
}

/// Empty text has no arguments; other text has one more argument than it has
/// separators, provided the text after its last separator leaves a token.
pub proof fn lemma_argument_count(s: Seq<char>)
    requires
        s.len() == 0 || scan(s).current.len() > 0,
    ensures
        parse_spec(s).len() == if s.len() == 0 {
            0
        } else {
            separator_count(s) + 1
        },
{
    lemma_closed_tokens(s);
}

/// Whether `s` holds no quote, backslash or comma.
pub open spec fn is_plain(s: Seq<char>) -> bool {
    forall|i: int| 0 <= i < s.len() ==> s[i] != '"' && s[i] != '\\' && s[i] != ','
}

proof fn lemma_scan_plain(s: Seq<char>)
    requires
        is_plain(s),
    ensures
        scan(s).tokens.len() == 0,
        scan(s).current == s,
        !scan(s).in_quotes,
        !scan(s).escape,
    decreases s.len(),
{
    if s.len() == 0 {
        assert(scan(s).current =~= s);
    } else {
        assert(is_plain(s.drop_last()));
        lemma_scan_plain(s.drop_last());
        assert(s.drop_last().push(s.last()) =~= s);
    }
}

/// Text without quotes, backslashes or commas that does not read as an
/// integer once trimmed parses to one string argument, itself.
pub proof fn lemma_text_round_trip(s: Seq<char>)
    requires
        s.len() > 0,
        is_plain(s),
        parse_i64_text(trim(s)) is None,
    ensures
        parse_spec(s) == seq![ArgValue::Str(s)],
{
    lemma_scan_plain(s);
    assert(raw_tokens(s) =~= seq![s]);
    assert(parse_spec(s) =~= seq![ArgValue::Str(s)]);
}

/// The decimal text of an integer parses to that one integer argument.
pub proof fn lemma_int_round_trip(n: i64)
    ensures
        parse_spec(int_text(n as int)) == seq![ArgValue::Int(n)],
{
    let t = int_text(n as int);
    let m: nat = if n < 0 {
        (-n) as nat
    } else {
        n as nat
    };
    lemma_nat_text(m);
    lemma_int_text_parses(n);
    let d = nat_text(m);
    assert forall|i: int| 0 <= i < t.len() implies t[i] != '"' && t[i] != '\\' && t[i] != ','
        && (i == 0 || is_digit(t[i])) by {
        if n < 0 && i > 0 {
            assert(t[i] == d[i - 1]);
        }
    }
    assert(!is_space(t[0]));
    assert(trim_start(t) == t);
    assert(!is_space(t.last()));
    assert(trim(t) == t);
    lemma_scan_plain(t);
    assert(raw_tokens(t) =~= seq![t]);
    assert(parse_spec(t) =~= seq![ArgValue::Int(n)]);
}

} // verus!
