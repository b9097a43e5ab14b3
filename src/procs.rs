//! The process list: reading the rows of a `ps -A` listing, and picking the
//! processes that an `attach` argument names.
use vstd::prelude::*;
use crate::complete::{pair_views, prefix_of, is_prefix};
use crate::decimal::{parse_u64, parse_u64_text};
use crate::grammar::{ArgValue, Argument};
use crate::text::push_char;

verus! {

/// What the pattern `(\d+)(\s+[^\s]+){2}\s+([^\s].*)` captures in its first
/// match in `line`: the first group (a pid) and the third (a command name).
pub uninterp spec fn ps_row_fields(line: Seq<char>) -> Option<(Seq<char>, Seq<char>)>;

/// Relies on `regex::Regex::new` and `Regex::captures`: the first and third
/// groups of the first match of the process-table pattern, which depend on
/// the line alone.
#[verifier::external_body]
fn match_ps_row(line: &str) -> (r: Option<(String, String)>)
    ensures
        match r {
            Some(p) => ps_row_fields(line@) == Some((p.0@, p.1@)),
            None => ps_row_fields(line@) is None,
        },
{
    let re = match regex::Regex::new(r"(\d+)(\s+[^\s]+){2}\s+([^\s].*)") {
        Ok(re) => re,
        Err(_) => return None,
    };
    let caps = re.captures(line)?;
    Some((caps.get(1)?.as_str().to_string(), caps.get(3)?.as_str().to_string()))
}

/// The lines that `s` has closed with a line feed, and the text after the last one.
pub open spec fn line_scan(s: Seq<char>) -> (Seq<Seq<char>>, Seq<char>)
    decreases s.len(),
{
    if s.len() == 0 {
        (seq![], seq![])
    } else {
        let (done, cur) = line_scan(s.drop_last());
        if s.last() == '\n' {
            (done.push(cur), seq![])
        } else {
            (done, cur.push(s.last()))
        }
    }
}

/// `s` split at each line feed, as `str::split("\n")` gives it.
pub open spec fn split_lines(s: Seq<char>) -> Seq<Seq<char>> {
    line_scan(s).0.push(line_scan(s).1)
}

/// The (pid, name) rows that the pattern finds in `lines`, in order.
pub open spec fn rows_of(lines: Seq<Seq<char>>) -> Seq<(Seq<char>, Seq<char>)>
    decreases lines.len(),
{
    if lines.len() == 0 {
        seq![]
    } else {
        let r = rows_of(lines.drop_last());
        match ps_row_fields(lines.last()) {
            Some(p) => r.push(p),
            None => r,
        }
    }
}

/// The rows of a `ps -A` listing: every line after the header that the
/// pattern matches.
pub open spec fn process_rows(output: Seq<char>) -> Seq<(Seq<char>, Seq<char>)> {
    rows_of(split_lines(output).drop_first())
}

/// The rows found in the lines `done` after the first one.
spec fn rows_after_header(done: Seq<Seq<char>>) -> Seq<(Seq<char>, Seq<char>)> {
    if done.len() == 0 {
        seq![]
    } else {
        rows_of(done.drop_first())
    }
}

proof fn lemma_rows_after_push(done: Seq<Seq<char>>, line: Seq<char>)
    ensures
        rows_after_header(done.push(line)) == if done.len() == 0 {
            seq![]
        } else {
            match ps_row_fields(line) {
                Some(p) => rows_after_header(done).push(p),
                None => rows_after_header(done),
            }
        },
{
    if done.len() > 0 {
        assert(done.push(line).drop_first().drop_last() =~= done.drop_first());
        assert(done.push(line).drop_first().last() == line);
    } else {
        assert(done.push(line).drop_first() =~= Seq::<Seq<char>>::empty());
    }
}

/// Adds the row of `line` to `rows` when `line` is not the header.
fn take_row(rows: &mut Vec<(String, String)>, line: &String, index: usize)
    ensures
        pair_views(final(rows)@) == if index == 0 {
            pair_views(old(rows)@)
        } else {
            match ps_row_fields(line@) {
                Some(p) => pair_views(old(rows)@).push(p),
                None => pair_views(old(rows)@),
            }
        },
{
    if index > 0 {
        let ghost before = rows@;
        match match_ps_row(line.as_str()) {
            Some(p) => {
                rows.push(p);
                assert(pair_views(rows@) =~= pair_views(before).push((p.0@, p.1@)));
            },
            None => {},
        }
    }
}

/// The (pid, name) rows of a `ps -A` listing.
pub fn process_list_rows(output: &str) -> (r: Vec<(String, String)>)
    ensures
        pair_views(r@) == process_rows(output@),
{
    let n = output.unicode_len();
    let mut rows: Vec<(String, String)> = Vec::new();
    let mut line = String::new();
    let mut index: usize = 0;
    let mut i: usize = 0;
    assert(output@.take(0) =~= Seq::<char>::empty());
    assert(pair_views(rows@) =~= Seq::empty());
    while i < n
        invariant
            n == output@.len(),
            i <= n,
            index as int == line_scan(output@.take(i as int)).0.len(),
            index <= i,
            line@ == line_scan(output@.take(i as int)).1,
            pair_views(rows@) == rows_after_header(line_scan(output@.take(i as int)).0),
        decreases n - i,
    {
        let c = output.get_char(i);
        assert(output@.take(i + 1).drop_last() =~= output@.take(i as int));
        if c == '\n' {
            proof {
                lemma_rows_after_push(line_scan(output@.take(i as int)).0, line@);
            }
            take_row(&mut rows, &line, index);
            line = String::new();
            index = index + 1;
        } else {
            push_char(&mut line, c);
        }
        i = i + 1;
    }
    assert(output@.take(n as int) =~= output@);
    proof {
        lemma_rows_after_push(line_scan(output@).0, line@);
    }
    take_row(&mut rows, &line, index);
    rows
}

/// The views of a list of (name, pid) entries.
pub open spec fn proc_views(v: Seq<(String, u64)>) -> Seq<(Seq<char>, u64)> {
    v.map_values(|p: (String, u64)| (p.0@, p.1))
}

/// The (name, pid) entries of the rows whose pid text reads as a `u64`.
pub open spec fn entries_of(rows: Seq<(Seq<char>, Seq<char>)>) -> Seq<(Seq<char>, u64)>
    decreases rows.len(),
{
    if rows.len() == 0 {
        seq![]
    } else {
        let e = entries_of(rows.drop_last());
        match parse_u64_text(rows.last().0) {
            Some(pid) => e.push((rows.last().1, pid)),
            None => e,
        }
    }
}

/// The (name, pid) entries of (pid, name) rows; a row whose pid is not a
/// number is left out.
pub fn process_entries(rows: &Vec<(String, String)>) -> (r: Vec<(String, u64)>)
    ensures
        proc_views(r@) == entries_of(pair_views(rows@)),
{
    let mut r: Vec<(String, u64)> = Vec::new();
    let mut i: usize = 0;
    assert(pair_views(rows@.take(0)) =~= Seq::empty());
    assert(proc_views(r@) =~= Seq::empty());
    while i < rows.len()
        invariant
            i <= rows@.len(),
            proc_views(r@) == entries_of(pair_views(rows@.take(i as int))),
        decreases rows@.len() - i,
    {
        let ghost before = r@;
        let ghost t = pair_views(rows@.take(i + 1));
        assert(t.drop_last() =~= pair_views(rows@.take(i as int)));
        assert(t.last() == (rows@[i as int].0@, rows@[i as int].1@));
        match parse_u64(rows[i].0.as_str()) {
            Some(pid) => {
                r.push((rows[i].1.clone(), pid));
                assert(proc_views(r@) =~= proc_views(before).push((rows@[i as int].1@, pid)));
            },
            None => {},
        }
        i = i + 1;
    }
    assert(rows@.take(rows@.len() as int) =~= rows@);
    r
}

/// Whether an entry is one that the `attach` argument names: by a prefix of
/// its name, or by its pid.
pub open spec fn names_process(a: ArgValue, e: (Seq<char>, u64)) -> bool {
    match a {
        ArgValue::Str(name) => prefix_of(e.0, name),
        ArgValue::Int(pid) => e.1 == pid as u64,
    }
}

/// The entries that the argument names, in order.
pub open spec fn matching_processes(procs: Seq<(Seq<char>, u64)>, a: ArgValue) -> Seq<(Seq<char>, u64)>
    decreases procs.len(),
{
    if procs.len() == 0 {
        seq![]
    } else {
        let m = matching_processes(procs.drop_last(), a);
        if names_process(a, procs.last()) {
            m.push(procs.last())
        } else {
            m
        }
    }
}

/// The processes that an `attach` argument names.
pub fn find_process(procs: &Vec<(String, u64)>, arg: &Argument) -> (r: Vec<(String, u64)>)
    ensures
        proc_views(r@) == matching_processes(proc_views(procs@), arg@),
{
    let mut r: Vec<(String, u64)> = Vec::new();
    let mut i: usize = 0;
    assert(proc_views(procs@.take(0)) =~= Seq::empty());
    assert(proc_views(r@) =~= Seq::empty());
    while i < procs.len()
        invariant
            i <= procs@.len(),
            proc_views(r@) == matching_processes(proc_views(procs@.take(i as int)), arg@),
        decreases procs@.len() - i,
    {
        let ghost before = r@;
        let ghost t = proc_views(procs@.take(i + 1));
        assert(t.drop_last() =~= proc_views(procs@.take(i as int)));
        assert(t.last() == (procs@[i as int].0@, procs@[i as int].1));
        let hit = match arg {
            Argument::Str(name) => is_prefix(procs[i].0.as_str(), name.as_str()),
            Argument::Int(pid) => procs[i].1 == *pid as u64,
        };
        if hit {
            r.push((procs[i].0.clone(), procs[i].1));
            assert(proc_views(r@) =~= proc_views(before).push(t.last()));
        }
        i = i + 1;
    }
    assert(procs@.take(procs@.len() as int) =~= procs@);
    r
}

} // verus!
