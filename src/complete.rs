//! Completion: matching a word against the completion table, the candidates
//! built from a process list, and the chain of completers that the editor
//! consults.
use vstd::prelude::*;
use crate::text::{is_space, trim, trim_text};

verus! {

/// What `str::to_uppercase` gives for a text.
pub uninterp spec fn upper_of(s: Seq<char>) -> Seq<char>;

/// Relies on `str::to_uppercase`: the result depends on the characters alone,
/// and the empty text stays empty.
#[verifier::external_body]
fn uppercase(s: &str) -> (r: String)
    ensures
        r@ == upper_of(s@),
        s@.len() == 0 ==> r@.len() == 0,
{
    s.to_uppercase()
}

/// Whether `h` holds `n` from the position `i` on.
pub open spec fn occurs_at(h: Seq<char>, n: Seq<char>, i: int) -> bool {
    0 <= i && i + n.len() <= h.len() && h.subrange(i, i + n.len()) == n
}

/// Whether `n` occurs somewhere in `h`.
pub open spec fn contains(h: Seq<char>, n: Seq<char>) -> bool {
    exists|i: int| occurs_at(h, n, i)
}

/// Whether `p` starts `s`.
pub open spec fn prefix_of(s: Seq<char>, p: Seq<char>) -> bool {
    occurs_at(s, p, 0)
}

/// Whether `p` starts `s` when both are upper-cased.
pub open spec fn prefix_nocase(s: Seq<char>, p: Seq<char>) -> bool {
    p.len() <= s.len() && upper_of(p) == upper_of(s.take(p.len() as int))
}

/// Whether `n` occurs in `s` when both are upper-cased.
pub open spec fn contains_nocase(s: Seq<char>, n: Seq<char>) -> bool {
    n.len() <= s.len() && contains(upper_of(s), upper_of(n))
}

/// Whether `n` stands in `h` from the position `i` on.
fn occurs_at_exec(h: &str, n: &str, i: usize) -> (r: bool)
    ensures
        r == occurs_at(h@, n@, i as int),
{
    let hl = h.unicode_len();
    let nl = n.unicode_len();
    if i > hl || nl > hl - i {
        return false;
    }
    let mut k: usize = 0;
    while k < nl
        invariant
            hl == h@.len(),
            nl == n@.len(),
            i + nl <= hl,
            k <= nl,
            forall|j: int| 0 <= j < k ==> h@[i + j] == n@[j],
        decreases nl - k,
    {
        if h.get_char(i + k) != n.get_char(k) {
            assert(h@.subrange(i as int, i + nl)[k as int] != n@[k as int]);
            return false;
        }
        k = k + 1;
    }
    assert(h@.subrange(i as int, i + nl) =~= n@);
    true
}

/// Whether `prefix` starts `src`.
pub fn is_prefix(src: &str, prefix: &str) -> (r: bool)
    ensures
        r == prefix_of(src@, prefix@),
{
    occurs_at_exec(src, prefix, 0)
}

/// Whether `prefix` starts `src`, ignoring case.
pub fn is_prefix_nocase(src: &str, prefix: &str) -> (r: bool)
    ensures
        r == prefix_nocase(src@, prefix@),
{
    let n = prefix.unicode_len();
    if n > src.unicode_len() {
        return false;
    }
    let a = uppercase(prefix);
    let b = uppercase(src.substring_char(0, n));
    a == b
}

/// Whether `substr` occurs in `src`, ignoring case.
pub fn contain_nocase(src: &str, substr: &str) -> (r: bool)
    ensures
        r == contains_nocase(src@, substr@),
{
    if substr.unicode_len() > src.unicode_len() {
        return false;
    }
    let h = uppercase(src);
    let n = uppercase(substr);
    let hl = h.as_str().unicode_len();
    let nl = n.as_str().unicode_len();
    if nl > hl {
        return false;
    }
    if nl == 0 {
        assert(h@.subrange(0, 0) =~= n@);
        assert(occurs_at(h@, n@, 0));
        return true;
    }
    let mut i: usize = 0;
    while i <= hl - nl
        invariant
            hl == h@.len(),
            nl == n@.len(),
            0 < nl <= hl,
            h@ == upper_of(src@),
            n@ == upper_of(substr@),
            substr@.len() <= src@.len(),
            i <= hl - nl + 1,
            forall|j: int| 0 <= j < i ==> !occurs_at(h@, n@, j),
        decreases hl - nl + 1 - i,
    {
        if occurs_at_exec(h.as_str(), n.as_str(), i) {
            assert(occurs_at(h@, n@, i as int));
            assert(contains(h@, n@));
            return true;
        }
        i = i + 1;
    }
    false
}

/// The views of a list of string pairs.
pub open spec fn pair_views(v: Seq<(String, String)>) -> Seq<(Seq<char>, Seq<char>)> {
    v.map_values(|p: (String, String)| (p.0@, p.1@))
}

/// Whether a table entry matches `word` in the way `kind` selects: 0, a prefix;
/// 1, a prefix ignoring case; 2, a substring ignoring case; always by the
/// completion text.
pub open spec fn entry_matches(kind: int, e: (Seq<char>, Seq<char>), word: Seq<char>) -> bool {
    if kind == 0 {
        prefix_of(e.0, word)
    } else if kind == 1 {
        prefix_nocase(e.0, word)
    } else {
        contains_nocase(e.0, word)
    }
}

/// The entries of `table` that match `word` in the way `kind` selects.
pub open spec fn table_matches(table: Seq<(Seq<char>, Seq<char>)>, word: Seq<char>, kind: int) -> Seq<
    (Seq<char>, Seq<char>),
> {
    table.filter(|e: (Seq<char>, Seq<char>)| entry_matches(kind, e, word))
}

/// The candidates for `word` from the table: the entries that it prefixes;
/// failing those, that it prefixes ignoring case; failing those, that contain
/// it ignoring case; failing those, none.
pub open spec fn table_completion(table: Seq<(Seq<char>, Seq<char>)>, word: Seq<char>) -> Option<
    Seq<(Seq<char>, Seq<char>)>,
> {
    if table_matches(table, word, 0).len() > 0 {
        Some(table_matches(table, word, 0))
    } else if table_matches(table, word, 1).len() > 0 {
        Some(table_matches(table, word, 1))
    } else if table_matches(table, word, 2).len() > 0 {
        Some(table_matches(table, word, 2))
    } else {
        None
    }
}

fn entry_matches_exec(kind: u8, entry: &String, word: &str) -> (r: bool)
    requires
        kind <= 2,
    ensures
        r == entry_matches(kind as int, (entry@, entry@), word@),
{
    if kind == 0 {
        is_prefix(entry.as_str(), word)
    } else if kind == 1 {
        is_prefix_nocase(entry.as_str(), word)
    } else {
        contain_nocase(entry.as_str(), word)
    }
}

fn select_matches(table: &Vec<(String, String)>, word: &str, kind: u8) -> (r: Vec<(String, String)>)
    requires
        kind <= 2,
    ensures
        pair_views(r@) == table_matches(pair_views(table@), word@, kind as int),
{
    let mut r: Vec<(String, String)> = Vec::new();
    let mut i: usize = 0;
    proof {
        reveal(Seq::filter);
        assert(pair_views(table@.take(0)) =~= Seq::empty());
        assert(pair_views(r@) =~= Seq::empty());
    }
    while i < table.len()
        invariant
            kind <= 2,
            i <= table@.len(),
            pair_views(r@) == table_matches(pair_views(table@.take(i as int)), word@, kind as int),
        decreases table@.len() - i,
    {
        proof {
            reveal(Seq::filter);
        }
        let ghost before = r@;
        let ghost t = pair_views(table@.take(i + 1));
        assert(t.drop_last() =~= pair_views(table@.take(i as int)));
        assert(t.last() == (table@[i as int].0@, table@[i as int].1@));
        if entry_matches_exec(kind, &table[i].0, word) {
            r.push((table[i].0.clone(), table[i].1.clone()));
            assert(pair_views(r@) =~= pair_views(before).push(t.last()));
        }
        i = i + 1;
    }
    assert(table@.take(table@.len() as int) =~= table@);
    r
}

/// The candidates for `word` from a completion table of (completion, display)
/// pairs.
pub fn table_complete(table: &Vec<(String, String)>, word: &str) -> (r: Option<Vec<(String, String)>>)
    ensures
        match r {
            Some(v) => table_completion(pair_views(table@), word@) == Some(pair_views(v@)),
            None => table_completion(pair_views(table@), word@) is None,
        },
{
    let a = select_matches(table, word, 0);
    if a.len() > 0 {
        return Some(a);
    }
    let b = select_matches(table, word, 1);
    if b.len() > 0 {
        return Some(b);
    }
    let c = select_matches(table, word, 2);
    if c.len() > 0 {
        return Some(c);
    }
    None
}

/// Whether a process row (pid, name) matches `word` in the way `kind`
/// selects: 0, the pid by prefix; 1, the name by prefix; 2, the pid by prefix
/// ignoring case; 3, the name by prefix ignoring case; 4, the name by
/// substring ignoring case.
pub open spec fn row_matches(kind: int, row: (Seq<char>, Seq<char>), word: Seq<char>) -> bool {
    if kind == 0 {
        prefix_of(row.0, word)
    } else if kind == 1 {
        prefix_of(row.1, word)
    } else if kind == 2 {
        prefix_nocase(row.0, word)
    } else if kind == 3 {
        prefix_nocase(row.1, word)
    } else {
        contains_nocase(row.1, word)
    }
}

/// The candidate that a matching row gives: the field that matched, displayed
/// as `pid(name)`.
pub open spec fn row_candidate(kind: int, row: (Seq<char>, Seq<char>)) -> (Seq<char>, Seq<char>) {
    (
        if kind == 0 || kind == 2 {
            row.0
        } else {
            row.1
        },
        row.0 + "("@ + row.1 + ")"@,
    )
}

/// The candidates that the rows matching in the way `kind` selects give.
pub open spec fn row_candidates(rows: Seq<(Seq<char>, Seq<char>)>, word: Seq<char>, kind: int) -> Seq<
    (Seq<char>, Seq<char>),
>
    decreases rows.len(),
{
    if rows.len() == 0 {
        seq![]
    } else {
        let c = row_candidates(rows.drop_last(), word, kind);
        if row_matches(kind, rows.last(), word) {
            c.push(row_candidate(kind, rows.last()))
        } else {
            c
        }
    }
}

/// The candidates for `word` from process rows: those of the first way of
/// matching, in the order of `row_matches`, that gives any.
pub open spec fn row_completion(rows: Seq<(Seq<char>, Seq<char>)>, word: Seq<char>) -> Option<
    Seq<(Seq<char>, Seq<char>)>,
> {
    if row_candidates(rows, word, 0).len() > 0 {
        Some(row_candidates(rows, word, 0))
    } else if row_candidates(rows, word, 1).len() > 0 {
        Some(row_candidates(rows, word, 1))
    } else if row_candidates(rows, word, 2).len() > 0 {
        Some(row_candidates(rows, word, 2))
    } else if row_candidates(rows, word, 3).len() > 0 {
        Some(row_candidates(rows, word, 3))
    } else if row_candidates(rows, word, 4).len() > 0 {
        Some(row_candidates(rows, word, 4))
    } else {
        None
    }
}

fn row_candidates_exec(rows: &Vec<(String, String)>, word: &str, kind: u8) -> (r: Vec<(String, String)>)
    requires
        kind <= 4,
    ensures
        pair_views(r@) == row_candidates(pair_views(rows@), word@, kind as int),
{
    let mut r: Vec<(String, String)> = Vec::new();
    let mut i: usize = 0;
    assert(pair_views(rows@.take(0)) =~= Seq::empty());
    assert(pair_views(r@) =~= Seq::empty());
    while i < rows.len()
        invariant
            kind <= 4,
            i <= rows@.len(),
            pair_views(r@) == row_candidates(pair_views(rows@.take(i as int)), word@, kind as int),
        decreases rows@.len() - i,
    {
        let ghost before = r@;
        let ghost t = pair_views(rows@.take(i + 1));
        assert(t.drop_last() =~= pair_views(rows@.take(i as int)));
        let pid = &rows[i].0;
        let name = &rows[i].1;
        assert(t.last() == (pid@, name@));
        let hit = if kind == 0 {
            is_prefix(pid.as_str(), word)
        } else if kind == 1 {
            is_prefix(name.as_str(), word)
        } else if kind == 2 {
            is_prefix_nocase(pid.as_str(), word)
        } else if kind == 3 {
            is_prefix_nocase(name.as_str(), word)
        } else {
            contain_nocase(name.as_str(), word)
        };
        if hit {
            let completion = if kind == 0 || kind == 2 {
                pid.clone()
            } else {
                name.clone()
            };
            let mut display = pid.clone();
            display.append("(");
            display.append(name.as_str());
            display.append(")");
            r.push((completion, display));
            assert(pair_views(r@) =~= pair_views(before).push(row_candidate(kind as int, t.last())));
        }
        i = i + 1;
    }
    assert(rows@.take(rows@.len() as int) =~= rows@);
    r
}

/// The completion candidates for `word` from a process list of (pid, name)
/// rows, as (completion, display) pairs.
pub fn gen_autocomplete_item(cmp_data: &Vec<(String, String)>, word: &str) -> (r: Option<
    Vec<(String, String)>,
>)
    ensures
        match r {
            Some(v) => row_completion(pair_views(cmp_data@), word@) == Some(pair_views(v@)),
            None => row_completion(pair_views(cmp_data@), word@) is None,
        },
{
    let mut kind: u8 = 0;
    while kind < 5
        invariant
            kind <= 5,
            forall|k: int| 0 <= k < kind ==> row_candidates(pair_views(cmp_data@), word@, k).len() == 0,
        decreases 5 - kind,
    {
        let c = row_candidates_exec(cmp_data, word, kind);
        if c.len() > 0 {
            return Some(c);
        }
        kind = kind + 1;
    }
    None
}

/// The index where `t`'s first white space stands, or its length.
pub open spec fn word_end(t: Seq<char>) -> int
    decreases t.len(),
{
    if t.len() == 0 {
        0
    } else if is_space(t[0]) {
        0
    } else {
        1 + word_end(t.drop_first())
    }
}

/// The first white-space-separated word of `s`, or empty text when it has none.
pub open spec fn first_word(s: Seq<char>) -> Seq<char> {
    trim(s).take(word_end(trim(s)))
}

proof fn lemma_word_end_at(t: Seq<char>, k: int)
    requires
        0 <= k <= t.len(),
        forall|j: int| 0 <= j < k ==> !is_space(t[j]),
        k == t.len() || is_space(t[k]),
    ensures
        word_end(t) == k,
    decreases t.len(),
{
    if t.len() > 0 && k > 0 {
        lemma_word_end_at(t.drop_first(), k - 1);
    }
}

/// The first word of `s`.
pub fn first_word_of(s: &str) -> (r: &str)
    ensures
        r@ == first_word(s@),
{
    let t = trim_text(s);
    let n = t.unicode_len();
    let mut k: usize = 0;
    while k < n && !crate::text::char_is_space(t.get_char(k))
        invariant
            n == t@.len(),
            k <= n,
            forall|j: int| 0 <= j < k ==> !is_space(t@[j]),
        decreases n - k,
    {
        k = k + 1;
    }
    proof {
        lemma_word_end_at(t@, k as int);
    }
    t.substring_char(0, k)
}

/// Whether the first word of `s` is `w`.
fn first_word_is(s: &str, w: &str) -> (r: bool)
    ensures
        r == (first_word(s@) == w@),
{
    let a = first_word_of(s).to_owned();
    let b = w.to_owned();
    a == b
}

/// A completer of the editor's chain: it applies to some inputs, given as the
/// word under the cursor and the whole trimmed line.
pub trait Completer {
    spec fn applies(w: Seq<char>, b: Seq<char>) -> bool;

    fn filter(w: &str, b: &str) -> (r: bool)
        ensures
            r == Self::applies(w@, b@),
    ;
}

/// Completes the argument of `attach` from the process list.
pub struct AttachCommandCompleter;

/// Completes the argument of `pad` from the process list.
pub struct PadCommandCompleter;

/// Completes file-system paths.
pub struct PathCompleter;

impl Completer for AttachCommandCompleter {
    open spec fn applies(w: Seq<char>, b: Seq<char>) -> bool {
        first_word(b) == "attach"@
    }

    fn filter(w: &str, b: &str) -> (r: bool) {
        first_word_is(b, "attach")
    }
}

impl Completer for PadCommandCompleter {
    open spec fn applies(w: Seq<char>, b: Seq<char>) -> bool {
        first_word(b) == "pad"@
    }

    fn filter(w: &str, b: &str) -> (r: bool) {
        first_word_is(b, "pad")
    }
}

impl Completer for PathCompleter {
    open spec fn applies(w: Seq<char>, b: Seq<char>) -> bool {
        trim(w) != trim(b)
    }

    fn filter(w: &str, b: &str) -> (r: bool) {
        let a = trim_text(w).to_owned();
        let c = trim_text(b).to_owned();
        !(a == c)
    }
}

/// The kinds of completer that a chain can hold.
#[derive(Clone, Copy, Debug, PartialEq, Eq, Structural)]
pub enum CompleterKind {
    Attach,
    Pad,
    Path,
}

/// Whether a completer of the kind applies.
pub open spec fn kind_applies(kind: CompleterKind, w: Seq<char>, b: Seq<char>) -> bool {
    match kind {
        CompleterKind::Attach => AttachCommandCompleter::applies(w, b),
        CompleterKind::Pad => PadCommandCompleter::applies(w, b),
        CompleterKind::Path => PathCompleter::applies(w, b),
    }
}

impl CompleterKind {
    /// Whether a completer of this kind applies to the word `w` in the line `b`.
    pub fn filter(&self, w: &str, b: &str) -> (r: bool)
        ensures
            r == kind_applies(*self, w@, b@),
    {
        match self {
            CompleterKind::Attach => AttachCommandCompleter::filter(w, b),
            CompleterKind::Pad => PadCommandCompleter::filter(w, b),
            CompleterKind::Path => PathCompleter::filter(w, b),
        }
    }
}

/// Whether the chain's completer `i` is the one consulted: it applies to the
/// word in the trimmed line, and it found candidates.
pub open spec fn consulted(
    chain: Seq<CompleterKind>,
    found: Seq<Vec<(String, String)>>,
    w: Seq<char>,
    b: Seq<char>,
    i: int,
) -> bool {
    kind_applies(chain[i], w, trim(b)) && found[i]@.len() > 0
}

/// The first completer from `i` on that is consulted, or the chain's length.
pub open spec fn first_consulted(
    chain: Seq<CompleterKind>,
    found: Seq<Vec<(String, String)>>,
    w: Seq<char>,
    b: Seq<char>,
    i: int,
) -> int
    decreases chain.len() - i,
{
    if i >= chain.len() {
        chain.len() as int
    } else if consulted(chain, found, w, b, i) {
        i
    } else {
        first_consulted(chain, found, w, b, i + 1)
    }
}

/// The completion table and the chain of completers in front of it.
pub struct ShellCompleter {
    pub autocomplete_data: Vec<(String, String)>,
    pub completer_chain: Vec<CompleterKind>,
}

impl ShellCompleter {
    /// An empty table behind the chain of `attach` and path completion.
    pub fn new() -> (r: ShellCompleter)
        ensures
            r.autocomplete_data@.len() == 0,
            r.completer_chain@ == seq![CompleterKind::Attach, CompleterKind::Path],
    {
        let chain = vec![CompleterKind::Attach, CompleterKind::Path];
        assert(chain@ =~= seq![CompleterKind::Attach, CompleterKind::Path]);
        ShellCompleter { autocomplete_data: Vec::new(), completer_chain: chain }
    }

    /// Replaces the table.
    pub fn set_autocomplete_data(&mut self, data: Vec<(String, String)>)
        ensures
            final(self).autocomplete_data@ == data@,
            final(self).completer_chain@ == old(self).completer_chain@,
    {
        self.autocomplete_data = data;
    }

    /// Puts `data` in front of the table.
    pub fn append_complete_data(&mut self, data: Vec<(String, String)>)
        ensures
            final(self).autocomplete_data@ == data@ + old(self).autocomplete_data@,
            final(self).completer_chain@ == old(self).completer_chain@,
    {
        let mut data = data;
        data.append(&mut self.autocomplete_data);
        self.autocomplete_data = data;
    }

    /// The candidates for `word` from the table alone.
    pub fn debug_command_complete(&self, word: &str) -> (r: Option<Vec<(String, String)>>)
        ensures
            match r {
                Some(v) => table_completion(pair_views(self.autocomplete_data@), word@) == Some(
                    pair_views(v@),
                ),
                None => table_completion(pair_views(self.autocomplete_data@), word@) is None,
            },
    {
        table_complete(&self.autocomplete_data, word)
    }

    /// The candidates for `word` in the line `buffer`: those of the first
    /// completer of the chain that applies and found any (`found` holds what
    /// each one found), else those of the table.
    pub fn complete(&self, word: &str, buffer: &str, found: Vec<Vec<(String, String)>>) -> (r: Option<
        Vec<(String, String)>,
    >)
        requires
            found@.len() == self.completer_chain@.len(),
        ensures
            ({
                let i = first_consulted(self.completer_chain@, found@, word@, buffer@, 0);
                if i < found@.len() {
                    r == Some(found@[i])
                } else {
                    match r {
                        Some(v) => table_completion(pair_views(self.autocomplete_data@), word@)
                            == Some(pair_views(v@)),
                        None => table_completion(pair_views(self.autocomplete_data@), word@) is None,
                    }
                }
            }),
    {
        let i = self.first_consulted_index(word, buffer, &found);
        if i < found.len() {
            let mut pool = found;
            Some(pool.remove(i))
        } else {
            self.debug_command_complete(word)
        }
    }

    fn first_consulted_index(&self, word: &str, buffer: &str, found: &Vec<Vec<(String, String)>>) -> (r: usize)
        requires
            found@.len() == self.completer_chain@.len(),
        ensures
            r == first_consulted(self.completer_chain@, found@, word@, buffer@, 0),
    {
        let line = trim_text(buffer);
        let ghost chain = self.completer_chain@;
        let mut i: usize = 0;
        while i < self.completer_chain.len()
            invariant
                chain == self.completer_chain@,
                found@.len() == chain.len(),
                line@ == trim(buffer@),
                i <= chain.len(),
                first_consulted(chain, found@, word@, buffer@, 0) == first_consulted(
                    chain,
                    found@,
                    word@,
                    buffer@,
                    i as int,
                ),
            decreases chain.len() - i,
        {
            if self.completer_chain[i].filter(word, line) && found[i].len() > 0 {
                return i;
            }
            i = i + 1;
        }
        i
    }
}

} // verus!
