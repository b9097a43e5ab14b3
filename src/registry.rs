//! The command registry: names bound to entry-point addresses, and the rules
//! that turn a command line into a call of one of them.
use vstd::prelude::*;

verus! {

/// The most arguments an entry point can be called with.
pub const MAX_ARGUMENTS: usize = 10;

/// Whether no two entries share a name.
pub open spec fn names_unique(es: Seq<(String, u64)>) -> bool {
    forall|i: int, j: int|
        0 <= i < es.len() && 0 <= j < es.len() && i != j ==> es[i].0@ != es[j].0@
}

/// Whether some entry is named `k`.
pub open spec fn has_name(es: Seq<(String, u64)>, k: Seq<char>) -> bool {
    exists|i: int| 0 <= i < es.len() && es[i].0@ == k
}

/// The map from name to address that the entries hold.
pub open spec fn entries_map(es: Seq<(String, u64)>) -> Map<Seq<char>, u64> {
    Map::new(
        |k: Seq<char>| has_name(es, k),
        |k: Seq<char>| es[choose|i: int| 0 <= i < es.len() && es[i].0@ == k].1,
    )
}

proof fn lemma_entry_at(es: Seq<(String, u64)>, i: int)
    requires
        names_unique(es),
        0 <= i < es.len(),
    ensures
        entries_map(es).dom().contains(es[i].0@),
        entries_map(es)[es[i].0@] == es[i].1,
{
    let k = es[i].0@;
    assert(has_name(es, k));
    let j = choose|j: int| 0 <= j < es.len() && es[j].0@ == k;
    assert(j == i);
}

/// A table of named entry points.
pub struct Shell {
    entries: Vec<(String, u64)>,
}

impl View for Shell {
    type V = Map<Seq<char>, u64>;

    closed spec fn view(&self) -> Map<Seq<char>, u64> {
        entries_map(self.entries@)
    }
}

impl Shell {
    /// No name is bound twice.
    #[verifier::type_invariant]
    closed spec fn wf(&self) -> bool {
        names_unique(self.entries@)
    }

    /// An empty table.
    pub fn new() -> (r: Shell)
        ensures
            r@ == Map::<Seq<char>, u64>::empty(),
    {
        let r = Shell { entries: Vec::new() };
        assert(r@ =~= Map::<Seq<char>, u64>::empty());
        r
    }

    /// Where the entry named `name` stands, if there is one.
    fn position(&self, name: &str) -> (r: Option<usize>)
        ensures
            match r {
                Some(i) => i < self.entries@.len() && self.entries@[i as int].0@ == name@,
                None => !has_name(self.entries@, name@),
            },
    {
        let key = name.to_owned();
        let mut i: usize = 0;
        while i < self.entries.len()
            invariant
                i <= self.entries@.len(),
                key@ == name@,
                forall|j: int| 0 <= j < i ==> self.entries@[j].0@ != name@,
            decreases self.entries@.len() - i,
        {
            if self.entries[i].0 == key {
                return Some(i);
            }
            i = i + 1;
        }
        None
    }

    /// Binds `name` to `addr`, replacing an earlier binding of the name.
    pub fn reg_func(&mut self, name: String, addr: u64)
        ensures
            final(self)@ == old(self)@.insert(name@, addr),
    {
        proof {
            use_type_invariant(&*self);
        }
        let ghost before = self.entries@;
        let pos = self.position(name.as_str());
        let mut entries: Vec<(String, u64)> = Vec::new();
        std::mem::swap(&mut self.entries, &mut entries);
        match pos {
            Some(i) => {
                let ghost k = name@;
                let ghost es = before.update(i as int, (name, addr));
                assert forall|a: int, b: int|
                    0 <= a < es.len() && 0 <= b < es.len() && a != b implies es[a].0@
                    != es[b].0@ by {
                    if a != i && b != i {
                        assert(es[a] == before[a] && es[b] == before[b]);
                    }
                }
                entries.set(i, (name, addr));
                self.entries = entries;
                proof {
                    assert(self.entries@ == es);
                    assert forall|x: Seq<char>| #[trigger]
                        entries_map(es).dom().contains(x) <==> entries_map(before).insert(
                            k,
                            addr,
                        ).dom().contains(x) by {
                        if x == k {
                            assert(es[i as int].0@ == k);
                            assert(before[i as int].0@ == k);
                        }
                        if has_name(es, x) {
                            let j = choose|j: int| 0 <= j < es.len() && es[j].0@ == x;
                            if j != i {
                                assert(before[j] == es[j]);
                            }
                        }
                        if has_name(before, x) {
                            let j = choose|j: int| 0 <= j < before.len() && before[j].0@ == x;
                            if j != i {
                                assert(before[j] == es[j]);
                            }
                        }
                    }
                    assert forall|x: Seq<char>| #[trigger]
                        entries_map(es).dom().contains(x) implies entries_map(es)[x]
                        == entries_map(before).insert(k, addr)[x] by {
                        let j = choose|j: int| 0 <= j < es.len() && es[j].0@ == x;
                        lemma_entry_at(es, j);
                        if j != i {
                            assert(before[j] == es[j]);
                            lemma_entry_at(before, j);
                        }
                    }
                    assert(entries_map(es) =~= entries_map(before).insert(k, addr));
                }
            },
            None => {
                let ghost k = name@;
                let ghost es = before.push((name, addr));
                assert forall|a: int, b: int|
                    0 <= a < es.len() && 0 <= b < es.len() && a != b implies es[a].0@
                    != es[b].0@ by {
                    if a < before.len() && b < before.len() {
                        assert(es[a] == before[a] && es[b] == before[b]);
                    } else if a < before.len() {
                        assert(es[a] == before[a]);
                    } else if b < before.len() {
                        assert(es[b] == before[b]);
                    }
                }
                entries.push((name, addr));
                self.entries = entries;
                proof {
                    assert(self.entries@ == es);
                    assert forall|x: Seq<char>| #[trigger]
                        entries_map(es).dom().contains(x) <==> entries_map(before).insert(
                            k,
                            addr,
                        ).dom().contains(x) by {
                        if has_name(es, x) {
                            let j = choose|j: int| 0 <= j < es.len() && es[j].0@ == x;
                            if j < before.len() {
                                assert(before[j] == es[j]);
                            }
                        }
                        if has_name(before, x) {
                            let j = choose|j: int| 0 <= j < before.len() && before[j].0@ == x;
                            assert(before[j] == es[j]);
                        }
                        if x == k {
                            assert(es[before.len() as int].0@ == k);
                        }
                    }
                    assert forall|x: Seq<char>| #[trigger]
                        entries_map(es).dom().contains(x) implies entries_map(es)[x]
                        == entries_map(before).insert(k, addr)[x] by {
                        let j = choose|j: int| 0 <= j < es.len() && es[j].0@ == x;
                        lemma_entry_at(es, j);
                        if j < before.len() {
                            assert(before[j] == es[j]);
                            lemma_entry_at(before, j);
                        }
                    }
                    assert(entries_map(es) =~= entries_map(before).insert(k, addr));
                }
            },
        }
    }

    /// The address bound to `name`, if any.
    pub fn lookup(&self, name: &str) -> (r: Option<u64>)
        ensures
            r == if self@.dom().contains(name@) {
                Some(self@[name@])
            } else {
                None::<u64>
            },
    {
        match self.position(name) {
            Some(i) => {
                proof {
                    use_type_invariant(self);
                    lemma_entry_at(self.entries@, i as int);
                }
                Some(self.entries[i].1)
            },
            None => None,
        }
    }

    /// The registered names, each once, in no particular order.
    pub fn get_reg_commands(&self) -> (r: Vec<String>)
        ensures
            forall|i: int, j: int| 0 <= i < r@.len() && 0 <= j < r@.len() && i != j ==> r@[i]@ != r@[j]@,
            forall|k: Seq<char>| self@.dom().contains(k) <==> exists|i: int| 0 <= i < r@.len() && #[trigger] r@[i]@ == k,
    {
        let mut r: Vec<String> = Vec::new();
        let mut i: usize = 0;
        while i < self.entries.len()
            invariant
                i <= self.entries@.len(),
                r@.len() == i,
                forall|j: int| 0 <= j < i ==> #[trigger] r@[j]@ == self.entries@[j].0@,
            decreases self.entries@.len() - i,
        {
            r.push(self.entries[i].0.clone());
            i = i + 1;
        }
        proof {
            use_type_invariant(self);
            assert forall|k: Seq<char>| self@.dom().contains(k) <==> exists|i: int| 0 <= i < r@.len() && #[trigger] r@[i]@ == k by {
                if self@.dom().contains(k) {
                    let j = choose|j: int| 0 <= j < self.entries@.len() && self.entries@[j].0@ == k;
                    assert(r@[j]@ == k);
                }
                if exists|i: int| 0 <= i < r@.len() && #[trigger] r@[i]@ == k {
                    let j = choose|i: int| 0 <= i < r@.len() && #[trigger] r@[i]@ == k;
                    assert(has_name(self.entries@, k));
                }
            }
        }
        r
    }
}

impl Clone for Shell {
    /// A copy of the table.
    fn clone(&self) -> (r: Shell)
        ensures
            r@ == self@,
    {
        proof {
            use_type_invariant(self);
        }
        let mut entries: Vec<(String, u64)> = Vec::new();
        let mut i: usize = 0;
        while i < self.entries.len()
            invariant
                i <= self.entries@.len(),
                entries@ == self.entries@.take(i as int),
            decreases self.entries@.len() - i,
        {
            entries.push((self.entries[i].0.clone(), self.entries[i].1));
            assert(entries@ =~= self.entries@.take(i + 1));
            i = i + 1;
        }
        assert(entries@ =~= self.entries@);
        Shell { entries }
    }
}

impl Default for Shell {
    /// An empty table.
    fn default() -> (r: Shell)
        ensures
            r@ == Map::<Seq<char>, u64>::empty(),
    {
        Shell::new()
    }
}

} // verus!
