//! An ordered set of named string values, each name at most once.
//!
//! The client passes such sets around for form fields, query options and
//! update fields.  Inserting under a name already present replaces its value
//! in place; a new name is added at the end.
use vstd::prelude::*;

verus! {

/// Entry sequence of name/value pairs, as character sequences.
pub type ParamsView = Seq<(Seq<char>, Seq<char>)>;

/// No name occurs twice.
pub open spec fn names_distinct(s: ParamsView) -> bool {
    forall|i: int, j: int| 0 <= i < j < s.len() ==> #[trigger] s[i].0 != #[trigger] s[j].0
}

/// Whether `name` occurs in `s`.
pub open spec fn has_name(s: ParamsView, name: Seq<char>) -> bool {
    exists|i: int| 0 <= i < s.len() && #[trigger] s[i].0 == name
}

/// The value stored under `name`, if any.
pub open spec fn lookup(s: ParamsView, name: Seq<char>) -> Option<Seq<char>> {
    if has_name(s, name) {
        Some(s[choose|i: int| 0 <= i < s.len() && #[trigger] s[i].0 == name].1)
    } else {
        None
    }
}

/// The entries after storing `value` under `name`.
pub open spec fn with_entry(s: ParamsView, name: Seq<char>, value: Seq<char>) -> ParamsView {
    if has_name(s, name) {
        s.update(choose|i: int| 0 <= i < s.len() && #[trigger] s[i].0 == name, (name, value))
    } else {
        s.push((name, value))
    }
}

pub open spec fn entries_view(v: Seq<(String, String)>) -> ParamsView {
    v.map_values(|e: (String, String)| (e.0@, e.1@))
}

#[derive(Debug)]
pub struct Params {
    entries: Vec<(String, String)>,
}

impl View for Params {
    type V = ParamsView;

    closed spec fn view(&self) -> ParamsView {
        entries_view(self.entries@)
    }
}

impl Params {
    #[verifier::type_invariant]
    closed spec fn inv(&self) -> bool {
        names_distinct(self@)
    }

    /// The empty set.
    pub fn new() -> (p: Params)
        ensures
            p@ == Seq::<(Seq<char>, Seq<char>)>::empty(),
    {
        let p = Params { entries: Vec::new() };
        assert(p@ =~= Seq::<(Seq<char>, Seq<char>)>::empty());
        p
    }

    /// The set holding exactly the given entries, whose names are distinct.
    pub fn from_distinct(entries: Vec<(String, String)>) -> (p: Params)
        requires
            names_distinct(entries_view(entries@)),
        ensures
            p@ == entries_view(entries@),
    {
        Params { entries }
    }

    /// Number of entries.
    pub fn len(&self) -> (n: usize)
        ensures
            n == self@.len(),
    {
        self.entries.len()
    }

    /// Whether there is no entry.
    pub fn is_empty(&self) -> (b: bool)
        ensures
            b == (self@.len() == 0),
    {
        self.entries.len() == 0
    }

    /// The name of the `i`-th entry.
    pub fn name_at(&self, i: usize) -> (n: &String)
        requires
            i < self@.len(),
        ensures
            n@ == self@[i as int].0,
    {
        &self.entries[i].0
    }

    /// The value of the `i`-th entry.
    pub fn value_at(&self, i: usize) -> (v: &String)
        requires
            i < self@.len(),
        ensures
            v@ == self@[i as int].1,
    {
        &self.entries[i].1
    }

    /// Position of `name`, if present.
    pub fn position(&self, name: &str) -> (r: Option<usize>)
        ensures
            r matches Some(i) ==> i < self@.len() && self@[i as int].0 == name@,
            r is None ==> !has_name(self@, name@),
    {
        let mut i: usize = 0;
        while i < self.entries.len()
            invariant
                i <= self@.len(),
                self@.len() == self.entries@.len(),
                forall|j: int| 0 <= j < i ==> self@[j].0 != name@,
            decreases self@.len() - i,
        {
            if crate::text::str_eq(self.entries[i].0.as_str(), name) {
                return Some(i);
            }
            i = i + 1;
        }
        proof {
            if has_name(self@, name@) {
                let k = choose|k: int| 0 <= k < self@.len() && #[trigger] self@[k].0 == name@;
                assert(self@[k].0 == name@);
            }
        }
        None
    }

    /// The value stored under `name`, if any.
    pub fn get(&self, name: &str) -> (r: Option<&String>)
        ensures
            r matches Some(v) ==> lookup(self@, name@) == Some(v@),
            r is None ==> lookup(self@, name@) is None,
    {
        proof {
            use_type_invariant(self);
        }
        match self.position(name) {
            Some(i) => {
                proof {
                    lemma_lookup_at(self@, i as int);
                }
                Some(&self.entries[i].1)
            },
            None => None,
        }
    }

    /// Stores `value` under `name`, replacing any earlier value.
    pub fn insert(&mut self, name: String, value: String)
        ensures
            final(self)@ == with_entry(old(self)@, name@, value@),
    {
        proof {
            use_type_invariant(&*self);
        }
        let ghost before = self@;
        let pos = self.position(name.as_str());
        let mut entries: Vec<(String, String)> = Vec::new();
        std::mem::swap(&mut entries, &mut self.entries);
        assert(entries_view(entries@) == before);
        match pos {
            Some(i) => {
                proof {
                    lemma_lookup_at(before, i as int);
                }
                entries.set(i, (name, value));
                proof {
                    assert(entries_view(entries@) =~= with_entry(before, name@, value@));
                    lemma_with_entry(before, name@, value@, name@);
                }
                self.entries = entries;
            },
            None => {
                entries.push((name, value));
                proof {
                    assert(entries_view(entries@) =~= with_entry(before, name@, value@));
                    lemma_with_entry(before, name@, value@, name@);
                }
                self.entries = entries;
            },
        }
    }
}

/// In a set of distinct names, the entry at `i` is the one found by name.
pub proof fn lemma_lookup_at(s: ParamsView, i: int)
    requires
        names_distinct(s),
        0 <= i < s.len(),
    ensures
        has_name(s, s[i].0),
        (choose|k: int| 0 <= k < s.len() && #[trigger] s[k].0 == s[i].0) == i,
        lookup(s, s[i].0) == Some(s[i].1),
{
    assert(s[i].0 == s[i].0);
    let k = choose|k: int| 0 <= k < s.len() && #[trigger] s[k].0 == s[i].0;
    if k < i {
        assert(s[k].0 != s[i].0);
    } else if k > i {
        assert(s[i].0 != s[k].0);
    }
}

/// Storing a value keeps names distinct; afterwards the name gives that
/// value back and every other name keeps its value.
pub proof fn lemma_with_entry(s: ParamsView, name: Seq<char>, value: Seq<char>, other: Seq<char>)
    requires
        names_distinct(s),
    ensures
        names_distinct(with_entry(s, name, value)),
        lookup(with_entry(s, name, value), name) == Some(value),
        other != name ==> lookup(with_entry(s, name, value), other) == lookup(s, other),
{
    let t = with_entry(s, name, value);
    if has_name(s, name) {
        let k = choose|k: int| 0 <= k < s.len() && #[trigger] s[k].0 == name;
        assert forall|i: int, j: int| 0 <= i < j < t.len() implies #[trigger] t[i].0 != #[trigger] t[j].0 by {
            assert(s[i].0 != s[j].0);
        }
        lemma_lookup_at(t, k);
        if other != name {
            if has_name(s, other) {
                let m = choose|m: int| 0 <= m < s.len() && #[trigger] s[m].0 == other;
                lemma_lookup_at(s, m);
                assert(t[m] == s[m]);
                lemma_lookup_at(t, m);
            } else {
                assert forall|m: int| 0 <= m < t.len() implies #[trigger] t[m].0 != other by {
                    if m != k {
                        assert(t[m] == s[m]);
                    }
                }
            }
        }
    } else {
        assert forall|i: int, j: int| 0 <= i < j < t.len() implies #[trigger] t[i].0 != #[trigger] t[j].0 by {
            if j == s.len() {
                assert(t[i] == s[i]);
            } else {
                assert(s[i].0 != s[j].0);
            }
        }
        lemma_lookup_at(t, s.len() as int);
        if other != name {
            if has_name(s, other) {
                let m = choose|m: int| 0 <= m < s.len() && #[trigger] s[m].0 == other;
                lemma_lookup_at(s, m);
                assert(t[m] == s[m]);
                lemma_lookup_at(t, m);
            } else {
                assert forall|m: int| 0 <= m < t.len() implies #[trigger] t[m].0 != other by {
                    if m < s.len() {
                        assert(t[m] == s[m]);
                    }
                }
            }
        }
    }
}

pub open spec fn opt_str_view(o: Option<&str>) -> Option<Seq<char>> {
    match o {
        Some(s) => Some(s@),
        None => None,
    }
}

/// Candidate entries, each with an optional value.
pub open spec fn candidates_view(c: Seq<(&str, Option<&str>)>) -> Seq<(Seq<char>, Option<Seq<char>>)> {
    c.map_values(|e: (&str, Option<&str>)| (e.0@, opt_str_view(e.1)))
}

/// The candidates that have a value, in order.
pub open spec fn present(c: Seq<(Seq<char>, Option<Seq<char>>)>) -> ParamsView
    decreases c.len(),
{
    if c.len() == 0 {
        seq![]
    } else {
        let rest = present(c.drop_last());
        match c.last().1 {
            Some(v) => rest.push((c.last().0, v)),
            None => rest,
        }
    }
}

/// No name occurs twice in `names`.
pub open spec fn seq_distinct(names: Seq<Seq<char>>) -> bool {
    forall|a: int, b: int| 0 <= a < b < names.len() ==> #[trigger] names[a] != #[trigger] names[b]
}

/// Every name of `entries` is one of the first `i` of `names`.
pub open spec fn names_drawn_from(entries: ParamsView, names: Seq<Seq<char>>, i: int) -> bool {
    forall|k: int| 0 <= k < entries.len() ==> exists|j: int| 0 <= j < i && #[trigger] entries[k].0 == #[trigger] names[j]
}

/// Entries filled in the order of distinct names, each name taken at most
/// once: appending one under the next name keeps the entries' names
/// distinct, and skipping a name keeps them drawn from the names so far.
pub proof fn lemma_fill_in_name_order(entries: ParamsView, names: Seq<Seq<char>>, i: int, value: Seq<char>)
    requires
        0 <= i < names.len(),
        seq_distinct(names),
        names_distinct(entries),
        names_drawn_from(entries, names, i),
    ensures
        names_distinct(entries.push((names[i], value))),
        names_drawn_from(entries.push((names[i], value)), names, i + 1),
        names_drawn_from(entries, names, i + 1),
{
    let grown = entries.push((names[i], value));
    assert forall|a: int, b: int| 0 <= a < b < grown.len() implies #[trigger] grown[a].0 != #[trigger] grown[b].0 by {
        if b == entries.len() {
            let j = choose|j: int| 0 <= j < i && #[trigger] entries[a].0 == #[trigger] names[j];
            assert(grown[a] == entries[a]);
        } else {
            assert(grown[a] == entries[a] && grown[b] == entries[b]);
        }
    }
    assert forall|k: int| 0 <= k < grown.len() implies exists|j: int| 0 <= j < i + 1 && #[trigger] grown[k].0 == #[trigger] names[j] by {
        if k < entries.len() {
            let j = choose|j: int| 0 <= j < i && #[trigger] entries[k].0 == #[trigger] names[j];
            assert(grown[k].0 == names[j]);
        } else {
            assert(grown[k].0 == names[i]);
        }
    }
    assert forall|k: int| 0 <= k < entries.len() implies exists|j: int| 0 <= j < i + 1 && #[trigger] entries[k].0 == #[trigger] names[j] by {
        let j = choose|j: int| 0 <= j < i && #[trigger] entries[k].0 == #[trigger] names[j];
    }
}

/// No two candidates share a name.
pub open spec fn candidates_distinct(c: Seq<(Seq<char>, Option<Seq<char>>)>) -> bool {
    forall|a: int, b: int| 0 <= a < b < c.len() ==> #[trigger] c[a].0 != #[trigger] c[b].0
}

/// Whether some candidate is named `name`.
pub open spec fn is_candidate(c: Seq<(Seq<char>, Option<Seq<char>>)>, name: Seq<char>) -> bool {
    exists|j: int| 0 <= j < c.len() && #[trigger] c[j].0 == name
}

/// The entries picked from candidates with distinct names have distinct
/// names, each a candidate's.
pub proof fn lemma_present_names(c: Seq<(Seq<char>, Option<Seq<char>>)>)
    requires
        candidates_distinct(c),
    ensures
        names_distinct(present(c)),
        forall|k: int| 0 <= k < present(c).len() ==> is_candidate(c, #[trigger] present(c)[k].0),
    decreases c.len(),
{
    if c.len() > 0 {
        let r = c.drop_last();
        let last = c.last();
        assert forall|a: int, b: int| 0 <= a < b < r.len() implies #[trigger] r[a].0 != #[trigger] r[b].0 by {
            assert(r[a] == c[a] && r[b] == c[b]);
        }
        lemma_present_names(r);
        let p = present(r);
        assert forall|k: int| 0 <= k < p.len() implies is_candidate(c, #[trigger] p[k].0) && p[k].0 != last.0 by {
            let j = choose|j: int| 0 <= j < r.len() && #[trigger] r[j].0 == p[k].0;
            assert(c[j] == r[j]);
            assert(c[j].0 != c[c.len() - 1].0);
        }
        match last.1 {
            Some(v) => {
                let q = p.push((last.0, v));
                assert forall|a: int, b: int| 0 <= a < b < q.len() implies #[trigger] q[a].0 != #[trigger] q[b].0 by {
                    assert(q[a] == p[a]);
                    if b < p.len() {
                        assert(q[b] == p[b]);
                    }
                }
                assert forall|k: int| 0 <= k < q.len() implies is_candidate(c, #[trigger] q[k].0) by {
                    if k < p.len() {
                        assert(q[k] == p[k]);
                    } else {
                        assert(c[c.len() - 1].0 == q[k].0);
                    }
                }
            },
            None => {},
        }
    }
}

/// Picking the candidates that have a value keeps each value under its own
/// name: a candidate's name is found with that candidate's value when it
/// has one and is not found when it has none, and a name that no candidate
/// has is not found.
pub proof fn lemma_present_lookup(c: Seq<(Seq<char>, Option<Seq<char>>)>, name: Seq<char>)
    requires
        candidates_distinct(c),
    ensures
        forall|j: int| 0 <= j < c.len() && #[trigger] c[j].0 == name ==> lookup(present(c), name) == c[j].1,
        !is_candidate(c, name) ==> lookup(present(c), name) is None,
    decreases c.len(),
{
    if c.len() == 0 {
        assert(!has_name(present(c), name));
    } else {
        let n = c.len() - 1;
        let r = c.drop_last();
        let last = c.last();
        assert forall|a: int, b: int| 0 <= a < b < r.len() implies #[trigger] r[a].0 != #[trigger] r[b].0 by {
            assert(r[a] == c[a] && r[b] == c[b]);
        }
        lemma_present_lookup(r, name);
        lemma_present_names(r);
        let p = present(r);
        assert(!has_name(p, last.0)) by {
            if has_name(p, last.0) {
                let k = choose|k: int| 0 <= k < p.len() && #[trigger] p[k].0 == last.0;
                assert(is_candidate(r, p[k].0));
                let j = choose|j: int| 0 <= j < r.len() && #[trigger] r[j].0 == p[k].0;
                assert(c[j] == r[j]);
                assert(c[j].0 != c[n].0);
            }
        }
        match last.1 {
            Some(v) => {
                assert(present(c) == with_entry(p, last.0, v));
                lemma_with_entry(p, last.0, v, name);
            },
            None => {},
        }
        if name == last.0 {
            assert(!is_candidate(r, name)) by {
                if is_candidate(r, name) {
                    let j = choose|j: int| 0 <= j < r.len() && #[trigger] r[j].0 == name;
                    assert(c[j] == r[j]);
                    assert(c[j].0 != c[n].0);
                }
            }
            assert forall|j: int| 0 <= j < c.len() && #[trigger] c[j].0 == name implies lookup(present(c), name) == c[j].1 by {
                if j < n {
                    assert(c[j].0 != c[n].0);
                }
            }
        } else {
            assert forall|j: int| 0 <= j < c.len() && #[trigger] c[j].0 == name implies lookup(present(c), name) == c[j].1 by {
                assert(j < n);
                assert(r[j] == c[j]);
            }
            if !is_candidate(c, name) {
                assert(!is_candidate(r, name)) by {
                    if is_candidate(r, name) {
                        let j = choose|j: int| 0 <= j < r.len() && #[trigger] r[j].0 == name;
                        assert(c[j] == r[j]);
                    }
                }
            }
        }
    }
}

/// The set of the candidates that have a value, in order.
pub fn params_of_present(cands: &Vec<(&str, Option<&str>)>) -> (p: Params)
    requires
        forall|a: int, b: int| 0 <= a < b < cands@.len() ==> #[trigger] cands@[a].0@ != #[trigger] cands@[b].0@,
    ensures
        p@ == present(candidates_view(cands@)),
{
    let ghost cv = candidates_view(cands@);
    let ghost names = cv.map_values(|c: (Seq<char>, Option<Seq<char>>)| c.0);
    assert(seq_distinct(names)) by {
        assert forall|a: int, b: int| 0 <= a < b < names.len() implies #[trigger] names[a] != #[trigger] names[b] by {
            assert(names[a] == cands@[a].0@ && names[b] == cands@[b].0@);
        }
    }
    let mut out: Vec<(String, String)> = Vec::new();
    let mut i: usize = 0;
    while i < cands.len()
        invariant
            i <= cands@.len(),
            cv == candidates_view(cands@),
            names == cv.map_values(|c: (Seq<char>, Option<Seq<char>>)| c.0),
            seq_distinct(names),
            entries_view(out@) == present(cv.take(i as int)),
            names_distinct(entries_view(out@)),
            names_drawn_from(entries_view(out@), names, i as int),
        decreases cands@.len() - i,
    {
        proof {
            assert(cv.take(i + 1).drop_last() =~= cv.take(i as int));
            assert(cv[i as int] == (cands@[i as int].0@, opt_str_view(cands@[i as int].1)));
        }
        let ghost before = entries_view(out@);
        let (name, value) = cands[i];
        match value {
            Some(v) => {
                out.push((String::from_str(name), String::from_str(v)));
                proof {
                    lemma_fill_in_name_order(before, names, i as int, v@);
                    assert(entries_view(out@) =~= before.push((names[i as int], v@)));
                    assert(entries_view(out@) =~= present(cv.take(i + 1)));
                }
            },
            None => {
                proof {
                    lemma_fill_in_name_order(before, names, i as int, Seq::empty());
                }
                assert(entries_view(out@) =~= present(cv.take(i + 1)));
            },
        }
        i = i + 1;
    }
    assert(cv.take(i as int) =~= cv);
    Params::from_distinct(out)
}

} // verus!
