use vstd::prelude::*;
use crate::environment::Environment;
use crate::text::{raw_view, reading_of, text_value, var_view, VarError};

verus! {

/// The variables of an environment, each name with its value.
pub type Vars = Map<Seq<u8>, Seq<u8>>;

/// The value of `key` in `vars`, or `None` where it has none.
pub open spec fn lookup(vars: Vars, key: Seq<u8>) -> Option<Seq<u8>> {
    if vars.contains_key(key) {
        Some(vars[key])
    } else {
        None
    }
}

/// Stored entries as pairs of byte sequences.
spec fn entries_of(s: Seq<(Vec<u8>, Vec<u8>)>) -> Seq<(Seq<u8>, Seq<u8>)> {
    s.map_values(|e: (Vec<u8>, Vec<u8>)| (e.0@, e.1@))
}

/// No two entries share a name.
spec fn unique_keys(s: Seq<(Seq<u8>, Seq<u8>)>) -> bool {
    forall|i: int, j: int|
        #![trigger s[i], s[j]]
        0 <= i < j < s.len() ==> s[i].0 != s[j].0
}

/// The mapping that a list of entries stands for, later entries winning.
spec fn map_of(s: Seq<(Seq<u8>, Seq<u8>)>) -> Vars
    decreases s.len(),
{
    if s.len() == 0 {
        Map::empty()
    } else {
        map_of(s.drop_last()).insert(s.last().0, s.last().1)
    }
}

proof fn lemma_map_of_lacks(s: Seq<(Seq<u8>, Seq<u8>)>, k: Seq<u8>)
    requires
        forall|i: int| 0 <= i < s.len() ==> s[i].0 != k,
    ensures
        !map_of(s).contains_key(k),
    decreases s.len(),
{
    if s.len() > 0 {
        lemma_map_of_lacks(s.drop_last(), k);
    }
}

proof fn lemma_map_of_has(s: Seq<(Seq<u8>, Seq<u8>)>, i: int)
    requires
        unique_keys(s),
        0 <= i < s.len(),
    ensures
        map_of(s).contains_key(s[i].0),
        map_of(s)[s[i].0] == s[i].1,
    decreases s.len(),
{
    if i < s.len() - 1 {
        let d = s.drop_last();
        assert(s[i] == d[i]);
        assert(s[i].0 != s[s.len() - 1].0);
        lemma_map_of_has(d, i);
    }
}

proof fn lemma_map_of_update(s: Seq<(Seq<u8>, Seq<u8>)>, i: int, v: Seq<u8>)
    requires
        unique_keys(s),
        0 <= i < s.len(),
    ensures
        map_of(s.update(i, (s[i].0, v))) == map_of(s).insert(s[i].0, v),
    decreases s.len(),
{
    let t = s.update(i, (s[i].0, v));
    let d = s.drop_last();
    if i == s.len() - 1 {
        assert(t.drop_last() =~= d);
        assert(map_of(t) =~= map_of(s).insert(s[i].0, v));
    } else {
        assert(t.drop_last() =~= d.update(i, (d[i].0, v)));
        assert(s[i].0 != s[s.len() - 1].0);
        lemma_map_of_update(d, i, v);
        assert(map_of(t) =~= map_of(s).insert(s[i].0, v));
    }
}

proof fn lemma_map_of_remove(s: Seq<(Seq<u8>, Seq<u8>)>, i: int)
    requires
        unique_keys(s),
        0 <= i < s.len(),
    ensures
        map_of(s.remove(i)) == map_of(s).remove(s[i].0),
    decreases s.len(),
{
    let t = s.remove(i);
    let d = s.drop_last();
    if i == s.len() - 1 {
        assert(t =~= d);
        assert forall|j: int| 0 <= j < d.len() implies d[j].0 != s[i].0 by {
            assert(d[j] == s[j]);
        }
        lemma_map_of_lacks(d, s[i].0);
        assert(map_of(t) =~= map_of(s).remove(s[i].0));
    } else {
        assert(t.drop_last() =~= d.remove(i));
        assert(t.last() == s.last());
        assert(s[i].0 != s[s.len() - 1].0);
        lemma_map_of_remove(d, i);
        assert(map_of(t) =~= map_of(s).remove(s[i].0));
    }
}

/// Whether two byte strings are equal.
fn same_bytes(a: &[u8], b: &[u8]) -> (r: bool)
    ensures
        r == (a@ == b@),
{
    if a.len() != b.len() {
        return false;
    }
    let mut i: usize = 0;
    while i < a.len()
        invariant
            a@.len() == b@.len(),
            i <= a@.len(),
            forall|j: int| 0 <= j < i ==> a@[j] == b@[j],
        decreases a@.len() - i,
    {
        if a[i] != b[i] {
            return false;
        }
        i += 1;
    }
    assert(a@ =~= b@);
    true
}

/// An isolated, in-memory environment for tests.
///
/// Each instance owns its variables: what one instance sets, no other sees.
/// Use a new instance for each test. The rules of the operating system on
/// names and values hold here too, though nothing here would break without
/// them. There is no limit on the number of variables.
#[derive(Debug)]
pub struct FakeEnvironment {
    vars: Vec<(Vec<u8>, Vec<u8>)>,
}

impl View for FakeEnvironment {
    type V = Vars;

    closed spec fn view(&self) -> Vars {
        map_of(entries_of(self.vars@))
    }
}

impl FakeEnvironment {
    #[verifier::type_invariant]
    spec fn names_unique(self) -> bool {
        unique_keys(entries_of(self.vars@))
    }

    /// An environment with no variables.
    pub fn new() -> (r: Self)
        ensures
            r@ == Map::<Seq<u8>, Seq<u8>>::empty(),
    {
        let r = FakeEnvironment { vars: Vec::new() };
        assert(entries_of(r.vars@) =~= Seq::empty());
        r
    }

    /// Where `key` is stored, if anywhere.
    fn position(&self, key: &[u8]) -> (r: Option<usize>)
        ensures
            match r {
                Some(i) => i < self.vars@.len() && self.vars@[i as int].0@ == key@,
                None => forall|i: int| 0 <= i < self.vars@.len() ==> self.vars@[i].0@ != key@,
            },
    {
        let mut i: usize = 0;
        while i < self.vars.len()
            invariant
                i <= self.vars@.len(),
                forall|j: int| 0 <= j < i ==> self.vars@[j].0@ != key@,
            decreases self.vars@.len() - i,
        {
            if same_bytes(self.vars[i].0.as_slice(), key) {
                return Some(i);
            }
            i += 1;
        }
        None
    }

    /// A copy of the value of `key`, or `None` where it has none.
    fn lookup_raw(&self, key: &[u8]) -> (r: Option<Vec<u8>>)
        ensures
            raw_view(r) == lookup(self@, key@),
    {
        proof {
            use_type_invariant(self);
        }
        let ghost s = entries_of(self.vars@);
        match self.position(key) {
            Some(i) => {
                proof {
                    lemma_map_of_has(s, i as int);
                }
                Some(vstd::slice::slice_to_vec(self.vars[i].1.as_slice()))
            },
            None => {
                proof {
                    assert forall|j: int| 0 <= j < s.len() implies s[j].0 != key@ by {
                        assert(s[j].0 == self.vars@[j].0@);
                    }
                    lemma_map_of_lacks(s, key@);
                }
                None
            },
        }
    }
}

impl FakeEnvironment {
    /// Whether every variable of `self` has the same value in `other`.
    fn included_in(&self, other: &Self) -> (r: bool)
        ensures
            r == (forall|k: Seq<u8>| #[trigger]
                self@.contains_key(k) ==> other@.contains_key(k) && other@[k] == self@[k]),
    {
        proof {
            use_type_invariant(self);
            use_type_invariant(other);
        }
        let ghost s = entries_of(self.vars@);
        let ghost o = entries_of(other.vars@);
        let mut i: usize = 0;
        while i < self.vars.len()
            invariant
                i <= self.vars@.len(),
                s == entries_of(self.vars@),
                o == entries_of(other.vars@),
                unique_keys(s),
                unique_keys(o),
                forall|j: int|
                    0 <= j < i ==> other@.contains_key(#[trigger] s[j].0) && other@[s[j].0] == s[j].1,
            decreases self.vars@.len() - i,
        {
            let key = self.vars[i].0.as_slice();
            proof {
                assert(s[i as int] == (self.vars@[i as int].0@, self.vars@[i as int].1@));
                lemma_map_of_has(s, i as int);
            }
            match other.position(key) {
                Some(p) => {
                    proof {
                        assert(o[p as int] == (other.vars@[p as int].0@, other.vars@[p as int].1@));
                        lemma_map_of_has(o, p as int);
                    }
                    if !same_bytes(other.vars[p].1.as_slice(), self.vars[i].1.as_slice()) {
                        proof {
                            let k = s[i as int].0;
                            assert(self@.contains_key(k) && other@[k] != self@[k]);
                        }
                        return false;
                    }
                },
                None => {
                    proof {
                        assert forall|j: int| 0 <= j < o.len() implies o[j].0 != s[i as int].0 by {
                            assert(o[j].0 == other.vars@[j].0@);
                        }
                        lemma_map_of_lacks(o, s[i as int].0);
                        assert(self@.contains_key(s[i as int].0));
                    }
                    return false;
                },
            }
            i += 1;
        }
        proof {
            assert forall|k: Seq<u8>| #[trigger]
                self@.contains_key(k) implies other@.contains_key(k) && other@[k] == self@[k] by {
                if forall|j: int| 0 <= j < s.len() ==> s[j].0 != k {
                    lemma_map_of_lacks(s, k);
                }
                let j = choose|j: int| 0 <= j < s.len() && s[j].0 == k;
                lemma_map_of_has(s, j);
            }
        }
        true
    }
}

impl PartialEq for FakeEnvironment {
    /// Two environments are equal when they hold the same variables with the
    /// same values, in whatever order they were set.
    fn eq(&self, other: &Self) -> (r: bool)
        ensures
            r == (self@ == other@),
    {
        let r = self.included_in(other) && other.included_in(self);
        proof {
            if r {
                assert(self@ =~= other@);
            }
        }
        r
    }
}

impl vstd::std_specs::cmp::PartialEqSpecImpl for FakeEnvironment {
    open spec fn obeys_eq_spec() -> bool {
        true
    }

    open spec fn eq_spec(&self, other: &FakeEnvironment) -> bool {
        self@ == other@
    }
}

impl Eq for FakeEnvironment {

}

impl Default for FakeEnvironment {
    /// An environment with no variables.
    fn default() -> (r: Self)
        ensures
            r@ == Map::<Seq<u8>, Seq<u8>>::empty(),
    {
        FakeEnvironment::new()
    }
}

impl Clone for FakeEnvironment {
    /// An independent environment with the same variables.
    fn clone(&self) -> (r: Self)
        ensures
            r@ == self@,
    {
        proof {
            use_type_invariant(self);
        }
        let mut vars: Vec<(Vec<u8>, Vec<u8>)> = Vec::new();
        let mut i: usize = 0;
        while i < self.vars.len()
            invariant
                i <= self.vars@.len(),
                vars@.len() == i,
                entries_of(vars@) =~= entries_of(self.vars@).take(i as int),
            decreases self.vars@.len() - i,
        {
            let k = vstd::slice::slice_to_vec(self.vars[i].0.as_slice());
            let v = vstd::slice::slice_to_vec(self.vars[i].1.as_slice());
            let ghost before = vars@;
            vars.push((k, v));
            proof {
                let e = entries_of(self.vars@);
                assert forall|j: int| 0 <= j <= i implies #[trigger] entries_of(vars@)[j] == e[j] by {
                    if j < i {
                        assert(vars@[j] == before[j]);
                        assert(entries_of(before)[j] == e[j]);
                    }
                }
                assert(entries_of(vars@) =~= e.take(i + 1));
            }
            i += 1;
        }
        proof {
            assert(entries_of(vars@) =~= entries_of(self.vars@));
        }
        FakeEnvironment { vars }
    }
}

impl Environment for FakeEnvironment {
    fn set_var(&mut self, key: &[u8], value: &[u8])
        ensures
            final(self)@ == old(self)@.insert(key@, value@),
    {
        proof {
            use_type_invariant(&*self);
        }
        let ghost s = entries_of(self.vars@);
        let k = vstd::slice::slice_to_vec(key);
        let v = vstd::slice::slice_to_vec(value);
        let found = self.position(key);
        let mut vars: Vec<(Vec<u8>, Vec<u8>)> = Vec::new();
        std::mem::swap(&mut self.vars, &mut vars);
        match found {
            Some(i) => {
                proof {
                    lemma_map_of_update(s, i as int, value@);
                }
                vars.set(i, (k, v));
                proof {
                    assert(entries_of(vars@) =~= s.update(i as int, (s[i as int].0, value@)));
                }
            },
            None => {
                vars.push((k, v));
                proof {
                    let t = entries_of(vars@);
                    assert(t.drop_last() =~= s);
                    assert forall|j: int| 0 <= j < s.len() implies s[j].0 != key@ by {
                        assert(s[j].0 == old(self).vars@[j].0@);
                    }
                    assert(unique_keys(t)) by {
                        assert forall|a: int, b: int| 0 <= a < b < t.len() implies t[a].0 != t[b].0 by {
                            if b < s.len() {
                                assert(t[a] == s[a] && t[b] == s[b]);
                            } else {
                                assert(t[a] == s[a]);
                            }
                        }
                    }
                }
            },
        }
        self.vars = vars;
    }

    fn var(&self, key: &[u8]) -> (r: Result<String, VarError>)
        ensures
            var_view(r) == reading_of(lookup(self@, key@)),
    {
        text_value(self.lookup_raw(key))
    }

    fn var_os(&self, key: &[u8]) -> (r: Option<Vec<u8>>)
        ensures
            raw_view(r) == lookup(self@, key@),
    {
        self.lookup_raw(key)
    }

    fn remove_var(&mut self, key: &[u8])
        ensures
            final(self)@ == old(self)@.remove(key@),
    {
        proof {
            use_type_invariant(&*self);
        }
        let ghost s = entries_of(self.vars@);
        match self.position(key) {
            Some(i) => {
                proof {
                    lemma_map_of_remove(s, i as int);
                }
                let mut vars: Vec<(Vec<u8>, Vec<u8>)> = Vec::new();
                std::mem::swap(&mut self.vars, &mut vars);
                vars.remove(i);
                proof {
                    let t = entries_of(vars@);
                    assert(t =~= s.remove(i as int));
                    assert(unique_keys(t)) by {
                        assert forall|a: int, b: int| 0 <= a < b < t.len() implies t[a].0 != t[b].0 by {
                            if b < i {
                                assert(t[a] == s[a] && t[b] == s[b]);
                            } else if a < i {
                                assert(t[a] == s[a] && t[b] == s[b + 1]);
                            } else {
                                assert(t[a] == s[a + 1] && t[b] == s[b + 1]);
                            }
                        }
                    }
                }
                self.vars = vars;
            },
            None => {
                proof {
                    assert forall|j: int| 0 <= j < s.len() implies s[j].0 != key@ by {
                        assert(s[j].0 == self.vars@[j].0@);
                    }
                    lemma_map_of_lacks(s, key@);
                    assert(old(self)@.remove(key@) =~= old(self)@);
                }
            },
        }
    }
}

} // verus!
