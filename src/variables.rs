use vstd::prelude::*;
use crate::value::{Value, ValueView, chars_eq, copy_value};

verus! {

/// The map that a list of bindings stands for; a later binding of a name
/// hides an earlier one.
pub open spec fn bindings_map(e: Seq<(Seq<char>, ValueView)>) -> Map<Seq<char>, ValueView>
    decreases e.len(),
{
    if e.len() == 0 {
        Map::empty()
    } else {
        bindings_map(e.drop_last()).insert(e.last().0, e.last().1)
    }
}

pub open spec fn names_unique(e: Seq<(Seq<char>, ValueView)>) -> bool {
    forall|i: int, j: int| 0 <= i < e.len() && 0 <= j < e.len() && i != j ==> (#[trigger] e[i]).0 != (#[trigger] e[j]).0
}

proof fn lemma_bindings_lookup(e: Seq<(Seq<char>, ValueView)>, k: Seq<char>)
    requires
        names_unique(e),
    ensures
        bindings_map(e).contains_key(k) <==> exists|i: int| 0 <= i < e.len() && (#[trigger] e[i]).0 == k,
        forall|i: int| 0 <= i < e.len() && (#[trigger] e[i]).0 == k ==> bindings_map(e)[k] == e[i].1,
    decreases e.len(),
{
    if e.len() > 0 {
        let d = e.drop_last();
        assert(names_unique(d)) by {
            assert forall|i: int, j: int| 0 <= i < d.len() && 0 <= j < d.len() && i != j implies (#[trigger] d[i]).0 != (#[trigger] d[j]).0 by {
                assert(d[i] == e[i] && d[j] == e[j]);
            }
        }
        lemma_bindings_lookup(d, k);
        if bindings_map(e).contains_key(k) && e.last().0 != k {
            let i = choose|i: int| 0 <= i < d.len() && (#[trigger] d[i]).0 == k;
            assert(e[i] == d[i]);
        }
        assert forall|i: int| 0 <= i < e.len() && (#[trigger] e[i]).0 == k implies bindings_map(e)[k] == e[i].1 by {
            if i < e.len() - 1 {
                assert(e[i] == d[i]);
                assert(e.last().0 != k);
            }
        }
        if exists|i: int| 0 <= i < e.len() && (#[trigger] e[i]).0 == k {
            let i = choose|i: int| 0 <= i < e.len() && (#[trigger] e[i]).0 == k;
            if i < e.len() - 1 {
                assert(d[i] == e[i]);
            }
        }
    }
}

proof fn lemma_bindings_update(e: Seq<(Seq<char>, ValueView)>, i: int, v: ValueView)
    requires
        names_unique(e),
        0 <= i < e.len(),
    ensures
        bindings_map(e.update(i, (e[i].0, v))) == bindings_map(e).insert(e[i].0, v),
        names_unique(e.update(i, (e[i].0, v))),
    decreases e.len(),
{
    let u = e.update(i, (e[i].0, v));
    assert(names_unique(u)) by {
        assert forall|a: int, b: int| 0 <= a < u.len() && 0 <= b < u.len() && a != b implies (#[trigger] u[a]).0 != (#[trigger] u[b]).0 by {
            assert(u[a].0 == e[a].0 && u[b].0 == e[b].0);
        }
    }
    if i == e.len() - 1 {
        assert(u.drop_last() =~= e.drop_last());
        assert(bindings_map(e.drop_last()).insert(e[i].0, e[i].1).insert(e[i].0, v) =~= bindings_map(e.drop_last()).insert(e[i].0, v));
    } else {
        let d = e.drop_last();
        assert(names_unique(d)) by {
            assert forall|a: int, b: int| 0 <= a < d.len() && 0 <= b < d.len() && a != b implies (#[trigger] d[a]).0 != (#[trigger] d[b]).0 by {
                assert(d[a] == e[a] && d[b] == e[b]);
            }
        }
        lemma_bindings_update(d, i, v);
        assert(u.drop_last() =~= d.update(i, (d[i].0, v)));
        assert(e.last().0 != e[i].0);
        assert(bindings_map(d).insert(e[i].0, v).insert(e.last().0, e.last().1)
            =~= bindings_map(d).insert(e.last().0, e.last().1).insert(e[i].0, v));
    }
}

/// The variables of a running script.
pub struct Variables {
    entries: Vec<(String, Value)>,
}

pub open spec fn entry_view(p: (String, Value)) -> (Seq<char>, ValueView) {
    (p.0@, p.1@)
}

impl Variables {
    pub closed spec fn entries_view(&self) -> Seq<(Seq<char>, ValueView)> {
        self.entries@.map_values(|p: (String, Value)| entry_view(p))
    }

    pub closed spec fn wf(&self) -> bool {
        names_unique(self.entries_view())
    }

    /// The names bound and their values.
    pub closed spec fn map(&self) -> Map<Seq<char>, ValueView> {
        bindings_map(self.entries_view())
    }

    /// No variable bound.
    pub fn new() -> (r: Variables)
        ensures
            r.wf(),
            r.map() == Map::<Seq<char>, ValueView>::empty(),
    {
        let r = Variables { entries: Vec::new() };
        assert(r.entries_view() =~= Seq::<(Seq<char>, ValueView)>::empty());
        r
    }

    fn position(&self, name: &Vec<char>) -> (r: Option<usize>)
        ensures
            match r {
                Some(i) => i < self.entries@.len() && self.entries_view()[i as int].0 == name@,
                None => forall|i: int| 0 <= i < self.entries@.len() ==> (#[trigger] self.entries_view()[i]).0 != name@,
            },
    {
        let mut i: usize = 0;
        while i < self.entries.len()
            invariant
                i <= self.entries@.len(),
                forall|k: int| 0 <= k < i ==> (#[trigger] self.entries_view()[k]).0 != name@,
            decreases self.entries@.len() - i,
        {
            let key = crate::value::chars_of(self.entries[i].0.as_str());
            if chars_eq(&key, name) {
                return Some(i);
            }
            i += 1;
        }
        None
    }

    /// The value bound to `name`, if any.
    pub fn get(&self, name: &Vec<char>) -> (r: Option<Value>)
        requires
            self.wf(),
        ensures
            match r {
                Some(v) => self.map().contains_key(name@) && self.map()[name@] == v@,
                None => !self.map().contains_key(name@),
            },
    {
        proof {
            lemma_bindings_lookup(self.entries_view(), name@);
        }
        match self.position(name) {
            Some(i) => Some(copy_value(&self.entries[i].1)),
            None => None,
        }
    }

    /// Binds `name` to `value`.
    pub fn set(&mut self, name: &Vec<char>, value: Value)
        requires
            old(self).wf(),
        ensures
            final(self).wf(),
            final(self).map() == old(self).map().insert(name@, value@),
    {
        let ghost v = value@;
        match self.position(name) {
            Some(i) => {
                let key = crate::value::string_from_chars(name);
                self.entries.set(i, (key, value));
                proof {
                    lemma_bindings_update(old(self).entries_view(), i as int, v);
                    assert(self.entries_view() =~= old(self).entries_view().update(i as int, (name@, v)));
                }
            },
            None => {
                let key = crate::value::string_from_chars(name);
                self.entries.push((key, value));
                proof {
                    let e = old(self).entries_view();
                    assert(self.entries_view() =~= e.push((name@, v)));
                    assert(self.entries_view().drop_last() =~= e);
                    let u = self.entries_view();
                    assert forall|a: int, b: int| 0 <= a < u.len() && 0 <= b < u.len() && a != b implies (#[trigger] u[a]).0 != (#[trigger] u[b]).0 by {
                        if a < e.len() && b < e.len() {
                            assert(u[a] == e[a] && u[b] == e[b]);
                        } else if a < e.len() {
                            assert(u[a] == e[a]);
                        } else {
                            assert(u[b] == e[b]);
                        }
                    }
                }
            },
        }
    }
}

} // verus!
