//! A map from names to values, kept as a list of entries with distinct names.
use vstd::prelude::*;
use crate::text::str_eq;

verus! {

/// The map the entries describe: each name maps to its value.
pub open spec fn entries_map<V>(es: Seq<(String, V)>) -> Map<Seq<char>, V>
    decreases es.len(),
{
    if es.len() == 0 {
        Map::empty()
    } else {
        entries_map(es.drop_last()).insert(es.last().0@, es.last().1)
    }
}

/// The names of the entries, in order.
pub open spec fn entry_names<V>(es: Seq<(String, V)>) -> Seq<Seq<char>> {
    es.map_values(|e: (String, V)| e.0@)
}

/// A map from names to values.
pub struct StrMap<V> {
    entries: Vec<(String, V)>,
}

impl<V> View for StrMap<V> {
    type V = Map<Seq<char>, V>;

    closed spec fn view(&self) -> Map<Seq<char>, V> {
        entries_map(self.entries@)
    }
}

impl<V> StrMap<V> {
    /// No two entries share a name.
    #[verifier::type_invariant]
    spec fn wf(&self) -> bool {
        forall|i: int, j: int|
            0 <= i < j < self.entries@.len() ==> (#[trigger] self.entries@[i]).0@ != (#[trigger] self.entries@[j]).0@
    }

    /// The names in the order the entries are kept.
    pub closed spec fn names(&self) -> Seq<Seq<char>> {
        entry_names(self.entries@)
    }

    /// The names are exactly the keys of the map.
    pub proof fn lemma_names(&self)
        ensures
            self.names().to_set() == self@.dom(),
            self@.dom().finite(),
    {
        lemma_entries_dom_basic(self.entries@);
    }

    /// The map with no entries.
    pub fn new() -> (m: Self)
        ensures
            m@ == Map::<Seq<char>, V>::empty(),
            m.names() == Seq::<Seq<char>>::empty(),
    {
        let m = StrMap { entries: Vec::new() };
        assert(entry_names(m.entries@) =~= Seq::<Seq<char>>::empty());
        m
    }

    /// The number of entries.
    pub fn len(&self) -> (n: usize)
        ensures
            n == self@.dom().len(),
            n == self.names().len(),
    {
        proof {
            use_type_invariant(&*self);
        }
        proof {
            lemma_entries_dom(self.entries@);
        }
        self.entries.len()
    }

    /// Whether the map is empty.
    pub fn is_empty(&self) -> (b: bool)
        ensures
            b == (self@.dom().len() == 0),
    {
        self.len() == 0
    }

    /// The position of the entry with the given name.
    fn find(&self, name: &str) -> (r: Option<usize>)
        ensures
            match r {
                Some(i) => i < self.entries@.len() && self.entries@[i as int].0@ == name@,
                None => forall|i: int| 0 <= i < self.entries@.len() ==> (#[trigger] self.entries@[i]).0@ != name@,
            },
    {
        proof {
            use_type_invariant(&*self);
        }
        let mut i: usize = 0;
        while i < self.entries.len()
            invariant
                i <= self.entries@.len(),
                forall|k: int| 0 <= k < i ==> (#[trigger] self.entries@[k]).0@ != name@,
            decreases self.entries.len() - i,
        {
            if str_eq(self.entries[i].0.as_str(), name) {
                return Some(i);
            }
            i = i + 1;
        }
        None
    }

    /// The value under `name`, if any.
    pub fn get(&self, name: &str) -> (r: Option<&V>)
        ensures
            match r {
                Some(v) => self@.contains_key(name@) && self@[name@] == *v,
                None => !self@.contains_key(name@),
            },
    {
        proof {
            use_type_invariant(&*self);
        }
        proof {
            lemma_entries_dom(self.entries@);
        }
        match self.find(name) {
            Some(i) => {
                proof {
                    lemma_entries_value(self.entries@, i as int);
                }
                Some(&self.entries[i].1)
            },
            None => None,
        }
    }

    /// Whether there is a value under `name`.
    pub fn contains_key(&self, name: &str) -> (b: bool)
        ensures
            b == self@.contains_key(name@),
    {
        self.get(name).is_some()
    }

    /// Puts `value` under `name`, replacing any value there.
    pub fn insert(&mut self, name: String, value: V)
        ensures
            final(self)@ == old(self)@.insert(name@, value),
            old(self)@.contains_key(name@) ==> final(self).names() == old(self).names(),
            !old(self)@.contains_key(name@) ==> final(self).names() == old(self).names().push(name@),
    {
        proof {
            use_type_invariant(&*self);
        }
        proof {
            lemma_entries_dom(self.entries@);
        }
        match self.find(name.as_str()) {
            Some(i) => {
                let ghost old_es = self.entries@;
                let mut es: Vec<(String, V)> = Vec::new();
                std::mem::swap(&mut es, &mut self.entries);
                es.set(i, (name, value));
                proof {
                    lemma_entries_replace(old_es, i as int, es@[i as int]);
                    assert(es@ == old_es.update(i as int, es@[i as int]));
                    assert(entry_names(es@) =~= entry_names(old_es));
                }
                self.entries = es;
            },
            None => {
                let ghost old_es = self.entries@;
                let mut es: Vec<(String, V)> = Vec::new();
                std::mem::swap(&mut es, &mut self.entries);
                es.push((name, value));
                proof {
                    assert(es@.drop_last() =~= old_es);
                    assert(entry_names(es@) =~= entry_names(old_es).push(es@.last().0@));
                    assert forall|a: int, b: int| 0 <= a < b < es@.len() implies (#[trigger] es@[a]).0@ != (#[trigger] es@[b]).0@ by {
                        if b < old_es.len() {
                            assert(es@[a] == old_es[a] && es@[b] == old_es[b]);
                        } else {
                            assert(es@[a] == old_es[a]);
                        }
                    }
                }
                self.entries = es;
            },
        }
    }

    /// The number of entries, each reachable by position.
    pub fn entry_count(&self) -> (n: usize)
        ensures
            n == self.names().len(),
            self.names().no_duplicates(),
            self.names().to_set() == self@.dom(),
    {
        proof {
            use_type_invariant(&*self);
            lemma_entries_dom(self.entries@);
        }
        self.entries.len()
    }

    /// The entry at position `i`.
    pub fn entry(&self, i: usize) -> (e: (&String, &V))
        requires
            i < self.names().len(),
        ensures
            e.0@ == self.names()[i as int],
            self@.contains_key(e.0@),
            self@[e.0@] == *e.1,
    {
        proof {
            use_type_invariant(&*self);
        }
        proof {
            lemma_entries_value(self.entries@, i as int);
        }
        (&self.entries[i].0, &self.entries[i].1)
    }

    /// Replaces the value at position `i`, keeping its name.
    pub fn set_value(&mut self, i: usize, value: V)
        requires
            i < old(self).names().len(),
        ensures
            final(self).names() == old(self).names(),
            final(self)@ == old(self)@.insert(old(self).names()[i as int], value),
    {
        proof {
            use_type_invariant(&*self);
        }
        let ghost old_es = self.entries@;
        let name = self.entries[i].0.clone();
        let mut es: Vec<(String, V)> = Vec::new();
        std::mem::swap(&mut es, &mut self.entries);
        es.set(i, (name, value));
        proof {
            lemma_entries_replace(old_es, i as int, es@[i as int]);
            assert(entry_names(es@) =~= entry_names(old_es));
        }
        self.entries = es;
    }
    /// Takes the value under `name` out of the map, if there is one.
    pub fn remove(&mut self, name: &str) -> (r: Option<V>)
        ensures
            final(self)@ == old(self)@.remove(name@),
            match r {
                Some(v) => old(self)@.contains_key(name@) && old(self)@[name@] == v,
                None => !old(self)@.contains_key(name@),
            },
    {
        proof {
            use_type_invariant(&*self);
            lemma_entries_dom(self.entries@);
        }
        match self.find(name) {
            Some(i) => {
                let ghost old_es = self.entries@;
                proof {
                    lemma_entries_value(old_es, i as int);
                    lemma_entries_remove(old_es, i as int);
                }
                let mut es: Vec<(String, V)> = Vec::new();
                std::mem::swap(&mut es, &mut self.entries);
                let (_, v) = es.remove(i);
                self.entries = es;
                Some(v)
            },
            None => {
                proof {
                    assert(self@.remove(name@) =~= self@);
                }
                None
            },
        }
    }

}

proof fn lemma_entries_dom_basic<V>(es: Seq<(String, V)>)
    ensures
        entries_map(es).dom() == entry_names(es).to_set(),
        entries_map(es).dom().finite(),
        forall|k: Seq<char>| entries_map(es).contains_key(k) <==> exists|i: int| 0 <= i < es.len() && (#[trigger] es[i]).0@ == k,
    decreases es.len(),
{
    if es.len() == 0 {
        assert(entry_names(es).to_set() =~= Set::<Seq<char>>::empty());
    } else {
        let init = es.drop_last();
        lemma_entries_dom_basic(init);
        let names = entry_names(es);
        assert(names.drop_last() =~= entry_names(init));
        assert(names.to_set() =~= entry_names(init).to_set().insert(es.last().0@)) by {
            assert forall|k: Seq<char>| names.to_set().contains(k) <==> entry_names(init).to_set().insert(es.last().0@).contains(k) by {
                if names.contains(k) {
                    let i = choose|i: int| 0 <= i < names.len() && names[i] == k;
                    if i < init.len() {
                        assert(entry_names(init)[i] == k);
                    }
                }
                if entry_names(init).contains(k) {
                    let i = choose|i: int| 0 <= i < entry_names(init).len() && entry_names(init)[i] == k;
                    assert(names[i] == k);
                }
                if k == es.last().0@ {
                    assert(names[es.len() - 1] == k);
                }
            }
        }
        assert forall|k: Seq<char>| entries_map(es).contains_key(k) <==> exists|i: int| 0 <= i < es.len() && (#[trigger] es[i]).0@ == k by {
            if entries_map(es).contains_key(k) {
                if k == es.last().0@ {
                    assert(es[es.len() - 1].0@ == k);
                } else {
                    let i = choose|i: int| 0 <= i < init.len() && (#[trigger] init[i]).0@ == k;
                    assert(es[i] == init[i]);
                }
            }
            if exists|i: int| 0 <= i < es.len() && (#[trigger] es[i]).0@ == k {
                let i = choose|i: int| 0 <= i < es.len() && (#[trigger] es[i]).0@ == k;
                if i < init.len() {
                    assert(init[i] == es[i]);
                }
            }
        }
    }
}

proof fn lemma_entries_dom<V>(es: Seq<(String, V)>)
    requires
        forall|i: int, j: int| 0 <= i < j < es.len() ==> (#[trigger] es[i]).0@ != (#[trigger] es[j]).0@,
    ensures
        entries_map(es).dom() == entry_names(es).to_set(),
        entry_names(es).no_duplicates(),
        entries_map(es).dom().finite(),
        entries_map(es).dom().len() == es.len(),
        forall|k: Seq<char>| entries_map(es).contains_key(k) <==> exists|i: int| 0 <= i < es.len() && (#[trigger] es[i]).0@ == k,
    decreases es.len(),
{
    lemma_entries_dom_basic(es);
    if es.len() > 0 {
        let init = es.drop_last();
        lemma_entries_dom(init);
        lemma_entries_dom_basic(init);
        let names = entry_names(es);
        assert(!entries_map(init).contains_key(es.last().0@)) by {
            if entries_map(init).contains_key(es.last().0@) {
                let i = choose|i: int| 0 <= i < init.len() && (#[trigger] init[i]).0@ == es.last().0@;
                assert(es[i] == init[i]);
                assert(es[es.len() - 1] == es.last());
            }
        }
        assert(names.no_duplicates()) by {
            assert forall|i: int, j: int| 0 <= i < names.len() && 0 <= j < names.len() && i != j implies names[i] != names[j] by {
                if i < j {
                    assert(es[i].0@ != es[j].0@);
                } else {
                    assert(es[j].0@ != es[i].0@);
                }
            }
        }
    }
}

proof fn lemma_entries_value<V>(es: Seq<(String, V)>, i: int)
    requires
        forall|a: int, b: int| 0 <= a < b < es.len() ==> (#[trigger] es[a]).0@ != (#[trigger] es[b]).0@,
        0 <= i < es.len(),
    ensures
        entries_map(es).contains_key(es[i].0@),
        entries_map(es)[es[i].0@] == es[i].1,
    decreases es.len(),
{
    let init = es.drop_last();
    if i < es.len() - 1 {
        assert(init[i] == es[i]);
        lemma_entries_value(init, i);
        assert(es[i].0@ != es[es.len() - 1].0@);
    }
}

proof fn lemma_entries_replace<V>(es: Seq<(String, V)>, i: int, e: (String, V))
    requires
        forall|a: int, b: int| 0 <= a < b < es.len() ==> (#[trigger] es[a]).0@ != (#[trigger] es[b]).0@,
        0 <= i < es.len(),
        e.0@ == es[i].0@,
    ensures
        entries_map(es.update(i, e)) == entries_map(es).insert(e.0@, e.1),
        forall|a: int, b: int| 0 <= a < b < es.update(i, e).len() ==> (#[trigger] es.update(i, e)[a]).0@ != (#[trigger] es.update(i, e)[b]).0@,
    decreases es.len(),
{
    let u = es.update(i, e);
    assert forall|a: int, b: int| 0 <= a < b < u.len() implies (#[trigger] u[a]).0@ != (#[trigger] u[b]).0@ by {
        assert(es[a].0@ != es[b].0@);
    }
    let init = es.drop_last();
    if i == es.len() - 1 {
        assert(u.drop_last() =~= init);
        assert(entries_map(es).insert(e.0@, e.1) =~= entries_map(init).insert(e.0@, e.1));
    } else {
        assert(init[i] == es[i]);
        lemma_entries_replace(init, i, e);
        assert(u.drop_last() =~= init.update(i, e));
        assert(u.last() == es.last());
        assert(es[i].0@ != es[es.len() - 1].0@);
        assert(entries_map(u) =~= entries_map(es).insert(e.0@, e.1));
    }
}

proof fn lemma_entries_remove<V>(es: Seq<(String, V)>, i: int)
    requires
        forall|a: int, b: int| 0 <= a < b < es.len() ==> (#[trigger] es[a]).0@ != (#[trigger] es[b]).0@,
        0 <= i < es.len(),
    ensures
        entries_map(es.remove(i)) == entries_map(es).remove(es[i].0@),
        forall|a: int, b: int| 0 <= a < b < es.remove(i).len() ==> (#[trigger] es.remove(i)[a]).0@
            != (#[trigger] es.remove(i)[b]).0@,
    decreases es.len(),
{
    let r = es.remove(i);
    assert forall|a: int, b: int| 0 <= a < b < r.len() implies (#[trigger] r[a]).0@ != (#[trigger] r[b]).0@ by {
        if b < i {
            assert(r[a] == es[a] && r[b] == es[b]);
        } else if a < i {
            assert(r[a] == es[a] && r[b] == es[b + 1]);
        } else {
            assert(r[a] == es[a + 1] && r[b] == es[b + 1]);
        }
    }
    let init = es.drop_last();
    lemma_entries_dom(init);
    assert(!entries_map(init).contains_key(es.last().0@)) by {
        if entries_map(init).contains_key(es.last().0@) {
            let j = choose|j: int| 0 <= j < init.len() && (#[trigger] init[j]).0@ == es.last().0@;
            assert(es[j] == init[j]);
            assert(es[es.len() - 1] == es.last());
        }
    }
    if i == es.len() - 1 {
        assert(r =~= init);
        assert(entries_map(es).remove(es[i].0@) =~= entries_map(init));
    } else {
        assert(init[i] == es[i]);
        lemma_entries_remove(init, i);
        assert(r.drop_last() =~= init.remove(i));
        assert(r.last() == es.last());
        assert(es[i].0@ != es[es.len() - 1].0@);
        assert(entries_map(r) =~= entries_map(es).remove(es[i].0@));
    }
}

} // verus!
