//! Small maps kept as vectors of entries with distinct keys: by output name,
//! and by Wayland object id.
use crate::text::owned;
use crate::text::str_eq;
use vstd::prelude::*;

verus! {

/// The map that a list of entries denotes, later entries winning.
pub open spec fn entries_map<V>(s: Seq<(String, V)>) -> Map<Seq<char>, V>
    decreases s.len(),
{
    if s.len() == 0 {
        Map::empty()
    } else {
        entries_map(s.drop_last()).insert(s.last().0@, s.last().1)
    }
}

/// No two entries share a key.
pub open spec fn keys_distinct<V>(s: Seq<(String, V)>) -> bool {
    forall|i: int, j: int| 0 <= i < j < s.len() ==> (#[trigger] s[i]).0@ != (#[trigger] s[j]).0@
}

proof fn lemma_entries_map<V>(s: Seq<(String, V)>)
    requires
        keys_distinct(s),
    ensures
        forall|k: Seq<char>| #[trigger] entries_map(s).dom().contains(k) <==> exists|i: int| 0 <= i < s.len() && (#[trigger] s[i]).0@ == k,
        forall|i: int| 0 <= i < s.len() ==> entries_map(s)[(#[trigger] s[i]).0@] == s[i].1,
    decreases s.len(),
{
    if s.len() > 0 {
        let t = s.drop_last();
        assert(keys_distinct(t)) by {
            assert forall|i: int, j: int| 0 <= i < j < t.len() implies (#[trigger] t[i]).0@ != (#[trigger] t[j]).0@ by {
                assert(t[i] == s[i] && t[j] == s[j]);
            }
        }
        lemma_entries_map(t);
        assert(entries_map(s) == entries_map(t).insert(s.last().0@, s.last().1));
        assert forall|k: Seq<char>| #[trigger] entries_map(s).dom().contains(k) <==> exists|i: int| 0 <= i < s.len() && (#[trigger] s[i]).0@ == k by {
            if entries_map(s).dom().contains(k) {
                if k == s.last().0@ {
                    assert(s[s.len() - 1].0@ == k);
                } else {
                    assert(entries_map(t).dom().contains(k));
                    let i = choose|i: int| 0 <= i < t.len() && (#[trigger] t[i]).0@ == k;
                    assert(t[i] == s[i]);
                    assert(s[i].0@ == k);
                }
            }
            if exists|i: int| 0 <= i < s.len() && (#[trigger] s[i]).0@ == k {
                let i = choose|i: int| 0 <= i < s.len() && (#[trigger] s[i]).0@ == k;
                if i < t.len() {
                    assert(t[i] == s[i]);
                    assert(entries_map(t).dom().contains(k));
                }
            }
        }
        assert forall|i: int| 0 <= i < s.len() implies entries_map(s)[(#[trigger] s[i]).0@] == s[i].1 by {
            if i < t.len() {
                assert(t[i] == s[i]);
                assert(s[i].0@ != s[s.len() - 1].0@);
            }
        }
    }
}

/// A map keyed by names (a `HashMap<String, V>` with a fixed order of entries).
pub struct NameMap<V> {
    entries: Vec<(String, V)>,
}

impl<V> NameMap<V> {
    pub closed spec fn view(&self) -> Map<Seq<char>, V> {
        entries_map(self.entries@)
    }

    pub closed spec fn wf(&self) -> bool {
        keys_distinct(self.entries@)
    }

    /// The entries in their order.
    pub closed spec fn entry_seq(&self) -> Seq<(String, V)> {
        self.entries@
    }

    pub proof fn lemma_view(&self)
        requires
            self.wf(),
        ensures
            forall|k: Seq<char>| #[trigger] self.view().dom().contains(k) <==> exists|i: int| 0 <= i < self.entry_seq().len() && (#[trigger] self.entry_seq()[i]).0@ == k,
            forall|i: int| 0 <= i < self.entry_seq().len() ==> self.view()[(#[trigger] self.entry_seq()[i]).0@] == self.entry_seq()[i].1,
            keys_distinct(self.entry_seq()),
    {
        lemma_entries_map(self.entries@);
        assert forall|k: Seq<char>| #[trigger] self.view().dom().contains(k) <==> exists|i: int| 0 <= i < self.entry_seq().len() && (#[trigger] self.entry_seq()[i]).0@ == k by {
            if self.view().dom().contains(k) {
                let i = choose|i: int| 0 <= i < self.entries@.len() && (#[trigger] self.entries@[i]).0@ == k;
                assert(self.entry_seq()[i].0@ == k);
            }
            if exists|i: int| 0 <= i < self.entry_seq().len() && (#[trigger] self.entry_seq()[i]).0@ == k {
                let i = choose|i: int| 0 <= i < self.entry_seq().len() && (#[trigger] self.entry_seq()[i]).0@ == k;
                assert(self.entries@[i].0@ == k);
            }
        }
    }

    pub fn new() -> (r: Self)
        ensures
            r.wf(),
            r.view() == Map::<Seq<char>, V>::empty(),
    {
        NameMap { entries: Vec::new() }
    }

    fn index_of(&self, key: &str) -> (r: Option<usize>)
        requires
            self.wf(),
        ensures
            match r {
                Some(i) => i < self.entries@.len() && self.entries@[i as int].0@ == key@,
                None => forall|i: int| 0 <= i < self.entries@.len() ==> (#[trigger] self.entries@[i]).0@ != key@,
            },
    {
        let mut i: usize = 0;
        while i < self.entries.len()
            invariant
                0 <= i <= self.entries@.len(),
                forall|j: int| 0 <= j < i ==> (#[trigger] self.entries@[j]).0@ != key@,
            decreases self.entries@.len() - i,
        {
            if str_eq(self.entries[i].0.as_str(), key) {
                return Some(i);
            }
            i = i + 1;
        }
        None
    }

    pub fn contains(&self, key: &str) -> (r: bool)
        requires
            self.wf(),
        ensures
            r == self.view().dom().contains(key@),
    {
        proof {
            lemma_entries_map(self.entries@);
        }
        self.index_of(key).is_some()
    }

    pub fn get(&self, key: &str) -> (r: Option<&V>)
        requires
            self.wf(),
        ensures
            match r {
                Some(v) => self.view().dom().contains(key@) && self.view()[key@] == *v,
                None => !self.view().dom().contains(key@),
            },
    {
        proof {
            lemma_entries_map(self.entries@);
        }
        match self.index_of(key) {
            Some(i) => Some(&self.entries[i].1),
            None => None,
        }
    }

    pub fn insert(&mut self, key: &str, value: V)
        requires
            old(self).wf(),
        ensures
            final(self).wf(),
            final(self).view() == old(self).view().insert(key@, value),
    {
        proof {
            lemma_entries_map(self.entries@);
        }
        match self.index_of(key) {
            Some(i) => {
                let ghost before = self.entries@;
                let k = owned(key);
                self.entries.set(i, (k, value));
                let ghost after = self.entries@;
                assert(keys_distinct(after)) by {
                    assert forall|a: int, b: int| 0 <= a < b < after.len() implies (#[trigger] after[a]).0@ != (#[trigger] after[b]).0@ by {
                        if a != i {
                            assert(after[a] == before[a]);
                        }
                        if b != i {
                            assert(after[b] == before[b]);
                        }
                    }
                }
                proof {
                    lemma_entries_map(after);
                    assert(entries_map(after) =~= entries_map(before).insert(key@, value)) by {
                        assert forall|k2: Seq<char>| #[trigger] entries_map(after).dom().contains(k2) <==> entries_map(before).insert(key@, value).dom().contains(k2) by {
                            if entries_map(after).dom().contains(k2) {
                                let j = choose|j: int| 0 <= j < after.len() && (#[trigger] after[j]).0@ == k2;
                                if j != i {
                                    assert(after[j] == before[j]);
                                }
                            }
                            if entries_map(before).dom().contains(k2) && k2 != key@ {
                                let j = choose|j: int| 0 <= j < before.len() && (#[trigger] before[j]).0@ == k2;
                                assert(after[j] == before[j]);
                            }
                            if k2 == key@ {
                                assert(after[i as int].0@ == k2);
                            }
                        }
                        assert forall|k2: Seq<char>| #[trigger] entries_map(after).dom().contains(k2) implies entries_map(after)[k2] == entries_map(before).insert(key@, value)[k2] by {
                            let j = choose|j: int| 0 <= j < after.len() && (#[trigger] after[j]).0@ == k2;
                            if j != i {
                                assert(after[j] == before[j]);
                            }
                        }
                    }
                }
            },
            None => {
                let ghost before = self.entries@;
                let k = owned(key);
                self.entries.push((k, value));
                assert(self.entries@.drop_last() =~= before);
                assert(keys_distinct(self.entries@)) by {
                    assert forall|a: int, b: int| 0 <= a < b < self.entries@.len() implies (#[trigger] self.entries@[a]).0@ != (#[trigger] self.entries@[b]).0@ by {
                        if b < before.len() {
                            assert(self.entries@[a] == before[a] && self.entries@[b] == before[b]);
                        } else {
                            assert(self.entries@[a] == before[a]);
                        }
                    }
                }
            },
        }
    }

    /// Removes `key`; tells whether it was there.
    pub fn remove(&mut self, key: &str) -> (r: bool)
        requires
            old(self).wf(),
        ensures
            final(self).wf(),
            final(self).view() == old(self).view().remove(key@),
            r == old(self).view().dom().contains(key@),
    {
        proof {
            lemma_entries_map(self.entries@);
        }
        match self.index_of(key) {
            Some(i) => {
                let ghost before = self.entries@;
                self.entries.remove(i);
                let ghost after = self.entries@;
                assert(keys_distinct(after)) by {
                    assert forall|a: int, b: int| 0 <= a < b < after.len() implies (#[trigger] after[a]).0@ != (#[trigger] after[b]).0@ by {
                        let a0 = if a < i { a } else { a + 1 };
                        let b0 = if b < i { b } else { b + 1 };
                        assert(after[a] == before[a0] && after[b] == before[b0]);
                    }
                }
                proof {
                    lemma_entries_map(after);
                    assert(entries_map(after) =~= entries_map(before).remove(key@)) by {
                        assert forall|k2: Seq<char>| #[trigger] entries_map(after).dom().contains(k2) <==> entries_map(before).remove(key@).dom().contains(k2) by {
                            if entries_map(after).dom().contains(k2) {
                                let j = choose|j: int| 0 <= j < after.len() && (#[trigger] after[j]).0@ == k2;
                                let j0 = if j < i { j } else { j + 1 };
                                assert(after[j] == before[j0]);
                            }
                            if entries_map(before).dom().contains(k2) && k2 != key@ {
                                let j = choose|j: int| 0 <= j < before.len() && (#[trigger] before[j]).0@ == k2;
                                assert(j != i);
                                let j1 = if j < i { j } else { j - 1 };
                                assert(after[j1] == before[j]);
                            }
                        }
                        assert forall|k2: Seq<char>| #[trigger] entries_map(after).dom().contains(k2) implies entries_map(after)[k2] == entries_map(before).remove(key@)[k2] by {
                            let j = choose|j: int| 0 <= j < after.len() && (#[trigger] after[j]).0@ == k2;
                            let j0 = if j < i { j } else { j + 1 };
                            assert(after[j] == before[j0]);
                        }
                    }
                }
                true
            },
            None => {
                assert(entries_map(self.entries@) =~= entries_map(self.entries@).remove(key@));
                false
            },
        }
    }

    /// The keys, in the order of the entries.
    pub fn keys(&self) -> (r: Vec<String>)
        requires
            self.wf(),
        ensures
            r@.len() == self.entry_seq().len(),
            forall|i: int| 0 <= i < r@.len() ==> (#[trigger] r@[i])@ == self.entry_seq()[i].0@,
    {
        let mut out: Vec<String> = Vec::new();
        let mut i: usize = 0;
        while i < self.entries.len()
            invariant
                0 <= i <= self.entries@.len(),
                out@.len() == i,
                forall|j: int| 0 <= j < i ==> (#[trigger] out@[j])@ == self.entries@[j].0@,
            decreases self.entries@.len() - i,
        {
            out.push(owned(self.entries[i].0.as_str()));
            i = i + 1;
        }
        out
    }
}

/// The map that a list of id entries denotes, later entries winning.
pub open spec fn id_entries_map(s: Seq<(u32, String)>) -> Map<u32, Seq<char>>
    decreases s.len(),
{
    if s.len() == 0 {
        Map::empty()
    } else {
        id_entries_map(s.drop_last()).insert(s.last().0, s.last().1@)
    }
}

pub open spec fn ids_distinct(s: Seq<(u32, String)>) -> bool {
    forall|i: int, j: int| 0 <= i < j < s.len() ==> (#[trigger] s[i]).0 != (#[trigger] s[j]).0
}

proof fn lemma_id_entries_map(s: Seq<(u32, String)>)
    requires
        ids_distinct(s),
    ensures
        forall|k: u32| #[trigger] id_entries_map(s).dom().contains(k) <==> exists|i: int| 0 <= i < s.len() && (#[trigger] s[i]).0 == k,
        forall|i: int| 0 <= i < s.len() ==> id_entries_map(s)[(#[trigger] s[i]).0] == s[i].1@,
    decreases s.len(),
{
    if s.len() > 0 {
        let t = s.drop_last();
        assert(ids_distinct(t)) by {
            assert forall|i: int, j: int| 0 <= i < j < t.len() implies (#[trigger] t[i]).0 != (#[trigger] t[j]).0 by {
                assert(t[i] == s[i] && t[j] == s[j]);
            }
        }
        lemma_id_entries_map(t);
        assert(id_entries_map(s) == id_entries_map(t).insert(s.last().0, s.last().1@));
        assert forall|k: u32| #[trigger] id_entries_map(s).dom().contains(k) <==> exists|i: int| 0 <= i < s.len() && (#[trigger] s[i]).0 == k by {
            if id_entries_map(s).dom().contains(k) {
                if k == s.last().0 {
                    assert(s[s.len() - 1].0 == k);
                } else {
                    assert(id_entries_map(t).dom().contains(k));
                    let i = choose|i: int| 0 <= i < t.len() && (#[trigger] t[i]).0 == k;
                    assert(t[i] == s[i]);
                }
            }
            if exists|i: int| 0 <= i < s.len() && (#[trigger] s[i]).0 == k {
                let i = choose|i: int| 0 <= i < s.len() && (#[trigger] s[i]).0 == k;
                if i < t.len() {
                    assert(t[i] == s[i]);
                    assert(id_entries_map(t).dom().contains(k));
                }
            }
        }
        assert forall|i: int| 0 <= i < s.len() implies id_entries_map(s)[(#[trigger] s[i]).0] == s[i].1@ by {
            if i < t.len() {
                assert(t[i] == s[i]);
                assert(s[i].0 != s[s.len() - 1].0);
            }
        }
    }
}

/// Output names by Wayland object id.
pub struct IdMap {
    entries: Vec<(u32, String)>,
}

impl IdMap {
    pub closed spec fn view(&self) -> Map<u32, Seq<char>> {
        id_entries_map(self.entries@)
    }

    pub closed spec fn wf(&self) -> bool {
        ids_distinct(self.entries@)
    }

    pub fn new() -> (r: Self)
        ensures
            r.wf(),
            r.view() == Map::<u32, Seq<char>>::empty(),
    {
        IdMap { entries: Vec::new() }
    }

    fn index_of(&self, id: u32) -> (r: Option<usize>)
        ensures
            match r {
                Some(i) => i < self.entries@.len() && self.entries@[i as int].0 == id,
                None => forall|i: int| 0 <= i < self.entries@.len() ==> (#[trigger] self.entries@[i]).0 != id,
            },
    {
        let mut i: usize = 0;
        while i < self.entries.len()
            invariant
                0 <= i <= self.entries@.len(),
                forall|j: int| 0 <= j < i ==> (#[trigger] self.entries@[j]).0 != id,
            decreases self.entries@.len() - i,
        {
            if self.entries[i].0 == id {
                return Some(i);
            }
            i = i + 1;
        }
        None
    }

    /// A copy of the name stored for `id`.
    pub fn get(&self, id: u32) -> (r: Option<String>)
        requires
            self.wf(),
        ensures
            match r {
                Some(v) => self.view().dom().contains(id) && self.view()[id] == v@,
                None => !self.view().dom().contains(id),
            },
    {
        proof {
            lemma_id_entries_map(self.entries@);
        }
        match self.index_of(id) {
            Some(i) => Some(owned(self.entries[i].1.as_str())),
            None => None,
        }
    }

    pub fn insert(&mut self, id: u32, name: &str)
        requires
            old(self).wf(),
        ensures
            final(self).wf(),
            final(self).view() == old(self).view().insert(id, name@),
    {
        proof {
            lemma_id_entries_map(self.entries@);
        }
        match self.index_of(id) {
            Some(i) => {
                let ghost before = self.entries@;
                self.entries.set(i, (id, owned(name)));
                let ghost after = self.entries@;
                assert(ids_distinct(after)) by {
                    assert forall|a: int, b: int| 0 <= a < b < after.len() implies (#[trigger] after[a]).0 != (#[trigger] after[b]).0 by {
                        if a != i {
                            assert(after[a] == before[a]);
                        }
                        if b != i {
                            assert(after[b] == before[b]);
                        }
                    }
                }
                proof {
                    lemma_id_entries_map(after);
                    assert(id_entries_map(after) =~= id_entries_map(before).insert(id, name@)) by {
                        assert forall|k2: u32| #[trigger] id_entries_map(after).dom().contains(k2) <==> id_entries_map(before).insert(id, name@).dom().contains(k2) by {
                            if id_entries_map(after).dom().contains(k2) {
                                let j = choose|j: int| 0 <= j < after.len() && (#[trigger] after[j]).0 == k2;
                                if j != i {
                                    assert(after[j] == before[j]);
                                }
                            }
                            if id_entries_map(before).dom().contains(k2) && k2 != id {
                                let j = choose|j: int| 0 <= j < before.len() && (#[trigger] before[j]).0 == k2;
                                assert(after[j] == before[j]);
                            }
                            if k2 == id {
                                assert(after[i as int].0 == k2);
                            }
                        }
                        assert forall|k2: u32| #[trigger] id_entries_map(after).dom().contains(k2) implies id_entries_map(after)[k2] == id_entries_map(before).insert(id, name@)[k2] by {
                            let j = choose|j: int| 0 <= j < after.len() && (#[trigger] after[j]).0 == k2;
                            if j != i {
                                assert(after[j] == before[j]);
                            }
                        }
                    }
                }
            },
            None => {
                let ghost before = self.entries@;
                self.entries.push((id, owned(name)));
                assert(self.entries@.drop_last() =~= before);
                assert(ids_distinct(self.entries@)) by {
                    assert forall|a: int, b: int| 0 <= a < b < self.entries@.len() implies (#[trigger] self.entries@[a]).0 != (#[trigger] self.entries@[b]).0 by {
                        if b < before.len() {
                            assert(self.entries@[a] == before[a] && self.entries@[b] == before[b]);
                        } else {
                            assert(self.entries@[a] == before[a]);
                        }
                    }
                }
            },
        }
    }

    /// Removes `id`, handing back the name it had.
    pub fn remove(&mut self, id: u32) -> (r: Option<String>)
        requires
            old(self).wf(),
        ensures
            final(self).wf(),
            final(self).view() == old(self).view().remove(id),
            match r {
                Some(v) => old(self).view().dom().contains(id) && old(self).view()[id] == v@,
                None => !old(self).view().dom().contains(id),
            },
    {
        proof {
            lemma_id_entries_map(self.entries@);
        }
        match self.index_of(id) {
            Some(i) => {
                let ghost before = self.entries@;
                let (_, name) = self.entries.remove(i);
                let ghost after = self.entries@;
                assert(ids_distinct(after)) by {
                    assert forall|a: int, b: int| 0 <= a < b < after.len() implies (#[trigger] after[a]).0 != (#[trigger] after[b]).0 by {
                        let a0 = if a < i { a } else { a + 1 };
                        let b0 = if b < i { b } else { b + 1 };
                        assert(after[a] == before[a0] && after[b] == before[b0]);
                    }
                }
                proof {
                    lemma_id_entries_map(after);
                    assert(id_entries_map(after) =~= id_entries_map(before).remove(id)) by {
                        assert forall|k2: u32| #[trigger] id_entries_map(after).dom().contains(k2) <==> id_entries_map(before).remove(id).dom().contains(k2) by {
                            if id_entries_map(after).dom().contains(k2) {
                                let j = choose|j: int| 0 <= j < after.len() && (#[trigger] after[j]).0 == k2;
                                let j0 = if j < i { j } else { j + 1 };
                                assert(after[j] == before[j0]);
                            }
                            if id_entries_map(before).dom().contains(k2) && k2 != id {
                                let j = choose|j: int| 0 <= j < before.len() && (#[trigger] before[j]).0 == k2;
                                assert(j != i);
                                let j1 = if j < i { j } else { j - 1 };
                                assert(after[j1] == before[j]);
                            }
                        }
                        assert forall|k2: u32| #[trigger] id_entries_map(after).dom().contains(k2) implies id_entries_map(after)[k2] == id_entries_map(before).remove(id)[k2] by {
                            let j = choose|j: int| 0 <= j < after.len() && (#[trigger] after[j]).0 == k2;
                            let j0 = if j < i { j } else { j + 1 };
                            assert(after[j] == before[j0]);
                        }
                    }
                }
                Some(name)
            },
            None => {
                assert(id_entries_map(self.entries@) =~= id_entries_map(self.entries@).remove(id));
                None
            },
        }
    }
}

} // verus!
