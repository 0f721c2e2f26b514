use vstd::prelude::*;

use crate::manifest::{TemplateNodeDefinition, TemplateNodeView};

verus! {

/// Template node definitions keyed by node id. No id occurs twice.
pub struct TemplateNodeMap {
    entries: Vec<(String, TemplateNodeDefinition)>,
}

/// The map that a list of entries with pairwise distinct keys stands for.
pub closed spec fn entries_view(entries: Seq<(String, TemplateNodeDefinition)>) -> Map<
    Seq<char>,
    TemplateNodeView,
> {
    Map::new(
        |k: Seq<char>| exists|i: int| 0 <= i < entries.len() && entries[i].0@ == k,
        |k: Seq<char>| entries[choose|i: int| 0 <= i < entries.len() && entries[i].0@ == k].1@,
    )
}

pub open spec fn keys_distinct(entries: Seq<(String, TemplateNodeDefinition)>) -> bool {
    forall|i: int, j: int|
        0 <= i < entries.len() && 0 <= j < entries.len() && i != j ==> entries[i].0@
            != entries[j].0@
}

proof fn lemma_entry_in_view(entries: Seq<(String, TemplateNodeDefinition)>, i: int)
    requires
        keys_distinct(entries),
        0 <= i < entries.len(),
    ensures
        entries_view(entries).contains_key(entries[i].0@),
        entries_view(entries)[entries[i].0@] == entries[i].1@,
{
    let k = entries[i].0@;
    assert(exists|j: int| 0 <= j < entries.len() && entries[j].0@ == k);
    let j = choose|j: int| 0 <= j < entries.len() && entries[j].0@ == k;
    assert(j == i);
}

proof fn lemma_view_dom(entries: Seq<(String, TemplateNodeDefinition)>)
    ensures
        entries_view(entries).dom() =~= entries.map_values(
            |e: (String, TemplateNodeDefinition)| e.0@,
        ).to_set(),
        entries_view(entries).dom().finite(),
{
    let keys = entries.map_values(|e: (String, TemplateNodeDefinition)| e.0@);
    assert forall|k: Seq<char>| entries_view(entries).dom().contains(k) implies keys.contains(k) by {
        let i = choose|i: int| 0 <= i < entries.len() && entries[i].0@ == k;
        assert(keys[i] == k);
    }
    assert forall|k: Seq<char>| keys.contains(k) implies entries_view(entries).dom().contains(k) by {
        let i = choose|i: int| 0 <= i < keys.len() && keys[i] == k;
        assert(entries[i].0@ == k);
    }
    vstd::seq_lib::seq_to_set_is_finite(keys);
}

/// The domain of a node map is finite.
pub broadcast proof fn lemma_node_map_finite(m: &TemplateNodeMap)
    ensures
        #[trigger] m@.dom().finite(),
{
    lemma_view_dom(m.entries@);
}

impl View for TemplateNodeMap {
    type V = Map<Seq<char>, TemplateNodeView>;

    closed spec fn view(&self) -> Map<Seq<char>, TemplateNodeView> {
        entries_view(self.entries@)
    }
}

impl TemplateNodeMap {
    #[verifier::type_invariant]
    spec fn inv(self) -> bool {
        keys_distinct(self.entries@)
    }

    pub fn new() -> (m: Self)
        ensures
            m@ == Map::<Seq<char>, TemplateNodeView>::empty(),
    {
        let m = TemplateNodeMap { entries: Vec::new() };
        assert(m@ =~= Map::<Seq<char>, TemplateNodeView>::empty());
        m
    }

    fn position(&self, key: &String) -> (r: Option<usize>)
        ensures
            match r {
                Some(i) => i < self.entries@.len() && self.entries@[i as int].0@ == key@,
                None => forall|i: int|
                    0 <= i < self.entries@.len() ==> self.entries@[i].0@ != key@,
            },
    {
        let mut i: usize = 0;
        while i < self.entries.len()
            invariant
                i <= self.entries@.len(),
                forall|j: int| 0 <= j < i ==> self.entries@[j].0@ != key@,
            decreases self.entries@.len() - i,
        {
            if self.entries[i].0 == *key {
                return Some(i);
            }
            i = i + 1;
        }
        None
    }

    /// The number of nodes in the map.
    pub fn len(&self) -> (r: usize)
        ensures
            r == self@.len(),
    {
        proof {
            use_type_invariant(self);
            lemma_view_dom(self.entries@);
            let keys = self.entries@.map_values(|e: (String, TemplateNodeDefinition)| e.0@);
            assert(keys.no_duplicates());
            keys.unique_seq_to_set();
        }
        self.entries.len()
    }

    /// The node filed under `key`, if any.
    pub fn get(&self, key: &String) -> (r: Option<&TemplateNodeDefinition>)
        ensures
            match r {
                Some(n) => self@.contains_key(key@) && n@ == self@[key@],
                None => !self@.contains_key(key@),
            },
    {
        proof {
            use_type_invariant(self);
        }
        match self.position(key) {
            Some(i) => {
                proof {
                    lemma_entry_in_view(self.entries@, i as int);
                }
                Some(&self.entries[i].1)
            },
            None => None,
        }
    }

    /// Files `node` under `key`, replacing any node filed there before.
    pub fn insert(&mut self, key: String, node: TemplateNodeDefinition)
        ensures
            final(self)@ == old(self)@.insert(key@, node@),
    {
        proof {
            use_type_invariant(&*self);
        }
        let ghost old_entries = self.entries@;
        let ghost k = key@;
        let ghost v = node@;
        match self.position(&key) {
            Some(i) => {
                let mut entries: Vec<(String, TemplateNodeDefinition)> = Vec::new();
                std::mem::swap(&mut entries, &mut self.entries);
                entries.set(i, (key, node));
                proof {
                    let new_entries = entries@;
                    assert(keys_distinct(new_entries));
                    assert forall|q: Seq<char>|
                        #![trigger entries_view(new_entries).contains_key(q)]
                        entries_view(new_entries).contains_key(q) == (q == k
                            || entries_view(old_entries).contains_key(q)) by {
                        if q == k {
                            lemma_entry_in_view(new_entries, i as int);
                        } else if entries_view(old_entries).contains_key(q) {
                            let j = choose|j: int|
                                0 <= j < old_entries.len() && old_entries[j].0@ == q;
                            assert(new_entries[j].0@ == q);
                        } else if entries_view(new_entries).contains_key(q) {
                            let j = choose|j: int|
                                0 <= j < new_entries.len() && new_entries[j].0@ == q;
                            assert(old_entries[j].0@ == q);
                        }
                    }
                    assert forall|q: Seq<char>| #[trigger]
                        entries_view(new_entries).contains_key(q) implies entries_view(
                        new_entries,
                    )[q] == entries_view(old_entries).insert(k, v)[q] by {
                        if q == k {
                            lemma_entry_in_view(new_entries, i as int);
                        } else {
                            let j = choose|j: int|
                                0 <= j < new_entries.len() && new_entries[j].0@ == q;
                            lemma_entry_in_view(new_entries, j);
                            lemma_entry_in_view(old_entries, j);
                        }
                    }
                    assert(entries_view(new_entries) =~= entries_view(old_entries).insert(k, v));
                }
                self.entries = entries;
            },
            None => {
                let mut entries: Vec<(String, TemplateNodeDefinition)> = Vec::new();
                std::mem::swap(&mut entries, &mut self.entries);
                entries.push((key, node));
                proof {
                    let new_entries = entries@;
                    let n = old_entries.len() as int;
                    assert(keys_distinct(new_entries));
                    assert forall|q: Seq<char>|
                        #![trigger entries_view(new_entries).contains_key(q)]
                        entries_view(new_entries).contains_key(q) == (q == k
                            || entries_view(old_entries).contains_key(q)) by {
                        if q == k {
                            lemma_entry_in_view(new_entries, n);
                        } else if entries_view(old_entries).contains_key(q) {
                            let j = choose|j: int|
                                0 <= j < old_entries.len() && old_entries[j].0@ == q;
                            assert(new_entries[j].0@ == q);
                        } else if entries_view(new_entries).contains_key(q) {
                            let j = choose|j: int|
                                0 <= j < new_entries.len() && new_entries[j].0@ == q;
                            assert(old_entries[j].0@ == q);
                        }
                    }
                    assert forall|q: Seq<char>| #[trigger]
                        entries_view(new_entries).contains_key(q) implies entries_view(
                        new_entries,
                    )[q] == entries_view(old_entries).insert(k, v)[q] by {
                        if q == k {
                            lemma_entry_in_view(new_entries, n);
                        } else {
                            let j = choose|j: int|
                                0 <= j < new_entries.len() && new_entries[j].0@ == q;
                            lemma_entry_in_view(new_entries, j);
                            lemma_entry_in_view(old_entries, j);
                        }
                    }
                    assert(entries_view(new_entries) =~= entries_view(old_entries).insert(k, v));
                }
                self.entries = entries;
            },
        }
    }

    /// Takes the node filed under `key` out of the map, if there is one.
    pub fn remove(&mut self, key: &String) -> (r: Option<TemplateNodeDefinition>)
        ensures
            final(self)@ == old(self)@.remove(key@),
            match r {
                Some(n) => old(self)@.contains_key(key@) && n@ == old(self)@[key@],
                None => !old(self)@.contains_key(key@),
            },
    {
        proof {
            use_type_invariant(&*self);
        }
        let ghost old_entries = self.entries@;
        let ghost k = key@;
        match self.position(key) {
            Some(i) => {
                proof {
                    lemma_entry_in_view(old_entries, i as int);
                }
                let mut entries: Vec<(String, TemplateNodeDefinition)> = Vec::new();
                std::mem::swap(&mut entries, &mut self.entries);
                let (_, node) = entries.remove(i);
                proof {
                    let new_entries = entries@;
                    assert(keys_distinct(new_entries));
                    assert forall|q: Seq<char>|
                        #![trigger entries_view(new_entries).contains_key(q)]
                        entries_view(new_entries).contains_key(q) == (q != k
                            && entries_view(old_entries).contains_key(q)) by {
                        if entries_view(new_entries).contains_key(q) {
                            let j = choose|j: int|
                                0 <= j < new_entries.len() && new_entries[j].0@ == q;
                            if j < i {
                                assert(old_entries[j].0@ == q);
                            } else {
                                assert(old_entries[j + 1].0@ == q);
                            }
                        } else if q != k && entries_view(old_entries).contains_key(q) {
                            let j = choose|j: int|
                                0 <= j < old_entries.len() && old_entries[j].0@ == q;
                            if j < i {
                                assert(new_entries[j].0@ == q);
                            } else {
                                assert(new_entries[j - 1].0@ == q);
                            }
                        }
                    }
                    assert forall|q: Seq<char>| #[trigger]
                        entries_view(new_entries).contains_key(q) implies entries_view(
                        new_entries,
                    )[q] == entries_view(old_entries)[q] by {
                        let j = choose|j: int|
                            0 <= j < new_entries.len() && new_entries[j].0@ == q;
                        lemma_entry_in_view(new_entries, j);
                        if j < i {
                            lemma_entry_in_view(old_entries, j);
                        } else {
                            lemma_entry_in_view(old_entries, j + 1);
                        }
                    }
                    assert(entries_view(new_entries) =~= entries_view(old_entries).remove(k));
                }
                self.entries = entries;
                Some(node)
            },
            None => {
                proof {
                    assert(!entries_view(old_entries).contains_key(k));
                    assert(entries_view(old_entries) =~= entries_view(old_entries).remove(k));
                }
                None
            },
        }
    }

}

impl Clone for TemplateNodeMap {
    fn clone(&self) -> (r: Self)
        ensures
            r@ == self@,
    {
        proof {
            use_type_invariant(self);
        }
        let mut entries: Vec<(String, TemplateNodeDefinition)> = Vec::new();
        let mut i: usize = 0;
        while i < self.entries.len()
            invariant
                i <= self.entries@.len(),
                entries@.len() == i,
                keys_distinct(self.entries@),
                forall|j: int|
                    0 <= j < i ==> (#[trigger] entries@[j]).0 == self.entries@[j].0
                        && entries@[j].1@ == self.entries@[j].1@,
            decreases self.entries@.len() - i,
        {
            let key = self.entries[i].0.clone();
            let node = self.entries[i].1.clone();
            entries.push((key, node));
            i = i + 1;
        }
        proof {
            assert(keys_distinct(entries@));
            assert forall|k: Seq<char>| #[trigger]
                entries_view(entries@).contains_key(k) == entries_view(self.entries@).contains_key(k) by {
                if entries_view(entries@).contains_key(k) {
                    let j = choose|j: int| 0 <= j < entries@.len() && entries@[j].0@ == k;
                    assert(self.entries@[j].0@ == k);
                }
                if entries_view(self.entries@).contains_key(k) {
                    let j = choose|j: int| 0 <= j < self.entries@.len() && self.entries@[j].0@ == k;
                    assert(entries@[j].0@ == k);
                }
            }
            assert forall|k: Seq<char>| #[trigger]
                entries_view(entries@).contains_key(k) implies entries_view(entries@)[k]
                == entries_view(self.entries@)[k] by {
                let j = choose|j: int| 0 <= j < entries@.len() && entries@[j].0@ == k;
                lemma_entry_in_view(entries@, j);
                lemma_entry_in_view(self.entries@, j);
            }
            assert(entries_view(entries@) =~= entries_view(self.entries@));
        }
        TemplateNodeMap { entries }
    }
}

impl TemplateNodeMap {
    /// The entries of the map, each id with its node, each id once.
    pub fn as_entries(&self) -> (r: &Vec<(String, TemplateNodeDefinition)>)
        ensures
            r@.len() == self@.len(),
            forall|i: int|
                0 <= i < r@.len() ==> self@.contains_key(#[trigger] r@[i].0@) && self@[r@[i].0@]
                    == r@[i].1@,
            forall|k: Seq<char>|
                self@.contains_key(k) ==> exists|i: int| 0 <= i < r@.len() && #[trigger] r@[i].0@ == k,
    {
        proof {
            use_type_invariant(self);
            lemma_view_dom(self.entries@);
            let keys = self.entries@.map_values(|e: (String, TemplateNodeDefinition)| e.0@);
            assert(keys.no_duplicates());
            keys.unique_seq_to_set();
            assert forall|i: int| 0 <= i < self.entries@.len() implies self@.contains_key(
                #[trigger] self.entries@[i].0@,
            ) && self@[self.entries@[i].0@] == self.entries@[i].1@ by {
                lemma_entry_in_view(self.entries@, i);
            }
        }
        &self.entries
    }
}

} // verus!
