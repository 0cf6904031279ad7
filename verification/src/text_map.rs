//! Maps and sets whose keys are texts.
use crate::text;
use vstd::prelude::*;

verus! {

/// The map that a list of entries stands for: of two entries with one key, the later counts.
pub open spec fn map_of<V: View>(entries: Seq<(String, V)>) -> Map<Seq<char>, V::V>
    decreases entries.len(),
{
    if entries.len() == 0 {
        Map::empty()
    } else {
        map_of(entries.drop_last()).insert(entries.last().0@, entries.last().1@)
    }
}

/// A map from texts.
#[derive(Debug)]
pub struct TextMap<V> {
    entries: Vec<(String, V)>,
}

impl<V: View> View for TextMap<V> {
    type V = Map<Seq<char>, V::V>;

    closed spec fn view(&self) -> Map<Seq<char>, V::V> {
        map_of(self.entries@)
    }
}

proof fn lemma_last_entry_counts<V: View>(entries: Seq<(String, V)>, key: Seq<char>, i: int)
    requires
        0 <= i < entries.len(),
        entries[i].0@ == key,
        forall|j: int| i < j < entries.len() ==> (#[trigger] entries[j]).0@ != key,
    ensures
        map_of(entries).dom().contains(key),
        map_of(entries)[key] == entries[i].1@,
    decreases entries.len(),
{
    if i < entries.len() - 1 {
        assert(entries[entries.len() - 1].0@ != key);
        lemma_last_entry_counts(entries.drop_last(), key, i);
    }
}

proof fn lemma_no_entry<V: View>(entries: Seq<(String, V)>, key: Seq<char>)
    requires
        forall|j: int| 0 <= j < entries.len() ==> (#[trigger] entries[j]).0@ != key,
    ensures
        !map_of(entries).dom().contains(key),
    decreases entries.len(),
{
    if entries.len() > 0 {
        assert(entries[entries.len() - 1].0@ != key);
        lemma_no_entry(entries.drop_last(), key);
    }
}

proof fn lemma_remove_entry<V: View>(entries: Seq<(String, V)>, key: Seq<char>, i: int)
    requires
        0 <= i < entries.len(),
        entries[i].0@ == key,
    ensures
        map_of(entries.remove(i)).remove(key) == map_of(entries).remove(key),
    decreases entries.len(),
{
    let rest = entries.remove(i);
    let last = entries.last();
    if i == entries.len() - 1 {
        assert(rest =~= entries.drop_last());
        assert(map_of(rest).remove(key) =~= map_of(entries).remove(key));
    } else {
        lemma_remove_entry(entries.drop_last(), key, i);
        assert(rest.drop_last() =~= entries.drop_last().remove(i));
        assert(rest.last() == last);
        let a = map_of(entries.drop_last().remove(i));
        let b = map_of(entries.drop_last());
        assert(a.remove(key) == b.remove(key));
        assert(a.insert(last.0@, last.1@).remove(key) =~= b.insert(last.0@, last.1@).remove(
            key,
        )) by {
            assert forall|k: Seq<char>| k != key implies a.dom().contains(k) == b.dom().contains(k)
                by {
                assert(a.remove(key).dom().contains(k) == b.remove(key).dom().contains(k));
            }
            assert forall|k: Seq<char>| k != key && a.dom().contains(k) implies a[k] == b[k] by {
                assert(a.remove(key)[k] == b.remove(key)[k]);
            }
        }
    }
}

impl<V: View> TextMap<V> {
    pub fn new() -> (r: Self)
        ensures
            r@ == Map::<Seq<char>, V::V>::empty(),
    {
        TextMap { entries: Vec::new() }
    }

    fn find(&self, key: &str) -> (r: Option<usize>)
        ensures
            match r {
                Some(i) => {
                    &&& i < self.entries@.len()
                    &&& self.entries@[i as int].0@ == key@
                    &&& self@.dom().contains(key@)
                    &&& self@[key@] == self.entries@[i as int].1@
                },
                None => !self@.dom().contains(key@),
            },
    {
        let mut i: usize = self.entries.len();
        while i > 0
            invariant
                i <= self.entries@.len(),
                forall|j: int|
                    i <= j < self.entries@.len() ==> (#[trigger] self.entries@[j]).0@ != key@,
            decreases i,
        {
            i -= 1;
            if text::same_text(self.entries[i].0.as_str(), key) {
                proof {
                    lemma_last_entry_counts(self.entries@, key@, i as int);
                }
                return Some(i);
            }
        }
        proof {
            lemma_no_entry(self.entries@, key@);
        }
        None
    }

    pub fn get(&self, key: &str) -> (r: Option<&V>)
        ensures
            match r {
                Some(v) => self@.dom().contains(key@) && v@ == self@[key@],
                None => !self@.dom().contains(key@),
            },
    {
        match self.find(key) {
            Some(i) => Some(&self.entries[i].1),
            None => None,
        }
    }

    pub fn contains_key(&self, key: &str) -> (r: bool)
        ensures
            r == self@.dom().contains(key@),
    {
        self.find(key).is_some()
    }

    pub fn remove(&mut self, key: &str) -> (r: Option<V>)
        ensures
            final(self)@ == old(self)@.remove(key@),
            match r {
                Some(v) => old(self)@.dom().contains(key@) && v@ == old(self)@[key@],
                None => !old(self)@.dom().contains(key@),
            },
    {
        let ghost before = self@;
        let first = match self.find(key) {
            None => {
                assert(self@.remove(key@) =~= self@);
                return None;
            },
            Some(i) => {
                proof {
                    lemma_remove_entry(self.entries@, key@, i as int);
                }
                self.entries.remove(i).1
            },
        };
        let mut more = self.find(key);
        while more.is_some()
            invariant
                self@.remove(key@) == before.remove(key@),
                match more {
                    Some(i) => i < self.entries@.len() && self.entries@[i as int].0@ == key@,
                    None => !self@.dom().contains(key@),
                },
            decreases self.entries@.len(),
        {
            if let Some(i) = more {
                proof {
                    lemma_remove_entry(self.entries@, key@, i as int);
                }
                self.entries.remove(i);
            }
            more = self.find(key);
        }
        assert(self@.remove(key@) =~= self@);
        Some(first)
    }

    pub fn insert(&mut self, key: String, value: V)
        ensures
            final(self)@ == old(self)@.insert(key@, value@),
    {
        let ghost before = self@;
        self.remove(key.as_str());
        let ghost kept = self.entries@;
        self.entries.push((key, value));
        assert(self.entries@.drop_last() == kept);
        assert(self@ =~= before.insert(key@, value@));
    }
}

/// The texts in a list, as a set.
pub open spec fn set_of(list: Seq<String>) -> Set<Seq<char>>
    decreases list.len(),
{
    if list.len() == 0 {
        Set::empty()
    } else {
        set_of(list.drop_last()).insert(list.last()@)
    }
}

/// A set of texts.
#[derive(Debug)]
pub struct TextSet {
    list: Vec<String>,
}

impl View for TextSet {
    type V = Set<Seq<char>>;

    closed spec fn view(&self) -> Set<Seq<char>> {
        set_of(self.list@)
    }
}

impl TextSet {
    pub fn new() -> (r: Self)
        ensures
            r@ == Set::<Seq<char>>::empty(),
    {
        TextSet { list: Vec::new() }
    }

    pub fn contains(&self, key: &str) -> (r: bool)
        ensures
            r == self@.contains(key@),
    {
        let mut i: usize = 0;
        assert(self.list@.take(0) =~= Seq::<String>::empty());
        while i < self.list.len()
            invariant
                i <= self.list@.len(),
                !set_of(self.list@.take(i as int)).contains(key@),
            decreases self.list@.len() - i,
        {
            assert(self.list@.take(i + 1).drop_last() == self.list@.take(i as int));
            if text::same_text(self.list[i].as_str(), key) {
                proof {
                    lemma_member(self.list@, i as int);
                }
                return true;
            }
            i += 1;
        }
        assert(self.list@.take(i as int) == self.list@);
        false
    }

    pub fn remove(&mut self, key: &str)
        ensures
            final(self)@ == old(self)@.remove(key@),
    {
        let ghost all = self.list@;
        let mut kept: Vec<String> = Vec::new();
        let mut i: usize = 0;
        assert(all.take(0) =~= Seq::<String>::empty());
        assert(set_of(kept@) =~= set_of(all.take(0)).remove(key@));
        while i < self.list.len()
            invariant
                all == self.list@,
                i <= all.len(),
                set_of(kept@) == set_of(all.take(i as int)).remove(key@),
            decreases all.len() - i,
        {
            assert(all.take(i + 1).drop_last() == all.take(i as int));
            assert(all.take(i + 1).last() == all[i as int]);
            if !text::same_text(self.list[i].as_str(), key) {
                let ghost before = kept@;
                kept.push(self.list[i].clone());
                assert(kept@.drop_last() == before);
            }
            i += 1;
            assert(set_of(kept@) =~= set_of(all.take(i as int)).remove(key@));
        }
        assert(all.take(i as int) == all);
        self.list = kept;
    }

    pub fn insert(&mut self, key: String)
        ensures
            final(self)@ == old(self)@.insert(key@),
    {
        if self.contains(key.as_str()) {
            assert(self@ =~= self@.insert(key@));
            return ;
        }
        let ghost before = self.list@;
        self.list.push(key);
        assert(self.list@.drop_last() == before);
    }
}

proof fn lemma_member(list: Seq<String>, i: int)
    requires
        0 <= i < list.len(),
    ensures
        set_of(list).contains(list[i]@),
    decreases list.len(),
{
    if i < list.len() - 1 {
        lemma_member(list.drop_last(), i);
    }
}

}
