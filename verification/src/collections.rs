//! Collections keyed by text: a map and a set, each kept as a list in which no
//! key occurs twice.

use vstd::prelude::*;

verus! {

/// The texts of a list of strings.
pub open spec fn texts(list: Seq<String>) -> Seq<Seq<char>> {
    list.map_values(|s: String| s@)
}

/// A set of texts.
#[derive(Debug)]
pub struct StringSet {
    items: Vec<String>,
}

impl View for StringSet {
    type V = Set<Seq<char>>;

    closed spec fn view(&self) -> Set<Seq<char>> {
        texts(self.items@).to_set()
    }
}

impl StringSet {
    #[verifier::type_invariant]
    spec fn distinct(self) -> bool {
        texts(self.items@).no_duplicates()
    }

    /// The empty set.
    pub fn new() -> (set: Self)
        ensures
            set@ == Set::<Seq<char>>::empty(),
    {
        let set = StringSet { items: Vec::new() };
        assert(texts(set.items@) =~= Seq::<Seq<char>>::empty());
        assert(set@ =~= Set::<Seq<char>>::empty());
        set
    }

    /// Where `text` stands in the list, if it does.
    fn position(&self, text: &String) -> (at: Option<usize>)
        ensures
            match at {
                Some(i) => i < self.items.len() && self.items@[i as int]@ == text@,
                None => !self@.contains(text@),
            },
    {
        let mut i: usize = 0;
        while i < self.items.len()
            invariant
                i <= self.items.len(),
                forall|j: int| 0 <= j < i ==> self.items@[j]@ != text@,
            decreases self.items.len() - i,
        {
            if self.items[i] == *text {
                return Some(i);
            }
            i = i + 1;
        }
        assert(!texts(self.items@).contains(text@));
        None
    }

    /// Whether `text` is in the set.
    pub fn contains(&self, text: &String) -> (yes: bool)
        ensures
            yes == self@.contains(text@),
    {
        match self.position(text) {
            Some(i) => {
                assert(texts(self.items@)[i as int] == text@);
                true
            },
            None => false,
        }
    }

    /// The number of texts in the set.
    pub fn len(&self) -> (n: usize)
        ensures
            n == self@.len(),
            self@.finite(),
    {
        proof {
            use_type_invariant(self);
            texts(self.items@).unique_seq_to_set();
        }
        self.items.len()
    }

    /// Whether the set holds nothing.
    pub fn is_empty(&self) -> (yes: bool)
        ensures
            yes == (self@ == Set::<Seq<char>>::empty()),
    {
        proof {
            if self.items@.len() > 0 {
                assert(texts(self.items@).contains(texts(self.items@)[0]));
                assert(self@.contains(texts(self.items@)[0]));
            } else {
                assert(self@ =~= Set::<Seq<char>>::empty());
            }
        }
        self.items.len() == 0
    }

    /// Adds `text`, and says whether it was new.
    pub fn insert(&mut self, text: String) -> (added: bool)
        ensures
            final(self)@ == old(self)@.insert(text@),
            added == !old(self)@.contains(text@),
    {
        proof {
            use_type_invariant(&*self);
        }
        if self.contains(&text) {
            assert(self@.insert(text@) =~= self@);
            return false;
        }
        let ghost before = texts(self.items@);
        let mut items: Vec<String> = Vec::new();
        std::mem::swap(&mut items, &mut self.items);
        items.push(text);
        proof {
            assert(texts(items@) =~= before.push(text@));
            assert(!before.contains(text@));
            assert(before.push(text@).to_set() =~= before.to_set().insert(text@)) by {
                assert forall|t: Seq<char>| before.push(text@).contains(t) == (before.contains(t)
                    || t == text@) by {
                    if before.contains(t) {
                        let k = before.index_of(t);
                        assert(before.push(text@)[k] == t);
                    }
                    if t == text@ {
                        assert(before.push(text@)[before.len() as int] == t);
                    }
                }
            }
        }
        self.items = items;
        true
    }

    /// Takes `text` out, and says whether it was there.
    pub fn remove(&mut self, text: &String) -> (removed: bool)
        ensures
            final(self)@ == old(self)@.remove(text@),
            removed == old(self)@.contains(text@),
    {
        proof {
            use_type_invariant(&*self);
        }
        match self.position(text) {
            None => {
                assert(self@.remove(text@) =~= self@);
                false
            },
            Some(i) => {
                let ghost before = texts(self.items@);
                let mut items: Vec<String> = Vec::new();
                std::mem::swap(&mut items, &mut self.items);
                assert(before[i as int] == text@);
                let _ = items.remove(i);
                proof {
                    assert(texts(items@) =~= before.remove(i as int));
                    assert(before.remove(i as int).to_set() =~= before.to_set().remove(text@)) by {
                        assert forall|t: Seq<char>| before.remove(i as int).contains(t) == (
                        before.contains(t) && t != text@) by {
                            if before.contains(t) && t != text@ {
                                let k = before.index_of(t);
                                if k < i {
                                    assert(before.remove(i as int)[k] == t);
                                } else {
                                    assert(before.remove(i as int)[k - 1] == t);
                                }
                            }
                            if before.remove(i as int).contains(t) {
                                let k = before.remove(i as int).index_of(t);
                                if k < i {
                                    assert(before[k] == t);
                                } else {
                                    assert(before[k + 1] == t);
                                }
                            }
                        }
                    }
                }
                self.items = items;
                true
            },
        }
    }

    /// The texts of the set, each once, in the order in which they came in.
    pub fn to_vec(&self) -> (list: Vec<String>)
        ensures
            texts(list@).no_duplicates(),
            texts(list@).to_set() == self@,
    {
        proof {
            use_type_invariant(self);
        }
        let mut list: Vec<String> = Vec::new();
        let mut i: usize = 0;
        while i < self.items.len()
            invariant
                i <= self.items.len(),
                list@ == self.items@.take(i as int),
            decreases self.items.len() - i,
        {
            list.push(self.items[i].clone());
            assert(self.items@.take(i + 1) == self.items@.take(i as int).push(self.items@[i as int]));
            i = i + 1;
        }
        assert(self.items@.take(i as int) == self.items@);
        list
    }
}

impl Clone for StringSet {
    fn clone(&self) -> (copy: Self)
        ensures
            copy@ == self@,
    {
        StringSet { items: self.to_vec() }
    }
}

/// A map from texts to values.
#[derive(Debug)]
pub struct StringMap<V> {
    entries: Vec<(String, V)>,
}

/// The keys of a list of entries.
pub open spec fn keys_of<V>(entries: Seq<(String, V)>) -> Seq<Seq<char>> {
    entries.map_values(|e: (String, V)| e.0@)
}

/// The value that a list of entries holds under `key`, which must be in it.
pub open spec fn value_of<V>(entries: Seq<(String, V)>, key: Seq<char>) -> V {
    entries[keys_of(entries).index_of(key)].1
}

impl<V> View for StringMap<V> {
    type V = Map<Seq<char>, V>;

    closed spec fn view(&self) -> Map<Seq<char>, V> {
        Map::new(
            |key: Seq<char>| keys_of(self.entries@).contains(key),
            |key: Seq<char>| value_of(self.entries@, key),
        )
    }
}

impl<V> StringMap<V> {
    #[verifier::type_invariant]
    spec fn distinct(self) -> bool {
        keys_of(self.entries@).no_duplicates()
    }

    /// The keys of the map, in the order in which it lists them.
    pub closed spec fn order(self) -> Seq<Seq<char>> {
        keys_of(self.entries@)
    }

    /// The empty map.
    pub fn new() -> (map: Self)
        ensures
            map@ == Map::<Seq<char>, V>::empty(),
    {
        let map = StringMap { entries: Vec::new() };
        assert(map@ =~= Map::<Seq<char>, V>::empty());
        map
    }

    /// The number of keys. Every key stands in the map's order exactly once.
    pub fn len(&self) -> (n: usize)
        ensures
            n == self.order().len(),
            n == self@.dom().len(),
            self@.dom().finite(),
            self.order().no_duplicates(),
            self.order().to_set() == self@.dom(),
    {
        proof {
            use_type_invariant(self);
            self.order().unique_seq_to_set();
            assert(self.order().to_set() =~= self@.dom());
        }
        self.entries.len()
    }

    /// The entry that stands at place `i` of the map's order.
    pub fn entry(&self, i: usize) -> (e: (&String, &V))
        requires
            i < self.order().len(),
        ensures
            e.0@ == self.order()[i as int],
            self@.contains_key(e.0@),
            *e.1 == self@[e.0@],
    {
        proof {
            use_type_invariant(self);
            let keys = keys_of(self.entries@);
            assert(keys[keys.index_of(keys[i as int])] == keys[i as int]);
        }
        let e = &self.entries[i];
        (&e.0, &e.1)
    }

    /// Where `key` stands in the list, if it does.
    fn position(&self, key: &String) -> (at: Option<usize>)
        ensures
            match at {
                Some(i) => {
                    &&& i < self.entries.len()
                    &&& self.entries@[i as int].0@ == key@
                    &&& self@.contains_key(key@)
                    &&& self@[key@] == self.entries@[i as int].1
                },
                None => !self@.contains_key(key@),
            },
    {
        proof {
            use_type_invariant(self);
        }
        let ghost keys = keys_of(self.entries@);
        let mut i: usize = 0;
        while i < self.entries.len()
            invariant
                i <= self.entries.len(),
                keys == keys_of(self.entries@),
                keys.no_duplicates(),
                forall|j: int| 0 <= j < i ==> keys[j] != key@,
            decreases self.entries.len() - i,
        {
            if self.entries[i].0 == *key {
                assert(keys[i as int] == key@);
                assert(keys[keys.index_of(key@)] == key@);
                return Some(i);
            }
            i = i + 1;
        }
        None
    }

    /// Whether the map holds a value under `key`.
    pub fn contains_key(&self, key: &String) -> (yes: bool)
        ensures
            yes == self@.contains_key(key@),
    {
        match self.position(key) {
            Some(_) => true,
            None => false,
        }
    }

    /// The value under `key`.
    pub fn get(&self, key: &String) -> (value: Option<&V>)
        ensures
            match value {
                Some(v) => self@.contains_key(key@) && *v == self@[key@],
                None => !self@.contains_key(key@),
            },
    {
        match self.position(key) {
            Some(i) => Some(&self.entries[i].1),
            None => None,
        }
    }

    /// Takes out the value under `key`.
    pub fn remove(&mut self, key: &String) -> (value: Option<V>)
        ensures
            final(self)@ == old(self)@.remove(key@),
            match value {
                Some(v) => old(self)@.contains_key(key@) && v == old(self)@[key@],
                None => !old(self)@.contains_key(key@),
            },
    {
        proof {
            use_type_invariant(&*self);
        }
        match self.position(key) {
            None => {
                assert(self@.remove(key@) =~= self@);
                None
            },
            Some(i) => {
                let ghost before = self.entries@;
                let mut entries: Vec<(String, V)> = Vec::new();
                std::mem::swap(&mut entries, &mut self.entries);
                let (_, value) = entries.remove(i);
                proof {
                    lemma_remove_entry(before, i as int);
                }
                self.entries = entries;
                assert(self@ =~= old(self)@.remove(key@));
                Some(value)
            },
        }
    }

    /// Puts `value` under `key`, in place of what was there.
    pub fn insert(&mut self, key: String, value: V)
        ensures
            final(self)@ == old(self)@.insert(key@, value),
    {
        let _ = self.remove(&key);
        proof {
            use_type_invariant(&*self);
        }
        let ghost before = self.entries@;
        let ghost others = self@;
        assert(!others.contains_key(key@));
        let mut entries: Vec<(String, V)> = Vec::new();
        std::mem::swap(&mut entries, &mut self.entries);
        entries.push((key, value));
        proof {
            lemma_push_entry(before, key, value);
        }
        self.entries = entries;
        assert(self@ =~= others.insert(key@, value));
        assert(self@ =~= old(self)@.insert(key@, value));
    }
}

/// Dropping one entry from a list without repeated keys drops its key and
/// leaves the value under every other key.
proof fn lemma_remove_entry<V>(entries: Seq<(String, V)>, i: int)
    requires
        keys_of(entries).no_duplicates(),
        0 <= i < entries.len(),
    ensures
        keys_of(entries.remove(i)).no_duplicates(),
        forall|k: Seq<char>| #[trigger]
            keys_of(entries.remove(i)).contains(k) <==> keys_of(entries).contains(k)
                && k != entries[i].0@,
        forall|k: Seq<char>|
            keys_of(entries.remove(i)).contains(k) ==> #[trigger] value_of(entries.remove(i), k)
                == value_of(entries, k),
{
    let keys = keys_of(entries);
    let rest = entries.remove(i);
    assert(keys_of(rest) =~= keys.remove(i));
    assert(keys[i] == entries[i].0@);
    assert forall|k: Seq<char>| #[trigger] keys_of(rest).contains(k) <==> keys.contains(k) && k
        != entries[i].0@ by {
        if keys.contains(k) && k != entries[i].0@ {
            let j = keys.index_of(k);
            if j < i {
                assert(keys_of(rest)[j] == k);
            } else {
                assert(keys_of(rest)[j - 1] == k);
            }
        }
        if keys_of(rest).contains(k) {
            let j = keys_of(rest).index_of(k);
            if j < i {
                assert(keys[j] == k);
            } else {
                assert(keys[j + 1] == k);
            }
        }
    }
    assert forall|k: Seq<char>| keys_of(rest).contains(k) implies #[trigger] value_of(rest, k)
        == value_of(entries, k) by {
        let j = keys_of(rest).index_of(k);
        let at = if j < i {
            j
        } else {
            j + 1
        };
        assert(keys[at] == k);
        assert(keys[keys.index_of(k)] == k);
    }
}

/// Adding an entry under a new key adds that key and leaves the value under
/// every other key.
proof fn lemma_push_entry<V>(entries: Seq<(String, V)>, key: String, value: V)
    requires
        keys_of(entries).no_duplicates(),
        !keys_of(entries).contains(key@),
    ensures
        keys_of(entries.push((key, value))).no_duplicates(),
        forall|k: Seq<char>| #[trigger]
            keys_of(entries.push((key, value))).contains(k) <==> keys_of(entries).contains(k) || k
                == key@,
        forall|k: Seq<char>|
            keys_of(entries.push((key, value))).contains(k) ==> #[trigger] value_of(
                entries.push((key, value)),
                k,
            ) == if k == key@ {
                value
            } else {
                value_of(entries, k)
            },
{
    let keys = keys_of(entries);
    let all = entries.push((key, value));
    assert(keys_of(all) =~= keys.push(key@));
    assert forall|k: Seq<char>| #[trigger] keys_of(all).contains(k) <==> keys.contains(k) || k
        == key@ by {
        if keys.contains(k) {
            assert(keys_of(all)[keys.index_of(k)] == k);
        }
        if k == key@ {
            assert(keys_of(all)[keys.len() as int] == k);
        }
    }
    assert forall|k: Seq<char>| keys_of(all).contains(k) implies #[trigger] value_of(all, k)
        == if k == key@ {
        value
    } else {
        value_of(entries, k)
    } by {
        let j = keys_of(all).index_of(k);
        assert(keys_of(all)[j] == k);
        if k != key@ {
            assert(keys[keys.index_of(k)] == k);
            assert(keys_of(all)[keys.index_of(k)] == k);
        }
    }
}

} // verus!
