//! A map from names to values, held as a list in which no name occurs twice.

use vstd::prelude::*;

verus! {

/// One name and its value.
pub struct NamedEntry<V> {
    pub name: String,
    pub value: V,
}

/// Values by name; a name has at most one value.
pub struct NameMap<V> {
    entries: Vec<NamedEntry<V>>,
}

/// The map described by the first `n` entries.
pub open spec fn entries_map<V>(entries: Seq<NamedEntry<V>>, n: nat) -> Map<Seq<char>, V>
    decreases n,
{
    if n == 0 {
        Map::empty()
    } else {
        let e = entries[n - 1];
        entries_map(entries, (n - 1) as nat).insert(e.name@, e.value)
    }
}

/// No two entries share a name.
pub open spec fn distinct_names<V>(entries: Seq<NamedEntry<V>>) -> bool {
    forall|i: int, j: int|
        0 <= i < j < entries.len() ==> (#[trigger] entries[i]).name@ != (#[trigger] entries[j]).name@
}

/// The keys of `entries_map` are the names of the entries it is made of.
proof fn lemma_entries_dom<V>(entries: Seq<NamedEntry<V>>, n: nat, k: Seq<char>)
    requires
        n <= entries.len(),
    ensures
        entries_map(entries, n).contains_key(k) <==> exists|i: int|
            0 <= i < n && (#[trigger] entries[i]).name@ == k,
    decreases n,
{
    if n > 0 {
        lemma_entries_dom(entries, (n - 1) as nat, k);
        if entries[n - 1].name@ == k {
            assert(entries[n - 1].name@ == k);
        }
    }
}

/// With distinct names, the map holds each entry's value under its name.
proof fn lemma_entries_at<V>(entries: Seq<NamedEntry<V>>, n: nat, i: int)
    requires
        n <= entries.len(),
        distinct_names(entries),
        0 <= i < n,
    ensures
        entries_map(entries, n).contains_key(entries[i].name@),
        entries_map(entries, n)[entries[i].name@] == entries[i].value,
    decreases n,
{
    if i < n - 1 {
        lemma_entries_at(entries, (n - 1) as nat, i);
        assert(entries[i].name@ != entries[n - 1].name@);
    }
}

/// The map of a prefix depends on that prefix alone.
proof fn lemma_entries_prefix<V>(a: Seq<NamedEntry<V>>, b: Seq<NamedEntry<V>>, n: nat)
    requires
        n <= a.len(),
        n <= b.len(),
        forall|i: int| 0 <= i < n ==> a[i] == b[i],
    ensures
        entries_map(a, n) == entries_map(b, n),
    decreases n,
{
    if n > 0 {
        lemma_entries_prefix(a, b, (n - 1) as nat);
    }
}

impl<V> NameMap<V> {
    #[verifier::type_invariant]
    spec fn names_distinct(self) -> bool {
        distinct_names(self.entries@)
    }

    /// The values by name.
    pub closed spec fn map(&self) -> Map<Seq<char>, V> {
        entries_map(self.entries@, self.entries@.len())
    }

    /// An empty map.
    pub fn new() -> (r: NameMap<V>)
        ensures
            r.map() == Map::<Seq<char>, V>::empty(),
    {
        NameMap { entries: Vec::new() }
    }

    /// Removes every entry.
    pub fn clear(&mut self)
        ensures
            final(self).map() == Map::<Seq<char>, V>::empty(),
    {
        self.entries = Vec::new();
    }

    /// The value of `name`, if it has one.
    pub fn get(&self, name: &str) -> (r: Option<&V>)
        ensures
            match r {
                None => !self.map().contains_key(name@),
                Some(v) => self.map().contains_key(name@) && self.map()[name@] == *v,
            },
    {
        proof {
            use_type_invariant(self);
        }
        let key = String::from_str(name);
        let n = self.entries.len();
        let mut i: usize = 0;
        while i < n
            invariant
                i <= n == self.entries@.len(),
                key@ == name@,
                distinct_names(self.entries@),
                forall|j: int| 0 <= j < i ==> (#[trigger] self.entries@[j]).name@ != name@,
            decreases n - i,
        {
            if self.entries[i].name == key {
                proof {
                    lemma_entries_at(self.entries@, n as nat, i as int);
                }
                return Some(&self.entries[i].value);
            }
            i = i + 1;
        }
        proof {
            lemma_entries_dom(self.entries@, n as nat, name@);
        }
        None
    }

    /// Gives `name` the value `value`, replacing its earlier value.
    pub fn insert(&mut self, name: String, value: V)
        ensures
            final(self).map() == old(self).map().insert(name@, value),
    {
        proof {
            use_type_invariant(&*self);
        }
        let ghost key = name@;
        let ghost val = value;
        let ghost old_map = self.map();
        let mut entries: Vec<NamedEntry<V>> = Vec::new();
        std::mem::swap(&mut entries, &mut self.entries);
        let ghost before = entries@;
        let n = entries.len();
        let mut i: usize = 0;
        while i < n
            invariant
                i <= n == entries@.len(),
                entries@ == before,
                distinct_names(before),
                forall|j: int| 0 <= j < i ==> (#[trigger] before[j]).name@ != key,
                name@ == key,
                val == value,
                old_map == entries_map(before, n as nat),
                old_map == old(self).map(),
            decreases n - i,
        {
            if entries[i].name == name {
                assert(before[i as int].name@ == key);
                entries.set(i, NamedEntry { name, value });
                proof {
                    let after = entries@;
                    assert forall|a: int, b: int|
                        0 <= a < b < after.len() implies (#[trigger] after[a]).name@
                        != (#[trigger] after[b]).name@ by {
                        assert(before[a].name@ != before[b].name@);
                    }
                    let new_map = entries_map(after, n as nat);
                    assert forall|k: Seq<char>| #[trigger]
                        new_map.contains_key(k) == old_map.insert(key, val).contains_key(k) by {
                        lemma_entries_dom(before, n as nat, k);
                        lemma_entries_dom(after, n as nat, k);
                        if k == key {
                            assert(after[i as int].name@ == k);
                        } else if old_map.contains_key(k) {
                            let j = choose|j: int| 0 <= j < n && (#[trigger] before[j]).name@ == k;
                            assert(after[j].name@ == k);
                        }
                    }
                    assert forall|k: Seq<char>| #[trigger] new_map.contains_key(k) implies new_map[k]
                        == old_map.insert(key, val)[k] by {
                        lemma_entries_dom(after, n as nat, k);
                        let j = choose|j: int| 0 <= j < n && (#[trigger] after[j]).name@ == k;
                        lemma_entries_at(after, n as nat, j);
                        if j != i {
                            lemma_entries_at(before, n as nat, j);
                            if j > i {
                                assert(before[i as int].name@ != before[j].name@);
                            }
                            assert(after[j] == before[j]);
                        }
                    }
                    assert(new_map =~= old_map.insert(key, val));
                }
                self.entries = entries;
                return ;
            }
            i = i + 1;
        }
        entries.push(NamedEntry { name, value });
        proof {
            let after = entries@;
            assert forall|a: int, b: int|
                0 <= a < b < after.len() implies (#[trigger] after[a]).name@
                != (#[trigger] after[b]).name@ by {
                if b < n {
                    assert(before[a].name@ != before[b].name@);
                } else {
                    assert(before[a].name@ != key);
                }
            }
            lemma_entries_prefix(before, after, n as nat);
        }
        self.entries = entries;
    }
}

} // verus!
