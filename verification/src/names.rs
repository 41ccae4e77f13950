//! Values under names.

use vstd::prelude::*;




verus! {

/// A map from names to values, in the order in which the names came.
#[derive(Debug, Clone)]
pub struct NameMap<V> {
    pub entries: Vec<(String, V)>,
}

/// The map that `entries` make, the later ones before the earlier.
pub open spec fn as_map<V>(entries: Seq<(String, V)>) -> Map<Seq<char>, V>
    decreases entries.len(),
{
    if entries.len() == 0 {
        Map::empty()
    } else {
        as_map(entries.drop_last()).insert(entries.last().0@, entries.last().1)
    }
}

/// Whether no name occurs twice in `entries`.
pub open spec fn distinct<V>(entries: Seq<(String, V)>) -> bool {
    forall|i: int, j: int|
        0 <= i < j < entries.len() ==> (#[trigger] entries[i]).0@ != (#[trigger] entries[j]).0@
}

impl<V> View for NameMap<V> {
    type V = Map<Seq<char>, V>;

    open spec fn view(&self) -> Map<Seq<char>, V> {
        as_map(self.entries@)
    }
}

proof fn lemma_as_map<V>(entries: Seq<(String, V)>, name: Seq<char>)
    requires
        distinct(entries),
    ensures
        as_map(entries).dom().contains(name) == exists|i: int|
            0 <= i < entries.len() && (#[trigger] entries[i]).0@ == name,
        forall|i: int|
            0 <= i < entries.len() && (#[trigger] entries[i]).0@ == name ==> as_map(entries)[name]
                == entries[i].1,
    decreases entries.len(),
{
    if entries.len() > 0 {
        let init = entries.drop_last();
        assert forall|i: int, j: int| 0 <= i < j < init.len() implies (#[trigger] init[i]).0@ != (
        #[trigger] init[j]).0@ by {
            assert(entries[i].0@ != entries[j].0@);
        }
        lemma_as_map(init, name);
        assert forall|i: int| 0 <= i < entries.len() && (#[trigger] entries[i]).0@ == name implies as_map(
            entries,
        ).dom().contains(name) && as_map(entries)[name] == entries[i].1 by {
            if i < entries.len() - 1 {
                assert(init[i].0@ == name);
                assert(entries[i].0@ != entries[entries.len() - 1].0@);
            }
        }
        if as_map(entries).dom().contains(name) {
            if entries.last().0@ == name {
                assert(entries[entries.len() - 1].0@ == name);
            } else {
                let i = choose|i: int| 0 <= i < init.len() && (#[trigger] init[i]).0@ == name;
                assert(entries[i].0@ == name);
            }
        }
    }
}

proof fn lemma_as_map_remove<V>(entries: Seq<(String, V)>, k: int)
    requires
        distinct(entries),
        0 <= k < entries.len(),
    ensures
        distinct(entries.remove(k)),
        as_map(entries.remove(k)) == as_map(entries).remove(entries[k].0@),
{
    let less = entries.remove(k);
    let name = entries[k].0@;
    assert forall|i: int, j: int| 0 <= i < j < less.len() implies (#[trigger] less[i]).0@ != (
    #[trigger] less[j]).0@ by {
        let a = if i < k {
            i
        } else {
            i + 1
        };
        let b = if j < k {
            j
        } else {
            j + 1
        };
        assert(less[i] == entries[a]);
        assert(less[j] == entries[b]);
    }
    let left = as_map(less);
    let right = as_map(entries).remove(name);
    assert forall|other: Seq<char>| #[trigger]
        left.dom().contains(other) == right.dom().contains(other) && (left.dom().contains(other)
            ==> left[other] == right[other]) by {
        lemma_as_map(entries, other);
        lemma_as_map(less, other);
        if left.dom().contains(other) {
            let i = choose|i: int| 0 <= i < less.len() && (#[trigger] less[i]).0@ == other;
            let a = if i < k {
                i
            } else {
                i + 1
            };
            assert(entries[a] == less[i]);
            if a < k {
                assert(entries[a].0@ != entries[k].0@);
            } else {
                assert(entries[k].0@ != entries[a].0@);
            }
        }
        if right.dom().contains(other) {
            let a = choose|a: int| 0 <= a < entries.len() && (#[trigger] entries[a]).0@ == other;
            assert(a != k);
            let i = if a < k {
                a
            } else {
                a - 1
            };
            assert(less[i] == entries[a]);
        }
    }
    assert(left.dom() =~= right.dom());
    assert(left =~= right);
}

impl<V> NameMap<V> {
    pub open spec fn wf(self) -> bool {
        distinct(self.entries@)
    }

    /// The map without names.
    pub fn new() -> (r: Self)
        ensures
            r.wf(),
            r@ == Map::<Seq<char>, V>::empty(),
    {
        NameMap { entries: Vec::new() }
    }

    /// The place of `name`.
    fn position(&self, name: &str) -> (r: Option<usize>)
        requires
            self.wf(),
        ensures
            match r {
                Some(k) => k < self.entries.len() && self.entries@[k as int].0@ == name@
                    && self@.dom().contains(name@) && self@[name@] == self.entries@[k as int].1,
                None => !self@.dom().contains(name@) && forall|i: int|
                    0 <= i < self.entries@.len() ==> (#[trigger] self.entries@[i]).0@ != name@,
            },
    {
        let wanted = name.to_owned();
        let mut i: usize = 0;
        while i < self.entries.len()
            invariant
                i <= self.entries.len(),
                self.wf(),
                wanted@ == name@,
                forall|j: int| 0 <= j < i ==> (#[trigger] self.entries@[j]).0@ != name@,
            decreases self.entries.len() - i,
        {
            if self.entries[i].0 == wanted {
                proof {
                    lemma_as_map(self.entries@, name@);
                }
                return Some(i);
            }
            i = i + 1;
        }
        proof {
            lemma_as_map(self.entries@, name@);
        }
        None
    }

    /// The value under `name`.
    pub fn get(&self, name: &str) -> (r: Option<&V>)
        requires
            self.wf(),
        ensures
            match r {
                Some(value) => self@.dom().contains(name@) && self@[name@] == *value,
                None => !self@.dom().contains(name@),
            },
    {
        match self.position(name) {
            Some(k) => Some(&self.entries[k].1),
            None => None,
        }
    }

    /// Takes the value under `name` out of the map.
    pub fn remove(&mut self, name: &str) -> (r: Option<V>)
        requires
            old(self).wf(),
        ensures
            final(self).wf(),
            final(self)@ == old(self)@.remove(name@),
            match r {
                Some(value) => old(self)@.dom().contains(name@) && old(self)@[name@] == value,
                None => !old(self)@.dom().contains(name@),
            },
    {
        match self.position(name) {
            Some(k) => {
                proof {
                    lemma_as_map_remove(self.entries@, k as int);
                }
                Some(self.entries.remove(k).1)
            },
            None => {
                assert(self@.remove(name@) =~= self@);
                None
            },
        }
    }

    /// Puts `value` under `name`, in place of the one that was there.
    pub fn insert(&mut self, name: String, value: V)
        requires
            old(self).wf(),
        ensures
            final(self).wf(),
            final(self)@ == old(self)@.insert(name@, value),
    {
        let ghost before = self@;
        self.remove(name.as_str());
        let ghost kept = self.entries@;
        proof {
            assert forall|i: int| 0 <= i < kept.len() implies (#[trigger] kept[i]).0@ != name@ by {
                lemma_as_map(kept, name@);
            }
        }
        self.entries.push((name, value));
        proof {
            assert(self.entries@.drop_last() =~= kept);
            assert(before.remove(name@).insert(name@, value) =~= before.insert(name@, value));
        }
    }
}

/// The value under a name is that of the entry with the name, and there is none without one.
pub proof fn law_entries_are_under_their_names<V>(map: NameMap<V>, i: int, name: Seq<char>)
    requires
        map.wf(),
    ensures
        0 <= i < map.entries@.len() ==> map@.dom().contains(map.entries@[i].0@)
            && map@[map.entries@[i].0@] == map.entries@[i].1,
        map@.dom().contains(name) ==> exists|k: int|
            0 <= k < map.entries@.len() && (#[trigger] map.entries@[k]).0@ == name,
{
    lemma_as_map(map.entries@, name);
    if 0 <= i < map.entries@.len() {
        lemma_as_map(map.entries@, map.entries@[i].0@);
        assert(map.entries@[i].0@ == map.entries@[i].0@);
    }
}

/// A name has one value only: no two entries of a map have the same name.
pub proof fn law_names_have_one_value<V>(map: NameMap<V>, i: int, j: int)
    requires
        map.wf(),
        0 <= i < map.entries@.len(),
        0 <= j < map.entries@.len(),
        map.entries@[i].0@ == map.entries@[j].0@,
    ensures
        i == j,
{
}

/// A map is well-formed wherever no two of its entries have the same name.
pub proof fn law_any_names_that_differ<V>(map: NameMap<V>)
    requires
        forall|i: int, j: int|
            0 <= i < j < map.entries@.len() ==> (#[trigger] map.entries@[i]).0@ != (
            #[trigger] map.entries@[j]).0@,
    ensures
        map.wf(),
{
}

/// What is put under a name is found under it, and what is under other names stays.
pub proof fn law_values_are_put_under_names<V>(
    map: &mut NameMap<V>,
    name: String,
    value: V,
    other: Seq<char>,
)
    requires
        call_ensures(NameMap::<V>::insert, (map, name, value), ()),
    ensures
        final(map)@.dom().contains(name@),
        final(map)@[name@] == value,
        other != name@ ==> final(map)@.dom().contains(other) == old(map)@.dom().contains(other),
        other != name@ && old(map)@.dom().contains(other) ==> final(map)@[other] == old(map)@[other],
        final(map).wf(),
{
}

/// What is taken out from under a name is the value under it, and what is under other names stays.
pub proof fn law_values_are_taken_out<V>(
    map: &mut NameMap<V>,
    name: &str,
    taken: Option<V>,
    other: Seq<char>,
)
    requires
        call_ensures(NameMap::<V>::remove, (map, name), taken),
    ensures
        old(map)@.dom().contains(name@) ==> taken == Some(old(map)@[name@]),
        !old(map)@.dom().contains(name@) ==> taken is None,
        !final(map)@.dom().contains(name@),
        other != name@ ==> final(map)@.dom().contains(other) == old(map)@.dom().contains(other),
        other != name@ && old(map)@.dom().contains(other) ==> final(map)@[other] == old(map)@[other],
        final(map).wf(),
{
}

/// What is looked up under a name is the value under it, and a new map has none.
pub proof fn law_values_are_looked_up<V>(
    map: NameMap<V>,
    name: &str,
    found: Option<&V>,
    empty: NameMap<V>,
)
    requires
        call_ensures(NameMap::<V>::get, (&map, name), found),
        call_ensures(NameMap::<V>::new, (), empty),
    ensures
        map@.dom().contains(name@) ==> (found matches Some(value) && *value == map@[name@]),
        !map@.dom().contains(name@) ==> found is None,
        !empty@.dom().contains(name@),
{
}

} // verus!
