//! A map from names to values that remembers the order in which the names came.
use vstd::prelude::*;

verus! {

/// The map that gives each name of `names` the value at the same place in `values`.
pub open spec fn assoc<T>(names: Seq<Seq<char>>, values: Seq<T>) -> Map<Seq<char>, T> {
    Map::new(|k: Seq<char>| names.contains(k), |k: Seq<char>| values[names.index_of(k)])
}

proof fn lemma_index_of(names: Seq<Seq<char>>, i: int)
    requires
        names.no_duplicates(),
        0 <= i < names.len(),
    ensures
        names.index_of(names[i]) == i,
        names.contains(names[i]),
{
    assert(names.contains(names[i]));
    let j = names.index_of(names[i]);
    assert(0 <= j < names.len() && names[j] == names[i]);
}

proof fn lemma_assoc_insert<T>(
    names: Seq<Seq<char>>,
    values: Seq<T>,
    i: int,
    name: Seq<char>,
    value: T,
)
    requires
        names.no_duplicates(),
        names.len() == values.len(),
        0 <= i <= names.len(),
        !names.contains(name),
    ensures
        names.insert(i, name).no_duplicates(),
        assoc(names.insert(i, name), values.insert(i, value)) == assoc(names, values).insert(
            name,
            value,
        ),
{
    let ns = names.insert(i, name);
    let vs = values.insert(i, value);
    assert(ns.no_duplicates()) by {
        assert forall|a: int, b: int|
            0 <= a < ns.len() && 0 <= b < ns.len() && a != b implies ns[a] != ns[b] by {
            let a0 = if a > i { a - 1 } else { a };
            let b0 = if b > i { b - 1 } else { b };
            if a == i {
                assert(names.contains(names[b0]));
            } else if b == i {
                assert(names.contains(names[a0]));
            } else {
                assert(names[a0] != names[b0]);
            }
        }
    }
    assert(ns[i] == name);
    lemma_index_of(ns, i);
    assert forall|k: Seq<char>| names.contains(k) implies #[trigger] ns.contains(k)
        && vs[ns.index_of(k)] == values[names.index_of(k)] by {
        let j = names.index_of(k);
        let j1 = if j < i { j } else { j + 1 };
        assert(ns[j1] == k);
        lemma_index_of(ns, j1);
    }
    assert forall|k: Seq<char>| #[trigger] ns.contains(k) && k != name implies names.contains(k) by {
        let j = ns.index_of(k);
        let j0 = if j > i { j - 1 } else { j };
        assert(names[j0] == k);
    }
    assert(assoc(ns, vs) =~= assoc(names, values).insert(name, value));
}

proof fn lemma_assoc_remove<T>(names: Seq<Seq<char>>, values: Seq<T>, i: int)
    requires
        names.no_duplicates(),
        names.len() == values.len(),
        0 <= i < names.len(),
    ensures
        names.remove(i).no_duplicates(),
        !names.remove(i).contains(names[i]),
        assoc(names.remove(i), values.remove(i)) == assoc(names, values).remove(names[i]),
{
    let ns = names.remove(i);
    let vs = values.remove(i);
    assert(!ns.contains(names[i])) by {
        if ns.contains(names[i]) {
            let j = ns.index_of(names[i]);
            let j1 = if j < i { j } else { j + 1 };
            assert(names[j1] == names[i]);
        }
    }
    assert(ns.no_duplicates()) by {
        assert forall|a: int, b: int|
            0 <= a < ns.len() && 0 <= b < ns.len() && a != b implies ns[a] != ns[b] by {
            let a1 = if a < i { a } else { a + 1 };
            let b1 = if b < i { b } else { b + 1 };
            assert(names[a1] != names[b1]);
        }
    }
    assert(ns.insert(i, names[i]) =~= names);
    assert(vs.insert(i, values[i]) =~= values);
    lemma_assoc_insert(ns, vs, i, names[i], values[i]);
    assert(assoc(ns, vs) =~= assoc(names, values).remove(names[i]));
}

#[derive(Debug)]
struct Slot<V> {
    key: String,
    value: V,
}

/// A map keyed by name. No name occurs twice, and a name that came first stays first.
#[derive(Debug)]
pub struct NameMap<V> {
    slots: Vec<Slot<V>>,
}

impl<V> NameMap<V> {
    /// The names in the map, in the order in which they came.
    pub closed spec fn names(&self) -> Seq<Seq<char>> {
        self.slots@.map_values(|s: Slot<V>| s.key@)
    }

    #[verifier::type_invariant]
    spec fn distinct(&self) -> bool {
        self.names().no_duplicates()
    }
}

impl<V: View> NameMap<V> {
    spec fn values(&self) -> Seq<V::V> {
        self.slots@.map_values(|s: Slot<V>| s.value@)
    }

    /// The names are exactly the keys of the map, each once.
    pub open spec fn wf(&self) -> bool {
        &&& self.names().no_duplicates()
        &&& self@.dom() == self.names().to_set()
        &&& self@.dom().finite()
        &&& self@.len() == self.names().len()
    }

    proof fn lemma_wf(&self)
        requires
            self.names().no_duplicates(),
        ensures
            self.wf(),
    {
        assert(self@.dom() =~= self.names().to_set());
        self.names().unique_seq_to_set();
    }

    proof fn lemma_slot(&self, i: int)
        requires
            self.names().no_duplicates(),
            0 <= i < self.slots@.len(),
        ensures
            self.names()[i] == self.slots@[i].key@,
            self@.contains_key(self.names()[i]),
            self@[self.names()[i]] == self.slots@[i].value@,
    {
        lemma_index_of(self.names(), i);
    }
}

impl<V: View> View for NameMap<V> {
    type V = Map<Seq<char>, V::V>;

    closed spec fn view(&self) -> Map<Seq<char>, V::V> {
        assoc(self.names(), self.values())
    }
}

impl<V: View> NameMap<V> {
    /// An empty map.
    pub fn new() -> (r: Self)
        ensures
            r@ == Map::<Seq<char>, V::V>::empty(),
            r.names() == Seq::<Seq<char>>::empty(),
            r.wf(),
    {
        let r = NameMap { slots: Vec::new() };
        proof {
            r.lemma_wf();
            assert(r.names() =~= Seq::<Seq<char>>::empty());
            assert(r@ =~= Map::<Seq<char>, V::V>::empty());
        }
        r
    }

    /// The number of names.
    pub fn len(&self) -> (n: usize)
        ensures
            n == self.names().len(),
            n == self@.len(),
            self.wf(),
    {
        proof {
            use_type_invariant(self);
            self.lemma_wf();
        }
        self.slots.len()
    }

    /// The place of `key` among the names.
    pub fn position(&self, key: &str) -> (r: Option<usize>)
        ensures
            self.wf(),
            match r {
                Some(i) => i < self.names().len() && self.names()[i as int] == key@
                    && self@.contains_key(key@),
                None => !self@.contains_key(key@),
            },
    {
        proof {
            use_type_invariant(self);
            self.lemma_wf();
        }
        let wanted: String = key.to_owned();
        let mut i: usize = 0;
        while i < self.slots.len()
            invariant
                i <= self.slots@.len(),
                wanted@ == key@,
                self.wf(),
                forall|j: int| 0 <= j < i ==> self.slots@[j].key@ != key@,
            decreases self.slots@.len() - i,
        {
            if self.slots[i].key == wanted {
                proof {
                    self.lemma_slot(i as int);
                }
                return Some(i);
            }
            i += 1;
        }
        assert(!self.names().contains(key@));
        None
    }

    /// The name at place `i`.
    pub fn name_at(&self, i: usize) -> (r: &String)
        requires
            i < self.names().len(),
        ensures
            r@ == self.names()[i as int],
            self@.contains_key(r@),
            self.wf(),
    {
        proof {
            use_type_invariant(self);
            self.lemma_wf();
            self.lemma_slot(i as int);
        }
        &self.slots[i].key
    }

    /// The value at place `i`.
    pub fn value_at(&self, i: usize) -> (r: &V)
        requires
            i < self.names().len(),
        ensures
            r@ == self@[self.names()[i as int]],
            self@.contains_key(self.names()[i as int]),
            self.wf(),
    {
        proof {
            use_type_invariant(self);
            self.lemma_wf();
            self.lemma_slot(i as int);
        }
        &self.slots[i].value
    }

    /// Whether `key` is one of the names.
    pub fn contains_key(&self, key: &str) -> (r: bool)
        ensures
            r == self@.contains_key(key@),
            self.wf(),
    {
        self.position(key).is_some()
    }

    /// The value under `key`.
    pub fn get(&self, key: &str) -> (r: Option<&V>)
        ensures
            self.wf(),
            match r {
                Some(v) => self@.contains_key(key@) && v@ == self@[key@],
                None => !self@.contains_key(key@),
            },
    {
        match self.position(key) {
            Some(i) => Some(self.value_at(i)),
            None => None,
        }
    }

    /// Takes out the name at place `i` with its value.
    pub fn take_at(&mut self, i: usize) -> (r: (String, V))
        requires
            i < old(self).names().len(),
        ensures
            r.0@ == old(self).names()[i as int],
            r.1@ == old(self)@[r.0@],
            old(self)@.contains_key(r.0@),
            final(self).names() == old(self).names().remove(i as int),
            final(self)@ == old(self)@.remove(r.0@),
            final(self).wf(),
    {
        proof {
            use_type_invariant(&*self);
            self.lemma_slot(i as int);
            lemma_assoc_remove(self.names(), self.values(), i as int);
        }
        let mut slots: Vec<Slot<V>> = Vec::new();
        std::mem::swap(&mut slots, &mut self.slots);
        let slot = slots.remove(i);
        let ghost names = old(self).names().remove(i as int);
        let ghost values = old(self).values().remove(i as int);
        proof {
            assert(slots@.map_values(|s: Slot<V>| s.key@) =~= names);
            assert(slots@.map_values(|s: Slot<V>| s.value@) =~= values);
        }
        self.slots = slots;
        proof {
            self.lemma_wf();
        }
        (slot.key, slot.value)
    }

    /// Puts `key` with `value` at place `i`, before the name that was there.
    pub fn put_at(&mut self, i: usize, key: String, value: V)
        requires
            i <= old(self).names().len(),
            !old(self).names().contains(key@),
        ensures
            final(self).names() == old(self).names().insert(i as int, key@),
            final(self)@ == old(self)@.insert(key@, value@),
            final(self).wf(),
    {
        proof {
            use_type_invariant(&*self);
            lemma_assoc_insert(self.names(), self.values(), i as int, key@, value@);
        }
        let ghost names = old(self).names().insert(i as int, key@);
        let ghost values = old(self).values().insert(i as int, value@);
        let mut slots: Vec<Slot<V>> = Vec::new();
        std::mem::swap(&mut slots, &mut self.slots);
        slots.insert(i, Slot { key, value });
        proof {
            assert(slots@.map_values(|s: Slot<V>| s.key@) =~= names);
            assert(slots@.map_values(|s: Slot<V>| s.value@) =~= values);
        }
        self.slots = slots;
        proof {
            self.lemma_wf();
        }
    }

    /// Puts `value` under `key`: in place of the value that is there, or else at the end.
    pub fn insert(&mut self, key: String, value: V)
        ensures
            final(self)@ == old(self)@.insert(key@, value@),
            final(self).names() == (if old(self)@.contains_key(key@) {
                old(self).names()
            } else {
                old(self).names().push(key@)
            }),
            final(self).wf(),
    {
        match self.position(key.as_str()) {
            Some(i) => {
                let (name, _) = self.take_at(i);
                proof {
                    assert(!self@.contains_key(key@));
                    assert(!self.names().contains(key@));
                    assert(old(self).names().remove(i as int).insert(i as int, key@)
                        =~= old(self).names());
                    assert(old(self)@.remove(key@).insert(key@, value@) =~= old(self)@.insert(
                        key@,
                        value@,
                    ));
                }
                self.put_at(i, key, value);
            },
            None => {
                let n: usize = self.len();
                proof {
                    assert(self.names().insert(n as int, key@) =~= self.names().push(key@));
                }
                self.put_at(n, key, value);
            },
        }
    }

    /// Takes `key` out of the map.
    pub fn remove(&mut self, key: &str) -> (r: Option<V>)
        ensures
            final(self)@ == old(self)@.remove(key@),
            final(self).names() == old(self).names().remove_value(key@),
            final(self).wf(),
            match r {
                Some(v) => old(self)@.contains_key(key@) && v@ == old(self)@[key@],
                None => !old(self)@.contains_key(key@),
            },
    {
        match self.position(key) {
            Some(i) => {
                proof {
                    lemma_index_of(self.names(), i as int);
                    assert(self.names().index_of_first(key@) == Some(i as int)) by {
                        self.names().index_of_first_ensures(key@);
                    }
                }
                let (_, value) = self.take_at(i);
                Some(value)
            },
            None => {
                proof {
                    self.names().index_of_first_ensures(key@);
                    assert(old(self)@.remove(key@) =~= old(self)@);
                    assert(!self.names().contains(key@));
                }
                None
            },
        }
    }
}

/// A value of which a second one can be made that holds the same.
pub trait Duplicate: View + Sized {
    fn duplicate(&self) -> (r: Self)
        ensures
            r@ == self@,
    ;
}

impl Duplicate for String {
    fn duplicate(&self) -> (r: Self) {
        self.clone()
    }
}

impl<V: Duplicate> Clone for NameMap<V> {
    fn clone(&self) -> (r: Self)
        ensures
            r@ == self@,
            r.names() == self.names(),
    {
        let mut out: NameMap<V> = NameMap::new();
        let n: usize = self.len();
        let mut i: usize = 0;
        assert(self.names().take(0) =~= Seq::empty());
        while i < n
            invariant
                i <= n,
                n == self.names().len(),
                self.wf(),
                out.wf(),
                out.names() == self.names().take(i as int),
                forall|k: Seq<char>| #[trigger]
                    out@.contains_key(k) ==> self@.contains_key(k) && out@[k] == self@[k],
            decreases n - i,
        {
            let name = self.name_at(i);
            let value = self.value_at(i);
            proof {
                assert(!out.names().contains(name@));
                assert(!out@.contains_key(name@));
                assert(self.names().take(i + 1) =~= self.names().take(i as int).push(name@));
            }
            out.insert(name.clone(), value.duplicate());
            i += 1;
        }
        assert(self.names().take(n as int) =~= self.names());
        assert(out@ =~= self@);
        out
    }
}

impl NameMap<String> {
    /// Whether two maps give the same names the same texts, in whatever order.
    pub fn same_as(&self, other: &NameMap<String>) -> (r: bool)
        ensures
            r == (self@ == other@),
    {
        let n: usize = self.len();
        if n != other.len() {
            assert(self@.len() != other@.len());
            return false;
        }
        let mut i: usize = 0;
        while i < n
            invariant
                i <= n,
                n == self.names().len(),
                self.wf(),
                other.wf(),
                self@.len() == other@.len(),
                forall|j: int|
                    0 <= j < i ==> other@.contains_key(#[trigger] self.names()[j])
                        && other@[self.names()[j]] == self@[self.names()[j]],
            decreases n - i,
        {
            let name = self.name_at(i);
            match other.get(name.as_str()) {
                Some(value) => {
                    if *value != *self.value_at(i) {
                        return false;
                    }
                },
                None => {
                    return false;
                },
            }
            i += 1;
        }
        proof {
            assert forall|k: Seq<char>| #[trigger] self@.contains_key(k) implies other@.contains_key(k)
                && other@[k] == self@[k] by {
                assert(self.names().contains(k));
                let j = self.names().index_of(k);
                assert(self.names()[j] == k);
            }
            assert(self@.dom().subset_of(other@.dom()));
            vstd::set_lib::lemma_subset_equality(self@.dom(), other@.dom());
            assert(self@ =~= other@);
        }
        true
    }
}

} // verus!
