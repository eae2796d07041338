//! Column values keyed by column name, as the grid sends them for a row to
//! insert or the key of a row to change.

use vstd::prelude::*;
use crate::json::JsonValue;

verus! {

/// `k` is one of the keys.
pub open spec fn has_key(e: Seq<(Seq<char>, JsonValue)>, k: Seq<char>) -> bool {
    exists|i: int| 0 <= i < e.len() && #[trigger] e[i].0 == k
}

/// The value stored under `k`, when there is one.
pub open spec fn value_of(e: Seq<(Seq<char>, JsonValue)>, k: Seq<char>) -> JsonValue {
    e[choose|i: int| 0 <= i < e.len() && #[trigger] e[i].0 == k].1
}

/// No key occurs twice.
pub open spec fn distinct_keys(e: Seq<(Seq<char>, JsonValue)>) -> bool {
    forall|i: int, j: int| 0 <= i < e.len() && 0 <= j < e.len() && i != j ==> #[trigger] e[i].0
        != #[trigger] e[j].0
}

/// A map from column name to value. Each name occurs at most once; the
/// entries keep the order in which their names were first inserted.
pub struct ValueMap {
    entries: Vec<(String, JsonValue)>,
}

impl View for ValueMap {
    type V = Seq<(Seq<char>, JsonValue)>;

    closed spec fn view(&self) -> Seq<(Seq<char>, JsonValue)> {
        self.entries@.map_values(|p: (String, JsonValue)| (p.0@, p.1))
    }
}

impl ValueMap {
    #[verifier::type_invariant]
    closed spec fn inv(self) -> bool {
        distinct_keys(self@)
    }

    /// An empty map.
    pub fn new() -> (m: ValueMap)
        ensures
            m@ == Seq::<(Seq<char>, JsonValue)>::empty(),
    {
        let m = ValueMap { entries: Vec::new() };
        assert(m@ =~= Seq::<(Seq<char>, JsonValue)>::empty());
        m
    }

    /// How many names the map holds.
    pub fn len(&self) -> (n: usize)
        ensures
            n == self@.len(),
            distinct_keys(self@),
    {
        proof {
            use_type_invariant(self);
        }
        self.entries.len()
    }

    /// The position of `key`, if the map holds it.
    fn position(&self, key: &str) -> (r: Option<usize>)
        ensures
            match r {
                Some(i) => i < self@.len() && self@[i as int].0 == key@,
                None => !has_key(self@, key@),
            },
    {
        let n = self.entries.len();
        for i in 0..n
            invariant
                n == self@.len(),
                n == self.entries@.len(),
                forall|j: int| 0 <= j < i ==> self@[j].0 != key@,
        {
            if crate::text::str_eq(self.entries[i].0.as_str(), key) {
                return Some(i);
            }
        }
        None
    }

    /// Whether `key` is one of the names.
    pub fn contains_key(&self, key: &str) -> (r: bool)
        ensures
            r == has_key(self@, key@),
    {
        self.position(key).is_some()
    }

    /// The value stored under `key`.
    pub fn get(&self, key: &str) -> (r: Option<&JsonValue>)
        ensures
            match r {
                Some(v) => has_key(self@, key@) && *v == value_of(self@, key@),
                None => !has_key(self@, key@),
            },
    {
        proof {
            use_type_invariant(self);
        }
        match self.position(key) {
            Some(i) => {
                let ghost k = choose|j: int| 0 <= j < self@.len() && #[trigger] self@[j].0 == key@;
                assert(k == i);
                Some(&self.entries[i].1)
            },
            None => None,
        }
    }

    /// Stores `value` under `key`: in place when the name is already there,
    /// as a new last entry when it is not.
    pub fn insert(&mut self, key: String, value: JsonValue)
        ensures
            has_key(old(self)@, key@) ==> exists|i: int|
                0 <= i < old(self)@.len() && old(self)@[i].0 == key@ && final(self)@ == old(
                    self,
                )@.update(i, (key@, value)),
            !has_key(old(self)@, key@) ==> final(self)@ == old(self)@.push((key@, value)),
    {
        proof {
            use_type_invariant(&*self);
        }
        match self.position(key.as_str()) {
            Some(i) => {
                let ghost before = self@;
                let mut entries = Vec::new();
                std::mem::swap(&mut entries, &mut self.entries);
                entries.set(i, (key, value));
                assert(entries@.map_values(|p: (String, JsonValue)| (p.0@, p.1)) =~= before.update(
                    i as int,
                    (before[i as int].0, value),
                ));
                self.entries = entries;
            },
            None => {
                let ghost before = self@;
                let mut entries = Vec::new();
                std::mem::swap(&mut entries, &mut self.entries);
                let ghost kv = key@;
                entries.push((key, value));
                assert(entries@.map_values(|p: (String, JsonValue)| (p.0@, p.1)) =~= before.push(
                    (kv, value),
                ));
                self.entries = entries;
            },
        }
    }

    /// The entries, in order.
    pub fn entries(&self) -> (r: &Vec<(String, JsonValue)>)
        ensures
            r@.map_values(|p: (String, JsonValue)| (p.0@, p.1)) == self@,
            distinct_keys(self@),
    {
        proof {
            use_type_invariant(self);
        }
        &self.entries
    }
}

} // verus!
