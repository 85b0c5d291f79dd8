//! A small association table from names to values, with the mathematical
//! `Map` as its model. Later insertions win, exactly as a hash map's
//! `insert` replaces.

use vstd::prelude::*;

verus! {

/// A name-to-value table modelled by a `Map<Seq<char>, V::V>`.
pub struct Table<V> {
    entries: Vec<(String, V)>,
}

/// The map an entry list denotes: entries inserted in order, later wins.
pub closed spec fn entries_view<V: View>(s: Seq<(String, V)>) -> Map<Seq<char>, V::V>
    decreases s.len(),
{
    if s.len() == 0 {
        Map::empty()
    } else {
        entries_view(s.drop_last()).insert(s.last().0@, s.last().1@)
    }
}

impl<V: View> View for Table<V> {
    type V = Map<Seq<char>, V::V>;

    closed spec fn view(&self) -> Map<Seq<char>, V::V> {
        entries_view(self.entries@)
    }
}

impl<V: View> Table<V> {
    /// An empty table.
    pub fn new() -> (r: Table<V>)
        ensures
            r@ == Map::<Seq<char>, V::V>::empty(),
    {
        Table { entries: Vec::new() }
    }

    /// Binds `key` to `value`, replacing any earlier binding.
    pub fn insert(&mut self, key: String, value: V)
        ensures
            final (self)@ == old(self)@.insert(key@, value@),
    {
        self.entries.push((key, value));
        proof {
            assert(self.entries@.drop_last() =~= old(self).entries@);
        }
    }

    /// The value bound to `key`, if any.
    pub fn get(&self, key: &str) -> (r: Option<&V>)
        ensures
            match r {
                Some(v) => self@.contains_key(key@) && v@ == self@[key@],
                None => !self@.contains_key(key@),
            },
    {
        let n: usize = self.entries.len();
        let mut j: usize = n;
        proof {
            assert(self.entries@.take(n as int) =~= self.entries@);
        }
        while j > 0
            invariant
                0 <= j <= n,
                n == self.entries@.len(),
                entries_view(self.entries@).contains_key(key@) == entries_view(
                    self.entries@.take(j as int),
                ).contains_key(key@),
                entries_view(self.entries@).contains_key(key@) ==> entries_view(
                    self.entries@.take(j as int),
                )[key@] == entries_view(self.entries@)[key@],
                forall|i: int| j <= i < n ==> self.entries@[i].0@ != key@,
            decreases j,
        {
            proof {
                assert(self.entries@.take(j as int).drop_last() =~= self.entries@.take(j - 1));
                assert(self.entries@.take(j as int).last() == self.entries@[j - 1]);
            }
            let found = crate::strutil::str_eq(self.entries[j - 1].0.as_str(), key);
            if found {
                return Some(&self.entries[j - 1].1);
            }
            j = j - 1;
        }
        proof {
            assert(self.entries@.take(0int) =~= Seq::<(String, V)>::empty());
        }
        None
    }

    /// Whether `key` is bound.
    pub fn contains_key(&self, key: &str) -> (r: bool)
        ensures
            r == self@.contains_key(key@),
    {
        self.get(key).is_some()
    }
}

} // verus!
