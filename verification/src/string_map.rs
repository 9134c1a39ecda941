//! A map from strings to values, kept in the order of its keys.

use vstd::prelude::*;

use crate::text;
use crate::text::Place;

verus! {

/// Every key comes before those that follow it.
pub open spec fn ascending<V>(entries: Seq<(String, V)>) -> bool {
    forall|i: int, j: int|
        0 <= i < j < entries.len() ==> text::before(
            (#[trigger] entries[i]).0@,
            (#[trigger] entries[j]).0@,
        )
}

/// The place of a key among the entries.
pub open spec fn is_at<V>(entries: Seq<(String, V)>, key: Seq<char>, i: int) -> bool {
    0 <= i < entries.len() && entries[i].0@ == key
}

/// The map that a list of entries stands for.
pub open spec fn contents<V>(entries: Seq<(String, V)>) -> Map<Seq<char>, V> {
    Map::new(
        |key: Seq<char>| exists|i: int| is_at(entries, key, i),
        |key: Seq<char>| entries[choose|i: int| is_at(entries, key, i)].1,
    )
}

/// A key of an ascending list has one place only, and its value is the one at that place.
pub proof fn contents_at<V>(entries: Seq<(String, V)>, i: int)
    requires
        ascending(entries),
        0 <= i < entries.len(),
    ensures
        contents(entries).contains_key(entries[i].0@),
        contents(entries)[entries[i].0@] == entries[i].1,
        forall|j: int| is_at(entries, entries[i].0@, j) ==> j == i,
{
    let key = entries[i].0@;
    assert(is_at(entries, key, i));
    assert forall|j: int| is_at(entries, key, j) implies j == i by {
        text::before_irreflexive(key);
    }
}

/// Changing the value of an entry changes the map at its key.
proof fn replaced<V>(entries: Seq<(String, V)>, i: int, entry: (String, V))
    requires
        ascending(entries),
        is_at(entries, entry.0@, i),
    ensures
        ascending(entries.update(i, entry)),
        contents(entries.update(i, entry)) == contents(entries).insert(entry.0@, entry.1),
{
    let list = entries.update(i, entry);
    assert forall|key: Seq<char>, j: int| is_at(list, key, j) == is_at(entries, key, j) by {}
    assert forall|key: Seq<char>|
        contents(list).contains_key(key) == contents(entries).insert(
            entry.0@,
            entry.1,
        ).contains_key(key) by {
        if contents(list).contains_key(key) {
            let j = choose|j: int| is_at(list, key, j);
            assert(is_at(entries, key, j));
        }
        if contents(entries).contains_key(key) {
            let j = choose|j: int| is_at(entries, key, j);
            assert(is_at(list, key, j));
        }
        assert(is_at(list, entry.0@, i));
    }
    assert forall|key: Seq<char>| contents(list).contains_key(key) implies contents(list)[key]
        == contents(entries).insert(entry.0@, entry.1)[key] by {
        let j = choose|j: int| is_at(list, key, j);
        contents_at(list, j);
        contents_at(entries, j);
        contents_at(list, i);
    }
    assert(contents(list) =~= contents(entries).insert(entry.0@, entry.1));
}

/// Inserting an entry where its key belongs adds it to the map.
proof fn placed<V>(entries: Seq<(String, V)>, i: int, entry: (String, V))
    requires
        ascending(entries),
        0 <= i <= entries.len(),
        forall|j: int| 0 <= j < i ==> text::before(#[trigger] entries[j].0@, entry.0@),
        forall|j: int| i <= j < entries.len() ==> text::before(entry.0@, #[trigger] entries[j].0@),
    ensures
        ascending(entries.insert(i, entry)),
        contents(entries.insert(i, entry)) == contents(entries).insert(entry.0@, entry.1),
{
    let list = entries.insert(i, entry);
    assert forall|j: int, k: int| 0 <= j < k < list.len() implies text::before(
        (#[trigger] list[j]).0@,
        (#[trigger] list[k]).0@,
    ) by {
        let from = if j < i { j } else { j - 1 };
        let to = if k < i { k } else { k - 1 };
        if j != i && k != i {
            assert(list[j] == entries[from]);
            assert(list[k] == entries[to]);
        } else if j == i {
            assert(list[k] == entries[to]);
        } else {
            assert(list[j] == entries[from]);
        }
    }
    assert forall|key: Seq<char>|
        contents(list).contains_key(key) == contents(entries).insert(
            entry.0@,
            entry.1,
        ).contains_key(key) by {
        if contents(list).contains_key(key) {
            let j = choose|j: int| is_at(list, key, j);
            if j != i {
                assert(is_at(entries, key, if j < i { j } else { j - 1 }));
            }
        }
        if contents(entries).contains_key(key) {
            let j = choose|j: int| is_at(entries, key, j);
            assert(is_at(list, key, if j < i { j } else { j + 1 }));
        }
        assert(is_at(list, entry.0@, i));
    }
    assert forall|key: Seq<char>| contents(list).contains_key(key) implies contents(list)[key]
        == contents(entries).insert(entry.0@, entry.1)[key] by {
        let j = choose|j: int| is_at(list, key, j);
        contents_at(list, j);
        contents_at(list, i);
        if j != i {
            contents_at(entries, if j < i { j } else { j - 1 });
        }
    }
    assert(contents(list) =~= contents(entries).insert(entry.0@, entry.1));
}

/// A map with string keys. Its entries are held, and listed, in ascending order of the
/// keys, and no key occurs twice.
#[derive(Debug)]
#[verifier::reject_recursive_types(V)]
pub struct StringMap<V> {
    entries: Vec<(String, V)>,
}

impl<V> View for StringMap<V> {
    type V = Map<Seq<char>, V>;

    closed spec fn view(&self) -> Map<Seq<char>, V> {
        contents(self.entries@)
    }
}

impl<V> StringMap<V> {
    #[verifier::type_invariant]
    spec fn in_order(self) -> bool {
        ascending(self.entries@)
    }

    /// Creates an empty map.
    pub fn new() -> (map: Self)
        ensures
            map@ == Map::<Seq<char>, V>::empty(),
    {
        let map = StringMap { entries: Vec::new() };
        assert(map@ == Map::<Seq<char>, V>::empty());
        map
    }

    /// The place of `key`: where it is, or where it would have to be inserted.
    fn find(entries: &Vec<(String, V)>, key: &str) -> (place: Result<usize, usize>)
        requires
            ascending(entries@),
        ensures
            match place {
                Ok(i) => is_at(entries@, key@, i as int),
                Err(i) => {
                    &&& i <= entries@.len()
                    &&& forall|j: int| 0 <= j < i ==> text::before(#[trigger] entries@[j].0@, key@)
                    &&& forall|j: int|
                        i <= j < entries@.len() ==> text::before(key@, #[trigger] entries@[j].0@)
                },
            },
    {
        let mut low: usize = 0;
        let mut high: usize = entries.len();
        while low < high
            invariant
                ascending(entries@),
                low <= high <= entries@.len(),
                forall|j: int| 0 <= j < low ==> text::before(#[trigger] entries@[j].0@, key@),
                forall|j: int|
                    high <= j < entries@.len() ==> text::before(key@, #[trigger] entries@[j].0@),
            decreases high - low,
        {
            let mid: usize = low + (high - low) / 2;
            match text::compare(entries[mid].0.as_str(), key) {
                Place::Same => {
                    return Ok(mid);
                },
                Place::Before => {
                    assert forall|j: int| 0 <= j <= mid implies text::before(
                        #[trigger] entries@[j].0@,
                        key@,
                    ) by {
                        if j < mid {
                            text::before_transitive(
                                entries@[j].0@,
                                entries@[mid as int].0@,
                                key@,
                            );
                        }
                    }
                    low = mid + 1;
                },
                Place::After => {
                    assert forall|j: int| mid <= j < entries@.len() implies text::before(
                        key@,
                        #[trigger] entries@[j].0@,
                    ) by {
                        if mid < j {
                            text::before_transitive(
                                key@,
                                entries@[mid as int].0@,
                                entries@[j].0@,
                            );
                        }
                    }
                    high = mid;
                },
            }
        }
        Err(low)
    }

    /// Maps `key` to `value`, in place of what it was mapped to before.
    pub fn insert(&mut self, key: String, value: V)
        ensures
            final(self)@ == old(self)@.insert(key@, value),
    {
        proof {
            use_type_invariant(&*self);
        }
        let ghost list = self.entries@;
        let mut entries: Vec<(String, V)> = Vec::new();
        std::mem::swap(&mut entries, &mut self.entries);
        let place = Self::find(&entries, key.as_str());
        proof {
            match place {
                Ok(i) => replaced(list, i as int, (key, value)),
                Err(i) => placed(list, i as int, (key, value)),
            }
        }
        match place {
            Ok(i) => {
                entries[i] = (key, value);
            },
            Err(i) => {
                entries.insert(i, (key, value));
            },
        }
        self.entries = entries;
    }

    /// The value that `key` is mapped to, if any.
    pub fn get(&self, key: &str) -> (value: Option<&V>)
        ensures
            match value {
                Some(v) => self@.contains_key(key@) && *v == self@[key@],
                None => !self@.contains_key(key@),
            },
    {
        proof {
            use_type_invariant(self);
        }
        match Self::find(&self.entries, key) {
            Ok(i) => {
                proof {
                    contents_at(self.entries@, i as int);
                }
                Some(&self.entries[i].1)
            },
            Err(i) => {
                proof {
                    text::before_irreflexive(key@);
                }
                None
            },
        }
    }

    /// The entries, in ascending order of the keys.
    pub fn entries(&self) -> (list: &Vec<(String, V)>)
        ensures
            ascending(list@),
            contents(list@) == self@,
    {
        proof {
            use_type_invariant(self);
        }
        &self.entries
    }
}

} // verus!
