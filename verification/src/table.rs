//! A small association table from names to values. It keeps its entries in
//! a vector and is read as a map in which a later entry for a name hides
//! an earlier one.

use vstd::prelude::*;

verus! {

pub struct Entry<T> {
    pub name: String,
    pub value: T,
}

pub struct Table<T> {
    pub entries: Vec<Entry<T>>,
}

/// The map that a sequence of entries stands for.
pub open spec fn map_of<T>(entries: Seq<Entry<T>>) -> Map<Seq<char>, T>
    decreases entries.len(),
{
    if entries.len() == 0 {
        Map::empty()
    } else {
        map_of(entries.drop_last()).insert(entries.last().name@, entries.last().value)
    }
}

/// Entries behind position `i` that do not carry `name` do not matter to
/// what the map holds for `name`.
pub proof fn lemma_map_of_tail<T>(entries: Seq<Entry<T>>, name: Seq<char>, i: int)
    requires
        0 <= i <= entries.len(),
        forall|j: int| i <= j < entries.len() ==> (#[trigger] entries[j]).name@ != name,
    ensures
        map_of(entries).contains_key(name) == map_of(entries.take(i)).contains_key(name),
        map_of(entries).contains_key(name) ==> map_of(entries)[name] == map_of(
            entries.take(i),
        )[name],
    decreases entries.len() - i,
{
    if i == entries.len() {
        assert(entries.take(i) =~= entries);
    } else {
        let front = entries.drop_last();
        assert(entries.last() == entries[entries.len() - 1]);
        assert forall|j: int| i <= j < front.len() implies (#[trigger] front[j]).name@ != name by {
            assert(front[j] == entries[j]);
        }
        lemma_map_of_tail(front, name, i);
        assert(front.take(i) =~= entries.take(i));
    }
}

/// Replacing the last entry for `name` by another entry for `name` is an
/// insertion into the map.
pub proof fn lemma_map_of_update<T>(entries: Seq<Entry<T>>, k: int, entry: Entry<T>)
    requires
        0 <= k < entries.len(),
        entries[k].name@ == entry.name@,
        forall|j: int| k < j < entries.len() ==> (#[trigger] entries[j]).name@ != entry.name@,
    ensures
        map_of(entries.update(k, entry)) == map_of(entries).insert(entry.name@, entry.value),
    decreases entries.len() - k,
{
    let changed = entries.update(k, entry);
    if k == entries.len() - 1 {
        assert(changed.drop_last() =~= entries.drop_last());
        assert(map_of(changed) =~= map_of(entries).insert(entry.name@, entry.value));
    } else {
        let front = entries.drop_last();
        assert forall|j: int| k < j < front.len() implies (#[trigger] front[j]).name@
            != entry.name@ by {
            assert(front[j] == entries[j]);
        }
        lemma_map_of_update(front, k, entry);
        assert(changed.drop_last() =~= front.update(k, entry));
        assert(changed.last() == entries.last());
        assert(entries.last() == entries[entries.len() - 1]);
        assert(map_of(changed) =~= map_of(entries).insert(entry.name@, entry.value));
    }
}

impl<T> View for Table<T> {
    type V = Map<Seq<char>, T>;

    open spec fn view(&self) -> Map<Seq<char>, T> {
        map_of(self.entries@)
    }
}

impl<T> Table<T> {
    pub fn new() -> (r: Self)
        ensures
            r@ == Map::<Seq<char>, T>::empty(),
            r.entries@.len() == 0,
    {
        Table { entries: Vec::new() }
    }

    /// The place of the entry that decides what the table holds for
    /// `name`: the last one that carries it.
    pub fn position(&self, name: &String) -> (r: Option<usize>)
        ensures
            r.is_some() == self@.contains_key(name@),
            r matches Some(k) ==> {
                &&& k < self.entries@.len()
                &&& self.entries@[k as int].name@ == name@
                &&& self.entries@[k as int].value == self@[name@]
                &&& forall|j: int|
                    k < j < self.entries@.len() ==> (#[trigger] self.entries@[j]).name@ != name@
            },
    {
        let mut i: usize = self.entries.len();
        while i > 0
            invariant
                i <= self.entries@.len(),
                forall|j: int|
                    i <= j < self.entries@.len() ==> (#[trigger] self.entries@[j]).name@ != name@,
            decreases i,
        {
            i = i - 1;
            if self.entries[i].name == *name {
                proof {
                    lemma_map_of_tail(self.entries@, name@, i + 1);
                    let upto = self.entries@.take(i + 1);
                    assert(upto.last() == self.entries@[i as int]);
                }
                return Some(i);
            }
        }
        proof {
            lemma_map_of_tail(self.entries@, name@, 0);
            assert(self.entries@.take(0).len() == 0);
        }
        None
    }

    pub fn contains_key(&self, name: &String) -> (r: bool)
        ensures
            r == self@.contains_key(name@),
    {
        self.position(name).is_some()
    }

    pub fn get(&self, name: &String) -> (r: Option<&T>)
        ensures
            r.is_some() == self@.contains_key(name@),
            r matches Some(value) ==> *value == self@[name@],
    {
        match self.position(name) {
            Some(k) => Some(&self.entries[k].value),
            None => None,
        }
    }

    /// Binds `name` to `value`, in place of what it was bound to.
    pub fn insert(&mut self, name: String, value: T)
        ensures
            final(self)@ == old(self)@.insert(name@, value),
    {
        match self.position(&name) {
            Some(k) => {
                let entry = Entry { name, value };
                proof {
                    lemma_map_of_update(self.entries@, k as int, entry);
                }
                self.entries[k] = entry;
            },
            None => {
                let ghost before = self.entries@;
                self.entries.push(Entry { name, value });
                assert(self.entries@.drop_last() =~= before);
            },
        }
    }
}

} // verus!
