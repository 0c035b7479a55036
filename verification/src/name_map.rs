//! A map from names to values that keeps its entries in the order in which
//! their names first came.

use vstd::prelude::*;

use crate::text::str_equal;

verus! {

/// The position of `name` among the entries, or their number where no entry
/// has the name.
pub open spec fn position_of<V>(entries: Seq<(Seq<char>, V)>, name: Seq<char>) -> int
    decreases entries.len(),
{
    if entries.len() == 0 {
        0
    } else if entries[0].0 == name {
        0
    } else {
        1 + position_of(entries.drop_first(), name)
    }
}

/// Whether an entry has the name.
pub open spec fn has_name<V>(entries: Seq<(Seq<char>, V)>, name: Seq<char>) -> bool {
    position_of(entries, name) < entries.len()
}

/// The value under a name.
pub open spec fn value_of<V>(entries: Seq<(Seq<char>, V)>, name: Seq<char>) -> Option<V> {
    if has_name(entries, name) {
        Some(entries[position_of(entries, name)].1)
    } else {
        None
    }
}

/// The entries once `value` stands under `name`: in the place of the old
/// value where the name is known, at the end where it is new.
pub open spec fn with_entry<V>(
    entries: Seq<(Seq<char>, V)>,
    name: Seq<char>,
    value: V,
) -> Seq<(Seq<char>, V)> {
    if has_name(entries, name) {
        entries.update(position_of(entries, name), (name, value))
    } else {
        entries.push((name, value))
    }
}

/// The entries of `base` once every entry of `over` is put into them, in
/// order.
pub open spec fn merged<V>(
    base: Seq<(Seq<char>, V)>,
    over: Seq<(Seq<char>, V)>,
) -> Seq<(Seq<char>, V)>
    decreases over.len(),
{
    if over.len() == 0 {
        base
    } else {
        merged(with_entry(base, over[0].0, over[0].1), over.drop_first())
    }
}

/// No two entries share a name.
pub open spec fn distinct_names<V>(entries: Seq<(Seq<char>, V)>) -> bool {
    forall|i: int, j: int|
        0 <= i < j < entries.len() ==> (#[trigger] entries[i]).0 != (#[trigger] entries[j]).0
}

/// The position of a name is that of the first entry that has it.
pub proof fn lemma_position_of<V>(entries: Seq<(Seq<char>, V)>, name: Seq<char>)
    ensures
        0 <= position_of(entries, name) <= entries.len(),
        has_name(entries, name) ==> entries[position_of(entries, name)].0 == name,
        forall|i: int|
            0 <= i < position_of(entries, name) ==> (#[trigger] entries[i]).0 != name,
    decreases entries.len(),
{
    if entries.len() > 0 && entries[0].0 != name {
        let rest = entries.drop_first();
        lemma_position_of(rest, name);
        assert forall|i: int| 0 <= i < position_of(entries, name) implies (
        #[trigger] entries[i]).0 != name by {
            if i > 0 {
                assert(rest[i - 1] == entries[i]);
            }
        }
    }
}

/// The first position at which a name stands is its position.
pub proof fn lemma_position_is<V>(entries: Seq<(Seq<char>, V)>, name: Seq<char>, p: int)
    requires
        0 <= p <= entries.len(),
        forall|i: int| 0 <= i < p ==> (#[trigger] entries[i]).0 != name,
        p < entries.len() ==> entries[p].0 == name,
    ensures
        position_of(entries, name) == p,
    decreases entries.len(),
{
    if entries.len() > 0 && p > 0 {
        assert(entries[0].0 != name);
        let rest = entries.drop_first();
        assert forall|i: int| 0 <= i < p - 1 implies (#[trigger] rest[i]).0 != name by {
            assert(rest[i] == entries[i + 1]);
        }
        if p < entries.len() {
            assert(rest[p - 1] == entries[p]);
        }
        lemma_position_is(rest, name, p - 1);
    }
}

/// Putting an entry keeps the names distinct, makes the name known and
/// leaves every other name as it was.
pub proof fn lemma_with_entry<V>(entries: Seq<(Seq<char>, V)>, name: Seq<char>, value: V)
    requires
        distinct_names(entries),
    ensures
        distinct_names(with_entry(entries, name, value)),
        value_of(with_entry(entries, name, value), name) == Some(value),
        forall|other: Seq<char>|
            other != name ==> value_of(with_entry(entries, name, value), other) == value_of(
                entries,
                other,
            ),
        with_entry(entries, name, value).len() == if has_name(entries, name) {
            entries.len()
        } else {
            entries.len() + 1
        },
{
    let after = with_entry(entries, name, value);
    let p = position_of(entries, name);
    lemma_position_of(entries, name);
    assert forall|i: int, j: int| 0 <= i < j < after.len() implies (#[trigger] after[i]).0 != (
    #[trigger] after[j]).0 by {
        if has_name(entries, name) {
            assert(entries[i].0 != entries[j].0);
            assert(after[i].0 == entries[i].0);
            assert(after[j].0 == entries[j].0);
        } else {
            if j < entries.len() {
                assert(entries[i].0 != entries[j].0);
            } else {
                assert(entries[i].0 != name);
            }
        }
    }
    assert forall|i: int| 0 <= i < p implies (#[trigger] after[i]).0 != name by {
        assert(after[i].0 == entries[i].0);
    }
    lemma_position_is(after, name, p);
    assert forall|other: Seq<char>| other != name implies value_of(after, other) == value_of(
        entries,
        other,
    ) by {
        let q = position_of(entries, other);
        lemma_position_of(entries, other);
        if q < entries.len() {
            assert forall|i: int| 0 <= i < q implies (#[trigger] after[i]).0 != other by {
                assert(after[i].0 == entries[i].0);
            }
            assert(after[q] == entries[q]);
            lemma_position_is(after, other, q);
        } else {
            assert forall|i: int| 0 <= i < after.len() implies (#[trigger] after[i]).0
                != other by {
                if i < entries.len() {
                    assert(after[i].0 == entries[i].0);
                }
            }
            lemma_position_is(after, other, after.len() as int);
        }
    }
}

/// The entries with `f` applied to every value.
pub open spec fn mapped<V, W>(
    entries: Seq<(Seq<char>, V)>,
    f: spec_fn(V) -> W,
) -> Seq<(Seq<char>, W)> {
    entries.map_values(|entry: (Seq<char>, V)| (entry.0, f(entry.1)))
}

/// Names keep their positions where the values are mapped.
pub proof fn lemma_mapped_position<V, W>(
    entries: Seq<(Seq<char>, V)>,
    f: spec_fn(V) -> W,
    name: Seq<char>,
)
    ensures
        position_of(mapped(entries, f), name) == position_of(entries, name),
        has_name(mapped(entries, f), name) == has_name(entries, name),
        value_of(mapped(entries, f), name) == match value_of(entries, name) {
            Some(value) => Some(f(value)),
            None => None,
        },
    decreases entries.len(),
{
    lemma_position_of(entries, name);
    if entries.len() > 0 {
        assert(mapped(entries, f)[0].0 == entries[0].0);
        assert(mapped(entries, f).drop_first() =~= mapped(entries.drop_first(), f));
        lemma_mapped_position(entries.drop_first(), f, name);
    }
}

/// Putting an entry and mapping the values can be done in either order.
pub proof fn lemma_mapped_with_entry<V, W>(
    entries: Seq<(Seq<char>, V)>,
    f: spec_fn(V) -> W,
    name: Seq<char>,
    value: V,
)
    ensures
        mapped(with_entry(entries, name, value), f) == with_entry(
            mapped(entries, f),
            name,
            f(value),
        ),
{
    lemma_mapped_position(entries, f, name);
    lemma_position_of(entries, name);
    assert(mapped(with_entry(entries, name, value), f) =~= with_entry(
        mapped(entries, f),
        name,
        f(value),
    ));
}

/// A map from names to values.
pub struct NameMap<V> {
    entries: Vec<(String, V)>,
}

impl<V> View for NameMap<V> {
    type V = Seq<(Seq<char>, V)>;

    /// The entries, in the order in which their names first came.
    closed spec fn view(&self) -> Seq<(Seq<char>, V)> {
        self.entries@.map_values(|entry: (String, V)| (entry.0@, entry.1))
    }
}

impl<V> NameMap<V> {
    #[verifier::type_invariant]
    spec fn names_are_distinct(&self) -> bool {
        distinct_names(self@)
    }

    /// An empty map.
    pub fn new() -> (map: Self)
        ensures
            map@ == Seq::<(Seq<char>, V)>::empty(),
    {
        let map = NameMap { entries: Vec::new() };
        assert(map@ =~= Seq::<(Seq<char>, V)>::empty());
        map
    }

    /// The number of entries. Their names are distinct.
    pub fn len(&self) -> (len: usize)
        ensures
            len == self@.len(),
            distinct_names(self@),
    {
        proof {
            use_type_invariant(self);
        }
        self.entries.len()
    }

    /// Whether the map has no entry.
    pub fn is_empty(&self) -> (empty: bool)
        ensures
            empty == (self@.len() == 0),
    {
        self.entries.len() == 0
    }

    /// The position of the entry under `name`, or the number of entries.
    pub fn position(&self, name: &str) -> (position: usize)
        ensures
            position == position_of(self@, name@),
    {
        let mut i: usize = 0;
        assert(self@.skip(0) =~= self@);
        while i < self.entries.len()
            invariant
                i <= self.entries.len(),
                position_of(self@, name@) == i + position_of(self@.skip(i as int), name@),
            decreases self.entries.len() - i,
        {
            assert(self@.skip(i as int).drop_first() =~= self@.skip(i + 1));
            assert(self@.skip(i as int)[0] == self@[i as int]);
            if str_equal(self.entries[i].0.as_str(), name) {
                return i;
            }
            i += 1;
        }
        i
    }

    /// Whether an entry stands under `name`.
    pub fn contains_key(&self, name: &str) -> (known: bool)
        ensures
            known == has_name(self@, name@),
    {
        self.position(name) < self.entries.len()
    }

    /// The value under `name`.
    pub fn get(&self, name: &str) -> (value: Option<&V>)
        ensures
            value matches Some(v) ==> value_of(self@, name@) == Some(*v),
            value is None ==> value_of(self@, name@) is None,
    {
        let position = self.position(name);
        if position < self.entries.len() {
            Some(&self.entries[position].1)
        } else {
            None
        }
    }

    /// The name of the entry at `index`.
    pub fn name_at(&self, index: usize) -> (name: &String)
        requires
            index < self@.len(),
        ensures
            name@ == self@[index as int].0,
    {
        &self.entries[index].0
    }

    /// The value of the entry at `index`.
    pub fn value_at(&self, index: usize) -> (value: &V)
        requires
            index < self@.len(),
        ensures
            *value == self@[index as int].1,
    {
        &self.entries[index].1
    }

    /// Puts `value` in the place of the value at `index` and hands back the
    /// value that stood there.
    pub fn replace_at(&mut self, index: usize, value: V) -> (replaced: V)
        requires
            index < old(self)@.len(),
        ensures
            final(self)@ == old(self)@.update(index as int, (old(self)@[index as int].0, value)),
            replaced == old(self)@[index as int].1,
    {
        proof {
            use_type_invariant(&*self);
        }
        let ghost before = self@;
        let mut entries: Vec<(String, V)> = Vec::new();
        assert(entries@.map_values(|entry: (String, V)| (entry.0@, entry.1)) =~= Seq::<
            (Seq<char>, V),
        >::empty());
        core::mem::swap(&mut self.entries, &mut entries);
        let old_entry = entries.remove(index);
        entries.insert(index, (old_entry.0, value));
        let ghost after = before.update(index as int, (before[index as int].0, value));
        assert(entries@.map_values(|entry: (String, V)| (entry.0@, entry.1)) =~= after);
        assert forall|i: int, j: int| 0 <= i < j < after.len() implies (#[trigger] after[i]).0 != (
        #[trigger] after[j]).0 by {
            assert(before[i].0 != before[j].0);
        }
        self.entries = entries;
        old_entry.1
    }

    /// Puts `value` under `name` and hands back the value that stood there.
    pub fn insert(&mut self, name: String, value: V) -> (replaced: Option<V>)
        ensures
            final(self)@ == with_entry(old(self)@, name@, value),
            replaced == value_of(old(self)@, name@),
            distinct_names(final(self)@),
    {
        proof {
            use_type_invariant(&*self);
            lemma_with_entry(self@, name@, value);
            lemma_position_of(self@, name@);
        }
        let ghost before = self@;
        let position = self.position(name.as_str());
        let mut entries: Vec<(String, V)> = Vec::new();
        assert(entries@.map_values(|entry: (String, V)| (entry.0@, entry.1)) =~= Seq::<
            (Seq<char>, V),
        >::empty());
        core::mem::swap(&mut self.entries, &mut entries);
        assert(entries@.map_values(|entry: (String, V)| (entry.0@, entry.1)) == before);
        let replaced = if position < entries.len() {
            let old_entry = entries.remove(position);
            entries.insert(position, (name, value));
            Some(old_entry.1)
        } else {
            entries.push((name, value));
            None
        };
        assert(entries@.map_values(|entry: (String, V)| (entry.0@, entry.1)) =~= with_entry(
            before,
            name@,
            value,
        ));
        self.entries = entries;
        replaced
    }

    /// Puts every entry of `other` into the map, in order.
    pub fn extend(&mut self, other: NameMap<V>)
        ensures
            final(self)@ == merged(old(self)@, other@),
            distinct_names(final(self)@),
    {
        let ghost over = other@;
        let ghost start = self@;
        let entries = other.entries;
        assert(start =~= self@);
        assert(over.skip(0) =~= over);
        for entry in it: entries
            invariant
                it.seq() == entries@,
                over == entries@.map_values(|entry: (String, V)| (entry.0@, entry.1)),
                merged(start, over) == merged(self@, over.skip(it.index() as int)),
        {
            proof {
                let k = it.index() as int;
                assert(over.skip(k)[0] == over[k]);
                assert(over.skip(k).drop_first() =~= over.skip(k + 1));
            }
            self.insert(entry.0, entry.1);
        }
        assert(over.skip(over.len() as int).len() == 0);
        proof {
            use_type_invariant(&*self);
        }
    }
}

} // verus!
