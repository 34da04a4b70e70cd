//! Values keyed by name and kept in ascending order of their names.
use vstd::prelude::*;
use crate::text;

verus! {

/// How one text compares to another.
#[derive(Debug, Clone, Copy, PartialEq, Eq, Structural)]
pub enum Order {
    /// It stands before the other.
    Before,
    /// They are the same.
    Same,
    /// It stands behind the other.
    Behind,
}

/// Whether `left` stands before `right` in dictionary order of their characters.
pub open spec fn precedes(left: Seq<char>, right: Seq<char>) -> bool
    decreases left.len(),
{
    if right.len() == 0 {
        false
    } else if left.len() == 0 {
        true
    } else if left[0] != right[0] {
        left[0] < right[0]
    } else {
        precedes(left.skip(1), right.skip(1))
    }
}

/// Of two texts one stands before the other unless they are the same, and never both do.
pub proof fn lemma_order_is_total(left: Seq<char>, right: Seq<char>)
    ensures
        precedes(left, right) || left == right || precedes(right, left),
        !(precedes(left, right) && precedes(right, left)),
        precedes(left, right) ==> left != right,
    decreases left.len(),
{
    if left.len() > 0 && right.len() > 0 {
        if left[0] == right[0] {
            lemma_order_is_total(left.skip(1), right.skip(1));
            if left.skip(1) == right.skip(1) {
                assert(left =~= seq![left[0]] + left.skip(1));
                assert(right =~= seq![right[0]] + right.skip(1));
            }
        }
    } else if left.len() == 0 && right.len() == 0 {
        assert(left =~= right);
    }
}

pub proof fn lemma_order_is_transitive(first: Seq<char>, second: Seq<char>, third: Seq<char>)
    requires
        precedes(first, second),
        precedes(second, third),
    ensures
        precedes(first, third),
    decreases first.len(),
{
    if first.len() > 0 {
        if first[0] == second[0] && second[0] == third[0] {
            lemma_order_is_transitive(first.skip(1), second.skip(1), third.skip(1));
        }
    }
}

/// Compares two character slices in dictionary order.
pub fn compare_chars(left: &[char], right: &[char]) -> (order: Order)
    ensures
        match order {
            Order::Before => precedes(left@, right@),
            Order::Same => left@ == right@,
            Order::Behind => precedes(right@, left@),
        },
{
    let mut i: usize = 0;
    assert(left@.skip(0) =~= left@);
    assert(right@.skip(0) =~= right@);
    while i < left.len() && i < right.len()
        invariant
            i <= left@.len(),
            i <= right@.len(),
            left@.take(i as int) == right@.take(i as int),
            precedes(left@.skip(i as int), right@.skip(i as int)) == precedes(left@, right@),
            precedes(right@.skip(i as int), left@.skip(i as int)) == precedes(right@, left@),
        decreases left@.len() - i,
    {
        let a: char = left[i];
        let b: char = right[i];
        assert(left@.skip(i as int)[0] == a);
        assert(right@.skip(i as int)[0] == b);
        if a < b {
            return Order::Before;
        }
        if b < a {
            return Order::Behind;
        }
        assert(left@.skip(i as int).skip(1) =~= left@.skip(i + 1));
        assert(right@.skip(i as int).skip(1) =~= right@.skip(i + 1));
        assert(left@.take(i + 1) =~= left@.take(i as int).push(a));
        assert(right@.take(i + 1) =~= right@.take(i as int).push(b));
        i = i + 1;
    }
    if i < right.len() {
        Order::Before
    } else if i < left.len() {
        Order::Behind
    } else {
        assert(left@.take(i as int) =~= left@);
        assert(right@.take(i as int) =~= right@);
        Order::Same
    }
}

/// Compares two texts in dictionary order.
pub fn compare_text(left: &str, right: &str) -> (order: Order)
    ensures
        match order {
            Order::Before => precedes(left@, right@),
            Order::Same => left@ == right@,
            Order::Behind => precedes(right@, left@),
        },
{
    let left_chars = text::chars_of(left);
    let right_chars = text::chars_of(right);
    compare_chars(left_chars.as_slice(), right_chars.as_slice())
}

/// Every name stands before those that follow it, so no name occurs twice.
pub open spec fn ascending<V>(entries: Seq<(Seq<char>, V)>) -> bool {
    forall|i: int, j: int|
        0 <= i < j < entries.len() ==> precedes((#[trigger] entries[i]).0, (#[trigger] entries[j]).0)
}

/// How many entries stand before a name.
pub open spec fn rank<V>(entries: Seq<(Seq<char>, V)>, name: Seq<char>) -> int
    decreases entries.len(),
{
    if entries.len() == 0 || !precedes(entries[0].0, name) {
        0
    } else {
        1 + rank(entries.skip(1), name)
    }
}

/// The value under a name.
pub open spec fn lookup<V>(entries: Seq<(Seq<char>, V)>, name: Seq<char>) -> Option<V> {
    let at = rank(entries, name);
    if at < entries.len() && entries[at].0 == name {
        Some(entries[at].1)
    } else {
        None
    }
}

/// The entries with a value put under a name, in place of the one that was there.
pub open spec fn with_entry<V>(entries: Seq<(Seq<char>, V)>, name: Seq<char>, value: V) -> Seq<
    (Seq<char>, V),
> {
    let at = rank(entries, name);
    if lookup(entries, name) is Some {
        entries.update(at, (name, value))
    } else {
        entries.insert(at, (name, value))
    }
}

/// The entries without the one under a name.
pub open spec fn without_entry<V>(entries: Seq<(Seq<char>, V)>, name: Seq<char>) -> Seq<
    (Seq<char>, V),
> {
    if lookup(entries, name) is Some {
        entries.remove(rank(entries, name))
    } else {
        entries
    }
}

pub proof fn lemma_rank<V>(entries: Seq<(Seq<char>, V)>, name: Seq<char>)
    requires
        ascending(entries),
    ensures
        0 <= rank(entries, name) <= entries.len(),
        forall|i: int| 0 <= i < rank(entries, name) ==> precedes((#[trigger] entries[i]).0, name),
        forall|i: int|
            rank(entries, name) <= i < entries.len() ==> !precedes((#[trigger] entries[i]).0, name),
    decreases entries.len(),
{
    if entries.len() > 0 {
        let rest = entries.skip(1);
        assert(ascending(rest)) by {
            assert forall|i: int, j: int| 0 <= i < j < rest.len() implies precedes(
                (#[trigger] rest[i]).0,
                (#[trigger] rest[j]).0,
            ) by {
                assert(rest[i] == entries[i + 1]);
                assert(rest[j] == entries[j + 1]);
            }
        }
        lemma_rank(rest, name);
        if precedes(entries[0].0, name) {
            assert forall|i: int| 0 <= i < rank(entries, name) implies precedes(
                (#[trigger] entries[i]).0,
                name,
            ) by {
                if i > 0 {
                    assert(rest[i - 1] == entries[i]);
                }
            }
            assert forall|i: int| rank(entries, name) <= i < entries.len() implies !precedes(
                (#[trigger] entries[i]).0,
                name,
            ) by {
                assert(rest[i - 1] == entries[i]);
            }
        } else {
            assert forall|i: int| 0 <= i < entries.len() implies !precedes(
                (#[trigger] entries[i]).0,
                name,
            ) by {
                if i > 0 && precedes(entries[i].0, name) {
                    assert(precedes(entries[0].0, entries[i].0));
                    lemma_order_is_transitive(entries[0].0, entries[i].0, name);
                }
            }
        }
    }
}

/// The rank is where a name stands or would stand.
pub proof fn lemma_rank_unique<V>(entries: Seq<(Seq<char>, V)>, name: Seq<char>, at: int)
    requires
        ascending(entries),
        0 <= at <= entries.len(),
        forall|i: int| 0 <= i < at ==> precedes((#[trigger] entries[i]).0, name),
        at < entries.len() ==> !precedes(entries[at].0, name),
    ensures
        rank(entries, name) == at,
{
    lemma_rank(entries, name);
    let found = rank(entries, name);
    if found < at {
        assert(precedes(entries[found].0, name));
    }
    if at < found {
        assert(precedes(entries[at].0, name));
    }
}

/// A value is found under a name exactly when an entry carries that name.
pub proof fn lemma_lookup<V>(entries: Seq<(Seq<char>, V)>, name: Seq<char>)
    requires
        ascending(entries),
    ensures
        lookup(entries, name) is Some <==> exists|i: int|
            0 <= i < entries.len() && (#[trigger] entries[i]).0 == name,
        forall|i: int|
            0 <= i < entries.len() && (#[trigger] entries[i]).0 == name ==> lookup(entries, name)
                == Some(entries[i].1) && i == rank(entries, name),
{
    lemma_rank(entries, name);
    assert forall|i: int| 0 <= i < entries.len() && (#[trigger] entries[i]).0 == name implies lookup(
        entries,
        name,
    ) == Some(entries[i].1) && i == rank(entries, name) by {
        lemma_order_is_total(name, name);
        lemma_rank_unique(entries, name, i);
    }
}

pub proof fn lemma_with_entry_ascending<V>(entries: Seq<(Seq<char>, V)>, name: Seq<char>, value: V)
    requires
        ascending(entries),
    ensures
        ascending(with_entry(entries, name, value)),
{
    lemma_rank(entries, name);
    let at = rank(entries, name);
    let after = with_entry(entries, name, value);
    assert forall|i: int, j: int| 0 <= i < j < after.len() implies precedes(
        (#[trigger] after[i]).0,
        (#[trigger] after[j]).0,
    ) by {
        if lookup(entries, name) is Some {
            assert(after[i].0 == entries[i].0);
            assert(after[j].0 == entries[j].0);
        } else {
            if i == at {
                assert(after[j] == entries[j - 1]);
                lemma_order_is_total(entries[j - 1].0, name);
                if entries[j - 1].0 == name {
                    lemma_lookup(entries, name);
                }
            } else if j == at {
                assert(after[i] == entries[i]);
            } else {
                assert(after[i] == if i < at { entries[i] } else { entries[i - 1] });
                assert(after[j] == if j < at { entries[j] } else { entries[j - 1] });
            }
        }
    }
}

pub proof fn lemma_without_entry_ascending<V>(entries: Seq<(Seq<char>, V)>, name: Seq<char>)
    requires
        ascending(entries),
    ensures
        ascending(without_entry(entries, name)),
{
    lemma_rank(entries, name);
    let at = rank(entries, name);
    let after = without_entry(entries, name);
    assert forall|i: int, j: int| 0 <= i < j < after.len() implies precedes(
        (#[trigger] after[i]).0,
        (#[trigger] after[j]).0,
    ) by {
        if lookup(entries, name) is Some {
            assert(after[i] == if i < at { entries[i] } else { entries[i + 1] });
            assert(after[j] == if j < at { entries[j] } else { entries[j + 1] });
        }
    }
}

proof fn lemma_shorter_lookup<V>(entries: Seq<(Seq<char>, V)>, name: Seq<char>)
    requires
        ascending(entries),
        entries.len() > 0,
    ensures
        ascending(entries.drop_last()),
        lookup(entries.drop_last(), name) == if name == entries.last().0 {
            None::<V>
        } else {
            lookup(entries, name)
        },
{
    let shorter = entries.drop_last();
    assert forall|i: int, j: int| 0 <= i < j < shorter.len() implies precedes(
        #[trigger] shorter[i].0,
        #[trigger] shorter[j].0,
    ) by {
        assert(precedes(entries[i].0, entries[j].0));
    }
    lemma_lookup(entries, name);
    lemma_lookup(shorter, name);
    if lookup(shorter, name) is Some {
        let i = choose|i: int| 0 <= i < shorter.len() && (#[trigger] shorter[i]).0 == name;
        assert(entries[i].0 == name);
        assert(precedes(entries[i].0, entries[entries.len() - 1].0));
        lemma_order_is_total(name, name);
    } else if lookup(entries, name) is Some {
        let i = choose|i: int| 0 <= i < entries.len() && (#[trigger] entries[i]).0 == name;
        if i < entries.len() - 1 {
            assert(shorter[i].0 == name);
        }
    }
}

/// Entries in ascending order are determined by what is read from them.
pub proof fn lemma_reads_determine_entries<V>(
    left: Seq<(Seq<char>, V)>,
    right: Seq<(Seq<char>, V)>,
)
    requires
        ascending(left),
        ascending(right),
        forall|name: Seq<char>| lookup(left, name) == #[trigger] lookup(right, name),
    ensures
        left == right,
    decreases left.len(),
{
    if left.len() == 0 {
        if right.len() > 0 {
            lemma_lookup(right, right[0].0);
            lemma_lookup(left, right[0].0);
            assert(lookup(left, right[0].0) == lookup(right, right[0].0));
        }
        assert(left =~= right);
    } else {
        let x = left.last().0;
        lemma_lookup(left, x);
        lemma_lookup(right, x);
        assert(left[left.len() - 1].0 == x);
        assert(lookup(left, x) == lookup(right, x));
        let j = choose|j: int| 0 <= j < right.len() && (#[trigger] right[j]).0 == x;
        let y = right.last().0;
        lemma_lookup(left, y);
        lemma_lookup(right, y);
        assert(right[right.len() - 1].0 == y);
        assert(lookup(left, y) == lookup(right, y));
        let i = choose|i: int| 0 <= i < left.len() && (#[trigger] left[i]).0 == y;
        if x != y {
            assert(j < right.len() - 1);
            assert(i < left.len() - 1);
            assert(precedes(right[j].0, right[right.len() - 1].0));
            assert(precedes(left[i].0, left[left.len() - 1].0));
            lemma_order_is_total(x, y);
        }
        assert(left.last() == right.last());
        lemma_shorter_lookup(left, x);
        lemma_shorter_lookup(right, x);
        assert forall|name: Seq<char>| lookup(left.drop_last(), name) == #[trigger] lookup(
            right.drop_last(),
            name,
        ) by {
            lemma_shorter_lookup(left, name);
            lemma_shorter_lookup(right, name);
            assert(lookup(left, name) == lookup(right, name));
        }
        lemma_reads_determine_entries(left.drop_last(), right.drop_last());
        assert(left =~= left.drop_last().push(left.last()));
        assert(right =~= right.drop_last().push(right.last()));
    }
}

/// Reading after a write gives what was written under its name and leaves other names alone;
/// reading after a removal finds nothing under the removed name.
pub proof fn law_reads_follow_writes<V>(
    entries: Seq<(Seq<char>, V)>,
    name: Seq<char>,
    value: V,
    other: Seq<char>,
)
    requires
        ascending(entries),
    ensures
        lookup(with_entry(entries, name, value), name) == Some(value),
        other != name ==> lookup(with_entry(entries, name, value), other) == lookup(entries, other),
        lookup(without_entry(entries, name), name) is None,
        other != name ==> lookup(without_entry(entries, name), other) == lookup(entries, other),
{
    lemma_rank(entries, name);
    lemma_with_entry_ascending(entries, name, value);
    lemma_without_entry_ascending(entries, name);
    let at = rank(entries, name);
    let after = with_entry(entries, name, value);
    let gone = without_entry(entries, name);
    lemma_lookup(after, name);
    lemma_lookup(after, other);
    lemma_lookup(entries, name);
    lemma_lookup(entries, other);
    lemma_lookup(gone, name);
    lemma_lookup(gone, other);
    assert(after[at] == (name, value));
    if other != name {
        if lookup(entries, other) is Some {
            let i = rank(entries, other);
            assert(entries[i].0 == other);
            let j = if lookup(entries, name) is Some || i < at {
                i
            } else {
                i + 1
            };
            assert(after[j] == entries[i]);
            let k = if lookup(entries, name) is None || i < at {
                i
            } else {
                i - 1
            };
            assert(gone[k] == entries[i]);
        }
        if lookup(after, other) is Some {
            let j = rank(after, other);
            assert(after[j].0 == other);
            let i = if lookup(entries, name) is Some || j < at {
                j
            } else {
                j - 1
            };
            assert(entries[i] == after[j]);
        }
        if lookup(gone, other) is Some {
            let k = rank(gone, other);
            let i = if lookup(entries, name) is None || k < at {
                k
            } else {
                k + 1
            };
            assert(entries[i] == gone[k]);
        }
    }
    if lookup(gone, name) is Some {
        let k = rank(gone, name);
        let i = if lookup(entries, name) is None || k < at {
            k
        } else {
            k + 1
        };
        assert(entries[i] == gone[k]);
        assert(i == at);
    }
}

/// Values keyed by name, in ascending order of their names.
#[derive(Debug, PartialEq, Eq)]
pub struct NameMap<T: View> {
    entries: Vec<(String, T)>,
}

/// What the entries of a map say.
pub open spec fn entry_views<T: View>(entries: Seq<(String, T)>) -> Seq<(Seq<char>, T::V)> {
    Seq::new(entries.len(), |i: int| (entries[i].0@, entries[i].1@))
}

impl<T: View> View for NameMap<T> {
    type V = Seq<(Seq<char>, T::V)>;

    closed spec fn view(&self) -> Seq<(Seq<char>, T::V)> {
        entry_views(self.entries@)
    }
}

impl<T: View + Clone> Clone for NameMap<T> {
    fn clone(&self) -> (copy: NameMap<T>)
        ensures
            copy.values().len() == self.values().len(),
            forall|i: int| 0 <= i < self@.len() ==> #[trigger] copy@[i].0 == self@[i].0,
            forall|i: int|
                0 <= i < self.values().len() ==> cloned::<T>(
                    self.values()[i],
                    #[trigger] copy.values()[i],
                ),
    {
        proof {
            use_type_invariant(self);
        }
        let mut entries: Vec<(String, T)> = Vec::new();
        let mut i: usize = 0;
        while i < self.entries.len()
            invariant
                i <= self.entries@.len(),
                entries@.len() == i,
                forall|k: int|
                    0 <= k < i ==> #[trigger] entries@[k].0@ == self.entries@[k].0@ && cloned::<T>(
                        self.entries@[k].1,
                        entries@[k].1,
                    ),
            decreases self.entries@.len() - i,
        {
            let ghost before = entries@;
            let name = self.entries[i].0.clone();
            let value = self.entries[i].1.clone();
            assert(cloned::<T>(self.entries@[i as int].1, value));
            entries.push((name, value));
            i = i + 1;
            assert forall|k: int| 0 <= k < i implies #[trigger] entries@[k].0@
                == self.entries@[k].0@ && cloned::<T>(self.entries@[k].1, entries@[k].1) by {
                if k < i - 1 {
                    assert(entries@[k] == before[k]);
                    assert(before[k].0@ == self.entries@[k].0@);
                }
            }
        }
        proof {
            let ours = entry_views(entries@);
            assert forall|k: int, l: int| 0 <= k < l < ours.len() implies precedes(
                #[trigger] ours[k].0,
                #[trigger] ours[l].0,
            ) by {
                assert(entries@[k].0@ == self.entries@[k].0@);
                assert(entries@[l].0@ == self.entries@[l].0@);
                assert(precedes(self@[k].0, self@[l].0));
            }
        }
        let copy = NameMap { entries };
        proof {
            assert forall|k: int| 0 <= k < self@.len() implies #[trigger] copy@[k].0
                == self@[k].0 by {
                assert(copy.entries@[k].0@ == self.entries@[k].0@);
            }
            assert forall|k: int| 0 <= k < self.values().len() implies cloned::<T>(
                self.values()[k],
                #[trigger] copy.values()[k],
            ) by {
                assert(copy.entries@[k].0@ == self.entries@[k].0@);
            }
        }
        copy
    }
}

impl<T: View> NameMap<T> {
    /// The values, in the order of their names.
    pub closed spec fn values(&self) -> Seq<T> {
        Seq::new(self.entries@.len(), |i: int| self.entries@[i].1)
    }

    /// The names ascend.
    #[verifier::type_invariant]
    pub open spec fn well_formed(&self) -> bool {
        ascending(self@)
    }

    /// A map without entries.
    pub fn new() -> (map: NameMap<T>)
        ensures
            map@ == Seq::<(Seq<char>, T::V)>::empty(),
    {
        let map = NameMap { entries: Vec::new() };
        assert(map@ =~= Seq::<(Seq<char>, T::V)>::empty());
        map
    }

    /// How many entries there are.
    pub fn len(&self) -> (length: usize)
        ensures
            length == self@.len(),
    {
        self.entries.len()
    }

    /// The name of an entry.
    pub fn name_at(&self, i: usize) -> (name: &str)
        requires
            i < self@.len(),
        ensures
            name@ == self@[i as int].0,
    {
        self.entries[i].0.as_str()
    }

    /// The value of an entry.
    pub fn value_at(&self, i: usize) -> (value: &T)
        requires
            i < self@.len(),
        ensures
            value@ == self@[i as int].1,
    {
        &self.entries[i].1
    }

    fn position(&self, name: &str) -> (found: (usize, bool))
        ensures
            found.0 == rank(self@, name@),
            found.0 <= self@.len(),
            found.1 == (lookup(self@, name@) is Some),
            found.1 ==> found.0 < self@.len() && self@[found.0 as int].0 == name@,
    {
        proof {
            use_type_invariant(self);
            lemma_rank(self@, name@);
        }
        let mut i: usize = 0;
        while i < self.entries.len()
            invariant
                ascending(self@),
                i <= self@.len(),
                self@.len() == self.entries@.len(),
                forall|k: int| 0 <= k < i ==> precedes((#[trigger] self@[k]).0, name@),
            decreases self@.len() - i,
        {
            match compare_text(self.entries[i].0.as_str(), name) {
                Order::Before => {
                    assert(precedes(self@[i as int].0, name@));
                },
                Order::Same => {
                    proof {
                        lemma_order_is_total(name@, name@);
                        lemma_rank_unique(self@, name@, i as int);
                    }
                    return (i, true);
                },
                Order::Behind => {
                    proof {
                        lemma_order_is_total(self@[i as int].0, name@);
                        lemma_rank_unique(self@, name@, i as int);
                    }
                    return (i, false);
                },
            }
            i = i + 1;
        }
        proof {
            lemma_rank_unique(self@, name@, i as int);
        }
        (i, false)
    }

    /// The value under a name.
    pub fn get(&self, name: &str) -> (value: Option<&T>)
        ensures
            match value {
                Some(value) => lookup(self@, name@) == Some(value@),
                None => lookup(self@, name@) is None,
            },
    {
        let (at, present) = self.position(name);
        if present {
            Some(&self.entries[at].1)
        } else {
            None
        }
    }

    /// Whether there is a value under a name.
    pub fn contains(&self, name: &str) -> (present: bool)
        ensures
            present == (lookup(self@, name@) is Some),
    {
        let (_at, present) = self.position(name);
        present
    }

    /// Puts a value under a name, in place of the one that was there.
    pub fn insert(&mut self, name: String, value: T)
        ensures
            final(self)@ == with_entry(old(self)@, name@, value@),
    {
        proof {
            use_type_invariant(&*self);
            lemma_rank(self@, name@);
            lemma_with_entry_ascending(self@, name@, value@);
        }
        let (at, present) = self.position(name.as_str());
        let mut map = NameMap { entries: Vec::new() };
        std::mem::swap(self, &mut map);
        let mut entries = map.into_entries();
        let ghost before = entries@;
        let ghost view = (name@, value@);
        if present {
            entries[at] = (name, value);
            assert(entry_views(entries@) =~= entry_views(before).update(at as int, view));
        } else {
            entries.insert(at, (name, value));
            assert(entry_views(entries@) =~= entry_views(before).insert(at as int, view));
        }
        *self = NameMap { entries };
    }

    /// Removes the value under a name, if there is one.
    pub fn remove(&mut self, name: &str) -> (removed: bool)
        ensures
            removed == (lookup(old(self)@, name@) is Some),
            final(self)@ == without_entry(old(self)@, name@),
    {
        proof {
            use_type_invariant(&*self);
            lemma_rank(self@, name@);
            lemma_without_entry_ascending(self@, name@);
        }
        let (at, present) = self.position(name);
        if present {
            let mut map = NameMap { entries: Vec::new() };
            std::mem::swap(self, &mut map);
            let mut entries = map.into_entries();
            let ghost before = entries@;
            let _entry = entries.remove(at);
            assert(entry_views(entries@) =~= entry_views(before).remove(at as int));
            *self = NameMap { entries };
        }
        present
    }

    /// The entries of the map, in order.
    pub fn into_entries(self) -> (entries: Vec<(String, T)>)
        ensures
            entry_views(entries@) == self@,
            ascending(self@),
    {
        proof {
            use_type_invariant(&self);
        }
        self.entries
    }
}

/// The view of a map is that of its values under its names.
pub proof fn lemma_values<T: View>(map: NameMap<T>)
    ensures
        map.values().len() == map@.len(),
        forall|i: int| 0 <= i < map@.len() ==> #[trigger] map@[i].1 == map.values()[i]@,
{
}

/// One text stands before another exactly if it is a proper beginning of it, or has the lower
/// character where the two first differ.
pub proof fn law_order_is_that_of_the_first_difference(left: &str, right: &str, order: Order, at: int)
    requires
        call_ensures(compare_text, (left, right), order),
        0 <= at <= left@.len() && at <= right@.len(),
        left@.take(at) == right@.take(at),
        at == left@.len() || at == right@.len() || left@[at] != right@[at],
    ensures
        order == Order::Same <==> at == left@.len() && at == right@.len(),
        order == Order::Before <==> at < right@.len() && (at == left@.len() || left@[at]
            < right@[at]),
        order == Order::Behind <==> at < left@.len() && (at == right@.len() || right@[at]
            < left@[at]),
{
    lemma_order_is_total(left@, right@);
    lemma_difference_decides(left@, right@, at);
    lemma_difference_decides(right@, left@, at);
    if at == left@.len() && at == right@.len() {
        assert(left@ =~= left@.take(at));
        assert(right@ =~= right@.take(at));
    }
}

proof fn lemma_difference_decides(left: Seq<char>, right: Seq<char>, at: int)
    requires
        0 <= at <= left.len() && at <= right.len(),
        left.take(at) == right.take(at),
        at == left.len() || at == right.len() || left[at] != right[at],
    ensures
        precedes(left, right) <==> at < right.len() && (at == left.len() || left[at] < right[at]),
    decreases at,
{
    if at > 0 {
        assert(left[0] == left.take(at)[0]);
        assert(right[0] == right.take(at)[0]);
        assert(left.skip(1).take(at - 1) =~= left.take(at).skip(1));
        assert(right.skip(1).take(at - 1) =~= right.take(at).skip(1));
        lemma_difference_decides(left.skip(1), right.skip(1), at - 1);
    }
}

/// What is put under a name is read from there, and nothing else changes by it; what is removed is
/// not found any more, and nothing else changes by that either.
pub proof fn law_maps_give_back_what_was_put<T: View>(
    before: NameMap<T>,
    map: &mut NameMap<T>,
    removing: &mut NameMap<T>,
    name: String,
    value: T,
    key: &str,
    other: &str,
    removed: bool,
    own: (Option<&T>, Option<&T>),
    others: (Option<&T>, Option<&T>, Option<&T>),
)
    requires
        before.well_formed(),
        *old(map) == before,
        key@ == name@ && other@ != name@,
        call_ensures(NameMap::<T>::insert, (map, name, value), ()),
        call_ensures(NameMap::<T>::get, (final(map), key), own.0),
        *old(removing) == *final(map),
        call_ensures(NameMap::<T>::remove, (removing, key), removed),
        call_ensures(NameMap::<T>::get, (final(removing), key), own.1),
        call_ensures(NameMap::<T>::get, (&before, other), others.0),
        call_ensures(NameMap::<T>::get, (final(map), other), others.1),
        call_ensures(NameMap::<T>::get, (final(removing), other), others.2),
    ensures
        own.0 is Some && own.0->Some_0@ == value@,
        removed,
        own.1 is None,
        others.1 is Some <==> others.0 is Some,
        others.2 is Some <==> others.0 is Some,
        others.0 is Some ==> others.1->Some_0@ == others.0->Some_0@ && others.2->Some_0@
            == others.0->Some_0@,
{
    law_reads_follow_writes(before@, name@, value@, name@);
    law_reads_follow_writes(before@, name@, value@, other@);
    lemma_with_entry_ascending(before@, name@, value@);
    law_reads_follow_writes(final(map)@, name@, value@, name@);
    law_reads_follow_writes(final(map)@, name@, value@, other@);
}

/// A new map is empty, and something is read from a map exactly where an entry has the name.
pub proof fn law_maps_hold_their_entries<T: View>(
    empty: NameMap<T>,
    map: NameMap<T>,
    name: &str,
    present: bool,
    value: Option<&T>,
    length: usize,
)
    requires
        map.well_formed(),
        call_ensures(NameMap::<T>::new, (), empty),
        call_ensures(NameMap::<T>::contains, (&map, name), present),
        call_ensures(NameMap::<T>::get, (&map, name), value),
        call_ensures(NameMap::<T>::len, (&map,), length),
    ensures
        empty@.len() == 0,
        length == map@.len(),
        present <==> exists|i: int| 0 <= i < map@.len() && (#[trigger] map@[i]).0 == name@,
        present <==> value is Some,
        forall|i: int|
            0 <= i < map@.len() && (#[trigger] map@[i]).0 == name@ ==> value->Some_0@ == map@[i].1,
{
    lemma_lookup(map@, name@);
}

/// Entries are read by their place, and come out in the order of their names.
pub proof fn law_entries_are_read_by_place<T: View>(
    map: NameMap<T>,
    i: usize,
    name: &str,
    value: &T,
    entries: Vec<(String, T)>,
)
    requires
        i < map@.len(),
        call_ensures(NameMap::<T>::name_at, (&map, i), name),
        call_ensures(NameMap::<T>::value_at, (&map, i), value),
        call_ensures(NameMap::<T>::into_entries, (map,), entries),
    ensures
        name@ == map@[i as int].0,
        value@ == map@[i as int].1,
        entries@.len() == map@.len(),
        entries@[i as int].0@ == name@ && entries@[i as int].1@ == value@,
        i + 1 < map@.len() ==> precedes(name@, entries@[i + 1].0@),
{
    let views = entry_views(entries@);
    assert(views.len() == entries@.len());
    assert(views[i as int] == (entries@[i as int].0@, entries@[i as int].1@));
    if i + 1 < map@.len() {
        assert(views[i + 1] == (entries@[i + 1].0@, entries@[i + 1].1@));
        assert(precedes(map@[i as int].0, map@[i + 1].0));
    }
}

} // verus!
