//! Counts by name.

use vstd::prelude::*;

use crate::text;

verus! {

/// How often each of several names was counted, in the order in which the names first
/// came up.
#[derive(Debug)]
pub struct CategoryCounts {
    entries: Vec<(String, u64)>,
}

/// Whether an entry with the name is in the list.
pub open spec fn is_listed(entries: Seq<(String, u64)>, name: Seq<char>) -> bool {
    exists|i: int| 0 <= i < entries.len() && (#[trigger] entries[i]).0@ == name
}

/// The place of an entry with the name.
pub open spec fn place_of(entries: Seq<(String, u64)>, name: Seq<char>) -> int {
    choose|i: int| 0 <= i < entries.len() && (#[trigger] entries[i]).0@ == name
}

/// No name is listed twice.
pub open spec fn listed_once(entries: Seq<(String, u64)>) -> bool {
    forall|i: int, j: int|
        0 <= i < j < entries.len() ==> (#[trigger] entries[i]).0@ != (#[trigger] entries[j]).0@
}

/// A list with its names as they read.
pub open spec fn names_and_counts(entries: Seq<(String, u64)>) -> Seq<(Seq<char>, u64)> {
    entries.map_values(|e: (String, u64)| (e.0@, e.1))
}

/// A list after a name is counted once more: a name that is listed keeps its place,
/// another one goes to the end.
pub open spec fn counted_once_more(list: Seq<(Seq<char>, u64)>, name: Seq<char>) -> Seq<
    (Seq<char>, u64),
> {
    if exists|i: int| 0 <= i < list.len() && (#[trigger] list[i]).0 == name {
        list.map_values(
            |e: (Seq<char>, u64)|
                if e.0 == name {
                    (name, (e.1 + 1) as u64)
                } else {
                    e
                },
        )
    } else {
        list.push((name, 1))
    }
}

/// The counts in a list.
pub open spec fn counts_in(entries: Seq<(String, u64)>) -> Map<Seq<char>, u64> {
    Map::new(
        |name: Seq<char>| is_listed(entries, name),
        |name: Seq<char>| entries[place_of(entries, name)].1,
    )
}

impl View for CategoryCounts {
    type V = Map<Seq<char>, u64>;

    closed spec fn view(&self) -> Map<Seq<char>, u64> {
        counts_in(self.entries@)
    }
}

impl CategoryCounts {
    #[verifier::type_invariant]
    spec fn each_once(self) -> bool {
        listed_once(self.entries@)
    }

    /// No counts.
    pub fn new() -> (r: Self)
        ensures
            r@ == Map::<Seq<char>, u64>::empty(),
            r.listed() == Seq::<(String, u64)>::empty(),
    {
        let r = CategoryCounts { entries: Vec::new() };
        assert(r@ =~= Map::<Seq<char>, u64>::empty());
        r
    }

    /// The names with their counts, in the order in which the names first came up.
    pub closed spec fn listed(&self) -> Seq<(String, u64)> {
        self.entries@
    }

    /// The names with their counts.
    pub fn entries(&self) -> (r: &Vec<(String, u64)>)
        ensures
            r@ == self.listed(),
            listed_once(r@),
            self@ == counts_in(r@),
    {
        proof {
            use_type_invariant(self);
        }
        &self.entries
    }

    /// Whether nothing was counted.
    pub fn is_empty(&self) -> (r: bool)
        ensures
            r == (self@ == Map::<Seq<char>, u64>::empty()),
    {
        proof {
            if self.entries@.len() > 0 {
                assert(is_listed(self.entries@, self.entries@[0].0@));
                assert(self@.contains_key(self.entries@[0].0@));
            } else {
                assert(self@ =~= Map::<Seq<char>, u64>::empty());
            }
        }
        self.entries.len() == 0
    }

    /// The place of the name, or the number of entries where it is not listed.
    fn find(&self, name: &str) -> (r: usize)
        ensures
            r <= self.entries@.len(),
            r < self.entries@.len() ==> self.entries@[r as int].0@ == name@,
            r == self.entries@.len() ==> !is_listed(self.entries@, name@),
    {
        let mut i: usize = 0;
        while i < self.entries.len()
            invariant
                i <= self.entries@.len(),
                forall|j: int| 0 <= j < i ==> (#[trigger] self.entries@[j]).0@ != name@,
            decreases self.entries@.len() - i,
        {
            if text::same_text(self.entries[i].0.as_str(), name) {
                return i;
            }
            i += 1;
        }
        i
    }

    /// The count of the name, if it was counted.
    pub fn get(&self, name: &str) -> (r: Option<&u64>)
        ensures
            r is Some <==> self@.contains_key(name@),
            r matches Some(n) ==> *n == self@[name@],
    {
        proof {
            use_type_invariant(self);
        }
        let at = self.find(name);
        if at < self.entries.len() {
            Some(&self.entries[at].1)
        } else {
            None
        }
    }

    /// Counts the name once more.
    pub fn increment(&mut self, name: String)
        requires
            old(self)@.contains_key(name@) ==> old(self)@[name@] < u64::MAX,
        ensures
            final(self)@ == old(self)@.insert(
                name@,
                if old(self)@.contains_key(name@) {
                    (old(self)@[name@] + 1) as u64
                } else {
                    1
                },
            ),
            names_and_counts(final(self).listed()) == counted_once_more(
                names_and_counts(old(self).listed()),
                name@,
            ),
    {
        proof {
            use_type_invariant(&*self);
        }
        let ghost before = self.entries@;
        let at = self.find(name.as_str());
        let known = at < self.entries.len();
        let mut entries: Vec<(String, u64)> = Vec::new();
        std::mem::swap(&mut entries, &mut self.entries);
        if known {
            assert(is_listed(before, name@));
            assert(place_of(before, name@) == at);
            let count: u64 = entries[at].1;
            let ghost called = name@;
            entries.set(at, (name, count + 1));
            proof {
                names_are_kept(before, entries@, at as int, called);
                assert(counts_in(entries@) =~= counts_in(before).insert(called, (count + 1) as u64));
                let list = names_and_counts(before);
                assert(list[at as int].0 == called);
                assert forall|i: int| 0 <= i < before.len() && i != at implies (
                #[trigger] before[i]).0@ != called by {
                    assert(before[at as int].0@ == called);
                }
                assert(names_and_counts(entries@) =~= counted_once_more(list, called));
            }
        } else {
            let ghost called = name@;
            entries.push((name, 1));
            proof {
                name_is_added(before, entries@, called);
                assert(counts_in(entries@) =~= counts_in(before).insert(called, 1));
                let list = names_and_counts(before);
                assert forall|i: int| 0 <= i < list.len() implies (#[trigger] list[i]).0
                    != called by {
                    assert(before[i].0@ != called);
                }
                assert(names_and_counts(entries@) =~= counted_once_more(list, called));
            }
        }
        self.entries = entries;
    }
}

proof fn names_are_kept(
    before: Seq<(String, u64)>,
    after: Seq<(String, u64)>,
    at: int,
    name: Seq<char>,
)
    requires
        listed_once(before),
        0 <= at < before.len(),
        before[at].0@ == name,
        after == before.update(at, after[at]),
        after[at].0@ == name,
    ensures
        listed_once(after),
        forall|n: Seq<char>| is_listed(after, n) == is_listed(before, n),
        forall|n: Seq<char>| is_listed(before, n) ==> place_of(after, n) == place_of(before, n),
        place_of(after, name) == at,
{
    assert forall|i: int, j: int| 0 <= i < j < after.len() implies (#[trigger] after[i]).0@ != (
    #[trigger] after[j]).0@ by {
        assert(before[i].0@ != before[j].0@);
    }
    assert forall|n: Seq<char>| is_listed(after, n) == is_listed(before, n) by {
        if is_listed(after, n) {
            let i = place_of(after, n);
            assert(before[i].0@ == n);
        }
        if is_listed(before, n) {
            let i = place_of(before, n);
            assert(after[i].0@ == n);
        }
    }
    assert forall|n: Seq<char>| is_listed(before, n) implies place_of(after, n) == place_of(
        before,
        n,
    ) by {
        let i = place_of(before, n);
        assert(after[i].0@ == n);
    }
    assert(is_listed(before, name));
}

proof fn name_is_added(before: Seq<(String, u64)>, after: Seq<(String, u64)>, name: Seq<char>)
    requires
        listed_once(before),
        !is_listed(before, name),
        after == before.push(after.last()),
        after.len() == before.len() + 1,
        after.last().0@ == name,
    ensures
        listed_once(after),
        is_listed(after, name),
        place_of(after, name) == before.len(),
        forall|n: Seq<char>| n != name ==> is_listed(after, n) == is_listed(before, n),
        forall|n: Seq<char>| is_listed(before, n) ==> place_of(after, n) == place_of(before, n),
{
    let last = before.len() as int;
    assert forall|i: int, j: int| 0 <= i < j < after.len() implies (#[trigger] after[i]).0@ != (
    #[trigger] after[j]).0@ by {
        assert(before[i].0@ == after[i].0@);
        if j < last {
            assert(before[i].0@ != before[j].0@);
        }
    }
    assert(after[last].0@ == name);
    assert forall|n: Seq<char>| n != name implies is_listed(after, n) == is_listed(before, n) by {
        if is_listed(after, n) {
            let i = place_of(after, n);
            assert(before[i].0@ == n);
        }
        if is_listed(before, n) {
            let i = place_of(before, n);
            assert(after[i].0@ == n);
        }
    }
    assert forall|n: Seq<char>| is_listed(before, n) implies place_of(after, n) == place_of(
        before,
        n,
    ) by {
        let i = place_of(before, n);
        assert(after[i].0@ == n);
    }
}

/// Every entry of a list without repeated names gives its name its count, and no other
/// name has one.
pub proof fn every_entry_gives_its_count(entries: Seq<(String, u64)>, i: int)
    requires
        listed_once(entries),
        0 <= i < entries.len(),
    ensures
        counts_in(entries).contains_key(entries[i].0@),
        counts_in(entries)[entries[i].0@] == entries[i].1,
        names_and_counts(entries).len() == entries.len(),
        names_and_counts(entries)[i] == (entries[i].0@, entries[i].1),
        forall|name: Seq<char>| #[trigger]
            counts_in(entries).contains_key(name) ==> exists|k: int|
                0 <= k < entries.len() && (#[trigger] entries[k]).0@ == name,
{
    let name = entries[i].0@;
    assert(is_listed(entries, name));
    let k = place_of(entries, name);
    assert(entries[k].0@ == name);
}

/// Counting a name once more adds one to its count and changes no other; a name that was
/// not counted goes to the end with the count one.
pub proof fn one_name_is_counted(list: Seq<(Seq<char>, u64)>, name: Seq<char>)
    ensures
        ({
            let after = counted_once_more(list, name);
            let known = exists|i: int| 0 <= i < list.len() && (#[trigger] list[i]).0 == name;
            &&& after.len() == list.len() + if known {
                0int
            } else {
                1int
            }
            &&& !known ==> after.last() == (name, 1u64)
            &&& forall|i: int|
                0 <= i < list.len() && (#[trigger] list[i]).0 != name ==> after[i] == list[i]
            &&& forall|i: int|
                0 <= i < list.len() && (#[trigger] list[i]).0 == name && list[i].1 < u64::MAX
                    ==> after[i].0 == name && after[i].1 == list[i].1 + 1
        }),
{
}

/// Two lists have the same names and counts.
pub open spec fn same_list(a: Seq<(String, u64)>, b: Seq<(String, u64)>) -> bool {
    &&& a.len() == b.len()
    &&& forall|i: int|
        0 <= i < a.len() ==> (#[trigger] a[i]).0@ == b[i].0@ && a[i].1 == b[i].1
}

/// Two lists with the same names and counts count the same.
proof fn same_lists_count_the_same(a: Seq<(String, u64)>, b: Seq<(String, u64)>)
    requires
        listed_once(a),
        same_list(a, b),
    ensures
        listed_once(b),
        counts_in(a) == counts_in(b),
{
    assert forall|i: int, j: int| 0 <= i < j < b.len() implies (#[trigger] b[i]).0@ != (
    #[trigger] b[j]).0@ by {
        assert(a[i].0@ != a[j].0@);
    }
    assert forall|n: Seq<char>| is_listed(a, n) == is_listed(b, n) by {
        if is_listed(a, n) {
            assert(b[place_of(a, n)].0@ == n);
        }
        if is_listed(b, n) {
            assert(a[place_of(b, n)].0@ == n);
        }
    }
    assert forall|n: Seq<char>| is_listed(a, n) implies a[place_of(a, n)].1 == b[place_of(
        b,
        n,
    )].1 by {
        let i = place_of(a, n);
        let j = place_of(b, n);
        assert(b[i].0@ == n);
        assert(is_listed(b, n));
        assert(a[j].0@ == n);
        assert(i == j);
    }
    assert(counts_in(a) =~= counts_in(b));
}

impl Clone for CategoryCounts {
    fn clone(&self) -> (r: Self)
        ensures
            r@ == self@,
            same_list(self.listed(), r.listed()),
            r.listed().len() == self.listed().len(),
            forall|i: int|
                0 <= i < r.listed().len() ==> (#[trigger] r.listed()[i]).0@ == self.listed()[i].0@
                    && r.listed()[i].1 == self.listed()[i].1,
    {
        proof {
            use_type_invariant(self);
        }
        let mut entries: Vec<(String, u64)> = Vec::new();
        let mut i: usize = 0;
        while i < self.entries.len()
            invariant
                i <= self.entries@.len(),
                entries@.len() == i,
                forall|j: int|
                    0 <= j < i ==> (#[trigger] self.entries@[j]).0@ == entries@[j].0@
                        && self.entries@[j].1 == entries@[j].1,
            decreases self.entries@.len() - i,
        {
            entries.push((self.entries[i].0.clone(), self.entries[i].1));
            i += 1;
        }
        proof {
            same_lists_count_the_same(self.entries@, entries@);
        }
        CategoryCounts { entries }
    }
}

} // verus!
