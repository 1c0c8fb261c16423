//! How many nodes have each status.

use vstd::prelude::*;
use vstd::string::*;
use crate::text::{
    decimal, decimal_text, is_below, joined, text_below, text_below_irreflexive, text_below_total,
    text_below_transitive,
};

verus! {

/// Counts by name, in the order of the names, each name once.
pub struct StatusCounts {
    entries: Vec<(String, usize)>,
}

/// Whether the names stand in their order and no name stands twice.
pub open spec fn ascending(entries: Seq<(Seq<char>, usize)>) -> bool {
    forall|i: int, j: int|
        0 <= i < j < entries.len() ==> text_below(#[trigger] entries[i].0, #[trigger] entries[j].0)
}

/// Whether the entries stand in order and each name counts for something.
pub open spec fn kept(entries: Seq<(Seq<char>, usize)>) -> bool {
    &&& ascending(entries)
    &&& forall|i: int| 0 <= i < entries.len() ==> (#[trigger] entries[i]).1 > 0
}

/// The count under a name, if the name stands.
pub open spec fn entry_of(entries: Seq<(Seq<char>, usize)>, name: Seq<char>) -> Option<usize>
    decreases entries.len(),
{
    if entries.len() == 0 {
        None
    } else if entries.last().0 == name {
        Some(entries.last().1)
    } else {
        entry_of(entries.drop_last(), name)
    }
}

/// The count under a name, zero where the name does not stand.
pub open spec fn count_of(entries: Seq<(Seq<char>, usize)>, name: Seq<char>) -> nat {
    match entry_of(entries, name) {
        Some(count) => count as nat,
        None => 0,
    }
}

/// The sum of the counts.
pub open spec fn total(entries: Seq<(Seq<char>, usize)>) -> nat
    decreases entries.len(),
{
    if entries.len() == 0 {
        0
    } else {
        total(entries.drop_last()) + entries.last().1 as nat
    }
}

/// A name and its count as `name=count`.
pub open spec fn count_text(entry: (Seq<char>, usize)) -> Seq<char> {
    entry.0 + "="@ + decimal(entry.1 as nat)
}

/// The counts as `name=count`, separated by spaces.
pub open spec fn counts_text(entries: Seq<(Seq<char>, usize)>) -> Seq<char> {
    joined(entries.map_values(|entry: (Seq<char>, usize)| count_text(entry)), " "@)
}

/// The count under the name at a position is the count there.
proof fn lemma_entry_at(entries: Seq<(Seq<char>, usize)>, i: int)
    requires
        ascending(entries),
        0 <= i < entries.len(),
    ensures
        entry_of(entries, entries[i].0) == Some(entries[i].1),
    decreases entries.len(),
{
    if i < entries.len() - 1 {
        assert(text_below(entries[i].0, entries[entries.len() - 1].0));
        text_below_irreflexive(entries[i].0);
        assert(ascending(entries.drop_last()));
        lemma_entry_at(entries.drop_last(), i);
    }
}

/// There is no count under a name that stands at no position.
proof fn lemma_entry_absent(entries: Seq<(Seq<char>, usize)>, name: Seq<char>)
    requires
        forall|i: int| 0 <= i < entries.len() ==> (#[trigger] entries[i]).0 != name,
    ensures
        entry_of(entries, name) is None,
    decreases entries.len(),
{
    if entries.len() > 0 {
        assert(entries[entries.len() - 1].0 != name);
        assert forall|i: int| 0 <= i < entries.drop_last().len() implies (
        #[trigger] entries.drop_last()[i]).0 != name by {
            assert(entries[i].0 != name);
        }
        lemma_entry_absent(entries.drop_last(), name);
    }
}

/// A name with a count stands at some position, and the count is there.
proof fn lemma_entry_found(entries: Seq<(Seq<char>, usize)>, name: Seq<char>) -> (i: int)
    requires
        entry_of(entries, name) is Some,
    ensures
        0 <= i < entries.len(),
        entries[i].0 == name,
        entry_of(entries, name) == Some(entries[i].1),
    decreases entries.len(),
{
    if entries.last().0 == name {
        entries.len() - 1
    } else {
        let i = lemma_entry_found(entries.drop_last(), name);
        assert(entries.drop_last()[i] == entries[i]);
        i
    }
}

/// The count under a name does not depend on an entry of another name.
proof fn lemma_entry_insert(
    entries: Seq<(Seq<char>, usize)>,
    k: int,
    entry: (Seq<char>, usize),
    name: Seq<char>,
)
    requires
        0 <= k <= entries.len(),
        name != entry.0,
    ensures
        entry_of(entries.insert(k, entry), name) == entry_of(entries, name),
    decreases entries.len(),
{
    let longer = entries.insert(k, entry);
    if k == entries.len() {
        assert(longer.drop_last() =~= entries);
    } else {
        assert(longer.drop_last() =~= entries.drop_last().insert(k, entry));
        lemma_entry_insert(entries.drop_last(), k, entry, name);
    }
}

/// The count under a name does not depend on the count of another name.
proof fn lemma_entry_update(
    entries: Seq<(Seq<char>, usize)>,
    k: int,
    count: usize,
    name: Seq<char>,
)
    requires
        0 <= k < entries.len(),
        name != entries[k].0,
    ensures
        entry_of(entries.update(k, (entries[k].0, count)), name) == entry_of(entries, name),
    decreases entries.len(),
{
    let changed = entries.update(k, (entries[k].0, count));
    if k == entries.len() - 1 {
        assert(changed.drop_last() =~= entries.drop_last());
    } else {
        assert(changed.drop_last() =~= entries.drop_last().update(k, (entries[k].0, count)));
        lemma_entry_update(entries.drop_last(), k, count, name);
    }
}

/// A further entry adds its count to the sum.
proof fn lemma_total_insert(entries: Seq<(Seq<char>, usize)>, k: int, entry: (Seq<char>, usize))
    requires
        0 <= k <= entries.len(),
    ensures
        total(entries.insert(k, entry)) == total(entries) + entry.1,
    decreases entries.len(),
{
    let longer = entries.insert(k, entry);
    if k == entries.len() {
        assert(longer.drop_last() =~= entries);
    } else {
        assert(longer.drop_last() =~= entries.drop_last().insert(k, entry));
        lemma_total_insert(entries.drop_last(), k, entry);
    }
}

/// Another count at a position changes the sum by the difference.
proof fn lemma_total_update(entries: Seq<(Seq<char>, usize)>, k: int, count: usize)
    requires
        0 <= k < entries.len(),
    ensures
        total(entries.update(k, (entries[k].0, count))) + entries[k].1 == total(entries) + count,
    decreases entries.len(),
{
    let changed = entries.update(k, (entries[k].0, count));
    if k == entries.len() - 1 {
        assert(changed.drop_last() =~= entries.drop_last());
    } else {
        assert(changed.drop_last() =~= entries.drop_last().update(k, (entries[k].0, count)));
        lemma_total_update(entries.drop_last(), k, count);
    }
}

/// The last name does not stand before the end.
proof fn lemma_last_alone(entries: Seq<(Seq<char>, usize)>)
    requires
        ascending(entries),
        entries.len() > 0,
    ensures
        ascending(entries.drop_last()),
        entry_of(entries.drop_last(), entries.last().0) is None,
{
    assert forall|i: int| 0 <= i < entries.drop_last().len() implies (
    #[trigger] entries.drop_last()[i]).0 != entries.last().0 by {
        assert(text_below(entries[i].0, entries[entries.len() - 1].0));
        text_below_irreflexive(entries[i].0);
    }
    lemma_entry_absent(entries.drop_last(), entries.last().0);
}

/// Entries in order are determined by the names that stand and their counts.
pub proof fn names_determine_entries(
    a: Seq<(Seq<char>, usize)>,
    b: Seq<(Seq<char>, usize)>,
)
    requires
        ascending(a),
        ascending(b),
        forall|name: Seq<char>| #[trigger] entry_of(a, name) == entry_of(b, name),
    ensures
        a == b,
    decreases a.len(),
{
    if a.len() == 0 {
        if b.len() > 0 {
            lemma_entry_at(b, 0);
            assert(entry_of(a, b[0].0) == entry_of(b, b[0].0));
        }
        assert(a =~= b);
    } else {
        let x = a.last().0;
        lemma_entry_at(a, a.len() - 1);
        assert(entry_of(a, x) == entry_of(b, x));
        let i = lemma_entry_found(b, x);
        let y = b.last().0;
        lemma_entry_at(b, b.len() - 1);
        assert(entry_of(a, y) == entry_of(b, y));
        let j = lemma_entry_found(a, y);
        if x != y {
            assert(text_below(b[i].0, b[b.len() - 1].0));
            assert(text_below(a[j].0, a[a.len() - 1].0));
            text_below_transitive(x, y, x);
            text_below_irreflexive(x);
        }
        lemma_last_alone(a);
        lemma_last_alone(b);
        assert forall|name: Seq<char>| #[trigger]
            entry_of(a.drop_last(), name) == entry_of(b.drop_last(), name) by {
            assert(entry_of(a, name) == entry_of(b, name));
        }
        names_determine_entries(a.drop_last(), b.drop_last());
        assert(a =~= a.drop_last().push(a.last()));
        assert(b =~= b.drop_last().push(b.last()));
    }
}

/// Entries in order of which each counts for something are determined by what each name counts.
pub proof fn counts_determine_entries(
    a: Seq<(Seq<char>, usize)>,
    b: Seq<(Seq<char>, usize)>,
)
    requires
        kept(a),
        kept(b),
        forall|name: Seq<char>| #[trigger] count_of(a, name) == count_of(b, name),
    ensures
        a == b,
{
    assert forall|name: Seq<char>| #[trigger] entry_of(a, name) == entry_of(b, name) by {
        assert(count_of(a, name) == count_of(b, name));
        if entry_of(a, name) is Some {
            let i = lemma_entry_found(a, name);
            assert(a[i].1 > 0);
        }
        if entry_of(b, name) is Some {
            let i = lemma_entry_found(b, name);
            assert(b[i].1 > 0);
        }
    }
    names_determine_entries(a, b);
}

/// Whether `after` has the count under the name, and under every other name what `before` has.
spec fn counted(
    before: Seq<(Seq<char>, usize)>,
    after: Seq<(Seq<char>, usize)>,
    name: Seq<char>,
    count: usize,
) -> bool {
    &&& ascending(after)
    &&& entry_of(after, name) == Some(count)
    &&& forall|other: Seq<char>|
        other != name ==> #[trigger] entry_of(after, other) == entry_of(before, other)
    &&& total(after) + count_of(before, name) == total(before) + count
    &&& kept(before) && count > 0 ==> kept(after)
}

/// Another count in place of an earlier one.
proof fn lemma_updated(before: Seq<(Seq<char>, usize)>, k: int, count: usize)
    requires
        ascending(before),
        0 <= k < before.len(),
    ensures
        counted(before, before.update(k, (before[k].0, count)), before[k].0, count),
{
    let after = before.update(k, (before[k].0, count));
    assert(ascending(after));
    lemma_entry_at(before, k);
    lemma_entry_at(after, k);
    assert forall|other: Seq<char>| other != before[k].0 implies #[trigger] entry_of(after, other)
        == entry_of(before, other) by {
        lemma_entry_update(before, k, count, other);
    }
    lemma_total_update(before, k, count);
}

/// A count under a name that did not stand, where the names stop coming before it.
proof fn lemma_inserted(
    before: Seq<(Seq<char>, usize)>,
    k: int,
    name: Seq<char>,
    count: usize,
)
    requires
        ascending(before),
        0 <= k <= before.len(),
        forall|i: int| 0 <= i < k ==> text_below((#[trigger] before[i]).0, name),
        forall|i: int| k <= i < before.len() ==> !text_below((#[trigger] before[i]).0, name),
        forall|i: int| 0 <= i < before.len() ==> (#[trigger] before[i]).0 != name,
    ensures
        counted(before, before.insert(k, (name, count)), name, count),
{
    let after = before.insert(k, (name, count));
    assert forall|i: int, j: int| 0 <= i < j < after.len() implies text_below(
        #[trigger] after[i].0,
        #[trigger] after[j].0,
    ) by {
        let a = if i < k {
            i
        } else {
            i - 1
        };
        let b = if j < k {
            j
        } else {
            j - 1
        };
        if i == k {
            text_below_total(name, before[b].0);
        } else if j == k {
            assert(text_below(before[a].0, name));
        } else {
            assert(text_below(before[a].0, before[b].0));
        }
    }
    assert(ascending(after));
    lemma_entry_at(after, k);
    lemma_entry_absent(before, name);
    assert forall|other: Seq<char>| other != name implies #[trigger] entry_of(after, other)
        == entry_of(before, other) by {
        lemma_entry_insert(before, k, (name, count), other);
    }
    lemma_total_insert(before, k, (name, count));
}

/// How many of the names come before the given one.
proof fn lemma_place(entries: Seq<(Seq<char>, usize)>, name: Seq<char>) -> (k: int)
    requires
        ascending(entries),
    ensures
        0 <= k <= entries.len(),
        forall|i: int| 0 <= i < k ==> text_below((#[trigger] entries[i]).0, name),
        forall|i: int| k <= i < entries.len() ==> !text_below((#[trigger] entries[i]).0, name),
    decreases entries.len(),
{
    let last = entries.len() - 1;
    if entries.len() == 0 {
        0
    } else if text_below(entries[last].0, name) {
        assert forall|i: int| 0 <= i < entries.len() implies text_below(
            (#[trigger] entries[i]).0,
            name,
        ) by {
            if i < last {
                text_below_transitive(entries[i].0, entries[last].0, name);
            }
        }
        entries.len() as int
    } else {
        let shorter = entries.drop_last();
        let k = lemma_place(shorter, name);
        assert forall|i: int| 0 <= i < k implies text_below((#[trigger] entries[i]).0, name) by {
            assert(text_below(shorter[i].0, name));
        }
        assert forall|i: int| k <= i < entries.len() implies !text_below(
            (#[trigger] entries[i]).0,
            name,
        ) by {
            if i < last {
                assert(!text_below(shorter[i].0, name));
            }
        }
        k
    }
}

/// To any entries in order a count under any name can be given.
pub proof fn counts_can_be_set(
    before: Seq<(Seq<char>, usize)>,
    name: Seq<char>,
    count: usize,
) -> (after: Seq<(Seq<char>, usize)>)
    requires
        ascending(before),
    ensures
        ascending(after),
        entry_of(after, name) == Some(count),
        forall|other: Seq<char>|
            other != name ==> #[trigger] entry_of(after, other) == entry_of(before, other),
        kept(before) && count > 0 ==> kept(after),
{
    if entry_of(before, name) is Some {
        let k = lemma_entry_found(before, name);
        lemma_updated(before, k, count);
        before.update(k, (before[k].0, count))
    } else {
        let k = lemma_place(before, name);
        assert forall|i: int| 0 <= i < before.len() implies (#[trigger] before[i]).0 != name by {
            lemma_entry_at(before, i);
        }
        lemma_inserted(before, k, name, count);
        before.insert(k, (name, count))
    }
}

impl View for StatusCounts {
    type V = Seq<(Seq<char>, usize)>;

    closed spec fn view(&self) -> Seq<(Seq<char>, usize)> {
        self.entries@.map_values(|entry: (String, usize)| (entry.0@, entry.1))
    }
}

impl StatusCounts {
    #[verifier::type_invariant]
    spec fn well_formed(self) -> bool {
        ascending(self@)
    }

    /// No counts.
    pub fn new() -> (counts: StatusCounts)
        ensures
            counts@ == Seq::<(Seq<char>, usize)>::empty(),
            kept(counts@),
    {
        let entries: Vec<(String, usize)> = Vec::new();
        assert(entries@.map_values(|entry: (String, usize)| (entry.0@, entry.1)) =~= Seq::empty());
        StatusCounts { entries }
    }

    /// How many of the names come before the given one.
    fn position(&self, name: &str) -> (k: usize)
        ensures
            k <= self@.len(),
            forall|i: int| 0 <= i < k ==> text_below((#[trigger] self@[i]).0, name@),
            forall|i: int| k <= i < self@.len() ==> !text_below((#[trigger] self@[i]).0, name@),
    {
        proof {
            use_type_invariant(self);
        }
        let mut k: usize = 0;
        while k < self.entries.len() && is_below(self.entries[k].0.as_str(), name)
            invariant
                ascending(self@),
                k <= self.entries@.len(),
                forall|i: int| 0 <= i < k ==> text_below((#[trigger] self@[i]).0, name@),
            decreases self.entries.len() - k,
        {
            assert(self@[k as int].0 == self.entries@[k as int].0@);
            k = k + 1;
        }
        proof {
            assert forall|i: int| k <= i < self@.len() implies !text_below(
                (#[trigger] self@[i]).0,
                name@,
            ) by {
                assert(self@[k as int].0 == self.entries@[k as int].0@);
                if k < i && text_below(self@[i].0, name@) {
                    text_below_transitive(self@[k as int].0, self@[i].0, name@);
                }
            }
        }
        k
    }

    /// The count under the name, if the name stands.
    pub fn get(&self, name: &str) -> (count: Option<usize>)
        ensures
            count == entry_of(self@, name@),
            ascending(self@),
    {
        proof {
            use_type_invariant(self);
        }
        let wanted: String = name.to_owned();
        let k: usize = self.position(name);
        if k < self.entries.len() && self.entries[k].0 == wanted {
            proof {
                assert(self@[k as int].0 == self.entries@[k as int].0@);
                lemma_entry_at(self@, k as int);
            }
            Some(self.entries[k].1)
        } else {
            proof {
                self.lemma_absent(name@, k as int);
            }
            None
        }
    }

    /// A name that does not stand where the names stop coming before it does not stand at all.
    proof fn lemma_absent(self, name: Seq<char>, k: int)
        requires
            ascending(self@),
            0 <= k <= self@.len(),
            k < self@.len() ==> self@[k].0 != name,
            forall|i: int| 0 <= i < k ==> text_below((#[trigger] self@[i]).0, name),
            forall|i: int| k <= i < self@.len() ==> !text_below((#[trigger] self@[i]).0, name),
        ensures
            forall|i: int| 0 <= i < self@.len() ==> (#[trigger] self@[i]).0 != name,
            entry_of(self@, name) is None,
    {
        text_below_irreflexive(name);
        assert forall|i: int| 0 <= i < self@.len() implies (#[trigger] self@[i]).0 != name by {
            if k < i && self@[i].0 == name {
                assert(text_below(self@[k].0, self@[i].0));
            }
        }
        lemma_entry_absent(self@, name);
    }

    /// The counts with the given count under the name, in place of an earlier one.
    pub fn set(self, name: String, count: usize) -> (counts: StatusCounts)
        ensures
            ascending(counts@),
            entry_of(counts@, name@) == Some(count),
            forall|other: Seq<char>|
                other != name@ ==> #[trigger] entry_of(counts@, other) == entry_of(self@, other),
            total(counts@) + count_of(self@, name@) == total(self@) + count,
            kept(self@) && count > 0 ==> kept(counts@),
    {
        proof {
            use_type_invariant(&self);
        }
        let ghost before = self@;
        let k: usize = self.position(name.as_str());
        let ghost wanted = name@;
        if k < self.entries.len() && self.entries[k].0 == name {
            proof {
                assert(before[k as int].0 == self.entries@[k as int].0@);
                lemma_entry_at(before, k as int);
            }
            let mut entries: Vec<(String, usize)> = self.entries;
            entries.set(k, (name, count));
            proof {
                let after = entries@.map_values(|entry: (String, usize)| (entry.0@, entry.1));
                assert(after =~= before.update(k as int, (wanted, count)));
                lemma_updated(before, k as int, count);
            }
            StatusCounts { entries }
        } else {
            proof {
                if k < before.len() {
                    assert(before[k as int].0 == self.entries@[k as int].0@);
                }
                self.lemma_absent(wanted, k as int);
            }
            let mut entries: Vec<(String, usize)> = self.entries;
            entries.insert(k, (name, count));
            proof {
                let after = entries@.map_values(|entry: (String, usize)| (entry.0@, entry.1));
                assert(after =~= before.insert(k as int, (wanted, count)));
                lemma_inserted(before, k as int, wanted, count);
            }
            StatusCounts { entries }
        }
    }

    /// The counts with one more under the name.
    pub fn record(self, name: String) -> (counts: StatusCounts)
        requires
            count_of(self@, name@) < usize::MAX,
        ensures
            ascending(counts@),
            entry_of(counts@, name@) == Some((count_of(self@, name@) + 1) as usize),
            forall|other: Seq<char>|
                other != name@ ==> #[trigger] entry_of(counts@, other) == entry_of(self@, other),
            total(counts@) == total(self@) + 1,
            kept(self@) ==> kept(counts@),
    {
        let count: usize = match self.get(name.as_str()) {
            Some(count) => count,
            None => 0,
        };
        self.set(name, count + 1)
    }
}

/// The counts as `name=count`, in the order of the names, separated by spaces.
pub fn format_counts(counts: &StatusCounts) -> (text: String)
    ensures
        text@ == counts_text(counts@),
        ascending(counts@),
{
    proof {
        use_type_invariant(counts);
    }
    let mut text: String = String::new();
    let ghost texts = counts@.map_values(|entry: (Seq<char>, usize)| count_text(entry));
    for i in 0..counts.entries.len()
        invariant
            texts == counts@.map_values(|entry: (Seq<char>, usize)| count_text(entry)),
            text@ == joined(texts.take(i as int), " "@),
    {
        if i > 0 {
            text.append(" ");
        }
        text.append(counts.entries[i].0.as_str());
        text.append("=");
        text.append(decimal_text(counts.entries[i].1 as u64).as_str());
        proof {
            assert(texts[i as int] == count_text(counts@[i as int]));
            assert(texts.take(i + 1).drop_last() =~= texts.take(i as int));
            assert(texts.take(i + 1).last() == texts[i as int]);
            if i == 0 {
                assert(texts.take(1)[0] == texts[0]);
            }
            assert(text@ =~= joined(texts.take(i + 1), " "@));
        }
    }
    assert(texts.take(texts.len() as int) =~= texts);
    text
}

} // verus!
