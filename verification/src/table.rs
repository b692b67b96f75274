//! The timezone table: labels with their offsets from UTC, in the order in
//! which they were defined. The order is the order of cyclic navigation.
//!
//! A table is modelled as the sequence of its entries, each a label and an
//! offset in seconds east of UTC. A table is never empty and no label occurs
//! twice in it.

use vstd::prelude::*;
use linked_hash_map::LinkedHashMap;

verus! {

/// An entry of a table: a label and its offset in seconds.
pub type Entry = (Seq<char>, i32);

/// `linked_hash_map::LinkedHashMap`, a hash map that keeps its entries in a
/// linked list. Nothing inside it is visible here.
#[verifier::external_type_specification]
#[verifier::external_body]
#[verifier::reject_recursive_types(K)]
#[verifier::reject_recursive_types(V)]
#[verifier::reject_recursive_types(S)]
pub struct ExLinkedHashMap<K, V, S>(LinkedHashMap<K, V, S>);

/// What a `LinkedHashMap` holds: its entries in the order in which its
/// iterators walk them, front to back.
pub uninterp spec fn map_entries(map: LinkedHashMap<String, i32>) -> Seq<Entry>;

/// Whether an entry of `entries` has the label `label`.
pub open spec fn has_label(entries: Seq<Entry>, label: Seq<char>) -> bool {
    exists|i: int| 0 <= i < entries.len() && (#[trigger] entries[i]).0 == label
}

/// Where `label` stands in `entries`; meaningful where `has_label` holds.
pub open spec fn position_of(entries: Seq<Entry>, label: Seq<char>) -> int {
    choose|i: int| 0 <= i < entries.len() && (#[trigger] entries[i]).0 == label
}

/// No label occurs twice.
pub open spec fn distinct_labels(entries: Seq<Entry>) -> bool {
    forall|i: int, j: int|
        0 <= i < entries.len() && 0 <= j < entries.len() && i != j ==> (#[trigger] entries[i]).0 != (
        #[trigger] entries[j]).0
}

/// What makes a sequence of entries a table: at least one entry, and labels
/// that are distinct.
pub open spec fn is_table(entries: Seq<Entry>) -> bool {
    entries.len() > 0 && distinct_labels(entries)
}

/// The offset stored under `label`; 0 where the label is absent.
pub open spec fn offset_in(entries: Seq<Entry>, label: Seq<char>) -> i32 {
    if has_label(entries, label) {
        entries[position_of(entries, label)].1
    } else {
        0
    }
}

/// The label after `label`, the first one after the last; the first one also
/// where `label` is absent.
pub open spec fn next_in(entries: Seq<Entry>, label: Seq<char>) -> Seq<char> {
    if has_label(entries, label) && position_of(entries, label) + 1 < entries.len() {
        entries[position_of(entries, label) + 1].0
    } else {
        entries[0].0
    }
}

/// The label before `label`, the last one before the first; the last one
/// also where `label` is absent.
pub open spec fn previous_in(entries: Seq<Entry>, label: Seq<char>) -> Seq<char> {
    if has_label(entries, label) && position_of(entries, label) > 0 {
        entries[position_of(entries, label) - 1].0
    } else {
        entries.last().0
    }
}

/// `entries` without the entries labelled `label`, the others in their order.
pub open spec fn without_label(entries: Seq<Entry>, label: Seq<char>) -> Seq<Entry>
    decreases entries.len(),
{
    if entries.len() == 0 {
        entries
    } else if entries.last().0 == label {
        without_label(entries.drop_last(), label)
    } else {
        without_label(entries.drop_last(), label).push(entries.last())
    }
}

/// `entries` after `label` is defined with `offset`: the entry goes to the
/// back, and an earlier entry with the same label leaves.
pub open spec fn inserted(entries: Seq<Entry>, label: Seq<char>, offset: i32) -> Seq<Entry> {
    without_label(entries, label).push((label, offset))
}

/// The entries that the definitions `definitions` leave, made one after the
/// other.
pub open spec fn defined_by(definitions: Seq<Entry>) -> Seq<Entry>
    decreases definitions.len(),
{
    if definitions.len() == 0 {
        Seq::empty()
    } else {
        inserted(
            defined_by(definitions.drop_last()),
            definitions.last().0,
            definitions.last().1,
        )
    }
}

/// The view of a list of definitions.
pub open spec fn definitions_view(definitions: Seq<(String, i32)>) -> Seq<Entry> {
    Seq::new(definitions.len(), |i: int| (definitions[i].0@, definitions[i].1))
}

/// `LinkedHashMap::new`: the new map holds nothing.
#[verifier::external_body]
fn map_new() -> (map: LinkedHashMap<String, i32>)
    ensures
        map_entries(map) == Seq::<Entry>::empty(),
{
    LinkedHashMap::new()
}

/// `LinkedHashMap::insert`: a new key is linked in at the back with its
/// value; a key that the map holds already gets the new value and its entry
/// is moved to the back. No other entry changes or moves.
#[verifier::external_body]
fn map_insert(map: &mut LinkedHashMap<String, i32>, label: String, offset: i32)
    ensures
        map_entries(*final(map)) == inserted(map_entries(*old(map)), label@, offset),
{
    map.insert(label, offset);
}

/// `LinkedHashMap::get`: the value of an entry with this key, or nothing
/// where no entry has the key.
#[verifier::external_body]
fn map_get(map: &LinkedHashMap<String, i32>, label: &str) -> (offset: Option<i32>)
    ensures
        match offset {
            Some(o) => map_entries(*map).contains((label@, o)),
            None => !has_label(map_entries(*map), label@),
        },
{
    map.get(label).copied()
}

/// `LinkedHashMap::contains_key`: whether an entry has this key.
#[verifier::external_body]
fn map_contains_key(map: &LinkedHashMap<String, i32>, label: &str) -> (found: bool)
    ensures
        found == has_label(map_entries(*map), label@),
{
    map.contains_key(label)
}

/// `LinkedHashMap::keys`: the keys of the entries, front to back.
#[verifier::external_body]
fn map_keys(map: &LinkedHashMap<String, i32>) -> (keys: Vec<String>)
    ensures
        keys@.len() == map_entries(*map).len(),
        forall|i: int| 0 <= i < keys@.len() ==> (#[trigger] keys@[i])@ == map_entries(*map)[i].0,
{
    map.keys().cloned().collect()
}

/// `LinkedHashMap::is_empty`: whether the map holds no entry.
#[verifier::external_body]
fn map_is_empty(map: &LinkedHashMap<String, i32>) -> (empty: bool)
    ensures
        empty == (map_entries(*map).len() == 0),
{
    map.is_empty()
}

/// An entry of a table stands at the position of its label.
pub proof fn lemma_position(entries: Seq<Entry>, i: int)
    requires
        distinct_labels(entries),
        0 <= i < entries.len(),
    ensures
        has_label(entries, entries[i].0),
        position_of(entries, entries[i].0) == i,
{
    let label = entries[i].0;
    assert(entries[i].0 == label);
    let p = position_of(entries, label);
    assert(0 <= p < entries.len() && entries[p].0 == label);
    if p != i {
        assert(entries[p].0 != entries[i].0);
    }
}

/// What `without_label` leaves: no entry labelled `label`, every other label
/// that was there, distinct labels where they were distinct, and all of
/// `entries` where `label` was absent.
pub proof fn lemma_without_label(entries: Seq<Entry>, label: Seq<char>)
    ensures
        without_label(entries, label).len() <= entries.len(),
        !has_label(without_label(entries, label), label),
        forall|other: Seq<char>|
            other != label ==> (has_label(without_label(entries, label), other) <==> has_label(
                entries,
                other,
            )),
        distinct_labels(entries) ==> distinct_labels(without_label(entries, label)),
        !has_label(entries, label) ==> without_label(entries, label) == entries,
    decreases entries.len(),
{
    let kept = without_label(entries, label);
    if entries.len() == 0 {
    } else {
        let front = entries.drop_last();
        let last = entries.last();
        let kept_front = without_label(front, label);
        lemma_without_label(front, label);
        assert forall|other: Seq<char>| other != label implies (has_label(kept, other)
            <==> has_label(entries, other)) by {
            if has_label(kept, other) {
                let k = choose|k: int| 0 <= k < kept.len() && (#[trigger] kept[k]).0 == other;
                if k < kept_front.len() {
                    assert(kept_front[k].0 == other);
                    assert(has_label(front, other));
                    let f = choose|f: int| 0 <= f < front.len() && (#[trigger] front[f]).0 == other;
                    assert(entries[f].0 == other);
                } else {
                    assert(entries[entries.len() - 1].0 == other);
                }
            }
            if has_label(entries, other) {
                let e = choose|e: int| 0 <= e < entries.len() && (#[trigger] entries[e]).0 == other;
                if e < front.len() {
                    assert(front[e].0 == other);
                    assert(has_label(front, other));
                    assert(has_label(kept_front, other));
                    let k = choose|k: int|
                        0 <= k < kept_front.len() && (#[trigger] kept_front[k]).0 == other;
                    assert(kept[k].0 == other);
                } else {
                    assert(kept[kept.len() - 1].0 == other);
                }
            }
        }
        if has_label(kept, label) {
            let k = choose|k: int| 0 <= k < kept.len() && (#[trigger] kept[k]).0 == label;
            if k < kept_front.len() {
                assert(kept_front[k].0 == label);
            }
        }
        if distinct_labels(entries) {
            assert(distinct_labels(front)) by {
                assert forall|i: int, j: int|
                    0 <= i < front.len() && 0 <= j < front.len() && i != j implies (
                #[trigger] front[i]).0 != (#[trigger] front[j]).0 by {
                    assert(entries[i].0 != entries[j].0);
                }
            }
            if last.0 != label {
                assert forall|i: int, j: int|
                    0 <= i < kept.len() && 0 <= j < kept.len() && i != j implies (
                #[trigger] kept[i]).0 != (#[trigger] kept[j]).0 by {
                    if i < kept_front.len() && j < kept_front.len() {
                        assert(kept_front[i].0 != kept_front[j].0);
                    } else {
                        let k = if i < kept_front.len() {
                            i
                        } else {
                            j
                        };
                        if kept_front[k].0 == last.0 {
                            assert(has_label(kept_front, last.0));
                            assert(has_label(front, last.0));
                            let f = choose|f: int|
                                0 <= f < front.len() && (#[trigger] front[f]).0 == last.0;
                            assert(entries[f].0 != entries[entries.len() - 1].0);
                        }
                    }
                }
            }
        }
        if !has_label(entries, label) {
            assert(entries[entries.len() - 1].0 != label);
            if has_label(front, label) {
                let f = choose|f: int| 0 <= f < front.len() && (#[trigger] front[f]).0 == label;
                assert(entries[f].0 == label);
            }
            assert(kept =~= entries);
        }
    }
}

/// Defining a label keeps the labels distinct, puts the label last, and
/// keeps every other label.
pub proof fn lemma_inserted(entries: Seq<Entry>, label: Seq<char>, offset: i32)
    ensures
        inserted(entries, label, offset).len() > 0,
        inserted(entries, label, offset).last() == (label, offset),
        distinct_labels(entries) ==> distinct_labels(inserted(entries, label, offset)),
        has_label(inserted(entries, label, offset), label),
        forall|other: Seq<char>|
            other != label ==> (has_label(inserted(entries, label, offset), other) <==> has_label(
                entries,
                other,
            )),
{
    let kept = without_label(entries, label);
    let after = inserted(entries, label, offset);
    lemma_without_label(entries, label);
    assert(after[after.len() - 1].0 == label);
    assert forall|other: Seq<char>| other != label implies (has_label(after, other) <==> has_label(
        entries,
        other,
    )) by {
        if has_label(after, other) {
            let k = choose|k: int| 0 <= k < after.len() && (#[trigger] after[k]).0 == other;
            assert(kept[k].0 == other);
        }
        if has_label(entries, other) {
            let k = choose|k: int| 0 <= k < kept.len() && (#[trigger] kept[k]).0 == other;
            assert(after[k].0 == other);
        }
    }
    if distinct_labels(entries) {
        assert forall|i: int, j: int|
            0 <= i < after.len() && 0 <= j < after.len() && i != j implies (#[trigger] after[i]).0
            != (#[trigger] after[j]).0 by {
            if i < kept.len() && j < kept.len() {
                assert(kept[i].0 != kept[j].0);
            } else {
                let k = if i < kept.len() {
                    i
                } else {
                    j
                };
                assert(kept[k].0 != label);
            }
        }
    }
}

/// Definitions leave a table unless there are none: the labels are distinct,
/// and at least one entry is there as soon as one definition is.
pub proof fn lemma_defined_by(definitions: Seq<Entry>)
    ensures
        distinct_labels(defined_by(definitions)),
        defined_by(definitions).len() > 0 <==> definitions.len() > 0,
    decreases definitions.len(),
{
    if definitions.len() > 0 {
        lemma_defined_by(definitions.drop_last());
        lemma_inserted(
            defined_by(definitions.drop_last()),
            definitions.last().0,
            definitions.last().1,
        );
    }
}

/// Definitions with distinct labels define a table that holds just them, in
/// their order.
pub proof fn law_distinct_definitions(definitions: Seq<Entry>)
    requires
        distinct_labels(definitions),
    ensures
        defined_by(definitions) == definitions,
    decreases definitions.len(),
{
    if definitions.len() > 0 {
        let front = definitions.drop_last();
        let last = definitions.last();
        assert(distinct_labels(front)) by {
            assert forall|i: int, j: int|
                0 <= i < front.len() && 0 <= j < front.len() && i != j implies (#[trigger] front[i]).0
                != (#[trigger] front[j]).0 by {
                assert(definitions[i].0 != definitions[j].0);
            }
        }
        law_distinct_definitions(front);
        if has_label(front, last.0) {
            let f = choose|f: int| 0 <= f < front.len() && (#[trigger] front[f]).0 == last.0;
            assert(definitions[f].0 != definitions[definitions.len() - 1].0);
        }
        lemma_without_label(front, last.0);
        assert(defined_by(definitions) =~= definitions);
    } else {
        assert(defined_by(definitions) =~= definitions);
    }
}

/// Going to the previous label and then to the next one, or the other way
/// round, leads back to any label of the table. In a table of one entry
/// both ways stay at that label.
pub proof fn law_cyclic_inverse(entries: Seq<Entry>, label: Seq<char>)
    requires
        is_table(entries),
        has_label(entries, label),
    ensures
        next_in(entries, previous_in(entries, label)) == label,
        previous_in(entries, next_in(entries, label)) == label,
        entries.len() == 1 ==> next_in(entries, label) == label && previous_in(entries, label)
            == label,
{
    let n = entries.len() as int;
    let i = position_of(entries, label);
    assert(0 <= i < n && entries[i].0 == label);
    let before = if i > 0 {
        i - 1
    } else {
        n - 1
    };
    let after = if i + 1 < n {
        i + 1
    } else {
        0
    };
    lemma_position(entries, before);
    lemma_position(entries, after);
}

/// Navigation wraps around: after the last label comes the first, and
/// before the first comes the last.
pub proof fn law_wrap_around(entries: Seq<Entry>)
    requires
        is_table(entries),
    ensures
        next_in(entries, entries.last().0) == entries[0].0,
        previous_in(entries, entries[0].0) == entries.last().0,
{
    lemma_position(entries, entries.len() - 1);
    lemma_position(entries, 0);
}

/// A label that the table does not hold has the offset 0.
pub proof fn law_absent_offset_is_zero(entries: Seq<Entry>, label: Seq<char>)
    requires
        !has_label(entries, label),
    ensures
        offset_in(entries, label) == 0,
{
}

/// Navigation never leaves the table.
pub proof fn law_navigation_stays(entries: Seq<Entry>, label: Seq<char>)
    requires
        is_table(entries),
    ensures
        has_label(entries, next_in(entries, label)),
        has_label(entries, previous_in(entries, label)),
{
    let n = entries.len() as int;
    assert(entries[0].0 == entries[0].0);
    assert(entries[n - 1].0 == entries.last().0);
    if has_label(entries, label) {
        let i = position_of(entries, label);
        if i + 1 < n {
            assert(entries[i + 1].0 == next_in(entries, label));
        }
        if i > 0 {
            assert(entries[i - 1].0 == previous_in(entries, label));
        }
    }
}

/// An ordered table of timezones.
pub struct TimezoneTable {
    entries: LinkedHashMap<String, i32>,
}

impl View for TimezoneTable {
    type V = Seq<Entry>;

    closed spec fn view(&self) -> Seq<Entry> {
        map_entries(self.entries)
    }
}

impl Default for TimezoneTable {
    /// The table that holds `UTC` with the offset 0.
    fn default() -> (table: TimezoneTable)
        ensures
            table.wf(),
            table@ == seq![("UTC"@, 0i32)],
    {
        TimezoneTable::new("UTC", 0)
    }
}

impl TimezoneTable {
    /// The invariant of a table: it is not empty and its labels are distinct.
    pub open spec fn wf(&self) -> bool {
        is_table(self@)
    }

    /// The table that holds `label` with `offset` and nothing else.
    pub fn new(label: &str, offset: i32) -> (table: TimezoneTable)
        ensures
            table.wf(),
            table@ == seq![(label@, offset)],
    {
        let mut entries = map_new();
        map_insert(&mut entries, label.to_owned(), offset);
        proof {
            lemma_inserted(Seq::<Entry>::empty(), label@, offset);
            assert(without_label(Seq::<Entry>::empty(), label@) =~= Seq::<Entry>::empty());
            assert(map_entries(entries) =~= seq![(label@, offset)]);
        }
        TimezoneTable { entries }
    }

    /// The number of entries.
    pub fn len(&self) -> (n: usize)
        ensures
            n == self@.len(),
    {
        map_keys(&self.entries).len()
    }

    /// The labels, in the order of the table.
    pub fn labels(&self) -> (labels: Vec<String>)
        ensures
            labels@.len() == self@.len(),
            forall|i: int| 0 <= i < labels@.len() ==> (#[trigger] labels@[i])@ == self@[i].0,
    {
        map_keys(&self.entries)
    }

    /// Whether the table holds `label`.
    pub fn contains(&self, label: &str) -> (found: bool)
        ensures
            found == has_label(self@, label@),
    {
        map_contains_key(&self.entries, label)
    }

    /// The first label of the table.
    pub fn first_label(&self) -> (label: String)
        requires
            self.wf(),
        ensures
            label@ == self@[0].0,
    {
        let labels = map_keys(&self.entries);
        labels[0].clone()
    }

    /// The offset of `label` in seconds, or 0 where the table does not hold
    /// the label.
    pub fn offset_of(&self, label: &str) -> (offset: i32)
        requires
            self.wf(),
        ensures
            offset == offset_in(self@, label@),
            !has_label(self@, label@) ==> offset == 0,
    {
        match map_get(&self.entries, label) {
            Some(offset) => {
                proof {
                    let i = choose|i: int| 0 <= i < self@.len() && self@[i] == (label@, offset);
                    lemma_position(self@, i);
                }
                offset
            },
            None => 0,
        }
    }

    /// The label that follows `label`, in a cycle; the first label where the
    /// table does not hold `label`.
    pub fn next(&self, label: &str) -> (following: String)
        requires
            self.wf(),
        ensures
            following@ == next_in(self@, label@),
            has_label(self@, following@),
    {
        let labels = map_keys(&self.entries);
        let n = labels.len();
        let mut i: usize = 0;
        while i < n && !(*labels[i].as_str() == *label)
            invariant
                i <= n,
                n == labels@.len(),
                n == self@.len(),
                forall|j: int| 0 <= j < n ==> (#[trigger] labels@[j])@ == self@[j].0,
                forall|j: int| 0 <= j < i ==> (#[trigger] self@[j]).0 != label@,
            decreases n - i,
        {
            i += 1;
        }
        proof {
            law_navigation_stays(self@, label@);
            if i < n {
                lemma_position(self@, i as int);
            }
        }
        if i < n && i + 1 < n {
            labels[i + 1].clone()
        } else {
            labels[0].clone()
        }
    }

    /// The label that precedes `label`, in a cycle; the last label where the
    /// table does not hold `label`.
    pub fn previous(&self, label: &str) -> (preceding: String)
        requires
            self.wf(),
        ensures
            preceding@ == previous_in(self@, label@),
            has_label(self@, preceding@),
    {
        let labels = map_keys(&self.entries);
        let n = labels.len();
        let mut i: usize = 0;
        while i < n && !(*labels[i].as_str() == *label)
            invariant
                i <= n,
                n == labels@.len(),
                n == self@.len(),
                forall|j: int| 0 <= j < n ==> (#[trigger] labels@[j])@ == self@[j].0,
                forall|j: int| 0 <= j < i ==> (#[trigger] self@[j]).0 != label@,
            decreases n - i,
        {
            i += 1;
        }
        proof {
            law_navigation_stays(self@, label@);
            if i < n {
                lemma_position(self@, i as int);
            }
        }
        if i < n && i > 0 {
            labels[i - 1].clone()
        } else {
            labels[n - 1].clone()
        }
    }

    /// Replaces all entries by those that `definitions` define, made in
    /// order: a label defined again moves to the back with its new offset.
    /// With no definitions the table stays as it is.
    pub fn replace(&mut self, definitions: &Vec<(String, i32)>)
        requires
            old(self).wf(),
        ensures
            final(self).wf(),
            definitions@.len() == 0 ==> final(self)@ == old(self)@,
            definitions@.len() > 0 ==> final(self)@ == defined_by(definitions_view(definitions@)),
    {
        let ghost all = definitions_view(definitions@);
        let mut entries = map_new();
        let mut i: usize = 0;
        assert(all.take(0) =~= Seq::<Entry>::empty());
        while i < definitions.len()
            invariant
                i <= definitions@.len(),
                all == definitions_view(definitions@),
                map_entries(entries) == defined_by(all.take(i as int)),
            decreases definitions@.len() - i,
        {
            let label = definitions[i].0.clone();
            let offset = definitions[i].1;
            map_insert(&mut entries, label, offset);
            assert(all.take(i + 1).drop_last() =~= all.take(i as int));
            assert(all.take(i + 1).last() == (definitions@[i as int].0@, offset));
            i += 1;
        }
        assert(all.take(all.len() as int) =~= all);
        proof {
            lemma_defined_by(all);
        }
        if !map_is_empty(&entries) {
            self.entries = entries;
        }
    }
}

} // verus!
