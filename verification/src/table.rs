//! The table of waiting requests: correlation id to notification sink, with
//! at most one entry for each id.

use tokio::sync::oneshot::Sender;
use vstd::prelude::*;

verus! {

/// One parked request: the id it waits under and the sink that wakes it.
#[derive(Debug)]
pub struct WaitingEntry {
    pub id: String,
    pub sink: Sender<()>,
}

/// The waiting requests, keyed by correlation id.
///
/// Seen from outside it is the map `self@` from ids to sinks. Inside, the
/// entries lie in a vector in which no id occurs twice.
#[derive(Debug)]
pub struct Table {
    entries: Vec<WaitingEntry>,
}

/// No two entries share an id.
spec fn distinct_ids(entries: Seq<WaitingEntry>) -> bool {
    forall|i: int, j: int|
        0 <= i < j < entries.len() ==> (#[trigger] entries[i]).id@ != (#[trigger] entries[j]).id@
}

/// Some entry waits under `id`.
spec fn holds_id(entries: Seq<WaitingEntry>, id: Seq<char>) -> bool {
    exists|i: int| 0 <= i < entries.len() && (#[trigger] entries[i]).id@ == id
}

/// The place of an entry that waits under `id`.
spec fn place_of(entries: Seq<WaitingEntry>, id: Seq<char>) -> int {
    choose|i: int| 0 <= i < entries.len() && (#[trigger] entries[i]).id@ == id
}

/// The map that a sequence of entries stands for.
spec fn as_map(entries: Seq<WaitingEntry>) -> Map<Seq<char>, Sender<()>> {
    Map::new(
        |id: Seq<char>| holds_id(entries, id),
        |id: Seq<char>| entries[place_of(entries, id)].sink,
    )
}

/// With distinct ids, the entry at `i` is the one the map gives for its id.
proof fn lemma_entry_in_map(entries: Seq<WaitingEntry>, i: int)
    requires
        distinct_ids(entries),
        0 <= i < entries.len(),
    ensures
        as_map(entries).contains_key(entries[i].id@),
        as_map(entries)[entries[i].id@] == entries[i].sink,
        place_of(entries, entries[i].id@) == i,
{
    let id = entries[i].id@;
    assert(holds_id(entries, id));
    let p = place_of(entries, id);
    assert(0 <= p < entries.len() && entries[p].id@ == id);
    if p < i {
        assert(entries[p].id@ != entries[i].id@);
    } else if i < p {
        assert(entries[i].id@ != entries[p].id@);
    }
}

/// Taking the entry at `i` out takes its id out of the map and leaves the
/// rest as it was.
proof fn lemma_remove_entry(entries: Seq<WaitingEntry>, i: int)
    requires
        distinct_ids(entries),
        0 <= i < entries.len(),
    ensures
        distinct_ids(entries.remove(i)),
        as_map(entries.remove(i)) == as_map(entries).remove(entries[i].id@),
{
    let rest = entries.remove(i);
    let id = entries[i].id@;
    assert forall|a: int, b: int| 0 <= a < b < rest.len() implies (#[trigger] rest[a]).id@ != (
    #[trigger] rest[b]).id@ by {
        let a0 = if a < i { a } else { a + 1 };
        let b0 = if b < i { b } else { b + 1 };
        assert(rest[a] == entries[a0]);
        assert(rest[b] == entries[b0]);
        assert(entries[a0].id@ != entries[b0].id@);
    }
    assert forall|k: Seq<char>| as_map(rest).contains_key(k) <==> as_map(entries).remove(
        id,
    ).contains_key(k) by {
        if as_map(rest).contains_key(k) {
            let p = place_of(rest, k);
            let p0 = if p < i { p } else { p + 1 };
            assert(rest[p] == entries[p0]);
            assert(entries[p0].id@ == k);
            if p0 < i {
                assert(entries[p0].id@ != entries[i].id@);
            } else {
                assert(entries[i].id@ != entries[p0].id@);
            }
        }
        if as_map(entries).remove(id).contains_key(k) {
            let q = place_of(entries, k);
            assert(q != i);
            let q1 = if q < i { q } else { q - 1 };
            assert(rest[q1] == entries[q]);
            assert(rest[q1].id@ == k);
        }
    }
    assert forall|k: Seq<char>| as_map(rest).contains_key(k) implies as_map(rest)[k] == as_map(
        entries,
    ).remove(id)[k] by {
        let p = place_of(rest, k);
        let p0 = if p < i { p } else { p + 1 };
        assert(rest[p] == entries[p0]);
        lemma_entry_in_map(entries, p0);
    }
    assert(as_map(rest) =~= as_map(entries).remove(id));
}

/// Appending an entry under an id that no entry has adds it to the map.
proof fn lemma_push_entry(entries: Seq<WaitingEntry>, entry: WaitingEntry)
    requires
        distinct_ids(entries),
        !holds_id(entries, entry.id@),
    ensures
        distinct_ids(entries.push(entry)),
        as_map(entries.push(entry)) == as_map(entries).insert(entry.id@, entry.sink),
{
    let more = entries.push(entry);
    let last = entries.len() as int;
    assert forall|a: int, b: int| 0 <= a < b < more.len() implies (#[trigger] more[a]).id@ != (
    #[trigger] more[b]).id@ by {
        assert(more[a] == entries[a]);
        if b < last {
            assert(more[b] == entries[b]);
        } else {
            assert(more[b] == entry);
            assert(entries[a].id@ != entry.id@);
        }
    }
    assert(more[last] == entry);
    lemma_entry_in_map(more, last);
    assert forall|k: Seq<char>| as_map(more).contains_key(k) <==> as_map(entries).insert(
        entry.id@,
        entry.sink,
    ).contains_key(k) by {
        if as_map(more).contains_key(k) {
            let p = place_of(more, k);
            if p < last {
                assert(more[p] == entries[p]);
            }
        }
        if as_map(entries).contains_key(k) {
            let q = place_of(entries, k);
            assert(more[q] == entries[q]);
        }
    }
    assert forall|k: Seq<char>| as_map(more).contains_key(k) implies as_map(more)[k] == as_map(
        entries,
    ).insert(entry.id@, entry.sink)[k] by {
        let p = place_of(more, k);
        lemma_entry_in_map(more, p);
        if p < last {
            assert(more[p] == entries[p]);
            lemma_entry_in_map(entries, p);
        }
    }
    assert(as_map(more) =~= as_map(entries).insert(entry.id@, entry.sink));
}

/// With distinct ids, the map has as many keys as there are entries.
proof fn lemma_map_size(entries: Seq<WaitingEntry>)
    requires
        distinct_ids(entries),
    ensures
        as_map(entries).dom().finite(),
        as_map(entries).len() == entries.len(),
    decreases entries.len(),
{
    if entries.len() == 0 {
        assert(as_map(entries).dom() =~= Set::<Seq<char>>::empty());
    } else {
        let before = entries.drop_last();
        let last = entries.last();
        assert(before.push(last) =~= entries);
        assert forall|i: int, j: int| 0 <= i < j < before.len() implies (#[trigger] before[i]).id@
            != (#[trigger] before[j]).id@ by {
            assert(before[i] == entries[i]);
            assert(before[j] == entries[j]);
        }
        assert(!holds_id(before, last.id@)) by {
            if holds_id(before, last.id@) {
                let p = place_of(before, last.id@);
                assert(before[p] == entries[p]);
                assert(entries[p].id@ != entries[entries.len() - 1].id@);
            }
        }
        lemma_map_size(before);
        lemma_push_entry(before, last);
        assert(!as_map(before).dom().contains(last.id@));
    }
}

impl View for Table {
    type V = Map<Seq<char>, Sender<()>>;

    closed spec fn view(&self) -> Map<Seq<char>, Sender<()>> {
        as_map(self.entries@)
    }
}

impl Table {
    #[verifier::type_invariant]
    spec fn well_formed(self) -> bool {
        distinct_ids(self.entries@)
    }

    /// A table in which nobody waits.
    pub fn new() -> (table: Table)
        ensures
            table@ == Map::<Seq<char>, Sender<()>>::empty(),
    {
        let table = Table { entries: Vec::new() };
        assert(table@ =~= Map::<Seq<char>, Sender<()>>::empty());
        table
    }

    /// How many requests wait.
    pub fn len(&self) -> (count: usize)
        ensures
            self@.dom().finite(),
            count == self@.len(),
    {
        proof {
            use_type_invariant(self);
            lemma_map_size(self.entries@);
        }
        self.entries.len()
    }

    /// Where the entry under `id` lies, if there is one.
    fn position(&self, id: &String) -> (at: Option<usize>)
        ensures
            match at {
                Some(i) => i < self.entries@.len() && self.entries@[i as int].id@ == id@,
                None => !holds_id(self.entries@, id@),
            },
    {
        let mut i: usize = 0;
        while i < self.entries.len()
            invariant
                i <= self.entries@.len(),
                forall|j: int| 0 <= j < i ==> (#[trigger] self.entries@[j]).id@ != id@,
            decreases self.entries@.len() - i,
        {
            if self.entries[i].id == *id {
                return Some(i);
            }
            i += 1;
        }
        None
    }

    /// Whether a request waits under `id`.
    pub fn contains(&self, id: &String) -> (found: bool)
        ensures
            found == self@.contains_key(id@),
    {
        self.position(id).is_some()
    }

    /// Takes the entry under `id` out and hands back its sink; leaves the
    /// table as it is when nobody waits under `id`.
    pub fn remove(&mut self, id: &String) -> (sink: Option<Sender<()>>)
        ensures
            final(self)@ == old(self)@.remove(id@),
            sink == (if old(self)@.contains_key(id@) {
                Some(old(self)@[id@])
            } else {
                None
            }),
    {
        proof {
            use_type_invariant(&*self);
        }
        match self.position(id) {
            Some(i) => {
                proof {
                    lemma_entry_in_map(self.entries@, i as int);
                    lemma_remove_entry(self.entries@, i as int);
                }
                // The entries change outside the table, which holds none
                // meanwhile: so the table is whole at every step.
                let mut entries: Vec<WaitingEntry> = Vec::new();
                core::mem::swap(&mut self.entries, &mut entries);
                let entry = entries.remove(i);
                core::mem::swap(&mut self.entries, &mut entries);
                Some(entry.sink)
            },
            None => {
                assert(self@ =~= self@.remove(id@));
                None
            },
        }
    }

    /// Puts `sink` under `id` and hands back the sink that waited there
    /// before, if any.
    pub fn insert(&mut self, id: String, sink: Sender<()>) -> (previous: Option<Sender<()>>)
        ensures
            final(self)@ == old(self)@.insert(id@, sink),
            previous == (if old(self)@.contains_key(id@) {
                Some(old(self)@[id@])
            } else {
                None
            }),
    {
        let previous = self.remove(&id);
        proof {
            use_type_invariant(&*self);
            assert(!self@.contains_key(id@));
            lemma_push_entry(self.entries@, WaitingEntry { id, sink });
            assert(old(self)@.remove(id@).insert(id@, sink) =~= old(self)@.insert(id@, sink));
        }
        let mut entries: Vec<WaitingEntry> = Vec::new();
        core::mem::swap(&mut self.entries, &mut entries);
        entries.push(WaitingEntry { id, sink });
        core::mem::swap(&mut self.entries, &mut entries);
        previous
    }
}

} // verus!
