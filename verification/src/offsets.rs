//! Consumer offset bookkeeping: the per-partition maps from consumer id (or
//! consumer-group id) to the last acknowledged read position, the shape of
//! the offset files on disk, and the laws that committed offsets obey.

use vstd::prelude::*;
use vstd::bytes::{
    lemma_auto_spec_u64_to_from_le_bytes, spec_u64_from_le_bytes, spec_u64_to_le_bytes,
    u64_to_le_bytes,
};
use crate::text::{
    decimal_chars, lemma_decimal_round_trip, parse_u32_ok, parse_u32_val, u32_to_decimal,
};

verus! {

/// Selects which of a partition's two offset keyspaces an operation touches.
#[derive(Clone, Copy, Debug, PartialEq, Eq, Structural)]
pub enum ConsumerType {
    Consumer,
    ConsumerGroup,
}

/// A reader's identity as seen by the engine: an individual consumer, or a
/// member of a consumer group (group id, member id). The two id spaces are
/// independent even when the numbers collide.
#[derive(Clone, Copy, Debug, PartialEq, Eq, Structural)]
pub enum PollingConsumer {
    Consumer(u32),
    ConsumerGroup(u32, u32),
}

impl PollingConsumer {
    /// The keyspace this identity selects.
    pub open spec fn spec_kind(self) -> ConsumerType {
        match self {
            PollingConsumer::Consumer(_) => ConsumerType::Consumer,
            PollingConsumer::ConsumerGroup(_, _) => ConsumerType::ConsumerGroup,
        }
    }

    /// The lookup key this identity selects.
    pub open spec fn spec_id(self) -> u32 {
        match self {
            PollingConsumer::Consumer(id) => id,
            PollingConsumer::ConsumerGroup(group_id, _) => group_id,
        }
    }
}

/// Last acknowledged read position of one consumer or consumer group,
/// together with the file that persists it.
#[derive(Clone, Debug)]
pub struct ConsumerOffset {
    pub consumer_id: u32,
    pub offset: u64,
    pub path: String,
}

/// The mathematical content of a sequence of offset entries: the map from
/// consumer id to offset, later entries winning.
pub open spec fn offsets_map_of(s: Seq<ConsumerOffset>) -> Map<u32, u64>
    decreases s.len(),
{
    if s.len() == 0 {
        Map::empty()
    } else {
        offsets_map_of(s.drop_last()).insert(s.last().consumer_id, s.last().offset)
    }
}

/// Each consumer id appears at most once.
pub open spec fn unique_ids(s: Seq<ConsumerOffset>) -> bool {
    forall|i: int, j: int|
        0 <= i < j < s.len() ==> (#[trigger] s[i]).consumer_id != (#[trigger] s[j]).consumer_id
}

/// What a lookup yields: the committed offset, or zero for a consumer that
/// has never committed.
pub open spec fn lookup_offset(m: Map<u32, u64>, id: u32) -> u64 {
    if m.contains_key(id) {
        m[id]
    } else {
        0
    }
}

pub proof fn lemma_offsets_map_domain(s: Seq<ConsumerOffset>, id: u32)
    ensures
        offsets_map_of(s).contains_key(id) <==> exists|k: int|
            0 <= k < s.len() && (#[trigger] s[k]).consumer_id == id,
    decreases s.len(),
{
    if s.len() > 0 {
        lemma_offsets_map_domain(s.drop_last(), id);
        if offsets_map_of(s).contains_key(id) {
            if s.last().consumer_id == id {
                assert(s[s.len() - 1].consumer_id == id);
            } else {
                let k = choose|k: int|
                    0 <= k < s.drop_last().len() && (#[trigger] s.drop_last()[k]).consumer_id
                        == id;
                assert(s[k].consumer_id == id);
            }
        }
        if exists|k: int| 0 <= k < s.len() && (#[trigger] s[k]).consumer_id == id {
            let k = choose|k: int| 0 <= k < s.len() && (#[trigger] s[k]).consumer_id == id;
            if k < s.len() - 1 {
                assert(s.drop_last()[k].consumer_id == id);
            }
        }
    }
}

pub proof fn lemma_offsets_map_entry(s: Seq<ConsumerOffset>, k: int)
    requires
        unique_ids(s),
        0 <= k < s.len(),
    ensures
        offsets_map_of(s).contains_key(s[k].consumer_id),
        offsets_map_of(s)[s[k].consumer_id] == s[k].offset,
    decreases s.len(),
{
    if k < s.len() - 1 {
        assert(unique_ids(s.drop_last())) by {
            assert(forall|i: int, j: int|
                0 <= i < j < s.drop_last().len() ==> (#[trigger] s.drop_last()[i]).consumer_id != (
                #[trigger] s.drop_last()[j]).consumer_id);
        }
        lemma_offsets_map_entry(s.drop_last(), k);
        assert(s.drop_last()[k] == s[k]);
        assert(s[k].consumer_id != s.last().consumer_id);
    }
}

proof fn lemma_unique_drop_last(s: Seq<ConsumerOffset>)
    requires
        unique_ids(s),
        s.len() > 0,
    ensures
        unique_ids(s.drop_last()),
{
    assert(forall|i: int, j: int|
        0 <= i < j < s.drop_last().len() ==> (#[trigger] s.drop_last()[i]).consumer_id != (
        #[trigger] s.drop_last()[j]).consumer_id);
}

proof fn lemma_offsets_map_update(s: Seq<ConsumerOffset>, k: int, e: ConsumerOffset)
    requires
        unique_ids(s),
        0 <= k < s.len(),
        e.consumer_id == s[k].consumer_id,
    ensures
        offsets_map_of(s.update(k, e)) == offsets_map_of(s).insert(e.consumer_id, e.offset),
    decreases s.len(),
{
    let s2 = s.update(k, e);
    if k == s.len() - 1 {
        assert(s2.drop_last() =~= s.drop_last());
        assert(s2.last() == e);
        assert(offsets_map_of(s2) == offsets_map_of(s.drop_last()).insert(
            e.consumer_id,
            e.offset,
        ));
        assert(offsets_map_of(s.drop_last()).insert(e.consumer_id, e.offset)
            =~= offsets_map_of(s).insert(e.consumer_id, e.offset));
    } else {
        lemma_unique_drop_last(s);
        assert(s2.drop_last() =~= s.drop_last().update(k, e));
        assert(s.drop_last()[k] == s[k]);
        lemma_offsets_map_update(s.drop_last(), k, e);
        assert(s2.last() == s.last());
        assert(e.consumer_id != s.last().consumer_id);
        assert(offsets_map_of(s2) == offsets_map_of(s.drop_last()).insert(
            e.consumer_id,
            e.offset,
        ).insert(s.last().consumer_id, s.last().offset));
        assert(offsets_map_of(s.drop_last()).insert(e.consumer_id, e.offset).insert(
            s.last().consumer_id,
            s.last().offset,
        ) =~= offsets_map_of(s).insert(e.consumer_id, e.offset));
    }
}

/// One keyspace's offsets: consumer id to last acknowledged position. Backed
/// by a sequence with unique ids, viewed as a map.
pub struct OffsetMap {
    entries: Vec<ConsumerOffset>,
}

impl OffsetMap {
    /// The map this structure stands for.
    pub closed spec fn view(&self) -> Map<u32, u64> {
        offsets_map_of(self.entries@)
    }

    /// Each consumer id maps to at most one entry.
    pub closed spec fn wf(&self) -> bool {
        unique_ids(self.entries@)
    }

    pub closed spec fn spec_entries(&self) -> Seq<ConsumerOffset> {
        self.entries@
    }

    pub fn new() -> (r: OffsetMap)
        ensures
            r.wf(),
            r@ == Map::<u32, u64>::empty(),
            r.spec_entries() == Seq::<ConsumerOffset>::empty(),
    {
        OffsetMap { entries: Vec::new() }
    }

    /// Position of the entry for one consumer id, if any.
    fn index_of(&self, id: u32) -> (r: Option<usize>)
        ensures
            r is Some ==> r.unwrap() < self.entries@.len() && self.entries@[
                r.unwrap() as int
            ].consumer_id == id,
            r is None ==> forall|j: int|
                0 <= j < self.entries@.len() ==> (#[trigger] self.entries@[j]).consumer_id != id,
    {
        let n = self.entries.len();
        let mut i: usize = 0;
        while i < n
            invariant
                0 <= i <= n,
                n == self.entries@.len(),
                forall|j: int| 0 <= j < i ==> (#[trigger] self.entries@[j]).consumer_id != id,
            decreases n - i,
        {
            if self.entries[i].consumer_id == id {
                return Some(i);
            }
            i = i + 1;
        }
        None
    }

    /// Looks up the committed offset of one consumer.
    pub fn get(&self, id: u32) -> (r: Option<u64>)
        requires
            self.wf(),
        ensures
            r is Some <==> self@.contains_key(id),
            r is Some ==> r.unwrap() == self@[id],
    {
        match self.index_of(id) {
            Some(i) => {
                proof {
                    lemma_offsets_map_entry(self.entries@, i as int);
                }
                Some(self.entries[i].offset)
            },
            None => {
                proof {
                    lemma_offsets_map_domain(self.entries@, id);
                }
                None
            },
        }
    }

    /// Inserts or overwrites the committed offset of one consumer.
    pub fn insert(&mut self, entry: ConsumerOffset)
        requires
            old(self).wf(),
        ensures
            final(self).wf(),
            final(self)@ == old(self)@.insert(entry.consumer_id, entry.offset),
            final(self).spec_entries().len() <= old(self).spec_entries().len() + 1,
    {
        let ghost old_entries = self.entries@;
        match self.index_of(entry.consumer_id) {
            Some(i) => {
                proof {
                    lemma_offsets_map_update(self.entries@, i as int, entry);
                }
                self.entries.set(i, entry);
                proof {
                    assert(self.entries@ == old_entries.update(i as int, entry));
                    assert forall|a: int, b: int| 0 <= a < b < self.entries@.len() implies (
                    #[trigger] self.entries@[a]).consumer_id != (
                    #[trigger] self.entries@[b]).consumer_id by {
                        assert(old_entries[a].consumer_id != old_entries[b].consumer_id);
                        if a == i {
                            assert(self.entries@[a].consumer_id == old_entries[a].consumer_id);
                        }
                        if b == i {
                            assert(self.entries@[b].consumer_id == old_entries[b].consumer_id);
                        }
                    }
                }
            },
            None => {
                proof {
                    lemma_offsets_map_domain(self.entries@, entry.consumer_id);
                    assert(!offsets_map_of(self.entries@).contains_key(entry.consumer_id));
                }
                self.entries.push(entry);
                proof {
                    assert(self.entries@.drop_last() =~= old_entries);
                    assert forall|a: int, b: int| 0 <= a < b < self.entries@.len() implies (
                    #[trigger] self.entries@[a]).consumer_id != (
                    #[trigger] self.entries@[b]).consumer_id by {
                        if b < self.entries@.len() - 1 {
                            assert(old_entries[a].consumer_id != old_entries[b].consumer_id);
                        } else {
                            assert(old_entries[a].consumer_id != entry.consumer_id);
                        }
                    }
                }
            },
        }
    }

    /// Replays one offsets directory listing into this map, as recovery
    /// does: readable files with a decimal name and at least eight bytes are
    /// inserted, every other entry is skipped.
    pub fn load_dir(&mut self, dir: &Vec<OffsetFileEntry>, dir_path: &str)
        requires
            old(self).wf(),
        ensures
            final(self).wf(),
            final(self)@ == load_offsets_map(old(self)@, dir@),
    {
        let n = dir.len();
        let mut i: usize = 0;
        while i < n
            invariant
                0 <= i <= n,
                n == dir@.len(),
                self.wf(),
                self@ == load_offsets_map(old(self)@, dir@.take(i as int)),
            decreases n - i,
        {
            proof {
                assert(dir@.take(i + 1).drop_last() =~= dir@.take(i as int));
                assert(dir@.take(i + 1).last() == dir@[i as int]);
            }
            let e = &dir[i];
            let mut inserted = false;
            if !e.is_dir {
                if let Some(id) = crate::text::parse_u32(e.name.as_str()) {
                    if let Some(bytes) = &e.bytes {
                        if bytes.len() >= 8 {
                            let offset = vstd::bytes::u64_from_le_bytes(
                                vstd::slice::slice_subrange(bytes.as_slice(), 0, 8),
                            );
                            let mut path = String::from_str(dir_path);
                            path.append("/");
                            path.append(e.name.as_str());
                            proof {
                                assert(entry_valid(dir@[i as int]));
                                assert(bytes@.subrange(0, 8) =~= dir@[i as int].bytes.unwrap(
                                )@.take(8));
                                assert(entry_id(dir@[i as int]) == id);
                                assert(entry_offset(dir@[i as int]) == offset);
                            }
                            self.insert(ConsumerOffset { consumer_id: id, offset, path });
                            inserted = true;
                        }
                    }
                }
            }
            proof {
                if !inserted {
                    assert(!entry_valid(dir@[i as int]));
                }
                assert(self@ == load_offsets_map(old(self)@, dir@.take(i + 1)));
            }
            i = i + 1;
        }
        proof {
            assert(dir@.take(n as int) =~= dir@);
        }
    }

    /// The directory listing that persisting every tracked offset produces:
    /// one file per consumer, named by its id, holding its offset. Loading
    /// that listing into an empty map reproduces this map exactly.
    pub fn snapshot(&self) -> (r: Vec<OffsetFileEntry>)
        requires
            self.wf(),
        ensures
            r@.len() == self.spec_entries().len(),
            forall|i: int|
                0 <= i < r@.len() ==> entry_represents(
                    #[trigger] r@[i],
                    self.spec_entries()[i].consumer_id,
                    self.spec_entries()[i].offset,
                ),
            load_offsets_map(Map::empty(), r@) == self@,
    {
        let n = self.entries.len();
        let mut listing: Vec<OffsetFileEntry> = Vec::new();
        let mut i: usize = 0;
        while i < n
            invariant
                0 <= i <= n,
                n == self.entries@.len(),
                listing@.len() == i,
                forall|j: int|
                    0 <= j < i ==> entry_represents(
                        #[trigger] listing@[j],
                        self.entries@[j].consumer_id,
                        self.entries@[j].offset,
                    ),
            decreases n - i,
        {
            listing.push(self.entries[i].as_dir_entry());
            i = i + 1;
        }
        proof {
            lemma_offsets_round_trip(listing@, self.entries@);
        }
        listing
    }

    /// The number of consumers tracked.
    pub fn len(&self) -> (r: usize)
        ensures
            r == self.spec_entries().len(),
    {
        self.entries.len()
    }

    /// The tracked entries, for persistence: one per consumer.
    pub fn entries(&self) -> (r: &Vec<ConsumerOffset>)
        ensures
            r@ == self.spec_entries(),
    {
        &self.entries
    }
}

/// One directory entry of an offsets directory, as recovery sees it: the file
/// name, whether it is a subdirectory, and its content (`None` when the
/// entry's metadata or bytes could not be read).
#[derive(Clone, Debug)]
pub struct OffsetFileEntry {
    pub name: String,
    pub is_dir: bool,
    pub bytes: Option<Vec<u8>>,
}

/// Whether recovery accepts a directory entry: a readable regular file whose
/// name is a decimal consumer id and which holds at least eight bytes.
pub open spec fn entry_valid(e: OffsetFileEntry) -> bool {
    &&& !e.is_dir
    &&& parse_u32_ok(e.name@)
    &&& parse_u32_val(e.name@) <= u32::MAX
    &&& e.bytes is Some
    &&& e.bytes.unwrap()@.len() >= 8
}

/// The consumer id a valid entry's file name spells.
pub open spec fn entry_id(e: OffsetFileEntry) -> u32 {
    parse_u32_val(e.name@) as u32
}

/// The offset a valid entry's first eight bytes hold, little endian.
pub open spec fn entry_offset(e: OffsetFileEntry) -> u64 {
    spec_u64_from_le_bytes(e.bytes.unwrap()@.take(8))
}

/// What loading a directory listing does to an offsets map: every valid entry
/// is inserted in listing order, everything else is skipped.
pub open spec fn load_offsets_map(m: Map<u32, u64>, dir: Seq<OffsetFileEntry>) -> Map<u32, u64>
    decreases dir.len(),
{
    if dir.len() == 0 {
        m
    } else {
        let rest = load_offsets_map(m, dir.drop_last());
        if entry_valid(dir.last()) {
            rest.insert(entry_id(dir.last()), entry_offset(dir.last()))
        } else {
            rest
        }
    }
}

impl ConsumerOffset {
    /// The file that persists this entry: named by the consumer id in
    /// decimal, holding the offset as eight little-endian bytes.
    pub fn as_dir_entry(&self) -> (r: OffsetFileEntry)
        ensures
            entry_represents(r, self.consumer_id, self.offset),
    {
        OffsetFileEntry {
            name: u32_to_decimal(self.consumer_id),
            is_dir: false,
            bytes: Some(u64_to_le_bytes(self.offset)),
        }
    }
}

/// Whether a directory entry is exactly the file written for one committed
/// offset.
pub open spec fn entry_represents(e: OffsetFileEntry, id: u32, off: u64) -> bool {
    &&& !e.is_dir
    &&& e.name@ == decimal_chars(id as nat)
    &&& e.bytes is Some
    &&& e.bytes.unwrap()@ == spec_u64_to_le_bytes(off)
}

/// A committed offset is what the next lookup for that consumer returns.
pub proof fn lemma_store_then_get(m: Map<u32, u64>, id: u32, off: u64)
    ensures
        lookup_offset(m.insert(id, off), id) == off,
{
}

/// A store for one consumer leaves every other consumer's offset alone.
pub proof fn lemma_store_independent(m: Map<u32, u64>, id: u32, off: u64, other: u32)
    requires
        other != id,
    ensures
        lookup_offset(m.insert(id, off), other) == lookup_offset(m, other),
{
}

/// The map after a sequence of committed stores for one consumer.
pub open spec fn apply_stores(m: Map<u32, u64>, id: u32, offs: Seq<u64>) -> Map<u32, u64>
    decreases offs.len(),
{
    if offs.len() == 0 {
        m
    } else {
        apply_stores(m, id, offs.drop_last()).insert(id, offs.last())
    }
}

/// Stores for one consumer apply atomically in some total order and none is
/// lost: after any sequence of committed stores the consumer's offset is the
/// last value of that order — one of the attempted values, never a mix.
pub proof fn lemma_no_store_lost(m: Map<u32, u64>, id: u32, offs: Seq<u64>)
    requires
        offs.len() > 0,
    ensures
        lookup_offset(apply_stores(m, id, offs), id) == offs.last(),
        offs.contains(offs.last()),
{
    assert(offs[offs.len() - 1] == offs.last());
}

/// Writing one file per committed offset and loading that directory into an
/// empty map reproduces exactly the stored (consumer id, offset) pairs.
pub proof fn lemma_offsets_round_trip(dir: Seq<OffsetFileEntry>, stored: Seq<ConsumerOffset>)
    requires
        dir.len() == stored.len(),
        forall|k: int|
            0 <= k < dir.len() ==> entry_represents(
                #[trigger] dir[k],
                stored[k].consumer_id,
                stored[k].offset,
            ),
    ensures
        load_offsets_map(Map::empty(), dir) == offsets_map_of(stored),
    decreases dir.len(),
{
    if dir.len() > 0 {
        assert(forall|k: int|
            0 <= k < dir.drop_last().len() ==> #[trigger] dir.drop_last()[k] == dir[k]);
        assert(forall|k: int|
            0 <= k < stored.drop_last().len() ==> #[trigger] stored.drop_last()[k] == stored[k]);
        lemma_offsets_round_trip(dir.drop_last(), stored.drop_last());
        let e = dir.last();
        let se = stored.last();
        assert(entry_represents(e, se.consumer_id, se.offset));
        lemma_decimal_round_trip(se.consumer_id);
        lemma_auto_spec_u64_to_from_le_bytes();
        assert(spec_u64_to_le_bytes(se.offset).len() == 8);
        assert(e.bytes.unwrap()@.take(8) =~= spec_u64_to_le_bytes(se.offset));
        assert(entry_valid(e));
        assert(entry_id(e) == se.consumer_id);
        assert(entry_offset(e) == se.offset);
    }
}

} // verus!
