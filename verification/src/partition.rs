//! Partition: an ordered, append-only message log plus its consumer offset
//! bookkeeping. A partition owns a contiguous run of segments and two
//! independent offset keyspaces, one for individual consumers and one for
//! consumer groups, so numerically colliding ids never interfere.

use vstd::prelude::*;
use crate::error::Error;
use crate::offsets::{
    load_offsets_map, lookup_offset, ConsumerOffset, ConsumerType, OffsetFileEntry, OffsetMap,
    PollingConsumer,
};
use crate::segment::{
    flush_matches_segment, segment_flushed, Segment, SegmentFlush, SEGMENT_SIZE_LIMIT,
};
use crate::text::{decimal_chars, u32_to_decimal};

verus! {

/// The per-segment flushes of one partition, index-aligned with its
/// segments.
pub struct PartitionFlush {
    pub partition_id: u32,
    pub flushes: Vec<SegmentFlush>,
}

pub struct Partition {
    pub id: u32,
    pub stream_id: u32,
    pub topic_id: u32,
    /// High-water mark: offset of the last message written; never decreases.
    pub current_offset: u64,
    pub consumer_offsets: OffsetMap,
    pub consumer_group_offsets: OffsetMap,
    pub consumer_offsets_path: String,
    pub consumer_group_offsets_path: String,
    pub segments: Vec<Segment>,
}

proof fn lemma_segment_next_monotone(segs: Seq<Segment>, i: int, j: int)
    requires
        forall|k: int| 0 <= k < segs.len() ==> (#[trigger] segs[k]).wf(),
        forall|k: int|
            1 <= k < segs.len() ==> (#[trigger] segs[k]).start_offset == segs[k - 1].next_offset,
        0 <= i <= j < segs.len(),
    ensures
        segs[i].next_offset <= segs[j].next_offset,
    decreases j - i,
{
    if i < j {
        lemma_segment_next_monotone(segs, i, j - 1);
        assert(segs[j].start_offset == segs[j - 1].next_offset);
        assert(segs[j].wf());
    }
}

impl Partition {
    /// Well-formedness: both offset maps keyed uniquely; at least one
    /// segment; segments contiguous from offset zero, all sealed but the
    /// open last one; the high-water mark at the last assigned offset.
    pub open spec fn wf(&self) -> bool {
        &&& self.consumer_offsets.wf()
        &&& self.consumer_group_offsets.wf()
        &&& self.segments@.len() >= 1
        &&& self.segments@[0].start_offset == 0
        &&& forall|i: int| 0 <= i < self.segments@.len() ==> (#[trigger] self.segments@[i]).wf()
        &&& forall|i: int|
            1 <= i < self.segments@.len() ==> (#[trigger] self.segments@[i]).start_offset
                == self.segments@[i - 1].next_offset
        &&& forall|i: int|
            0 <= i < self.segments@.len() - 1 ==> (#[trigger] self.segments@[i]).sealed
        &&& !self.segments@.last().sealed
        &&& self.current_offset == if self.segments@.last().next_offset == 0 {
            0u64
        } else {
            (self.segments@.last().next_offset - 1) as u64
        }
    }

    /// The offsets map of one keyspace.
    pub open spec fn spec_offsets(&self, kind: ConsumerType) -> Map<u32, u64> {
        match kind {
            ConsumerType::Consumer => self.consumer_offsets@,
            ConsumerType::ConsumerGroup => self.consumer_group_offsets@,
        }
    }

    /// The offsets directory of one keyspace.
    pub open spec fn spec_offsets_path(&self, kind: ConsumerType) -> Seq<char> {
        match kind {
            ConsumerType::Consumer => self.consumer_offsets_path@,
            ConsumerType::ConsumerGroup => self.consumer_group_offsets_path@,
        }
    }

    /// Everything but the chosen offsets map is unchanged.
    pub open spec fn same_but_offsets(&self, other: &Partition, kind: ConsumerType) -> bool {
        &&& self.id == other.id
        &&& self.stream_id == other.stream_id
        &&& self.topic_id == other.topic_id
        &&& self.current_offset == other.current_offset
        &&& self.consumer_offsets_path == other.consumer_offsets_path
        &&& self.consumer_group_offsets_path == other.consumer_group_offsets_path
        &&& self.segments == other.segments
        &&& self.spec_offsets(
            if kind == ConsumerType::Consumer {
                ConsumerType::ConsumerGroup
            } else {
                ConsumerType::Consumer
            },
        ) == other.spec_offsets(
            if kind == ConsumerType::Consumer {
                ConsumerType::ConsumerGroup
            } else {
                ConsumerType::Consumer
            },
        )
    }

    /// A fresh, empty partition rooted at `partition_path`, with one open
    /// segment starting at offset zero.
    pub fn new(id: u32, stream_id: u32, topic_id: u32, partition_path: &str) -> (r: Partition)
        ensures
            r.wf(),
            r.id == id,
            r.stream_id == stream_id,
            r.topic_id == topic_id,
            r.current_offset == 0,
            r.spec_offsets(ConsumerType::Consumer) == Map::<u32, u64>::empty(),
            r.spec_offsets(ConsumerType::ConsumerGroup) == Map::<u32, u64>::empty(),
            r.consumer_offsets_path@ == partition_path@ + "/consumer_offsets"@,
            r.consumer_group_offsets_path@ == partition_path@ + "/consumer_group_offsets"@,
    {
        let mut consumer_offsets_path = String::from_str(partition_path);
        consumer_offsets_path.append("/consumer_offsets");
        let mut consumer_group_offsets_path = String::from_str(partition_path);
        consumer_group_offsets_path.append("/consumer_group_offsets");
        let mut segments: Vec<Segment> = Vec::new();
        segments.push(Segment::new(0));
        Partition {
            id,
            stream_id,
            topic_id,
            current_offset: 0,
            consumer_offsets: OffsetMap::new(),
            consumer_group_offsets: OffsetMap::new(),
            consumer_offsets_path,
            consumer_group_offsets_path,
            segments,
        }
    }

    /// Looks up the committed offset for the caller's keyspace and id. A
    /// consumer that has never committed reads from the start of the log:
    /// zero. Never fails.
    pub fn get_offset(&self, consumer: PollingConsumer) -> (r: Result<u64, Error>)
        requires
            self.wf(),
        ensures
            r is Ok,
            r.unwrap() == lookup_offset(
                self.spec_offsets(consumer.spec_kind()),
                consumer.spec_id(),
            ),
    {
        let (offsets, consumer_id) = match consumer {
            PollingConsumer::Consumer(consumer_id) => (&self.consumer_offsets, consumer_id),
            PollingConsumer::ConsumerGroup(group_id, _) => (
                &self.consumer_group_offsets,
                group_id,
            ),
        };
        match offsets.get(consumer_id) {
            Some(offset) => Ok(offset),
            None => Ok(0),
        }
    }

    /// Commits a read position for one consumer or consumer group. Rejected
    /// with `InvalidOffset` exactly when the offset exceeds the current
    /// high-water mark; otherwise the in-memory entry is updated and the
    /// returned entry names the file the persister must overwrite.
    pub fn store_offset(&mut self, consumer: PollingConsumer, offset: u64) -> (r: Result<
        ConsumerOffset,
        Error,
    >)
        requires
            old(self).wf(),
        ensures
            final(self).wf(),
            r is Err <==> offset > old(self).current_offset,
            r is Err ==> r == Err::<ConsumerOffset, Error>(Error::InvalidOffset(offset))
                && *final(self) == *old(self),
            r is Ok ==> {
                &&& final(self).spec_offsets(consumer.spec_kind()) == old(self).spec_offsets(
                    consumer.spec_kind(),
                ).insert(consumer.spec_id(), offset)
                &&& final(self).same_but_offsets(old(self), consumer.spec_kind())
                &&& r.unwrap().consumer_id == consumer.spec_id()
                &&& r.unwrap().offset == offset
                &&& r.unwrap().path@ == old(self).spec_offsets_path(consumer.spec_kind()) + "/"@
                    + decimal_chars(consumer.spec_id() as nat)
            },
    {
        if offset > self.current_offset {
            return Err(Error::InvalidOffset(offset));
        }
        let (consumer_id, dir_path) = match consumer {
            PollingConsumer::Consumer(consumer_id) => (consumer_id, &self.consumer_offsets_path),
            PollingConsumer::ConsumerGroup(group_id, _) => (
                group_id,
                &self.consumer_group_offsets_path,
            ),
        };
        let mut path = dir_path.clone();
        path.append("/");
        let name = u32_to_decimal(consumer_id);
        path.append(name.as_str());
        let entry = ConsumerOffset { consumer_id, offset, path: path.clone() };
        match consumer {
            PollingConsumer::Consumer(_) => {
                self.consumer_offsets.insert(entry);
            },
            PollingConsumer::ConsumerGroup(_, _) => {
                self.consumer_group_offsets.insert(entry);
            },
        }
        Ok(ConsumerOffset { consumer_id, offset, path })
    }

    /// Rebuilds one keyspace from its offsets directory listing, or fails
    /// with `CannotReadConsumerOffsets` exactly when the directory itself
    /// could not be read. Valid entries are inserted, malformed or
    /// unreadable ones skipped.
    pub fn load_offsets(&mut self, kind: ConsumerType, dir: Option<Vec<OffsetFileEntry>>) -> (r:
        Result<(), Error>)
        requires
            old(self).wf(),
        ensures
            final(self).wf(),
            r is Err <==> dir is None,
            r is Err ==> r == Err::<(), Error>(Error::CannotReadConsumerOffsets(old(self).id))
                && *final(self) == *old(self),
            r is Ok ==> {
                &&& final(self).spec_offsets(kind) == load_offsets_map(
                    old(self).spec_offsets(kind),
                    dir.unwrap()@,
                )
                &&& final(self).same_but_offsets(old(self), kind)
            },
    {
        let entries = match dir {
            None => {
                return Err(Error::CannotReadConsumerOffsets(self.id));
            },
            Some(entries) => entries,
        };
        match kind {
            ConsumerType::Consumer => {
                let dir_path = self.consumer_offsets_path.clone();
                self.consumer_offsets.load_dir(&entries, dir_path.as_str());
            },
            ConsumerType::ConsumerGroup => {
                let dir_path = self.consumer_group_offsets_path.clone();
                self.consumer_group_offsets.load_dir(&entries, dir_path.as_str());
            },
        }
        Ok(())
    }

    /// Appends one message to the open segment, advancing the high-water
    /// mark; seals the segment and opens a fresh one exactly when the size
    /// threshold is crossed. Sealed segments are never touched.
    pub fn append_message(&mut self, payload: Vec<u8>) -> (r: Result<(), Error>)
        requires
            old(self).wf(),
            old(self).segments@.last().next_offset < u64::MAX,
            old(self).segments@.last().size_bytes + payload@.len() <= u64::MAX,
        ensures
            final(self).wf(),
            r is Ok,
            final(self).current_offset == old(self).segments@.last().next_offset,
            final(self).current_offset >= old(self).current_offset,
            final(self).id == old(self).id,
            final(self).stream_id == old(self).stream_id,
            final(self).topic_id == old(self).topic_id,
            final(self).consumer_offsets_path == old(self).consumer_offsets_path,
            final(self).consumer_group_offsets_path == old(self).consumer_group_offsets_path,
            final(self).spec_offsets(ConsumerType::Consumer) == old(self).spec_offsets(
                ConsumerType::Consumer,
            ),
            final(self).spec_offsets(ConsumerType::ConsumerGroup) == old(self).spec_offsets(
                ConsumerType::ConsumerGroup,
            ),
            ({
                let n = old(self).segments@.len() as int;
                let before = old(self).segments@.last();
                let full = before.size_bytes + payload@.len() >= SEGMENT_SIZE_LIMIT;
                &&& forall|i: int|
                    0 <= i < n - 1 ==> final(self).segments@[i] == old(self).segments@[i]
                &&& crate::segment::segment_appended(before, final(self).segments@[n - 1], payload)
                &&& final(self).segments@[n - 1].sealed == full
                &&& (if full {
                    &&& final(self).segments@.len() == n + 1
                    &&& final(self).segments@.last().start_offset == before.next_offset + 1
                    &&& final(self).segments@.last().next_offset == before.next_offset + 1
                    &&& final(self).segments@.last().size_bytes == 0
                    &&& !final(self).segments@.last().sealed
                    &&& final(self).segments@.last().spec_unsaved() == Seq::<Vec<u8>>::empty()
                } else {
                    final(self).segments@.len() == n
                })
            }),
    {
        let last = self.segments.len() - 1;
        let mut segment = self.segments.remove(last);
        segment.append(payload);
        let full = segment.is_full();
        let next_offset = segment.next_offset;
        if full {
            segment.seal();
        }
        self.segments.insert(last, segment);
        if full {
            let fresh = Segment::new(next_offset);
            self.segments.push(fresh);
        }
        self.current_offset = next_offset - 1;
        proof {
            assert(self.segments@[last as int] == segment);
            assert forall|i: int| 0 <= i < self.segments@.len() implies (
            #[trigger] self.segments@[i]).wf() by {
                if i < last {
                    assert(self.segments@[i] == old(self).segments@[i]);
                }
            }
            assert forall|i: int| 1 <= i < self.segments@.len() implies (
            #[trigger] self.segments@[i]).start_offset == self.segments@[i - 1].next_offset by {
                if i < last {
                    assert(self.segments@[i] == old(self).segments@[i]);
                    assert(self.segments@[i - 1] == old(self).segments@[i - 1]);
                } else if i == last && last > 0 {
                    assert(self.segments@[i - 1] == old(self).segments@[i - 1]);
                }
            }
            assert forall|i: int| 0 <= i < self.segments@.len() - 1 implies (
            #[trigger] self.segments@[i]).sealed by {
                if i < last {
                    assert(self.segments@[i] == old(self).segments@[i]);
                }
            }
        }
        Ok(())
    }

    /// Index of the segment whose offset range contains the requested
    /// position, if the position has been written at all.
    #[verifier::rlimit(30)]
    pub fn find_segment(&self, offset: u64) -> (r: Option<usize>)
        requires
            self.wf(),
        ensures
            r is Some <==> offset < self.segments@.last().next_offset,
            r is Some ==> r.unwrap() < self.segments@.len() && self.segments@[
                r.unwrap() as int
            ].spec_contains_offset(offset),
    {
        let n = self.segments.len();
        let mut i: usize = 0;
        while i < n
            invariant
                0 <= i <= n,
                n == self.segments@.len(),
                self.wf(),
                forall|j: int|
                    0 <= j < i ==> !(#[trigger] self.segments@[j]).spec_contains_offset(offset),
                i > 0 ==> offset >= self.segments@[i - 1].next_offset,
            decreases n - i,
        {
            if offset < self.segments[i].next_offset {
                proof {
                    lemma_segment_next_monotone(self.segments@, i as int, n - 1);
                }
                return Some(i);
            }
            i = i + 1;
        }
        None
    }

    /// Drains every segment's buffered payloads for durable writing, one
    /// flush per segment, leaving the log itself unchanged.
    #[verifier::rlimit(60)]
    pub fn persist_messages(&mut self) -> (r: PartitionFlush)
        requires
            old(self).wf(),
        ensures
            final(self).wf(),
            final(self).id == old(self).id,
            final(self).stream_id == old(self).stream_id,
            final(self).topic_id == old(self).topic_id,
            final(self).current_offset == old(self).current_offset,
            final(self).consumer_offsets == old(self).consumer_offsets,
            final(self).consumer_group_offsets == old(self).consumer_group_offsets,
            final(self).consumer_offsets_path == old(self).consumer_offsets_path,
            final(self).consumer_group_offsets_path == old(self).consumer_group_offsets_path,
            final(self).segments@.len() == old(self).segments@.len(),
            forall|i: int|
                0 <= i < old(self).segments@.len() ==> segment_flushed(
                    #[trigger] old(self).segments@[i],
                    final(self).segments@[i],
                ),
            r.partition_id == old(self).id,
            r.flushes@.len() == old(self).segments@.len(),
            forall|i: int|
                0 <= i < old(self).segments@.len() ==> flush_matches_segment(
                    #[trigger] r.flushes@[i],
                    old(self).segments@[i],
                ),
    {
        let n = self.segments.len();
        let mut flushes: Vec<SegmentFlush> = Vec::new();
        let mut i: usize = 0;
        while i < n
            invariant
                0 <= i <= n,
                n == self.segments@.len(),
                n == old(self).segments@.len(),
                self.id == old(self).id,
                self.stream_id == old(self).stream_id,
                self.topic_id == old(self).topic_id,
                self.current_offset == old(self).current_offset,
                self.consumer_offsets == old(self).consumer_offsets,
                self.consumer_group_offsets == old(self).consumer_group_offsets,
                self.consumer_offsets_path == old(self).consumer_offsets_path,
                self.consumer_group_offsets_path == old(self).consumer_group_offsets_path,
                flushes@.len() == i,
                forall|j: int|
                    0 <= j < i ==> segment_flushed(
                        #[trigger] old(self).segments@[j],
                        self.segments@[j],
                    ),
                forall|j: int| i <= j < n ==> self.segments@[j] == old(self).segments@[j],
                forall|j: int|
                    0 <= j < i ==> flush_matches_segment(
                        #[trigger] flushes@[j],
                        old(self).segments@[j],
                    ),
            decreases n - i,
        {
            let mut segment = self.segments.remove(i);
            let flush = segment.flush();
            self.segments.insert(i, segment);
            flushes.push(flush);
            proof {
                assert(self.segments@[i as int] == segment);
                assert forall|j: int| i + 1 <= j < n implies self.segments@[j] == old(
                    self,
                ).segments@[j] by {}
            }
            i = i + 1;
        }
        proof {
            assert forall|i2: int| 0 <= i2 < self.segments@.len() implies (
            #[trigger] self.segments@[i2]).wf() by {
                assert(segment_flushed(old(self).segments@[i2], self.segments@[i2]));
            }
            assert forall|i2: int| 1 <= i2 < self.segments@.len() implies (
            #[trigger] self.segments@[i2]).start_offset == self.segments@[i2 - 1].next_offset by {
                assert(segment_flushed(old(self).segments@[i2], self.segments@[i2]));
                assert(segment_flushed(old(self).segments@[i2 - 1], self.segments@[i2 - 1]));
            }
            assert forall|i2: int| 0 <= i2 < self.segments@.len() - 1 implies (
            #[trigger] self.segments@[i2]).sealed by {
                assert(segment_flushed(old(self).segments@[i2], self.segments@[i2]));
            }
            assert(segment_flushed(old(self).segments@[0], self.segments@[0]));
            assert(segment_flushed(old(self).segments@[n - 1], self.segments@[n - 1]));
            assert(!self.segments@.last().sealed);
        }
        PartitionFlush { partition_id: self.id, flushes }
    }
}

} // verus!

