//! Topic: a named collection of partitions within a stream. Owns partition
//! lifecycle and forwards flushes.

use vstd::prelude::*;
use crate::partition::{Partition, PartitionFlush};
use crate::text::{decimal_chars, u32_to_decimal};

verus! {

/// The per-partition flushes of one topic, index-aligned with its
/// partitions.
pub struct TopicFlush {
    pub topic_id: u32,
    pub partitions: Vec<PartitionFlush>,
}

pub struct Topic {
    pub topic_id: u32,
    pub path: String,
    pub partitions: Vec<Partition>,
}

/// Whether two partitions hold the same state, the second with every
/// segment's buffer drained.
pub open spec fn partition_flushed(before: Partition, after: Partition) -> bool {
    &&& after.id == before.id
    &&& after.stream_id == before.stream_id
    &&& after.topic_id == before.topic_id
    &&& after.current_offset == before.current_offset
    &&& after.consumer_offsets == before.consumer_offsets
    &&& after.consumer_group_offsets == before.consumer_group_offsets
    &&& after.consumer_offsets_path == before.consumer_offsets_path
    &&& after.consumer_group_offsets_path == before.consumer_group_offsets_path
    &&& after.segments@.len() == before.segments@.len()
    &&& forall|i: int|
        0 <= i < before.segments@.len() ==> crate::segment::segment_flushed(
            #[trigger] before.segments@[i],
            after.segments@[i],
        )
}

/// Whether a partition flush carries exactly one partition's buffers.
pub open spec fn flush_matches_partition(f: PartitionFlush, p: Partition) -> bool {
    &&& f.partition_id == p.id
    &&& f.flushes@.len() == p.segments@.len()
    &&& forall|i: int|
        0 <= i < p.segments@.len() ==> crate::segment::flush_matches_segment(
            #[trigger] f.flushes@[i],
            p.segments@[i],
        )
}

impl Topic {
    pub open spec fn wf(&self) -> bool {
        forall|i: int| 0 <= i < self.partitions@.len() ==> (#[trigger] self.partitions@[i]).wf()
    }

    /// A topic with no partitions yet, rooted in the stream's topics
    /// directory under its decimal id.
    pub fn empty(topic_id: u32, topics_path: &str) -> (r: Topic)
        ensures
            r.wf(),
            r.topic_id == topic_id,
            r.partitions@.len() == 0,
            r.path@ == topics_path@ + "/"@ + decimal_chars(topic_id as nat),
    {
        let mut path = String::from_str(topics_path);
        path.append("/");
        let name = u32_to_decimal(topic_id);
        path.append(name.as_str());
        Topic { topic_id, path, partitions: Vec::new() }
    }

    /// Adds one partition to the topic.
    pub fn add_partition(&mut self, partition: Partition)
        requires
            old(self).wf(),
            partition.wf(),
        ensures
            final(self).wf(),
            final(self).topic_id == old(self).topic_id,
            final(self).path == old(self).path,
            final(self).partitions@ == old(self).partitions@.push(partition),
    {
        self.partitions.push(partition);
        proof {
            assert forall|i: int| 0 <= i < self.partitions@.len() implies (
            #[trigger] self.partitions@[i]).wf() by {
                if i < self.partitions@.len() - 1 {
                    assert(self.partitions@[i] == old(self).partitions@[i]);
                }
            }
        }
    }

    /// Drains every partition's buffered payloads for durable writing.
    #[verifier::rlimit(60)]
    pub fn persist_messages(&mut self) -> (r: TopicFlush)
        requires
            old(self).wf(),
        ensures
            final(self).wf(),
            final(self).topic_id == old(self).topic_id,
            final(self).path == old(self).path,
            final(self).partitions@.len() == old(self).partitions@.len(),
            forall|i: int|
                0 <= i < old(self).partitions@.len() ==> partition_flushed(
                    #[trigger] old(self).partitions@[i],
                    final(self).partitions@[i],
                ),
            r.topic_id == old(self).topic_id,
            r.partitions@.len() == old(self).partitions@.len(),
            forall|i: int|
                0 <= i < old(self).partitions@.len() ==> flush_matches_partition(
                    #[trigger] r.partitions@[i],
                    old(self).partitions@[i],
                ),
    {
        let n = self.partitions.len();
        let mut flushes: Vec<PartitionFlush> = Vec::new();
        let mut i: usize = 0;
        while i < n
            invariant
                0 <= i <= n,
                old(self).wf(),
                n == self.partitions@.len(),
                n == old(self).partitions@.len(),
                self.topic_id == old(self).topic_id,
                self.path == old(self).path,
                flushes@.len() == i,
                forall|j: int|
                    0 <= j < i ==> partition_flushed(
                        #[trigger] old(self).partitions@[j],
                        self.partitions@[j],
                    ),
                forall|j: int| i <= j < n ==> self.partitions@[j] == old(self).partitions@[j],
                forall|j: int| 0 <= j < i ==> (#[trigger] self.partitions@[j]).wf(),
                forall|j: int|
                    0 <= j < i ==> flush_matches_partition(
                        #[trigger] flushes@[j],
                        old(self).partitions@[j],
                    ),
            decreases n - i,
        {
            let mut partition = self.partitions.remove(i);
            let flush = partition.persist_messages();
            self.partitions.insert(i, partition);
            flushes.push(flush);
            proof {
                assert(self.partitions@[i as int] == partition);
                assert(partition_flushed(old(self).partitions@[i as int], partition));
                assert(flush_matches_partition(flush, old(self).partitions@[i as int]));
            }
            i = i + 1;
        }
        TopicFlush { topic_id: self.topic_id, partitions: flushes }
    }
}

} // verus!
