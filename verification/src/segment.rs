//! Segments: bounded, append-only chunks of a partition's message log. Only
//! the open (last) segment of a partition accepts appends; a segment is
//! sealed once its size threshold is crossed and never mutated again.

use vstd::prelude::*;

verus! {

/// Size threshold in bytes at which a segment is sealed.
pub const SEGMENT_SIZE_LIMIT: u64 = 1073741824;

/// One contiguous chunk of a partition's log. Appended payloads are buffered
/// in `unsaved_messages` until a flush hands them to the persister.
pub struct Segment {
    pub start_offset: u64,
    /// First offset not yet assigned within this segment.
    pub next_offset: u64,
    pub size_bytes: u64,
    pub sealed: bool,
    pub unsaved_messages: Vec<Vec<u8>>,
}

/// The payloads a flush must write durably, for one segment.
pub struct SegmentFlush {
    pub start_offset: u64,
    pub messages: Vec<Vec<u8>>,
}

impl Segment {
    pub open spec fn wf(&self) -> bool {
        self.start_offset <= self.next_offset
    }

    /// Whether a log position falls inside this segment.
    pub open spec fn spec_contains_offset(&self, offset: u64) -> bool {
        self.start_offset <= offset < self.next_offset
    }

    pub open spec fn spec_unsaved(&self) -> Seq<Vec<u8>> {
        self.unsaved_messages@
    }

    pub fn new(start_offset: u64) -> (r: Segment)
        ensures
            r.wf(),
            r.start_offset == start_offset,
            r.next_offset == start_offset,
            r.size_bytes == 0,
            !r.sealed,
            r.spec_unsaved() == Seq::<Vec<u8>>::empty(),
    {
        Segment {
            start_offset,
            next_offset: start_offset,
            size_bytes: 0,
            sealed: false,
            unsaved_messages: Vec::new(),
        }
    }

    /// Appends one payload to the open segment, assigning it the next offset.
    pub fn append(&mut self, payload: Vec<u8>)
        requires
            old(self).wf(),
            !old(self).sealed,
            old(self).next_offset < u64::MAX,
            old(self).size_bytes + payload@.len() <= u64::MAX,
        ensures
            final(self).wf(),
            !final(self).sealed,
            final(self).start_offset == old(self).start_offset,
            final(self).next_offset == old(self).next_offset + 1,
            final(self).size_bytes == old(self).size_bytes + payload@.len(),
            final(self).spec_unsaved() == old(self).spec_unsaved().push(payload),
    {
        self.size_bytes = self.size_bytes + payload.len() as u64;
        self.next_offset = self.next_offset + 1;
        self.unsaved_messages.push(payload);
    }

    /// Seals the segment: it accepts no further appends.
    pub fn seal(&mut self)
        ensures
            final(self).sealed,
            final(self).start_offset == old(self).start_offset,
            final(self).next_offset == old(self).next_offset,
            final(self).size_bytes == old(self).size_bytes,
            final(self).spec_unsaved() == old(self).spec_unsaved(),
    {
        self.sealed = true;
    }

    /// Whether the size threshold has been crossed.
    pub fn is_full(&self) -> (r: bool)
        ensures
            r == (self.size_bytes >= SEGMENT_SIZE_LIMIT),
    {
        self.size_bytes >= SEGMENT_SIZE_LIMIT
    }

    /// Drains the buffered payloads so the caller can write them durably.
    pub fn flush(&mut self) -> (r: SegmentFlush)
        ensures
            final(self).start_offset == old(self).start_offset,
            final(self).next_offset == old(self).next_offset,
            final(self).size_bytes == old(self).size_bytes,
            final(self).sealed == old(self).sealed,
            final(self).spec_unsaved() == Seq::<Vec<u8>>::empty(),
            r.start_offset == old(self).start_offset,
            r.messages@ == old(self).spec_unsaved(),
    {
        let messages = self.unsaved_messages.split_off(0);
        proof {
            assert(messages@ =~= old(self).unsaved_messages@);
            assert(self.unsaved_messages@ =~= Seq::<Vec<u8>>::empty());
        }
        SegmentFlush { start_offset: self.start_offset, messages }
    }
}

/// Whether `after` is `before` with exactly one payload appended: the next
/// offset assigned, the size accounted, and the payload buffered.
pub open spec fn segment_appended(before: Segment, after: Segment, payload: Vec<u8>) -> bool {
    &&& after.start_offset == before.start_offset
    &&& after.next_offset == before.next_offset + 1
    &&& after.size_bytes == before.size_bytes + payload@.len()
    &&& after.spec_unsaved() == before.spec_unsaved().push(payload)
}

/// Whether a flush carries exactly one segment's buffered payloads.
pub open spec fn flush_matches_segment(f: SegmentFlush, s: Segment) -> bool {
    &&& f.start_offset == s.start_offset
    &&& f.messages@ == s.spec_unsaved()
}

/// Whether two segments hold the same log positions and bytes, the second
/// with an empty buffer.
pub open spec fn segment_flushed(before: Segment, after: Segment) -> bool {
    &&& after.start_offset == before.start_offset
    &&& after.next_offset == before.next_offset
    &&& after.size_bytes == before.size_bytes
    &&& after.sealed == before.sealed
    &&& after.spec_unsaved() == Seq::<Vec<u8>>::empty()
}

} // verus!
