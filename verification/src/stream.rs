//! Stream: the top-level persisted and recoverable unit. A stream owns its
//! directory layout and its topics; `persist` creates the on-disk layout
//! once, `load` rebuilds the in-memory state from it.
//!
//! The directory itself is modelled as a plain value, `StreamDir`: what
//! exists on disk plus which filesystem steps would fail. The caller probes
//! the real directory into a `StreamDir`, runs the engine on it, and mirrors
//! the resulting model back to disk.

use vstd::prelude::*;
use vstd::utf8::{decode_utf8, encode_utf8, valid_utf8};
use crate::error::Error;
use crate::text::{decimal_chars, parse_u32, parse_u32_ok, parse_u32_val, string_from_utf8,
    u32_to_decimal};
use crate::topic::{flush_matches_partition, partition_flushed, Topic, TopicFlush};

verus! {

/// Which filesystem steps fail when attempted, as probed or injected by the
/// caller.
#[derive(Clone, Copy, Debug, PartialEq, Eq, Structural)]
pub struct FsFaults {
    pub create_stream_dir: bool,
    pub create_topics_dir: bool,
    pub create_info: bool,
    pub write_info: bool,
    pub open_info: bool,
    pub read_info: bool,
}

impl FsFaults {
    /// A filesystem on which every step succeeds.
    pub fn none() -> (r: FsFaults)
        ensures
            !r.create_stream_dir,
            !r.create_topics_dir,
            !r.create_info,
            !r.write_info,
            !r.open_info,
            !r.read_info,
    {
        FsFaults {
            create_stream_dir: false,
            create_topics_dir: false,
            create_info: false,
            write_info: false,
            open_info: false,
            read_info: false,
        }
    }
}

/// The on-disk state of one stream's directory: whether it and its topics
/// subdirectory exist, the info file's bytes, and the names of the entries
/// in the topics directory.
pub struct StreamDir {
    pub exists: bool,
    pub topics_dir_exists: bool,
    pub info: Option<Vec<u8>>,
    pub topic_names: Vec<String>,
    pub faults: FsFaults,
}

/// The outcome `Stream::persist` owes for a given directory state: the
/// first failing step decides the error.
pub open spec fn spec_persist_result(stream_id: u32, disk: StreamDir) -> Result<(), Error> {
    if disk.exists {
        Err(Error::StreamAlreadyExists(stream_id))
    } else if disk.faults.create_stream_dir {
        Err(Error::CannotCreateStreamDirectory(stream_id))
    } else if !disk.topics_dir_exists && disk.faults.create_topics_dir {
        Err(Error::CannotCreateTopicsDirectory)
    } else if disk.faults.create_info {
        Err(Error::CannotCreateStreamInfo(stream_id))
    } else if disk.faults.write_info {
        Err(Error::CannotUpdateStreamInfo(stream_id))
    } else {
        Ok(())
    }
}

/// The outcome `Stream::load` owes for a given directory state.
pub open spec fn spec_load_result(stream_id: u32, disk: StreamDir) -> Result<(), Error> {
    if !disk.exists {
        Err(Error::StreamNotFound(stream_id))
    } else if disk.faults.open_info || disk.info is None {
        Err(Error::CannotOpenStreamInfo(stream_id))
    } else if disk.faults.read_info || !valid_utf8(disk.info.unwrap()@) {
        Err(Error::CannotReadStreamInfo(stream_id))
    } else {
        Ok(())
    }
}

/// The per-topic flushes of one stream, index-aligned with its topics.
pub struct StreamFlush {
    pub stream_id: u32,
    pub topics: Vec<TopicFlush>,
}

pub struct Stream {
    pub id: u32,
    pub name: String,
    pub path: String,
    pub topics_path: String,
    pub info_path: String,
    pub topics: Vec<Topic>,
}

impl Stream {
    pub open spec fn wf(&self) -> bool {
        forall|i: int| 0 <= i < self.topics@.len() ==> (#[trigger] self.topics@[i]).wf()
    }

    /// A fresh stream rooted in `streams_path` under its decimal id, with no
    /// topics yet.
    pub fn new(id: u32, name: &str, streams_path: &str) -> (r: Stream)
        ensures
            r.wf(),
            r.id == id,
            r.name@ == name@,
            r.path@ == streams_path@ + "/"@ + decimal_chars(id as nat),
            r.topics_path@ == r.path@ + "/topics"@,
            r.info_path@ == r.path@ + "/stream.info"@,
            r.topics@.len() == 0,
    {
        let mut path = String::from_str(streams_path);
        path.append("/");
        let id_str = u32_to_decimal(id);
        path.append(id_str.as_str());
        let mut topics_path = path.clone();
        topics_path.append("/topics");
        let mut info_path = path.clone();
        info_path.append("/stream.info");
        Stream {
            id,
            name: String::from_str(name),
            path,
            topics_path,
            info_path,
            topics: Vec::new(),
        }
    }

    /// Creates the stream's directory layout in the given directory state:
    /// the stream directory, its topics subdirectory, and the info file
    /// holding the raw stream name. Fails with `StreamAlreadyExists` exactly
    /// when the directory is already there — a second create is an error,
    /// not a no-op — and with a step-specific error for each filesystem
    /// failure.
    pub fn persist(&self, disk: &mut StreamDir) -> (r: Result<(), Error>)
        ensures
            r == spec_persist_result(self.id, *old(disk)),
            final(disk).faults == old(disk).faults,
            final(disk).topic_names == old(disk).topic_names,
            old(disk).exists || old(disk).faults.create_stream_dir ==> *final(disk) == *old(
                disk,
            ),
            !old(disk).exists && !old(disk).faults.create_stream_dir ==> {
                &&& final(disk).exists
                &&& final(disk).topics_dir_exists == (old(disk).topics_dir_exists || !old(
                    disk,
                ).faults.create_topics_dir)
            },
            (r == Err::<(), Error>(Error::CannotCreateTopicsDirectory) || r == Err::<(), Error>(
                Error::CannotCreateStreamInfo(self.id),
            )) ==> final(disk).info == old(disk).info,
            r == Err::<(), Error>(Error::CannotUpdateStreamInfo(self.id)) ==> final(disk).info
                is Some && final(disk).info.unwrap()@ == Seq::<u8>::empty(),
            r is Ok ==> final(disk).info is Some && final(disk).info.unwrap()@ == encode_utf8(
                self.name@,
            ),
    {
        if disk.exists {
            return Err(Error::StreamAlreadyExists(self.id));
        }
        if disk.faults.create_stream_dir {
            return Err(Error::CannotCreateStreamDirectory(self.id));
        }
        disk.exists = true;
        if !disk.topics_dir_exists {
            if disk.faults.create_topics_dir {
                return Err(Error::CannotCreateTopicsDirectory);
            }
            disk.topics_dir_exists = true;
        }
        if disk.faults.create_info {
            return Err(Error::CannotCreateStreamInfo(self.id));
        }
        disk.info = Some(Vec::new());
        if disk.faults.write_info {
            return Err(Error::CannotUpdateStreamInfo(self.id));
        }
        disk.info = Some(self.name.as_str().as_bytes_vec());
        Ok(())
    }

    /// Rebuilds the stream from its directory state: reads the stream name
    /// from the info file and constructs one empty topic per entry of the
    /// topics directory. Fails with `StreamNotFound` exactly when the
    /// directory is absent. A topics entry whose name is not a decimal id is
    /// fatal to recovery in this design, so such listings are excluded here.
    pub fn load(&mut self, disk: &StreamDir) -> (r: Result<(), Error>)
        requires
            forall|i: int|
                0 <= i < disk.topic_names@.len() ==> parse_u32_ok(
                    (#[trigger] disk.topic_names@[i])@,
                ),
        ensures
            r == spec_load_result(old(self).id, *disk),
            r is Err ==> *final(self) == *old(self),
            final(self).id == old(self).id,
            final(self).path == old(self).path,
            final(self).topics_path == old(self).topics_path,
            final(self).info_path == old(self).info_path,
            r is Ok ==> {
                &&& final(self).wf()
                &&& final(self).name@ == decode_utf8(disk.info.unwrap()@)
                &&& final(self).topics@.len() == disk.topic_names@.len()
                &&& forall|i: int|
                    0 <= i < disk.topic_names@.len() ==> (
                    #[trigger] final(self).topics@[i]).topic_id as nat == parse_u32_val(
                        disk.topic_names@[i]@,
                    ) && final(self).topics@[i].partitions@.len() == 0
                        && final(self).topics@[i].path@ == old(self).topics_path@ + "/"@
                        + decimal_chars(parse_u32_val(disk.topic_names@[i]@))
            },
    {
        if !disk.exists {
            return Err(Error::StreamNotFound(self.id));
        }
        if disk.faults.open_info {
            return Err(Error::CannotOpenStreamInfo(self.id));
        }
        let info = match &disk.info {
            None => {
                return Err(Error::CannotOpenStreamInfo(self.id));
            },
            Some(info) => info,
        };
        if disk.faults.read_info {
            return Err(Error::CannotReadStreamInfo(self.id));
        }
        let name = match string_from_utf8(info.clone()) {
            None => {
                return Err(Error::CannotReadStreamInfo(self.id));
            },
            Some(name) => name,
        };
        let n = disk.topic_names.len();
        let mut topics: Vec<Topic> = Vec::new();
        let mut i: usize = 0;
        while i < n
            invariant
                0 <= i <= n,
                n == disk.topic_names@.len(),
                forall|j: int|
                    0 <= j < disk.topic_names@.len() ==> parse_u32_ok(
                        (#[trigger] disk.topic_names@[j])@,
                    ),
                self.topics_path == old(self).topics_path,
                topics@.len() == i,
                forall|j: int|
                    0 <= j < i ==> (#[trigger] topics@[j]).topic_id as nat == parse_u32_val(
                        disk.topic_names@[j]@,
                    ) && topics@[j].partitions@.len() == 0 && topics@[j].wf()
                        && topics@[j].path@ == old(self).topics_path@ + "/"@ + decimal_chars(
                        parse_u32_val(disk.topic_names@[j]@),
                    ),
            decreases n - i,
        {
            let topic_id = match parse_u32(disk.topic_names[i].as_str()) {
                Some(topic_id) => topic_id,
                None => {
                    proof {
                        assert(parse_u32_ok(disk.topic_names@[i as int]@));
                    }
                    vstd::pervasive::unreached()
                },
            };
            let topic = Topic::empty(topic_id, self.topics_path.as_str());
            topics.push(topic);
            i = i + 1;
        }
        self.name = name;
        self.topics = topics;
        Ok(())
    }

    /// Flushes every topic's buffered segment data for durable writing, as
    /// part of orderly shutdown.
    #[verifier::rlimit(60)]
    pub fn persist_messages(&mut self) -> (r: StreamFlush)
        requires
            old(self).wf(),
        ensures
            final(self).wf(),
            final(self).id == old(self).id,
            final(self).name == old(self).name,
            final(self).path == old(self).path,
            final(self).topics_path == old(self).topics_path,
            final(self).info_path == old(self).info_path,
            final(self).topics@.len() == old(self).topics@.len(),
            forall|i: int|
                0 <= i < old(self).topics@.len() ==> topic_flushed(
                    #[trigger] old(self).topics@[i],
                    final(self).topics@[i],
                ),
            r.stream_id == old(self).id,
            r.topics@.len() == old(self).topics@.len(),
            forall|i: int|
                0 <= i < old(self).topics@.len() ==> flush_matches_topic(
                    #[trigger] r.topics@[i],
                    old(self).topics@[i],
                ),
    {
        let n = self.topics.len();
        let mut flushes: Vec<TopicFlush> = Vec::new();
        let mut i: usize = 0;
        while i < n
            invariant
                0 <= i <= n,
                old(self).wf(),
                n == self.topics@.len(),
                n == old(self).topics@.len(),
                self.id == old(self).id,
                self.name == old(self).name,
                self.path == old(self).path,
                self.topics_path == old(self).topics_path,
                self.info_path == old(self).info_path,
                flushes@.len() == i,
                forall|j: int|
                    0 <= j < i ==> topic_flushed(
                        #[trigger] old(self).topics@[j],
                        self.topics@[j],
                    ),
                forall|j: int| i <= j < n ==> self.topics@[j] == old(self).topics@[j],
                forall|j: int| 0 <= j < i ==> (#[trigger] self.topics@[j]).wf(),
                forall|j: int|
                    0 <= j < i ==> flush_matches_topic(
                        #[trigger] flushes@[j],
                        old(self).topics@[j],
                    ),
            decreases n - i,
        {
            let mut topic = self.topics.remove(i);
            let flush = topic.persist_messages();
            self.topics.insert(i, topic);
            flushes.push(flush);
            proof {
                assert(self.topics@[i as int] == topic);
                assert(topic_flushed(old(self).topics@[i as int], topic));
                assert(flush_matches_topic(flush, old(self).topics@[i as int]));
            }
            i = i + 1;
        }
        StreamFlush { stream_id: self.id, topics: flushes }
    }
}

/// Whether two topics hold the same state, the second with every partition
/// drained.
pub open spec fn topic_flushed(before: Topic, after: Topic) -> bool {
    &&& after.topic_id == before.topic_id
    &&& after.path == before.path
    &&& after.partitions@.len() == before.partitions@.len()
    &&& forall|i: int|
        0 <= i < before.partitions@.len() ==> partition_flushed(
            #[trigger] before.partitions@[i],
            after.partitions@[i],
        )
}

/// Whether a topic flush carries exactly one topic's buffers.
pub open spec fn flush_matches_topic(f: TopicFlush, t: Topic) -> bool {
    &&& f.topic_id == t.topic_id
    &&& f.partitions@.len() == t.partitions@.len()
    &&& forall|i: int|
        0 <= i < t.partitions@.len() ==> flush_matches_partition(
            #[trigger] f.partitions@[i],
            t.partitions@[i],
        )
}

} // verus!
