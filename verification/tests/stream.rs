use iggy::error::Error;
use iggy::partition::Partition;
use iggy::stream::{FsFaults, Stream, StreamDir};
use iggy::topic::Topic;

fn fresh_disk() -> StreamDir {
    StreamDir {
        exists: false,
        topics_dir_exists: false,
        info: None,
        topic_names: Vec::new(),
        faults: FsFaults::none(),
    }
}

#[test]
fn persist_on_existing_directory_fails() {
    let stream = Stream::new(1, "S1", "streams");
    let mut disk = fresh_disk();
    disk.exists = true;
    assert_eq!(stream.persist(&mut disk), Err(Error::StreamAlreadyExists(1)));
}

#[test]
fn load_on_missing_directory_fails() {
    let mut stream = Stream::new(1, "S1", "streams");
    let disk = fresh_disk();
    assert_eq!(stream.load(&disk), Err(Error::StreamNotFound(1)));
}

#[test]
fn scenario_persist_then_load_restores_the_name() {
    let stream = Stream::new(1, "S1", "streams");
    assert_eq!(stream.path, "streams/1");
    assert_eq!(stream.topics_path, "streams/1/topics");
    assert_eq!(stream.info_path, "streams/1/stream.info");

    let mut disk = fresh_disk();
    assert!(stream.persist(&mut disk).is_ok());
    assert!(disk.exists);
    assert!(disk.topics_dir_exists);
    assert_eq!(disk.info, Some(b"S1".to_vec()));

    let mut restored = Stream::new(1, "", "streams");
    assert!(restored.load(&disk).is_ok());
    assert_eq!(restored.name, "S1");
}

#[test]
fn second_persist_is_an_error_not_a_no_op() {
    let stream = Stream::new(4, "twice", "streams");
    let mut disk = fresh_disk();
    assert!(stream.persist(&mut disk).is_ok());
    assert_eq!(stream.persist(&mut disk), Err(Error::StreamAlreadyExists(4)));
}

#[test]
fn each_persist_step_failure_has_its_own_error() {
    let stream = Stream::new(2, "S2", "streams");

    let mut disk = fresh_disk();
    disk.faults.create_stream_dir = true;
    assert_eq!(
        stream.persist(&mut disk),
        Err(Error::CannotCreateStreamDirectory(2))
    );

    let mut disk = fresh_disk();
    disk.faults.create_topics_dir = true;
    assert_eq!(
        stream.persist(&mut disk),
        Err(Error::CannotCreateTopicsDirectory)
    );

    let mut disk = fresh_disk();
    disk.faults.create_info = true;
    assert_eq!(
        stream.persist(&mut disk),
        Err(Error::CannotCreateStreamInfo(2))
    );

    let mut disk = fresh_disk();
    disk.faults.write_info = true;
    assert_eq!(
        stream.persist(&mut disk),
        Err(Error::CannotUpdateStreamInfo(2))
    );
}

#[test]
fn each_load_step_failure_has_its_own_error() {
    let mut stream = Stream::new(3, "S3", "streams");

    let mut disk = fresh_disk();
    disk.exists = true;
    disk.faults.open_info = true;
    assert_eq!(stream.load(&disk), Err(Error::CannotOpenStreamInfo(3)));

    let mut disk = fresh_disk();
    disk.exists = true;
    disk.info = None;
    assert_eq!(stream.load(&disk), Err(Error::CannotOpenStreamInfo(3)));

    let mut disk = fresh_disk();
    disk.exists = true;
    disk.info = Some(b"S3".to_vec());
    disk.faults.read_info = true;
    assert_eq!(stream.load(&disk), Err(Error::CannotReadStreamInfo(3)));

    let mut disk = fresh_disk();
    disk.exists = true;
    disk.info = Some(vec![0xff, 0xfe]);
    assert_eq!(stream.load(&disk), Err(Error::CannotReadStreamInfo(3)));
}

#[test]
fn load_builds_one_topic_per_directory_entry() {
    let mut stream = Stream::new(5, "S5", "streams");
    let mut disk = fresh_disk();
    disk.exists = true;
    disk.topics_dir_exists = true;
    disk.info = Some(b"S5".to_vec());
    disk.topic_names = vec!["10".to_string(), "20".to_string()];
    assert!(stream.load(&disk).is_ok());
    assert_eq!(stream.topics.len(), 2);
    assert_eq!(stream.topics[0].topic_id, 10);
    assert_eq!(stream.topics[0].path, "streams/5/topics/10");
    assert_eq!(stream.topics[1].topic_id, 20);
}

#[test]
fn persist_messages_drains_every_buffer() {
    let mut stream = Stream::new(6, "S6", "streams");
    let mut topic = Topic::empty(1, "streams/6/topics");
    let mut partition = Partition::new(1, 6, 1, "streams/6/topics/1/partitions/1");
    partition.append_message(vec![1, 2, 3]).unwrap();
    partition.append_message(vec![4, 5]).unwrap();
    topic.add_partition(partition);
    stream.topics.push(topic);

    let flush = stream.persist_messages();
    assert_eq!(flush.stream_id, 6);
    assert_eq!(flush.topics.len(), 1);
    assert_eq!(flush.topics[0].topic_id, 1);
    assert_eq!(flush.topics[0].partitions.len(), 1);
    let partition_flush = &flush.topics[0].partitions[0];
    assert_eq!(partition_flush.partition_id, 1);
    assert_eq!(partition_flush.flushes.len(), 1);
    assert_eq!(
        partition_flush.flushes[0].messages,
        vec![vec![1, 2, 3], vec![4, 5]]
    );

    let again = stream.persist_messages();
    assert!(again.topics[0].partitions[0].flushes[0].messages.is_empty());
}

#[test]
fn append_buffers_the_payload_and_accounts_its_size() {
    let mut partition = Partition::new(1, 1, 1, "p");
    partition.append_message(vec![1, 2, 3]).unwrap();
    partition.append_message(vec![4]).unwrap();
    assert_eq!(partition.segments.len(), 1);
    assert_eq!(partition.segments[0].next_offset, 2);
    assert_eq!(partition.segments[0].size_bytes, 4);
    assert_eq!(
        partition.segments[0].unsaved_messages,
        vec![vec![1, 2, 3], vec![4]]
    );
    assert!(!partition.segments[0].sealed);
}

#[test]
fn appends_advance_the_high_water_mark() {
    let mut partition = Partition::new(1, 1, 1, "p");
    assert_eq!(partition.current_offset, 0);
    partition.append_message(vec![9]).unwrap();
    assert_eq!(partition.current_offset, 0);
    partition.append_message(vec![9]).unwrap();
    assert_eq!(partition.current_offset, 1);
    partition.append_message(vec![9]).unwrap();
    assert_eq!(partition.current_offset, 2);
}
