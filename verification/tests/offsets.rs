use iggy::error::Error;
use iggy::offsets::{OffsetFileEntry, PollingConsumer};
use iggy::offsets::ConsumerType;
use iggy::partition::Partition;

fn partition_with_high_water_mark(mark: u64) -> Partition {
    let mut partition = Partition::new(3, 1, 2, "streams/1/topics/2/partitions/3");
    let mut written = 0u64;
    while written <= mark {
        partition.append_message(vec![written as u8]).unwrap();
        written += 1;
    }
    assert_eq!(partition.current_offset, mark);
    partition
}

#[test]
fn store_then_get_returns_the_offset() {
    let mut partition = partition_with_high_water_mark(10);
    for offset in [0u64, 3, 10] {
        partition
            .store_offset(PollingConsumer::Consumer(9), offset)
            .unwrap();
        assert_eq!(partition.get_offset(PollingConsumer::Consumer(9)), Ok(offset));
    }
}

#[test]
fn store_above_high_water_mark_fails() {
    let mut partition = partition_with_high_water_mark(5);
    let result = partition.store_offset(PollingConsumer::Consumer(1), 6);
    assert!(matches!(result, Err(Error::InvalidOffset(6))));
}

#[test]
fn get_offset_without_store_is_zero() {
    let partition = partition_with_high_water_mark(5);
    assert_eq!(partition.get_offset(PollingConsumer::Consumer(77)), Ok(0));
    assert_eq!(
        partition.get_offset(PollingConsumer::ConsumerGroup(77, 4)),
        Ok(0)
    );
}

#[test]
fn scenario_high_water_mark_hundred() {
    let mut partition = partition_with_high_water_mark(100);
    assert!(partition
        .store_offset(PollingConsumer::Consumer(7), 50)
        .is_ok());
    assert_eq!(partition.get_offset(PollingConsumer::Consumer(7)), Ok(50));
    let rejected = partition.store_offset(PollingConsumer::Consumer(7), 150);
    assert!(matches!(rejected, Err(Error::InvalidOffset(150))));
    assert_eq!(partition.get_offset(PollingConsumer::Consumer(7)), Ok(50));
}

#[test]
fn consumer_and_group_keyspaces_are_independent() {
    let mut partition = partition_with_high_water_mark(20);
    partition
        .store_offset(PollingConsumer::Consumer(5), 11)
        .unwrap();
    partition
        .store_offset(PollingConsumer::ConsumerGroup(5, 1), 17)
        .unwrap();
    assert_eq!(partition.get_offset(PollingConsumer::Consumer(5)), Ok(11));
    assert_eq!(
        partition.get_offset(PollingConsumer::ConsumerGroup(5, 1)),
        Ok(17)
    );
}

#[test]
fn repeated_stores_keep_the_last_value() {
    let mut partition = partition_with_high_water_mark(30);
    partition
        .store_offset(PollingConsumer::Consumer(2), 10)
        .unwrap();
    partition
        .store_offset(PollingConsumer::Consumer(2), 20)
        .unwrap();
    assert_eq!(partition.get_offset(PollingConsumer::Consumer(2)), Ok(20));
}

#[test]
fn store_offset_names_the_file_to_write() {
    let mut partition = partition_with_high_water_mark(10);
    let save = partition
        .store_offset(PollingConsumer::Consumer(12), 4)
        .unwrap();
    assert_eq!(save.consumer_id, 12);
    assert_eq!(save.offset, 4);
    assert_eq!(
        save.path,
        "streams/1/topics/2/partitions/3/consumer_offsets/12"
    );
    let entry = save.as_dir_entry();
    assert_eq!(entry.name, "12");
    assert_eq!(entry.bytes, Some(4u64.to_le_bytes().to_vec()));
}

#[test]
fn offsets_round_trip_through_directory_entries() {
    let mut partition = partition_with_high_water_mark(100);
    let mut dir: Vec<OffsetFileEntry> = Vec::new();
    for (consumer_id, offset) in [(1u32, 10u64), (2, 20), (3, 30)] {
        let save = partition
            .store_offset(PollingConsumer::Consumer(consumer_id), offset)
            .unwrap();
        dir.push(save.as_dir_entry());
    }

    let mut fresh = Partition::new(3, 1, 2, "streams/1/topics/2/partitions/3");
    fresh.load_offsets(ConsumerType::Consumer, Some(dir)).unwrap();
    assert_eq!(fresh.get_offset(PollingConsumer::Consumer(1)), Ok(10));
    assert_eq!(fresh.get_offset(PollingConsumer::Consumer(2)), Ok(20));
    assert_eq!(fresh.get_offset(PollingConsumer::Consumer(3)), Ok(30));
}

#[test]
fn load_skips_non_numeric_and_unreadable_entries() {
    let mut dir: Vec<OffsetFileEntry> = Vec::new();
    for consumer_id in [1u32, 2, 3] {
        dir.push(OffsetFileEntry {
            name: consumer_id.to_string(),
            is_dir: false,
            bytes: Some((consumer_id as u64 * 100).to_le_bytes().to_vec()),
        });
    }
    dir.push(OffsetFileEntry {
        name: "abc".to_string(),
        is_dir: false,
        bytes: Some(999u64.to_le_bytes().to_vec()),
    });
    dir.push(OffsetFileEntry {
        name: "7".to_string(),
        is_dir: true,
        bytes: None,
    });
    dir.push(OffsetFileEntry {
        name: "8".to_string(),
        is_dir: false,
        bytes: Some(vec![1, 2, 3]),
    });

    let mut partition = partition_with_high_water_mark(300);
    partition
        .load_offsets(ConsumerType::Consumer, Some(dir))
        .unwrap();
    assert_eq!(partition.get_offset(PollingConsumer::Consumer(1)), Ok(100));
    assert_eq!(partition.get_offset(PollingConsumer::Consumer(2)), Ok(200));
    assert_eq!(partition.get_offset(PollingConsumer::Consumer(3)), Ok(300));
    assert_eq!(partition.get_offset(PollingConsumer::Consumer(7)), Ok(0));
    assert_eq!(partition.get_offset(PollingConsumer::Consumer(8)), Ok(0));
}

#[test]
fn snapshot_lists_one_file_per_consumer() {
    let mut partition = partition_with_high_water_mark(100);
    for (consumer_id, offset) in [(4u32, 40u64), (5, 55), (4, 44)] {
        partition
            .store_offset(PollingConsumer::Consumer(consumer_id), offset)
            .unwrap();
    }
    assert_eq!(partition.consumer_offsets.len(), 2);
    let listing = partition.consumer_offsets.snapshot();
    assert_eq!(listing.len(), 2);

    let mut fresh = Partition::new(3, 1, 2, "streams/1/topics/2/partitions/3");
    fresh.load_offsets(ConsumerType::Consumer, Some(listing)).unwrap();
    assert_eq!(fresh.get_offset(PollingConsumer::Consumer(4)), Ok(44));
    assert_eq!(fresh.get_offset(PollingConsumer::Consumer(5)), Ok(55));
    assert_eq!(fresh.consumer_offsets.entries().len(), 2);
}

#[test]
fn unreadable_directory_is_fatal() {
    let mut partition = partition_with_high_water_mark(1);
    let result = partition.load_offsets(ConsumerType::ConsumerGroup, None);
    assert_eq!(result, Err(Error::CannotReadConsumerOffsets(3)));
}

#[test]
fn find_segment_locates_written_offsets() {
    let partition = partition_with_high_water_mark(9);
    let index = partition.find_segment(4).unwrap();
    assert_eq!(index, 0);
    assert!(partition.find_segment(10).is_none());
}
