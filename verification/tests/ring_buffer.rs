use manytrace::agent;
use manytrace::agent::process::ThreadNameGate;
use manytrace::agent::AgentHandle;
use manytrace::mpscbuf::memory::{is_power_of_two, plan_layout};
use manytrace::mpscbuf::plan::{consume_step, next_header, plan_reserve, ConsumeStep};
use manytrace::mpscbuf::{
    round_up_to_8, Consumer, Memory, MpscBufError, Producer, RecordHeader, RingBuf,
    WakeupStrategy, BUSY_FLAG, DISCARD_FLAG, HEADER_SIZE,
};

const PAGE: usize = 4096;

fn ring(data_size: usize) -> RingBuf {
    match RingBuf::new(data_size, PAGE) {
        Ok(r) => r,
        Err(_) => panic!("ring buffer refused"),
    }
}

fn send(producer: &Producer, ring: &mut RingBuf, data: &[u8]) -> bool {
    match producer.reserve(ring, data.len()) {
        Ok(reserved) => {
            reserved.copy_from_slice(ring, data);
            reserved.commit(ring)
        }
        Err(_) => panic!("no room"),
    }
}

fn layout_error(data_size: usize) -> String {
    match RingBuf::new(data_size, PAGE) {
        Ok(_) => panic!("accepted"),
        Err(e) => e.message("Invalid argument"),
    }
}

#[test]
fn test_ringbuf_creation() {
    let size = PAGE * 2;
    let ringbuf = ring(size);
    assert_eq!(ringbuf.data_size(), size);
    assert_eq!(ringbuf.consumer_pos(), 0);
    assert_eq!(ringbuf.producer_pos(), 0);
    assert_eq!(ringbuf.dropped(), 0);
    assert_eq!(ringbuf.size_mask(), (size - 1) as u64);
}

#[test]
fn test_dropped_counter() {
    let mut ringbuf = ring(PAGE * 2);
    assert_eq!(ringbuf.dropped(), 0);
    ringbuf.increment_dropped();
    assert_eq!(ringbuf.dropped(), 1);
    ringbuf.increment_dropped();
    assert_eq!(ringbuf.dropped(), 2);
}

#[test]
fn test_continuous_mapping() {
    let page_size = PAGE;
    let data_size = page_size * 2;
    let mut memory = match Memory::new(data_size, page_size) {
        Ok(m) => m,
        Err(_) => panic!("memory refused"),
    };
    let metadata_ptr = memory.metadata_ptr();
    let data_ptr = memory.data_ptr();
    let data_size = memory.data_size();
    for i in 0..page_size {
        let byte_value = (i % 256) as u8;
        memory.write(metadata_ptr + i, byte_value);
    }
    for i in 0..data_size {
        let byte_value = ((i + 100) % 256) as u8;
        memory.write(data_ptr + i, byte_value);
    }
    for i in 0..page_size {
        let expected = (i % 256) as u8;
        let actual = memory.read(metadata_ptr + i);
        assert_eq!(actual, expected, "mismatch at metadata position {}", i);
    }
    for i in 0..data_size {
        let expected = ((i + 100) % 256) as u8;
        let actual = memory.read(data_ptr + i);
        assert_eq!(actual, expected, "mismatch at data position {}", i);
        let wrapped_actual = memory.read(data_ptr + i + data_size);
        assert_eq!(
            wrapped_actual,
            expected,
            "mismatch at wrapped data position {}",
            i + data_size
        );
    }
}

#[test]
fn test_wrap_around_write() {
    let page_size = PAGE;
    let data_size = page_size * 2;
    let mut memory = match Memory::new(data_size, page_size) {
        Ok(m) => m,
        Err(_) => panic!("memory refused"),
    };
    let data_ptr = memory.data_ptr();
    let data_size = memory.data_size();
    let pattern = b"ABCDEFGH";
    let start_pos = data_size - pattern.len() / 2;
    for (i, &byte) in pattern.iter().enumerate() {
        memory.write(data_ptr + start_pos + i, byte);
    }
    for (i, &expected) in pattern.iter().enumerate() {
        let actual = memory.read(data_ptr + start_pos + i);
        assert_eq!(actual, expected, "mismatch at position {}", start_pos + i);
    }
    for (i, &expected) in pattern.iter().enumerate() {
        let wrapped_pos = (start_pos + i) % data_size;
        let actual = memory.read(data_ptr + data_size + wrapped_pos);
        assert_eq!(actual, expected, "mismatch at wrapped position {}", wrapped_pos);
    }
}

#[test]
fn test_metadata_and_data_regions() {
    let page_size = PAGE;
    let data_size = page_size * 4;
    let mut memory = match Memory::new(data_size, page_size) {
        Ok(m) => m,
        Err(_) => panic!("memory refused"),
    };
    assert_eq!(memory.metadata_ptr(), 0);
    assert_eq!(memory.data_size(), data_size);
    let metadata_ptr = memory.metadata_ptr();
    let data_ptr = memory.data_ptr();
    memory.write(metadata_ptr, 0xAA);
    memory.write(data_ptr, 0xBB);
    assert_eq!(memory.read(metadata_ptr), 0xAA);
    assert_eq!(memory.read(data_ptr), 0xBB);
    assert_eq!(data_ptr - metadata_ptr, page_size);
}

#[test]
fn test_reserve_and_commit() {
    let mut ringbuf = ring(PAGE * 2);
    let producer = Producer::new();
    let data = b"hello world!";
    let data_len = data.len();
    let initial_pos = ringbuf.producer_pos();
    match producer.reserve(&mut ringbuf, data_len) {
        Ok(reserved) => {
            reserved.copy_from_slice(&mut ringbuf, data);
            reserved.commit(&mut ringbuf);
        }
        Err(_) => panic!("no room"),
    }
    let total_size = (data_len + HEADER_SIZE + 7) & !7;
    assert_eq!(ringbuf.producer_pos(), initial_pos + total_size as u64);
    assert_eq!(ringbuf.consumer_pos(), 0);
}

#[test]
fn test_explicit_discard() {
    let mut ringbuf = ring(PAGE * 2);
    let producer = Producer::new();
    let initial_pos = ringbuf.producer_pos();
    match producer.reserve(&mut ringbuf, 16) {
        Ok(reserved) => {
            reserved.discard(&mut ringbuf);
        }
        Err(_) => panic!("no room"),
    }
    let total_size = (16 + HEADER_SIZE + 7) & !7;
    assert_eq!(ringbuf.producer_pos(), initial_pos + total_size as u64);
}

#[test]
fn test_single_writer_reader() {
    let cases: [&[&[u8]]; 2] = [
        &[b"hello", b"world"],
        &[b"first message", b"second message", b"third message"],
    ];
    for messages in cases {
        let mut ringbuf = ring(PAGE * 2);
        let producer = Producer::new();
        let consumer = Consumer::new();
        for msg in messages {
            send(&producer, &mut ringbuf, msg);
        }
        let mut count = 0;
        let mut iter = consumer.iter();
        while let Some(record) = iter.next(&mut ringbuf) {
            assert_eq!(record.as_slice(), messages[count]);
            record.release(&mut ringbuf);
            count += 1;
        }
        assert_eq!(count, messages.len());
    }
}

#[test]
fn test_various_sizes() {
    for size in [8usize, 16, 32, 64, 128] {
        let mut ringbuf = ring(PAGE * 2);
        let producer = Producer::new();
        let initial_pos = ringbuf.producer_pos();
        let data: Vec<u8> = (0..size).map(|i| (i % 256) as u8).collect();
        send(&producer, &mut ringbuf, &data);
        let total_size = (size + HEADER_SIZE + 7) & !7;
        assert_eq!(ringbuf.producer_pos(), initial_pos + total_size as u64);
        assert_eq!(Consumer::new().drain(&mut ringbuf), vec![data]);
    }
}

#[test]
fn test_invalid_size_validation() {
    let mut ringbuf = ring(PAGE * 2);
    let huge_size = ringbuf.data_size() + 1;
    assert!(Producer::new().reserve(&mut ringbuf, huge_size).is_err());
}

#[test]
fn test_insufficient_space() {
    let mut ringbuf = ring(PAGE * 2);
    let producer = Producer::new();
    let large_size = ringbuf.data_size() / 2;
    assert!(producer.reserve(&mut ringbuf, large_size).is_ok());
    match producer.reserve(&mut ringbuf, large_size) {
        Ok(_) => panic!("room for both"),
        Err(e) => {
            assert!(matches!(e, MpscBufError::InsufficientSpace(8208, 0, 8192)));
            assert_eq!(
                e.message(""),
                "insufficient space in ring buffer. producer position: 8208, \
                 consumer position: 0, data size: 8192"
            );
        }
    }
}

#[test]
fn test_wrap_around_with_small_buffer() {
    let mut ringbuf = ring(PAGE * 2);
    let producer = Producer::with_wakeup_strategy(WakeupStrategy::Forced);
    let consumer = Consumer::new();
    let message_size = 256;
    let num_messages = 50;
    let mut received_messages: Vec<Vec<u8>> = Vec::new();
    for i in 0..num_messages {
        let mut data = vec![0u8; message_size];
        for (j, byte) in data.iter_mut().enumerate() {
            *byte = ((i * 256 + j) % 256) as u8;
        }
        loop {
            match producer.reserve(&mut ringbuf, message_size) {
                Ok(reserved) => {
                    reserved.copy_from_slice(&mut ringbuf, &data);
                    reserved.commit(&mut ringbuf);
                    break;
                }
                Err(MpscBufError::InsufficientSpace(_, _, _)) => {
                    received_messages.extend(consumer.drain(&mut ringbuf));
                }
                Err(_) => panic!("Unexpected error"),
            }
        }
    }
    received_messages.extend(consumer.drain(&mut ringbuf));
    assert_eq!(received_messages.len(), num_messages);
    for (i, message) in received_messages.iter().enumerate() {
        assert_eq!(message.len(), message_size);
        for (j, &byte) in message.iter().enumerate() {
            let expected = ((i * 256 + j) % 256) as u8;
            assert_eq!(byte, expected, "Mismatch at message {} byte {}", i, j);
        }
    }
}

#[test]
fn test_four_producers() {
    let page_size = PAGE;
    let size = page_size * 8;
    let mut ringbuf = ring(size);
    let consumer = Consumer::new();
    let num_producers = 3;
    let msgs_per_producer = 2;
    let producers: Vec<Producer> = (0..num_producers)
        .map(|_| Producer::with_wakeup_strategy(WakeupStrategy::Forced))
        .collect();
    for i in 0..msgs_per_producer {
        for (producer_id, producer) in producers.iter().enumerate() {
            let data = format!("p{}_{}", producer_id, i);
            send(producer, &mut ringbuf, data.as_bytes());
        }
    }
    let mut count = 0;
    let mut producer_counts = vec![0; num_producers];
    let mut iter = consumer.iter();
    while let Some(record) = iter.next(&mut ringbuf) {
        let data = record.release(&mut ringbuf);
        let data = std::str::from_utf8(&data).unwrap();
        for (producer_id, count) in producer_counts.iter_mut().enumerate() {
            if data.starts_with(&format!("p{}_", producer_id)) {
                *count += 1;
                break;
            }
        }
        count += 1;
    }
    assert_eq!(count, msgs_per_producer * num_producers);
    for (producer_id, count) in producer_counts.iter().enumerate() {
        assert_eq!(
            *count, msgs_per_producer,
            "Producer {} sent {} messages, expected {}",
            producer_id, *count, msgs_per_producer
        );
    }
}

#[test]
fn test_single_producer_single_consumer() {
    let page_size = PAGE;
    let size = page_size * 4;
    let mut ringbuf = ring(size);
    let consumer = Consumer::new();
    let producer = Producer::with_wakeup_strategy(WakeupStrategy::Forced);
    let num_messages = 3;
    let mut received = vec![];
    for i in 0..num_messages {
        let data = format!("message_{}", i);
        assert!(send(&producer, &mut ringbuf, data.as_bytes()));
    }
    for data in consumer.drain(&mut ringbuf) {
        received.push(std::str::from_utf8(&data).unwrap().to_string());
    }
    assert_eq!(received.len(), num_messages);
    for i in 0..num_messages {
        assert!(received.contains(&format!("message_{}", i)));
    }
}

#[test]
fn test_two_producers() {
    let size = 2 * 1024 * 1024;
    let mut ringbuf = ring(size);
    let consumer = Consumer::new();
    let producer1 = Producer::with_wakeup_strategy(WakeupStrategy::SelfPacing);
    let producer2 = Producer::with_wakeup_strategy(WakeupStrategy::SelfPacing);
    let num_messages = 10000;
    for _ in 0..num_messages / 2 {
        send(&producer1, &mut ringbuf, b"aaaaaaaaaaaaaaaaaa");
        send(&producer2, &mut ringbuf, b"aaaaaaaaaaaaaaaaaa");
    }
    assert_eq!(consumer.drain(&mut ringbuf).len(), num_messages);
}

struct Fields {
    name: Vec<u8>,
    value: f64,
    timestamp: u64,
    tid: i32,
    pid: i32,
}

fn counter_bytes() -> Vec<u8> {
    let mut bytes = Vec::new();
    bytes.extend_from_slice(&42.0f64.to_bits().to_le_bytes());
    bytes.extend_from_slice(&1000u64.to_le_bytes());
    bytes.extend_from_slice(&123i32.to_le_bytes());
    bytes.extend_from_slice(&456i32.to_le_bytes());
    bytes.extend_from_slice(b"test_counter");
    bytes
}

fn counter_fields(bytes: &[u8]) -> Fields {
    Fields {
        value: f64::from_bits(u64::from_le_bytes(bytes[0..8].try_into().unwrap())),
        timestamp: u64::from_le_bytes(bytes[8..16].try_into().unwrap()),
        tid: i32::from_le_bytes(bytes[16..20].try_into().unwrap()),
        pid: i32::from_le_bytes(bytes[20..24].try_into().unwrap()),
        name: bytes[24..].to_vec(),
    }
}

#[test]
fn mpsc_test_producer_consumer_single_thread() {
    let buffer_size = 1024 * 1024;
    let mut ringbuf = ring(buffer_size);
    let mut consumer = agent::Consumer::new();
    let producer =
        agent::Producer::from_inner(Producer::with_wakeup_strategy(WakeupStrategy::NoWakeup));
    match producer.submit(&mut ringbuf, &counter_bytes()) {
        Ok(wake) => assert!(!wake),
        Err(_) => panic!("refused"),
    }
    let mut events_received = 0;
    while let Some(record) = consumer.consume(&mut ringbuf) {
        let fields = counter_fields(record.as_slice());
        record.release(&mut ringbuf);
        assert_eq!(fields.name, b"test_counter");
        assert_eq!(fields.value, 42.0);
        assert_eq!(fields.timestamp, 1000);
        assert_eq!(fields.tid, 123);
        assert_eq!(fields.pid, 456);
        events_received += 1;
    }
    assert_eq!(events_received, 1);
}

#[test]
fn producer_test_producer_consumer_single_thread() {
    let buffer_size = 1024 * 1024;
    let mut ringbuf = ring(buffer_size);
    let consumer = Consumer::new();
    let producer =
        agent::Producer::from_inner(Producer::with_wakeup_strategy(WakeupStrategy::NoWakeup));
    assert!(producer.submit(&mut ringbuf, &counter_bytes()).is_ok());
    let mut events_received = 0;
    let mut iter = consumer.iter();
    while let Some(record) = iter.next(&mut ringbuf) {
        let fields = counter_fields(record.as_slice());
        record.release(&mut ringbuf);
        assert_eq!(fields.name, b"test_counter");
        assert_eq!(fields.value, 42.0);
        assert_eq!(fields.timestamp, 1000);
        assert_eq!(fields.tid, 123);
        assert_eq!(fields.pid, 456);
        events_received += 1;
    }
    assert_eq!(events_received, 1);
}

#[test]
fn submitting_without_room_reports_it() {
    let mut ringbuf = ring(PAGE);
    let producer = agent::Producer::from_inner(Producer::new());
    let consumer = agent::Consumer::new();
    assert!(producer.submit(&mut ringbuf, &[7u8; 4080]).is_ok());
    match producer.submit(&mut ringbuf, b"x") {
        Ok(_) => panic!("room for both"),
        Err(e) => assert_eq!(
            e.message(""),
            "MPSC buffer error: insufficient space in ring buffer. producer position: 4104, \
             consumer position: 0, data size: 4096"
        ),
    }
    assert_eq!(consumer.available_records(&ringbuf), 1);
    assert_eq!(consumer.dropped(&ringbuf), 1);
}

#[test]
fn events_are_received_or_counted_as_dropped() {
    let mut ringbuf = ring(PAGE);
    let producer = agent::Producer::from_inner(Producer::new());
    let mut consumer = agent::Consumer::new();
    let mut refused = 0;
    for i in 0..600u32 {
        if producer.submit(&mut ringbuf, &i.to_le_bytes()).is_err() {
            refused += 1;
        }
    }
    assert_eq!(refused, 600 - 255);
    assert_eq!(consumer.dropped(&ringbuf), refused);
    assert_eq!(consumer.available_records(&ringbuf), 255);
    let mut received = 0u32;
    while let Some(record) = consumer.consume(&mut ringbuf) {
        assert_eq!(record.as_slice(), &received.to_le_bytes()[..]);
        record.release(&mut ringbuf);
        received += 1;
    }
    assert_eq!(received, 255);
    assert_eq!(consumer.available_records(&ringbuf), 0);
    assert_eq!(consumer.dropped(&ringbuf), refused);
}

#[test]
fn a_failed_reservation_alone_is_not_counted() {
    let mut ringbuf = ring(PAGE);
    assert!(Producer::new().reserve(&mut ringbuf, PAGE).is_err());
    assert_eq!(ringbuf.dropped(), 0);
}

#[test]
fn records_that_are_ready_are_counted() {
    let mut ringbuf = ring(PAGE);
    let producer = Producer::new();
    let consumer = Consumer::new();
    assert_eq!(consumer.available_records(&ringbuf), 0);
    send(&producer, &mut ringbuf, b"one");
    match producer.reserve(&mut ringbuf, 100) {
        Ok(reserved) => {
            reserved.discard(&mut ringbuf);
        }
        Err(_) => panic!("no room"),
    }
    send(&producer, &mut ringbuf, b"a longer record");
    assert_eq!(consumer.available_records(&ringbuf), 2);
    let busy = match producer.reserve(&mut ringbuf, 4) {
        Ok(reserved) => reserved,
        Err(_) => panic!("no room"),
    };
    send(&producer, &mut ringbuf, b"behind");
    assert_eq!(consumer.available_records(&ringbuf), 2);
    busy.commit(&mut ringbuf);
    assert_eq!(consumer.available_records(&ringbuf), 4);
    assert_eq!(consumer.drain(&mut ringbuf).len(), 4);
    assert_eq!(consumer.available_records(&ringbuf), 0);
}

#[test]
fn a_record_fills_all_but_one_step_of_the_ring() {
    let mut ringbuf = ring(PAGE);
    assert!(Producer::new().reserve(&mut ringbuf, 4081).is_err());
    assert!(Producer::new().reserve(&mut ringbuf, 4080).is_ok());
}

#[test]
fn records_go_around_the_ring() {
    let mut ringbuf = ring(PAGE);
    let producer = Producer::new();
    let consumer = Consumer::new();
    for round in 0..40u8 {
        let data = vec![round; 300];
        send(&producer, &mut ringbuf, &data);
        assert_eq!(consumer.drain(&mut ringbuf), vec![data]);
    }
    assert_eq!(ringbuf.producer_pos(), 40 * 312);
    assert_eq!(ringbuf.consumer_pos(), 40 * 312);
}

#[test]
fn discarded_records_are_passed_over() {
    let mut ringbuf = ring(PAGE);
    let producer = Producer::new();
    send(&producer, &mut ringbuf, b"one");
    match producer.reserve(&mut ringbuf, 3) {
        Ok(reserved) => {
            assert_eq!(reserved.size(), 3);
            reserved.copy_from_slice(&mut ringbuf, b"two");
            reserved.discard(&mut ringbuf);
        }
        Err(_) => panic!("no room"),
    }
    send(&producer, &mut ringbuf, b"three");
    assert_eq!(
        Consumer::new().drain(&mut ringbuf),
        vec![b"one".to_vec(), b"three".to_vec()]
    );
}

#[test]
fn a_busy_record_holds_back_later_ones() {
    let mut ringbuf = ring(PAGE);
    let producer = Producer::new();
    let consumer = Consumer::new();
    let first = match producer.reserve(&mut ringbuf, 5) {
        Ok(reserved) => reserved,
        Err(_) => panic!("no room"),
    };
    send(&producer, &mut ringbuf, b"later");
    assert!(consumer.drain(&mut ringbuf).is_empty());
    first.copy_from_slice(&mut ringbuf, b"first");
    first.commit(&mut ringbuf);
    assert_eq!(
        consumer.drain(&mut ringbuf),
        vec![b"first".to_vec(), b"later".to_vec()]
    );
}

#[test]
fn an_unreleased_record_comes_again() {
    let mut ringbuf = ring(PAGE);
    send(&Producer::new(), &mut ringbuf, b"again");
    let mut iter = Consumer::new().iter();
    match (iter.next(&mut ringbuf), iter.next(&mut ringbuf)) {
        (Some(a), Some(b)) => {
            assert_eq!(a.as_slice(), b"again");
            assert_eq!(b.as_slice(), b"again");
            b.release(&mut ringbuf);
        }
        _ => panic!("no record"),
    }
    assert!(iter.next(&mut ringbuf).is_none());
}

#[test]
fn only_a_waiting_consumer_is_woken() {
    let mut ringbuf = ring(PAGE);
    let pacing = Producer::new();
    assert!(send(&pacing, &mut ringbuf, b"a"));
    assert!(!send(&pacing, &mut ringbuf, b"b"));
    let silent = Producer::with_wakeup_strategy(WakeupStrategy::NoWakeup);
    assert!(!send(&silent, &mut ringbuf, b"c"));
    let forced = Producer::with_wakeup_strategy(WakeupStrategy::Forced);
    assert!(send(&forced, &mut ringbuf, b"d"));
}

#[test]
fn sizes_are_checked() {
    assert_eq!(
        layout_error(5000),
        "memory mapping failed: Invalid argument"
    );
    assert_eq!(
        layout_error(2048),
        "memory mapping failed: Invalid argument"
    );
    match plan_layout(5000, PAGE) {
        Err(e) => assert_eq!(
            e.message(""),
            "size must be a multiple of page size (5000 bytes)"
        ),
        Ok(_) => panic!("accepted"),
    }
    match plan_layout(2048, PAGE) {
        Err(e) => assert_eq!(
            e.message(""),
            "size must be at least twice the page size (4096 bytes)"
        ),
        Ok(_) => panic!("accepted"),
    }
    match plan_layout(8192, PAGE) {
        Ok(l) => {
            assert_eq!(l.total_size, 12288);
            assert_eq!(l.virtual_size, 20480);
            assert_eq!(l.file_offset(4096), 4096);
            assert_eq!(l.file_offset(12288), 4096);
            assert_eq!(l.file_offset(20479), 12287);
        }
        Err(_) => panic!("refused"),
    }
}

#[test]
fn powers_of_two_are_recognized() {
    let powers: Vec<usize> = (0..70usize).filter(|n| is_power_of_two(*n)).collect();
    assert_eq!(powers, vec![1, 2, 4, 8, 16, 32, 64]);
}

#[test]
fn failures_have_words() {
    let cases = vec![
        (MpscBufError::MmapFailed(22), "memory mapping failed: EINVAL"),
        (MpscBufError::MprotectFailed(22), "memory protection failed: EINVAL"),
        (MpscBufError::InvalidRecordSize(70), "invalid record size: 70"),
        (MpscBufError::EventfdCreation("a".to_string()), "eventfd creation failed: a"),
        (MpscBufError::EventfdWrite("b".to_string()), "eventfd write failed: b"),
        (MpscBufError::EventfdRead("c".to_string()), "eventfd read failed: c"),
        (MpscBufError::IoError("d".to_string()), "I/O error: d"),
    ];
    for (e, words) in cases {
        assert_eq!(e.message("EINVAL"), words);
    }
}

#[test]
fn headers_keep_length_and_flags() {
    let mut h = RecordHeader::new(1234);
    assert_eq!(h.len_and_flags(), (1234, BUSY_FLAG));
    assert!(!h.is_discarded());
    assert_eq!(h.word(), 0x8000_0000_0000_04d2);
    h.discard();
    assert_eq!(h.len_and_flags(), (1234, DISCARD_FLAG));
    assert!(h.is_discarded());
    h.commit();
    assert_eq!(h.len_and_flags(), (1234, 0));
    h.write_initial(7);
    assert_eq!(h.len_and_flags(), (7, BUSY_FLAG));
    assert_eq!(RecordHeader::from_word(0x4000_0000_0000_0005).len_and_flags(), (5, DISCARD_FLAG));
}

#[test]
fn lengths_are_rounded_up() {
    assert_eq!(round_up_to_8(0), 0);
    assert_eq!(round_up_to_8(1), 8);
    assert_eq!(round_up_to_8(8), 8);
    assert_eq!(round_up_to_8(9), 16);
}

#[test]
fn steps_of_producer_and_consumer() {
    match plan_reserve(4090, 4090, 4095, 3) {
        Ok(p) => {
            assert_eq!(p.offset, 4090);
            assert_eq!(p.new_producer, 4106);
            assert_eq!(p.header, 0x8000_0000_0000_0003);
        }
        Err(_) => panic!("no room"),
    }
    assert_eq!(next_header(16, 16, 4095), None);
    assert_eq!(next_header(4096, 4112, 4095), Some(0));
    assert!(matches!(consume_step(8, 0x8000_0000_0000_0003), ConsumeStep::Wait));
    assert!(matches!(consume_step(8, 0x4000_0000_0000_0003), ConsumeStep::Skip(24)));
    assert!(matches!(consume_step(8, 3), ConsumeStep::Deliver(3, 24)));
}

#[test]
fn the_name_of_a_thread_goes_before_its_first_event() {
    let mut ringbuf = ring(PAGE);
    let handle = AgentHandle::new(agent::Producer::from_inner(Producer::with_wakeup_strategy(
        WakeupStrategy::Forced,
    )));
    let mut gate = ThreadNameGate::new();
    for event in [b"one", b"two"] {
        let s = handle.submit(&mut gate, &mut ringbuf, Some(b"name"), event);
        assert!(s.result.is_ok());
        assert!(s.wake);
    }
    assert_eq!(
        Consumer::new().drain(&mut ringbuf),
        vec![b"name".to_vec(), b"one".to_vec(), b"two".to_vec()]
    );
    let mut nameless = ThreadNameGate::new();
    assert!(handle.submit(&mut nameless, &mut ringbuf, None, b"x").result.is_ok());
    assert!(nameless.was_sent());
    assert_eq!(Consumer::new().drain(&mut ringbuf), vec![b"x".to_vec()]);
}

#[test]
fn without_room_for_the_name_the_event_is_not_submitted() {
    let mut ringbuf = ring(PAGE);
    let handle = AgentHandle::new(agent::Producer::from_inner(Producer::new()));
    let mut gate = ThreadNameGate::new();
    let s = handle.submit(&mut gate, &mut ringbuf, Some(&[0u8; 4096]), b"event");
    assert!(!s.wake);
    match s.result {
        Ok(()) => panic!("room for the name"),
        Err(e) => assert!(e.message("").contains("producer position: 4104")),
    }
    assert!(!gate.was_sent());
    assert_eq!(ringbuf.producer_pos(), 0);
    assert_eq!(ringbuf.dropped(), 1);
    let s = handle.submit(&mut gate, &mut ringbuf, Some(b"name"), &[0u8; 4096]);
    assert!(s.result.is_err());
    assert!(gate.was_sent());
    assert_eq!(ringbuf.dropped(), 2);
    assert_eq!(Consumer::new().drain(&mut ringbuf), vec![b"name".to_vec()]);
}
