use rust_event_engine::clients::{
    cleanup_stale_clients_locked, clear_client_slot, client_pids, client_slot_matches, known_dead,
    process_may_be_alive, register_client, register_client_locked, release_client_ref, update_client_heartbeat, Probe, ShmemClientRegistration,
};
use rust_event_engine::errors::BusError;
use rust_event_engine::header::{
    claim_for_publisher_locked, header_words, initialize_header_buf, new_bus_epoch, new_client_instance_id,
    overwrite_shmem_contents, read_header, reset_bus_contents_under_lock, validate_shmem_header, HeaderWord,
};
use rust_event_engine::image::{BusImage, Store};
use rust_event_engine::layout::{
    CLIENT_ROLE_PUBLISHER, CLIENT_ROLE_SUBSCRIBER, CLIENT_SLOTS, HEADER_SIZE, H_EPOCH, H_LAYOUT_VERSION, H_MAGIC,
    H_WRITE_LOCK, H_WRITE_SEQ, MAX_PAYLOAD, SHM_TOTAL, SLOT_SIZE,
};
use rust_event_engine::ring::{
    acquire_shmem_write_lock, check_mapping_size, read_slot, write_payload_to_shmem, LockStep, SlotRead,
};

const SLOTS: usize = 8;

fn blank() -> BusImage {
    BusImage::new(vec![0xEE; HEADER_SIZE + SLOTS * SLOT_SIZE]).unwrap()
}

fn started() -> BusImage {
    let mut im = blank();
    overwrite_shmem_contents(&mut im, 77, 4242);
    im
}

fn probe(now_ms: u64) -> Probe {
    Probe { now_ms, pid: 100, dead_pids: vec![] }
}

fn replayed(mut bytes: Vec<u8>, stores: Vec<Store>) -> Vec<u8> {
    fn put(bytes: &mut [u8], offset: usize, data: &[u8]) {
        for (i, b) in data.iter().enumerate() {
            if offset + i < bytes.len() {
                bytes[offset + i] = *b;
            }
        }
    }
    for store in stores {
        match store {
            Store::AtomicU32 { offset, value } | Store::PlainU32 { offset, value } => {
                put(&mut bytes, offset, &value.to_le_bytes())
            }
            Store::AtomicU64 { offset, word, .. } => put(&mut bytes, offset, &word.to_le_bytes()),
            Store::Bytes { offset, bytes: data } => put(&mut bytes, offset, &data),
            Store::Zero { offset, len } => {
                let end = (offset + len).min(bytes.len());
                if offset < end {
                    bytes[offset..end].fill(0);
                }
            }
        }
    }
    bytes
}

#[test]
fn image_needs_a_header() {
    assert!(BusImage::new(vec![0; HEADER_SIZE - 1]).is_none());
    assert!(BusImage::new(vec![0; HEADER_SIZE]).is_some());
}

#[test]
fn image_words() {
    let mut im = blank();
    im.store_u32(4, 0x0A0B_0C0D);
    im.store_u64(8, 5, true);
    im.store_plain_u32(16, 6);
    im.store_bytes(20, vec![1, 2]);
    im.store_zeros(22, 2);
    assert_eq!(im.load_u32(4), 0x0A0B_0C0D);
    assert_eq!(im.load_u64(8), 5);
    assert_eq!(im.load_u32(16), 6);
    assert_eq!(im.load_u32(20), 0x0000_0201);
    assert_eq!(im.bytes()[24], 0xEE);
    let stores = im.into_stores();
    assert_eq!(stores.len(), 5);
    assert!(matches!(stores[1], Store::AtomicU64 { offset: 8, word: 5, seq_cst: true }));
}

#[test]
fn stores_bring_the_mapping_to_the_same_state() {
    let start = vec![0x5A; HEADER_SIZE + SLOTS * SLOT_SIZE];
    let mut im = BusImage::new(start.clone()).unwrap();
    overwrite_shmem_contents(&mut im, 9, 8);
    let client = register_client_locked(&mut im, CLIENT_ROLE_PUBLISHER, 55, &probe(1_000)).unwrap();
    write_payload_to_shmem(&mut im, &client, &vec![1, 2, 3], 1_001).unwrap();
    let bytes = im.bytes().clone();
    assert_eq!(replayed(start, im.into_stores()), bytes);
}

#[test]
fn new_bus_is_compatible_and_empty() {
    let im = started();
    assert_eq!(validate_shmem_header(&im, "bus"), Ok(()));
    assert_eq!(read_header(&im), (0, 77));
    assert_eq!(im.load_u32(H_WRITE_LOCK), 0);
    assert!(client_pids(&im).iter().all(|pid| *pid == 0));
    assert_eq!(client_pids(&im).len(), CLIENT_SLOTS);
    assert!(im.bytes()[HEADER_SIZE..].iter().all(|b| *b == 0));
}

#[test]
fn other_magic_is_refused() {
    let mut im = started();
    im.store_u64(H_MAGIC, 0x1234, false);
    let error = validate_shmem_header(&im, "bus").unwrap_err();
    assert_eq!(error, BusError::MagicMismatch { name: "bus".to_string(), magic: 0x1234 });
    assert_eq!(
        error.message(),
        "共享内存 'bus' magic 不匹配: actual=0x0000000000001234, expected=0x5255535445564255。             可能是旧版本遗留对象，或其它程序占用了同名共享内存。请关闭相关进程后手动清理，或更换 shm_name。"
    );
}

#[test]
fn other_layout_is_refused() {
    let mut im = started();
    im.store_plain_u32(H_LAYOUT_VERSION, 5);
    let error = validate_shmem_header(&im, "bus").unwrap_err();
    assert!(matches!(&error, BusError::LayoutMismatch { found, .. } if found.version == 5 && found.header_size == 8256));
    assert!(error.message().starts_with("共享内存 'bus' 布局不兼容:              version=5/1,              header_size=8256/8256,"));
    assert!(error.message().ends_with("client_slots=128/128,              client_slot_size=64/64"));
}

#[test]
fn header_keeps_the_lock_where_it_is_held() {
    let mut im = blank();
    im.store_u32(H_WRITE_LOCK, 1);
    initialize_header_buf(&mut im, true, 3, 4);
    assert_eq!(im.load_u32(H_WRITE_LOCK), 1);
    initialize_header_buf(&mut im, false, 3, 4);
    assert_eq!(im.load_u32(H_WRITE_LOCK), 0);
    im.store_u32(H_WRITE_LOCK, 1);
    im.store_u64(H_WRITE_SEQ, 900, false);
    reset_bus_contents_under_lock(&mut im, 11, 12);
    assert_eq!(im.load_u32(H_WRITE_LOCK), 1);
    assert_eq!(read_header(&im), (0, 11));
    assert!(im.bytes()[HEADER_SIZE..].iter().all(|b| *b == 0));
}

#[test]
fn numbers_of_instances_and_epochs() {
    assert_eq!(new_bus_epoch(0, 0), 0x9E37_79B9_7F4A_7C15);
    assert_eq!(new_bus_epoch(1, 2), 1 ^ (2 << 17) ^ 0x9E37_79B9_7F4A_7C15);
    assert_eq!(new_client_instance_id(0, 0, 0), 0xD6E8_FD9A_7A4C_15F3);
    assert_ne!(new_client_instance_id(5, 7, 1), new_client_instance_id(5, 7, 2));
    assert_ne!(new_client_instance_id(5, 7, 1), new_client_instance_id(5, 8, 1));
}

#[test]
fn clients_take_the_first_free_entry() {
    let mut im = started();
    let a = register_client_locked(&mut im, CLIENT_ROLE_PUBLISHER, 11, &probe(1_000)).unwrap();
    let b = register_client_locked(&mut im, CLIENT_ROLE_SUBSCRIBER, 12, &probe(1_000)).unwrap();
    assert_eq!(a, ShmemClientRegistration { role: 1, slot_index: 0, instance_id: 11 });
    assert_eq!(b, ShmemClientRegistration { role: 2, slot_index: 1, instance_id: 12 });
    assert_eq!(release_client_ref(&mut im, &a, 1_100), Ok(()));
    let c = register_client_locked(&mut im, CLIENT_ROLE_SUBSCRIBER, 13, &probe(1_200)).unwrap();
    assert_eq!(c.slot_index, 0);
    assert_eq!(client_slot_matches(&im, 0, &a), Ok(false));
    assert_eq!(client_slot_matches(&im, 0, &c), Ok(true));
    assert_eq!(client_slot_matches(&im, 128, &c), Err(BusError::ClientIndex { index: 128 }));
}

#[test]
fn same_client_is_counted() {
    let mut im = started();
    let a = register_client_locked(&mut im, CLIENT_ROLE_PUBLISHER, 11, &probe(1_000)).unwrap();
    let b = register_client_locked(&mut im, CLIENT_ROLE_PUBLISHER, 11, &probe(1_500)).unwrap();
    assert_eq!(a, b);
    release_client_ref(&mut im, &a, 1_600).unwrap();
    assert_eq!(client_slot_matches(&im, 0, &a), Ok(true));
    release_client_ref(&mut im, &a, 1_700).unwrap();
    assert_eq!(client_slot_matches(&im, 0, &a), Ok(false));
    let before = im.bytes().clone();
    release_client_ref(&mut im, &a, 1_800).unwrap();
    assert_eq!(*im.bytes(), before);
}

#[test]
fn releasing_restores_the_table() {
    let mut im = started();
    register_client_locked(&mut im, CLIENT_ROLE_SUBSCRIBER, 5, &probe(1_000)).unwrap();
    let before = im.bytes().clone();
    let a = register_client_locked(&mut im, CLIENT_ROLE_PUBLISHER, 11, &probe(1_000)).unwrap();
    release_client_ref(&mut im, &a, 1_001).unwrap();
    assert_eq!(*im.bytes(), before);
}

#[test]
fn reference_count_does_not_overflow() {
    let mut im = started();
    register_client_locked(&mut im, CLIENT_ROLE_PUBLISHER, 11, &probe(1_000)).unwrap();
    im.store_u32(64 + 8, u32::MAX);
    let error = register_client_locked(&mut im, CLIENT_ROLE_PUBLISHER, 11, &probe(1_000)).unwrap_err();
    assert_eq!(error, BusError::RefcountOverflow { role: 1 });
    assert_eq!(error.message(), "共享内存 publisher 引用计数溢出");
}

#[test]
fn full_table_takes_nobody() {
    let mut im = started();
    for id in 0..128u64 {
        register_client_locked(&mut im, CLIENT_ROLE_SUBSCRIBER, id + 1, &probe(1_000)).unwrap();
    }
    let error = register_client_locked(&mut im, CLIENT_ROLE_SUBSCRIBER, 500, &probe(1_000)).unwrap_err();
    assert_eq!(error, BusError::TableFull { role: 2 });
    assert_eq!(error.message(), "共享内存 client table 已满: role=subscriber, slots=128");
    assert!(register_client_locked(&mut im, CLIENT_ROLE_SUBSCRIBER, 500, &probe(31_001)).is_ok());
}

#[test]
fn stale_clients_are_cleared() {
    let mut im = started();
    register_client_locked(&mut im, CLIENT_ROLE_SUBSCRIBER, 1, &probe(1_000)).unwrap();
    let other = Probe { now_ms: 2_000, pid: 200, dead_pids: vec![] };
    register_client_locked(&mut im, CLIENT_ROLE_SUBSCRIBER, 2, &other).unwrap();
    let third = Probe { now_ms: 2_000, pid: 300, dead_pids: vec![] };
    register_client_locked(&mut im, CLIENT_ROLE_SUBSCRIBER, 3, &third).unwrap();
    assert_eq!(&client_pids(&im)[..4], &[100, 200, 300, 0]);

    // The age of exactly the limit is still fresh.
    assert_eq!(cleanup_stale_clients_locked(&mut im, &probe(31_000)), 3);
    assert_eq!(cleanup_stale_clients_locked(&mut im, &probe(31_001)), 2);
    assert_eq!(&client_pids(&im)[..4], &[0, 200, 300, 0]);

    // A process that is gone, but never the one that looks.
    let dead = Probe { now_ms: 31_001, pid: 200, dead_pids: vec![200, 300] };
    assert_eq!(cleanup_stale_clients_locked(&mut im, &dead), 1);
    assert_eq!(&client_pids(&im)[..4], &[0, 200, 0, 0]);
    assert_eq!(cleanup_stale_clients_locked(&mut im, &dead), 1);
}

#[test]
fn entry_without_reference_or_heartbeat_is_stale() {
    let mut im = started();
    register_client_locked(&mut im, CLIENT_ROLE_SUBSCRIBER, 1, &probe(1_000)).unwrap();
    register_client_locked(&mut im, CLIENT_ROLE_SUBSCRIBER, 2, &probe(1_000)).unwrap();
    im.store_u32(64 + 8, 0);
    im.store_u64(64 + 64 + 24, 0, false);
    assert_eq!(cleanup_stale_clients_locked(&mut im, &probe(1_000)), 0);
}

#[test]
fn clearing_an_entry() {
    let mut im = started();
    let a = register_client_locked(&mut im, CLIENT_ROLE_SUBSCRIBER, 1, &probe(1_000)).unwrap();
    assert_eq!(clear_client_slot(&mut im, 0), Ok(()));
    assert_eq!(client_slot_matches(&im, 0, &a), Ok(false));
    assert_eq!(clear_client_slot(&mut im, 128), Err(BusError::ClientIndex { index: 128 }));
}

#[test]
fn process_zero_never_runs() {
    assert!(!process_may_be_alive(0, true));
    assert!(!process_may_be_alive(5, false));
    assert!(process_may_be_alive(5, true));
}

#[test]
fn heartbeat_needs_the_own_entry() {
    let mut im = started();
    let a = register_client_locked(&mut im, CLIENT_ROLE_SUBSCRIBER, 9, &probe(1_000)).unwrap();
    assert_eq!(update_client_heartbeat(&mut im, &a, 5_000), Ok(()));
    assert_eq!(im.load_u64(64 + 24), 5_000);
    release_client_ref(&mut im, &a, 5_001).unwrap();
    let error = update_client_heartbeat(&mut im, &a, 6_000).unwrap_err();
    assert_eq!(error.message(), "共享内存 subscriber 心跳槽位失效: slot=0, instance_id=9");
    let lost = ShmemClientRegistration { slot_index: 400, ..a };
    assert_eq!(update_client_heartbeat(&mut im, &lost, 1), Err(BusError::ClientIndex { index: 400 }));
    assert_eq!(release_client_ref(&mut im, &lost, 1), Err(BusError::ClientIndex { index: 400 }));
}

#[test]
fn roles_go_last_in_and_last_out() {
    let mut im = started();
    let before = im.bytes().clone();
    let mut fresh = BusImage::new(before).unwrap();
    let a = register_client_locked(&mut fresh, CLIENT_ROLE_SUBSCRIBER, 9, &probe(1_000)).unwrap();
    let bytes = fresh.bytes().clone();
    let stores = fresh.into_stores();
    assert!(matches!(stores.last(), Some(Store::AtomicU32 { offset: 64, value: 2 })));
    im = BusImage::new(bytes).unwrap();
    release_client_ref(&mut im, &a, 1_001).unwrap();
    let stores = im.into_stores();
    assert!(matches!(stores.first(), Some(Store::AtomicU32 { offset: 72, value: 0 })));
    assert!(matches!(stores.last(), Some(Store::AtomicU32 { offset: 64, value: 0 })));
}

#[test]
fn publisher_starts_an_abandoned_bus_over() {
    let mut im = started();
    let old = register_client_locked(&mut im, CLIENT_ROLE_PUBLISHER, 1, &probe(1_000)).unwrap();
    write_payload_to_shmem(&mut im, &old, &vec![7], 1_000).unwrap();
    im.store_u32(H_WRITE_LOCK, 1);
    let late = Probe { now_ms: 90_000, pid: 200, dead_pids: vec![] };
    let new = claim_for_publisher_locked(&mut im, 2, 555, &late, &late).unwrap();
    assert_eq!(new, ShmemClientRegistration { role: 1, slot_index: 0, instance_id: 2 });
    assert_eq!(read_header(&im), (0, 555));
    assert_eq!(read_slot(im.bytes(), 1), None);
    assert_eq!(im.load_u32(H_WRITE_LOCK), 1);
    assert_eq!(im.load_u64(H_EPOCH), 555);
}

#[test]
fn publisher_joins_a_bus_in_use() {
    let mut im = started();
    let old = register_client_locked(&mut im, CLIENT_ROLE_SUBSCRIBER, 1, &probe(1_000)).unwrap();
    let first = register_client_locked(&mut im, CLIENT_ROLE_PUBLISHER, 2, &probe(1_000)).unwrap();
    write_payload_to_shmem(&mut im, &first, &vec![7], 1_000).unwrap();
    release_client_ref(&mut im, &first, 1_001).unwrap();
    let new = claim_for_publisher_locked(&mut im, 3, 555, &probe(2_000), &probe(2_000)).unwrap();
    assert_eq!(new.slot_index, 1);
    assert_eq!(read_header(&im), (1, 77));
    assert_eq!(read_slot(im.bytes(), 1), Some(vec![7]));
    assert_eq!(client_slot_matches(&im, 0, &old), Ok(true));
}

#[test]
fn published_events_are_read_back() {
    let mut im = started();
    let client = register_client_locked(&mut im, CLIENT_ROLE_PUBLISHER, 1, &probe(1_000)).unwrap();
    for n in 1..=5u64 {
        let payload = vec![n as u8; n as usize * 100];
        assert_eq!(write_payload_to_shmem(&mut im, &client, &payload, 1_000 + n), Ok(n));
    }
    assert_eq!(read_header(&im), (5, 77));
    for n in 1..=5u64 {
        assert_eq!(read_slot(im.bytes(), n), Some(vec![n as u8; n as usize * 100]));
    }
    assert_eq!(read_slot(im.bytes(), 6), None);
    assert_eq!(read_slot(im.bytes(), 1 + 16_384), None);
    assert_eq!(im.load_u64(64 + 24), 1_005);
}

#[test]
fn newer_event_takes_the_slot_of_an_older_one() {
    let mut im = started();
    let client = register_client_locked(&mut im, CLIENT_ROLE_PUBLISHER, 1, &probe(1_000)).unwrap();
    assert_eq!(write_payload_to_shmem(&mut im, &client, &vec![1; 10], 1_000), Ok(1));
    im.store_u64(H_WRITE_SEQ, 16_384, false);
    assert_eq!(write_payload_to_shmem(&mut im, &client, &vec![2; 4], 1_000), Ok(16_385));
    assert_eq!(read_slot(im.bytes(), 1), None);
    assert_eq!(read_slot(im.bytes(), 16_385), Some(vec![2; 4]));
}

#[test]
fn payload_limits() {
    let mut im = started();
    let client = register_client_locked(&mut im, CLIENT_ROLE_PUBLISHER, 1, &probe(1_000)).unwrap();
    let error = write_payload_to_shmem(&mut im, &client, &vec![], 1).unwrap_err();
    assert_eq!(error, BusError::EmptyPayload);
    assert_eq!(error.message(), "payload 不能为空");
    let error = write_payload_to_shmem(&mut im, &client, &vec![0; MAX_PAYLOAD + 1], 1).unwrap_err();
    assert_eq!(error, BusError::PayloadTooLarge { len: 4097 });
    assert_eq!(error.message(), "payload 长度 4097B 超过 MAX_PAYLOAD=4096B");
    assert_eq!(write_payload_to_shmem(&mut im, &client, &vec![3; MAX_PAYLOAD], 1), Ok(1));
    assert_eq!(read_slot(im.bytes(), 1), Some(vec![3; MAX_PAYLOAD]));
}

#[test]
fn publisher_without_an_entry_publishes_nothing() {
    let mut im = started();
    let client = register_client_locked(&mut im, CLIENT_ROLE_PUBLISHER, 1, &probe(1_000)).unwrap();
    release_client_ref(&mut im, &client, 1_000).unwrap();
    let before = im.bytes().clone();
    let error = write_payload_to_shmem(&mut im, &client, &vec![1], 1_001).unwrap_err();
    assert_eq!(error, BusError::HeartbeatLost { role: 1, slot: 0, instance_id: 1 });
    assert_eq!(*im.bytes(), before);
}

#[test]
fn last_number_is_not_passed() {
    let mut im = started();
    let client = register_client_locked(&mut im, CLIENT_ROLE_PUBLISHER, 1, &probe(1_000)).unwrap();
    im.store_u64(H_WRITE_SEQ, u64::MAX, false);
    let error = write_payload_to_shmem(&mut im, &client, &vec![1], 1_001).unwrap_err();
    assert_eq!(error, BusError::SequenceOverflow);
    assert_eq!(error.message(), "写序号溢出");
}

#[test]
fn slot_is_invalid_while_it_is_written() {
    let mut im = BusImage::new(started().bytes().clone()).unwrap();
    let client = register_client_locked(&mut im, CLIENT_ROLE_PUBLISHER, 1, &probe(1_000)).unwrap();
    let mut im = BusImage::new(im.bytes().clone()).unwrap();
    write_payload_to_shmem(&mut im, &client, &vec![1, 2], 1_001).unwrap();
    let stores = im.into_stores();
    assert_eq!(stores.len(), 6);
    let base = HEADER_SIZE + SLOT_SIZE;
    assert!(matches!(stores[1], Store::AtomicU64 { offset, word: 0, seq_cst: true } if offset == base));
    assert!(matches!(stores[2], Store::PlainU32 { offset, value: 2 } if offset == base + 8));
    assert!(matches!(&stores[3], Store::Bytes { offset, bytes } if *offset == base + 12 && *bytes == vec![1, 2]));
    assert!(matches!(stores[4], Store::AtomicU64 { offset, word: 1, seq_cst: false } if offset == base));
    assert!(matches!(stores[5], Store::AtomicU64 { offset: 32, word: 1, seq_cst: false }));
}

#[test]
fn torn_reads_are_dropped() {
    let read = SlotRead::begin(3);
    assert_eq!(read.seq_offset, HEADER_SIZE + 3 * SLOT_SIZE);
    assert!(SlotRead::begin(3).sequence(0).is_none());
    assert!(SlotRead::begin(3).sequence(3 + 16_384).is_none());
    assert!(SlotRead::begin(3).sequence(3).unwrap().size(0).is_none());
    assert!(SlotRead::begin(3).sequence(3).unwrap().size(4097).is_none());
    let filled = SlotRead::begin(3).sequence(3).unwrap().size(4096).unwrap();
    assert_eq!(filled.data_offset, HEADER_SIZE + 3 * SLOT_SIZE + 12);
    assert_eq!(filled.len, 4096);
    assert_eq!(filled.confirm(vec![1], 0), None);
    let filled = SlotRead::begin(3).sequence(3).unwrap().size(1).unwrap();
    assert_eq!(filled.confirm(vec![1], 3), Some(vec![1]));
}

#[test]
fn short_mapping_holds_no_event() {
    assert_eq!(read_slot(&[0; 100], 1), None);
}

#[test]
fn lock_is_waited_for_two_seconds() {
    assert_eq!(acquire_shmem_write_lock(true, 5_000), LockStep::Acquired);
    assert_eq!(acquire_shmem_write_lock(false, 0), LockStep::Retry { backoff_us: 50 });
    assert_eq!(acquire_shmem_write_lock(false, 1_999), LockStep::Retry { backoff_us: 50 });
    assert_eq!(acquire_shmem_write_lock(false, 2_000), LockStep::TimedOut);
    assert_eq!(
        BusError::WriteLockTimeout.message(),
        "获取共享内存写锁超时，可能有进程崩溃时持有锁未释放，timeout=2000ms"
    );
}

#[test]
fn mapping_must_be_large_enough() {
    assert_eq!(check_mapping_size(SHM_TOTAL, true), Ok(()));
    let error = check_mapping_size(10, true).unwrap_err();
    assert_eq!(error.message(), "共享内存可写大小不足: actual=10, expected=67379264");
    let error = check_mapping_size(10, false).unwrap_err();
    assert_eq!(error.message(), "共享内存只读大小不足: actual=10, expected=67379264");
}

#[test]
fn dead_processes_are_picked_out() {
    let looked_up = vec![(0, true), (5, true), (6, false), (7, true), (0, false)];
    assert_eq!(known_dead(&looked_up), vec![0, 6, 0]);
    assert_eq!(known_dead(&vec![]), Vec::<u32>::new());
}

#[test]
fn header_is_rebuilt_from_its_words() {
    let mut im = started();
    let client = register_client_locked(&mut im, CLIENT_ROLE_PUBLISHER, 9, &probe(1_000)).unwrap();
    write_payload_to_shmem(&mut im, &client, &vec![1], 1_001).unwrap();
    let words = header_words();
    assert_eq!(words.len(), 12 + 5 * CLIENT_SLOTS);
    let mut bytes = vec![0u8; HEADER_SIZE];
    for word in words {
        let (offset, len) = match word {
            HeaderWord::Atomic64 { offset } => (offset, 8),
            HeaderWord::Atomic32 { offset } | HeaderWord::Plain32 { offset } => (offset, 4),
        };
        bytes[offset..offset + len].copy_from_slice(&im.bytes()[offset..offset + len]);
    }
    assert_eq!(&bytes[..], &im.bytes()[..HEADER_SIZE]);
}

#[test]
fn clients_register_only_in_a_compatible_bus() {
    let mut seen = started();
    let mut im = started();
    let client = register_client(&seen, &mut im, "bus", CLIENT_ROLE_SUBSCRIBER, 9, &probe(1_000)).unwrap();
    assert_eq!(client, ShmemClientRegistration { role: 2, slot_index: 0, instance_id: 9 });
    assert_eq!(client_slot_matches(&im, 0, &client), Ok(true));
    seen.store_u64(H_MAGIC, 1, false);
    let mut im = BusImage::new(started().bytes().clone()).unwrap();
    let before = im.bytes().clone();
    let error = register_client(&seen, &mut im, "bus", CLIENT_ROLE_SUBSCRIBER, 9, &probe(1_000)).unwrap_err();
    assert_eq!(error, BusError::MagicMismatch { name: "bus".to_string(), magic: 1 });
    assert_eq!(*im.bytes(), before);
    assert!(im.into_stores().is_empty());
    let mut seen = started();
    seen.store_plain_u32(H_LAYOUT_VERSION, 2);
    let mut im = started();
    let error = register_client(&seen, &mut im, "bus", CLIENT_ROLE_SUBSCRIBER, 9, &probe(1_000)).unwrap_err();
    assert!(matches!(error, BusError::LayoutMismatch { .. }));
}
