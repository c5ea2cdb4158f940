use rust_event_engine::access::{atomic_u32_offset, atomic_u64_offset, read_u32_le, write_u32_le};
use rust_event_engine::errors::{AccessError, BusError};
use rust_event_engine::layout::{
    align_up, client_slot_base, client_slot_field, slot_base, CLIENT_SLOTS, CLIENT_SLOT_SIZE, C_HEARTBEAT_MS,
    C_INSTANCE_ID, HEADER_SIZE, HEADER_USED, H_CLIENT_TABLE, H_EPOCH, H_MAGIC, H_OWNER_PID, H_WRITE_LOCK,
    H_WRITE_SEQ, MAX_PAYLOAD, NUM_SLOTS, SHM_CLIENT_STALE_TIMEOUT_MS, SHM_MAGIC, SHM_TOTAL, SLOT_SIZE, S_DATA,
    S_SIZE, CACHE_LINE_SIZE, CLIENT_SLOT_USED, WORD_ALIGN,
};
use rust_event_engine::mem::{le_u32, le_u64, u32_to_le, u64_to_le};

#[test]
fn offsets_are_where_other_processes_expect_them() {
    assert_eq!(H_MAGIC, 0);
    assert_eq!(H_WRITE_LOCK, 28);
    assert_eq!(H_WRITE_SEQ, 32);
    assert_eq!(H_EPOCH, 40);
    assert_eq!(H_OWNER_PID, 48);
    assert_eq!(H_CLIENT_TABLE, 64);
    assert_eq!(C_INSTANCE_ID, 16);
    assert_eq!(C_HEARTBEAT_MS, 24);
    assert_eq!(S_SIZE, 8);
    assert_eq!(S_DATA, 12);
    assert_eq!(SHM_MAGIC.to_be_bytes(), *b"RUSTEVBU");
}

#[test]
fn sizes_add_up() {
    assert_eq!(CLIENT_SLOT_SIZE, align_up(CLIENT_SLOT_USED, CACHE_LINE_SIZE));
    assert_eq!(HEADER_USED, H_CLIENT_TABLE + CLIENT_SLOTS * CLIENT_SLOT_SIZE);
    assert_eq!(HEADER_SIZE, align_up(HEADER_USED, CACHE_LINE_SIZE));
    assert_eq!(HEADER_SIZE, 8256);
    assert_eq!(SLOT_SIZE, align_up(S_DATA + MAX_PAYLOAD, WORD_ALIGN));
    assert_eq!(SLOT_SIZE, 4112);
    assert_eq!(SHM_TOTAL, HEADER_SIZE + NUM_SLOTS * SLOT_SIZE);
    assert_eq!(SHM_CLIENT_STALE_TIMEOUT_MS, 30_000);
}

#[test]
fn rounding_up() {
    assert_eq!(align_up(0, 8), 0);
    assert_eq!(align_up(1, 8), 8);
    assert_eq!(align_up(8, 8), 8);
    assert_eq!(align_up(57, 64), 64);
    assert_eq!(align_up(4108, 8), 4112);
    assert_eq!(align_up(5, 1), 5);
}

#[test]
fn other_alignments_only_mask() {
    assert_eq!(align_up(5, 3), 5);
    assert_eq!(align_up(6, 6), 10);
}

#[test]
fn slots_repeat_after_a_round() {
    assert_eq!(slot_base(0), Some(HEADER_SIZE));
    assert_eq!(slot_base(1), Some(HEADER_SIZE + SLOT_SIZE));
    assert_eq!(slot_base(16_383), Some(SHM_TOTAL - SLOT_SIZE));
    assert_eq!(slot_base(16_384), Some(HEADER_SIZE));
    assert_eq!(slot_base(u64::MAX), Some(SHM_TOTAL - SLOT_SIZE));
}

#[test]
fn client_entries_end_with_the_table() {
    assert_eq!(client_slot_base(0), Ok(64));
    assert_eq!(client_slot_base(127), Ok(64 + 127 * 64));
    assert_eq!(client_slot_base(128), Err(BusError::ClientIndex { index: 128 }));
    assert_eq!(client_slot_field(2, C_HEARTBEAT_MS), Ok(64 + 2 * 64 + 24));
    assert_eq!(client_slot_field(200, 0), Err(BusError::ClientIndex { index: 200 }));
    assert_eq!(client_slot_field(1, usize::MAX), Err(BusError::ClientOffsetOverflow));
    assert_eq!(BusError::ClientOffsetOverflow.message(), "client 字段偏移溢出");
    assert_eq!(
        BusError::ClientIndex { index: 128 }.message(),
        "client 槽位越界: index=128, slots=128"
    );
}

#[test]
fn words_are_little_endian() {
    assert_eq!(u32_to_le(0x0102_0304), vec![4, 3, 2, 1]);
    assert_eq!(u64_to_le(0x0102_0304_0506_0708), vec![8, 7, 6, 5, 4, 3, 2, 1]);
    let bytes = [9u8, 0xFF, 0, 0, 0x80, 1, 2, 3, 4];
    assert_eq!(le_u32(&bytes, 1), 0x8000_00FF);
    assert_eq!(le_u64(&bytes, 1), 0x0403_0201_8000_00FF);
}

#[test]
fn reading_past_the_end_gives_nothing() {
    let buf = [1u8, 2, 3, 4, 5];
    assert_eq!(read_u32_le(&buf, 0), Some(0x0403_0201));
    assert_eq!(read_u32_le(&buf, 1), Some(0x0504_0302));
    assert_eq!(read_u32_le(&buf, 2), None);
    assert_eq!(read_u32_le(&buf, usize::MAX), None);
}

#[test]
fn writing_past_the_end_changes_nothing() {
    let mut buf = [7u8; 6];
    assert_eq!(write_u32_le(&mut buf, 1, 0xAABB_CCDD), Ok(()));
    assert_eq!(buf, [7, 0xDD, 0xCC, 0xBB, 0xAA, 7]);
    let error = write_u32_le(&mut buf, 3, 1).unwrap_err();
    assert_eq!(error, AccessError::WordWriteOutOfBounds { offset: 3, end: 7, len: 6 });
    assert_eq!(error.message(), "u32 写入越界: offset=3, end=7, len=6");
    let error = write_u32_le(&mut buf, usize::MAX - 2, 1).unwrap_err();
    assert_eq!(error, AccessError::WordWriteOverflow);
    assert_eq!(error.message(), "u32 写入偏移溢出");
    assert_eq!(buf, [7, 0xDD, 0xCC, 0xBB, 0xAA, 7]);
}

#[test]
fn atomic_words_stand_aligned_and_inside() {
    assert_eq!(atomic_u64_offset(4096, 64, 56), Ok(56));
    assert_eq!(atomic_u32_offset(4096, 64, 60), Ok(60));
    let error = atomic_u64_offset(4096, 64, 57).unwrap_err();
    assert_eq!(error.message(), "AtomicU64 越界: offset=57, end=65, len=64");
    let error = atomic_u32_offset(4096, 64, 61).unwrap_err();
    assert_eq!(error.message(), "AtomicU32 越界: offset=61, end=65, len=64");
    let error = atomic_u64_offset(4096, 64, 4).unwrap_err();
    assert_eq!(error.message(), "AtomicU64 未按 8 字节对齐");
    let error = atomic_u32_offset(4097, 64, 4).unwrap_err();
    assert_eq!(error.message(), "AtomicU32 未按 4 字节对齐");
    let error = atomic_u64_offset(0, 64, usize::MAX).unwrap_err();
    assert_eq!(error.message(), "AtomicU64 偏移溢出");
    let error = atomic_u32_offset(0, 64, usize::MAX).unwrap_err();
    assert_eq!(error.message(), "AtomicU32 偏移溢出");
}
