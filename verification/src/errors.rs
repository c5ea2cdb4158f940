//! Errors of the bus, and the messages that users see.
use vstd::prelude::*;

use crate::layout::{
    CLIENT_ROLE_EMPTY, CLIENT_ROLE_PUBLISHER, CLIENT_ROLE_SUBSCRIBER, CLIENT_SLOTS, CLIENT_SLOT_SIZE,
    HEADER_SIZE, MAX_PAYLOAD, NUM_SLOTS, SHM_LAYOUT_VERSION, SHM_MAGIC, SHM_TOTAL, SLOT_SIZE,
    WRITE_LOCK_TIMEOUT_MS,
};
use crate::text;

verus! {

/// The name of a client role.
pub open spec fn role_text(role: u32) -> Seq<char> {
    if role == CLIENT_ROLE_PUBLISHER {
        "publisher"@
    } else if role == CLIENT_ROLE_SUBSCRIBER {
        "subscriber"@
    } else if role == CLIENT_ROLE_EMPTY {
        "empty"@
    } else {
        "unknown"@
    }
}

/// The name of a client role.
pub fn client_role_name(role: u32) -> (name: &'static str)
    ensures
        name@ == role_text(role),
{
    if role == CLIENT_ROLE_PUBLISHER {
        "publisher"
    } else if role == CLIENT_ROLE_SUBSCRIBER {
        "subscriber"
    } else if role == CLIENT_ROLE_EMPTY {
        "empty"
    } else {
        "unknown"
    }
}

/// The name of an atomic word.
pub open spec fn atomic_name(wide: bool) -> Seq<char> {
    if wide {
        "AtomicU64"@
    } else {
        "AtomicU32"@
    }
}

/// An access outside a buffer, or not aligned.
#[derive(Debug, Clone, Copy, PartialEq, Eq)]
pub enum AccessError {
    /// The end of a 32-bit write is past the largest offset.
    WordWriteOverflow,
    /// A 32-bit write reaches past the buffer.
    WordWriteOutOfBounds { offset: usize, end: usize, len: usize },
    /// The end of an atomic access is past the largest offset.
    AtomicOverflow { wide: bool },
    /// An atomic access reaches past the buffer.
    AtomicOutOfBounds { wide: bool, offset: usize, end: usize, len: usize },
    /// An atomic access is not aligned to its size.
    AtomicMisaligned { wide: bool },
}

impl AccessError {
    /// The text of the message.
    pub open spec fn text(self) -> Seq<char> {
        match self {
            AccessError::WordWriteOverflow => {
                "u32 写入偏移溢出"@
            },
            AccessError::WordWriteOutOfBounds { offset, end, len } => {
                "u32 写入越界: offset="@ + text::decimal(offset as nat) + ", end="@
                    + text::decimal(end as nat) + ", len="@ + text::decimal(len as nat)
            },
            AccessError::AtomicOverflow { wide } => {
                ""@ + atomic_name(wide) + " 偏移溢出"@
            },
            AccessError::AtomicOutOfBounds { wide, offset, end, len } => {
                ""@ + atomic_name(wide) + " 越界: offset="@ + text::decimal(offset as nat) + ", end="@
                    + text::decimal(end as nat) + ", len="@ + text::decimal(len as nat)
            },
            AccessError::AtomicMisaligned { wide } => {
                ""@ + atomic_name(wide) + " 未按 "@ + text::decimal(if wide { 8nat } else { 4nat })
                    + " 字节对齐"@
            },
        }
    }

    /// The message, as users see it.
    pub fn message(&self) -> (message: String)
        ensures
            message@ == self.text(),
    {
        match self {
            AccessError::WordWriteOverflow => {
                String::from_str("u32 写入偏移溢出")
            },
            AccessError::WordWriteOutOfBounds { offset, end, len } => {
                let mut out = String::from_str("u32 写入越界: offset=");
                text::push_decimal(&mut out, *offset as u64);
                out.append(", end=");
                text::push_decimal(&mut out, *end as u64);
                out.append(", len=");
                text::push_decimal(&mut out, *len as u64);
                out
            },
            AccessError::AtomicOverflow { wide } => {
                let mut out = String::from_str("");
                out.append(if *wide { "AtomicU64" } else { "AtomicU32" });
                out.append(" 偏移溢出");
                out
            },
            AccessError::AtomicOutOfBounds { wide, offset, end, len } => {
                let mut out = String::from_str("");
                out.append(if *wide { "AtomicU64" } else { "AtomicU32" });
                out.append(" 越界: offset=");
                text::push_decimal(&mut out, *offset as u64);
                out.append(", end=");
                text::push_decimal(&mut out, *end as u64);
                out.append(", len=");
                text::push_decimal(&mut out, *len as u64);
                out
            },
            AccessError::AtomicMisaligned { wide } => {
                let mut out = String::from_str("");
                out.append(if *wide { "AtomicU64" } else { "AtomicU32" });
                out.append(" 未按 ");
                text::push_decimal(&mut out, if *wide { 8 } else { 4 });
                out.append(" 字节对齐");
                out
            },
        }
    }
}

/// The sizes that a header records.
#[derive(Debug, Clone, Copy, PartialEq, Eq)]
pub struct LayoutFields {
    pub version: u32,
    pub header_size: u32,
    pub slot_size: u32,
    pub num_slots: u32,
    pub max_payload: u32,
    pub client_slots: u32,
    pub client_slot_size: u32,
}

/// What can go wrong on the bus.
#[derive(Debug, PartialEq, Eq)]
pub enum BusError {
    /// The mapping is smaller than the bus.
    MappingTooSmall { writable: bool, actual: usize },
    /// The mapping is no bus, or one of an older version.
    MagicMismatch { name: String, magic: u64 },
    /// The mapping is a bus of another layout.
    LayoutMismatch { name: String, found: LayoutFields },
    /// The write lock was not free in time.
    WriteLockTimeout,
    /// The client table has no such entry.
    ClientIndex { index: usize },
    /// A field offset within the client table is past the largest offset.
    ClientOffsetOverflow,
    /// A client opened the bus too often.
    RefcountOverflow { role: u32 },
    /// The client table has no free entry.
    TableFull { role: u32 },
    /// The entry of a client is no longer its own.
    HeartbeatLost { role: u32, slot: u32, instance_id: u64 },
    /// There is nothing to publish.
    EmptyPayload,
    /// The event does not fit into a slot.
    PayloadTooLarge { len: usize },
    /// The last sequence number is used up.
    SequenceOverflow,
}

impl BusError {
    /// The text of the message.
    pub open spec fn text(self) -> Seq<char> {
        match self {
            BusError::MappingTooSmall { writable, actual } => {
                "共享内存"@ + (if writable { "可写"@ } else { "只读"@ }) + "大小不足: actual="@
                    + text::decimal(actual as nat) + ", expected="@ + text::decimal(SHM_TOTAL as nat)
            },
            BusError::MagicMismatch { name, magic } => {
                "共享内存 '"@ + name@ + "' magic 不匹配: actual=0x"@ + text::hexadecimal(magic as nat, 16)
                    + ", expected=0x"@ + text::hexadecimal(SHM_MAGIC as nat, 16)
                    + "。             可能是旧版本遗留对象，或其它程序占用了同名共享内存。请关闭相关进程后手动清理，或更换 shm_name。"@
            },
            BusError::LayoutMismatch { name, found } => {
                "共享内存 '"@ + name@ + "' 布局不兼容:              version="@
                    + text::decimal(found.version as nat) + "/"@
                    + text::decimal(SHM_LAYOUT_VERSION as nat) + ",              header_size="@
                    + text::decimal(found.header_size as nat) + "/"@ + text::decimal(HEADER_SIZE as nat)
                    + ",              slot_size="@ + text::decimal(found.slot_size as nat) + "/"@
                    + text::decimal(SLOT_SIZE as nat) + ",              num_slots="@
                    + text::decimal(found.num_slots as nat) + "/"@ + text::decimal(NUM_SLOTS as nat)
                    + ",              max_payload="@ + text::decimal(found.max_payload as nat) + "/"@
                    + text::decimal(MAX_PAYLOAD as nat) + ",              client_slots="@
                    + text::decimal(found.client_slots as nat) + "/"@
                    + text::decimal(CLIENT_SLOTS as nat) + ",              client_slot_size="@
                    + text::decimal(found.client_slot_size as nat) + "/"@
                    + text::decimal(CLIENT_SLOT_SIZE as nat)
            },
            BusError::WriteLockTimeout => {
                "获取共享内存写锁超时，可能有进程崩溃时持有锁未释放，timeout="@ + text::decimal(WRITE_LOCK_TIMEOUT_MS as nat)
                    + "ms"@
            },
            BusError::ClientIndex { index } => {
                "client 槽位越界: index="@ + text::decimal(index as nat) + ", slots="@
                    + text::decimal(CLIENT_SLOTS as nat)
            },
            BusError::ClientOffsetOverflow => {
                "client 字段偏移溢出"@
            },
            BusError::RefcountOverflow { role } => {
                "共享内存 "@ + role_text(role) + " 引用计数溢出"@
            },
            BusError::TableFull { role } => {
                "共享内存 client table 已满: role="@ + role_text(role) + ", slots="@
                    + text::decimal(CLIENT_SLOTS as nat)
            },
            BusError::HeartbeatLost { role, slot, instance_id } => {
                "共享内存 "@ + role_text(role) + " 心跳槽位失效: slot="@ + text::decimal(slot as nat)
                    + ", instance_id="@ + text::decimal(instance_id as nat)
            },
            BusError::EmptyPayload => {
                "payload 不能为空"@
            },
            BusError::PayloadTooLarge { len } => {
                "payload 长度 "@ + text::decimal(len as nat) + "B 超过 MAX_PAYLOAD="@
                    + text::decimal(MAX_PAYLOAD as nat) + "B"@
            },
            BusError::SequenceOverflow => {
                "写序号溢出"@
            },
        }
    }

    /// The message, as users see it.
    pub fn message(&self) -> (message: String)
        ensures
            message@ == self.text(),
    {
        match self {
            BusError::MappingTooSmall { writable, actual } => {
                let mut out = String::from_str("共享内存");
                out.append(if *writable { "可写" } else { "只读" });
                out.append("大小不足: actual=");
                text::push_decimal(&mut out, *actual as u64);
                out.append(", expected=");
                text::push_decimal(&mut out, SHM_TOTAL as u64);
                out
            },
            BusError::MagicMismatch { name, magic } => {
                let mut out = String::from_str("共享内存 '");
                out.append(name.as_str());
                out.append("' magic 不匹配: actual=0x");
                text::push_hexadecimal(&mut out, *magic, 16);
                out.append(", expected=0x");
                text::push_hexadecimal(&mut out, SHM_MAGIC, 16);
                out.append("。             可能是旧版本遗留对象，或其它程序占用了同名共享内存。请关闭相关进程后手动清理，或更换 shm_name。");
                out
            },
            BusError::LayoutMismatch { name, found } => {
                let mut out = String::from_str("共享内存 '");
                out.append(name.as_str());
                out.append("' 布局不兼容:              version=");
                text::push_decimal(&mut out, found.version as u64);
                out.append("/");
                text::push_decimal(&mut out, SHM_LAYOUT_VERSION as u64);
                out.append(",              header_size=");
                text::push_decimal(&mut out, found.header_size as u64);
                out.append("/");
                text::push_decimal(&mut out, HEADER_SIZE as u64);
                out.append(",              slot_size=");
                text::push_decimal(&mut out, found.slot_size as u64);
                out.append("/");
                text::push_decimal(&mut out, SLOT_SIZE as u64);
                out.append(",              num_slots=");
                text::push_decimal(&mut out, found.num_slots as u64);
                out.append("/");
                text::push_decimal(&mut out, NUM_SLOTS as u64);
                out.append(",              max_payload=");
                text::push_decimal(&mut out, found.max_payload as u64);
                out.append("/");
                text::push_decimal(&mut out, MAX_PAYLOAD as u64);
                out.append(",              client_slots=");
                text::push_decimal(&mut out, found.client_slots as u64);
                out.append("/");
                text::push_decimal(&mut out, CLIENT_SLOTS as u64);
                out.append(",              client_slot_size=");
                text::push_decimal(&mut out, found.client_slot_size as u64);
                out.append("/");
                text::push_decimal(&mut out, CLIENT_SLOT_SIZE as u64);
                out
            },
            BusError::WriteLockTimeout => {
                let mut out = String::from_str("获取共享内存写锁超时，可能有进程崩溃时持有锁未释放，timeout=");
                text::push_decimal(&mut out, WRITE_LOCK_TIMEOUT_MS as u64);
                out.append("ms");
                out
            },
            BusError::ClientIndex { index } => {
                let mut out = String::from_str("client 槽位越界: index=");
                text::push_decimal(&mut out, *index as u64);
                out.append(", slots=");
                text::push_decimal(&mut out, CLIENT_SLOTS as u64);
                out
            },
            BusError::ClientOffsetOverflow => {
                String::from_str("client 字段偏移溢出")
            },
            BusError::RefcountOverflow { role } => {
                let mut out = String::from_str("共享内存 ");
                out.append(client_role_name(*role));
                out.append(" 引用计数溢出");
                out
            },
            BusError::TableFull { role } => {
                let mut out = String::from_str("共享内存 client table 已满: role=");
                out.append(client_role_name(*role));
                out.append(", slots=");
                text::push_decimal(&mut out, CLIENT_SLOTS as u64);
                out
            },
            BusError::HeartbeatLost { role, slot, instance_id } => {
                let mut out = String::from_str("共享内存 ");
                out.append(client_role_name(*role));
                out.append(" 心跳槽位失效: slot=");
                text::push_decimal(&mut out, *slot as u64);
                out.append(", instance_id=");
                text::push_decimal(&mut out, *instance_id as u64);
                out
            },
            BusError::EmptyPayload => {
                String::from_str("payload 不能为空")
            },
            BusError::PayloadTooLarge { len } => {
                let mut out = String::from_str("payload 长度 ");
                text::push_decimal(&mut out, *len as u64);
                out.append("B 超过 MAX_PAYLOAD=");
                text::push_decimal(&mut out, MAX_PAYLOAD as u64);
                out.append("B");
                out
            },
            BusError::SequenceOverflow => {
                String::from_str("写序号溢出")
            },
        }
    }
}

/// Law: the two roles of the bus, the free entry and everything else have their names.
pub proof fn roles_have_their_names(role: u32)
    ensures
        role == 0 ==> role_text(role) == "empty"@,
        role == 1 ==> role_text(role) == "publisher"@,
        role == 2 ==> role_text(role) == "subscriber"@,
        role > 2 ==> role_text(role) == "unknown"@,
{
}

/// `lead` with one size behind it: its label, what was found, and what it should be.
pub open spec fn with_size(lead: Seq<char>, label: Seq<char>, found: u32, wanted: nat) -> Seq<char> {
    lead + label + text::decimal(found as nat) + "/"@ + text::decimal(wanted)
}

/// One size as a layout error tells it.
pub open spec fn told_size(label: Seq<char>, found: u32, wanted: nat) -> Seq<char> {
    label + text::decimal(found as nat) + "/"@ + text::decimal(wanted)
}

proof fn lemma_told_size(lead: Seq<char>, label: Seq<char>, found: u32, wanted: nat)
    ensures
        text::stands_in(with_size(lead, label, found, wanted), told_size(label, found, wanted)),
{
    let part = told_size(label, found, wanted);
    assert(with_size(lead, label, found, wanted) =~= lead + part);
    text::lemma_stands_at_end(lead, part);
}

proof fn lemma_told_before(lead: Seq<char>, part: Seq<char>, label: Seq<char>, found: u32, wanted: nat)
    requires
        text::stands_in(lead, part),
    ensures
        text::stands_in(with_size(lead, label, found, wanted), part),
{
    text::lemma_stands_before(lead, part, label);
    text::lemma_stands_before(lead + label, part, text::decimal(found as nat));
    text::lemma_stands_before(lead + label + text::decimal(found as nat), part, "/"@);
    text::lemma_stands_before(lead + label + text::decimal(found as nat) + "/"@, part, text::decimal(wanted));
}

/// Law: an error about another layout tells the name, and each of the seven sizes that was found
/// beside the one that it should be.
pub proof fn layout_errors_tell_every_size(name: String, found: LayoutFields)
    ensures
        ({
            let told = (BusError::LayoutMismatch { name, found }).text();
            &&& text::stands_in(told, name@)
            &&& text::stands_in(told, told_size("' 布局不兼容:              version="@, found.version, 1))
            &&& text::stands_in(told, told_size(",              header_size="@, found.header_size, 8_256))
            &&& text::stands_in(told, told_size(",              slot_size="@, found.slot_size, 4_112))
            &&& text::stands_in(told, told_size(",              num_slots="@, found.num_slots, 16_384))
            &&& text::stands_in(told, told_size(",              max_payload="@, found.max_payload, 4_096))
            &&& text::stands_in(told, told_size(",              client_slots="@, found.client_slots, 128))
            &&& text::stands_in(told, told_size(",              client_slot_size="@, found.client_slot_size, 64))
        }),
{
    let w0 = "共享内存 '"@ + name@;
    text::lemma_stands_at_end("共享内存 '"@, name@);
    let l0 = "' 布局不兼容:              version="@;
    let w1 = with_size(w0, l0, found.version, 1);
    let l1 = ",              header_size="@;
    let w2 = with_size(w1, l1, found.header_size, 8_256);
    let l2 = ",              slot_size="@;
    let w3 = with_size(w2, l2, found.slot_size, 4_112);
    let l3 = ",              num_slots="@;
    let w4 = with_size(w3, l3, found.num_slots, 16_384);
    let l4 = ",              max_payload="@;
    let w5 = with_size(w4, l4, found.max_payload, 4_096);
    let l5 = ",              client_slots="@;
    let w6 = with_size(w5, l5, found.client_slots, 128);
    let l6 = ",              client_slot_size="@;
    let w7 = with_size(w6, l6, found.client_slot_size, 64);
    lemma_told_size(w0, l0, found.version, 1);
    lemma_told_before(w0, name@, l0, found.version, 1);
    lemma_told_size(w1, l1, found.header_size, 8_256);
    lemma_told_before(w1, name@, l1, found.header_size, 8_256);
    lemma_told_before(w1, told_size(l0, found.version, 1), l1, found.header_size, 8_256);
    lemma_told_size(w2, l2, found.slot_size, 4_112);
    lemma_told_before(w2, name@, l2, found.slot_size, 4_112);
    lemma_told_before(w2, told_size(l0, found.version, 1), l2, found.slot_size, 4_112);
    lemma_told_before(w2, told_size(l1, found.header_size, 8_256), l2, found.slot_size, 4_112);
    lemma_told_size(w3, l3, found.num_slots, 16_384);
    lemma_told_before(w3, name@, l3, found.num_slots, 16_384);
    lemma_told_before(w3, told_size(l0, found.version, 1), l3, found.num_slots, 16_384);
    lemma_told_before(w3, told_size(l1, found.header_size, 8_256), l3, found.num_slots, 16_384);
    lemma_told_before(w3, told_size(l2, found.slot_size, 4_112), l3, found.num_slots, 16_384);
    lemma_told_size(w4, l4, found.max_payload, 4_096);
    lemma_told_before(w4, name@, l4, found.max_payload, 4_096);
    lemma_told_before(w4, told_size(l0, found.version, 1), l4, found.max_payload, 4_096);
    lemma_told_before(w4, told_size(l1, found.header_size, 8_256), l4, found.max_payload, 4_096);
    lemma_told_before(w4, told_size(l2, found.slot_size, 4_112), l4, found.max_payload, 4_096);
    lemma_told_before(w4, told_size(l3, found.num_slots, 16_384), l4, found.max_payload, 4_096);
    lemma_told_size(w5, l5, found.client_slots, 128);
    lemma_told_before(w5, name@, l5, found.client_slots, 128);
    lemma_told_before(w5, told_size(l0, found.version, 1), l5, found.client_slots, 128);
    lemma_told_before(w5, told_size(l1, found.header_size, 8_256), l5, found.client_slots, 128);
    lemma_told_before(w5, told_size(l2, found.slot_size, 4_112), l5, found.client_slots, 128);
    lemma_told_before(w5, told_size(l3, found.num_slots, 16_384), l5, found.client_slots, 128);
    lemma_told_before(w5, told_size(l4, found.max_payload, 4_096), l5, found.client_slots, 128);
    lemma_told_size(w6, l6, found.client_slot_size, 64);
    lemma_told_before(w6, name@, l6, found.client_slot_size, 64);
    lemma_told_before(w6, told_size(l0, found.version, 1), l6, found.client_slot_size, 64);
    lemma_told_before(w6, told_size(l1, found.header_size, 8_256), l6, found.client_slot_size, 64);
    lemma_told_before(w6, told_size(l2, found.slot_size, 4_112), l6, found.client_slot_size, 64);
    lemma_told_before(w6, told_size(l3, found.num_slots, 16_384), l6, found.client_slot_size, 64);
    lemma_told_before(w6, told_size(l4, found.max_payload, 4_096), l6, found.client_slot_size, 64);
    lemma_told_before(w6, told_size(l5, found.client_slots, 128), l6, found.client_slot_size, 64);
}

} // verus!
