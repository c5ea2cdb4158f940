use rust_event_engine::layout::SHM_TOTAL;
use rust_event_engine::open::{remove_failed_message, JoinAsk, OpenAsk, OpenEvent, ShmemOpen, SubscriberOpen};

fn existing() -> ShmemOpen {
    let mut open = ShmemOpen::create_shmem("bus");
    open.step(OpenEvent::Failed, "mapping already exists");
    assert_eq!(open.ask(), OpenAsk::OpenExisting);
    open
}

#[test]
fn new_mapping_is_initialized() {
    let mut open = ShmemOpen::create_shmem("bus");
    assert_eq!(open.ask(), OpenAsk::Create);
    open.step(OpenEvent::Succeeded, "");
    assert_eq!(open.ask(), OpenAsk::Initialize);
    open.step(OpenEvent::Succeeded, "");
    assert_eq!(open.ask(), OpenAsk::Done);
    assert_eq!(open.into_result(), Ok(()));
}

#[test]
fn other_failure_to_create_is_final() {
    let mut open = ShmemOpen::create_shmem("bus");
    open.step(OpenEvent::Failed, "permission denied");
    assert_eq!(open.ask(), OpenAsk::Done);
    assert_eq!(open.into_result(), Err("创建共享内存 'bus' 失败: permission denied".to_string()));
    let mut open = ShmemOpen::create_shmem("bus");
    open.step(OpenEvent::Succeeded, "");
    open.step(OpenEvent::Failed, "no room");
    assert_eq!(open.into_result(), Err("no room".to_string()));
}

#[test]
fn existing_mapping_is_taken_over() {
    let mut open = existing();
    open.step(OpenEvent::Opened { len: SHM_TOTAL }, "");
    assert_eq!(open.ask(), OpenAsk::Validate);
    open.step(OpenEvent::Succeeded, "");
    assert_eq!(open.ask(), OpenAsk::Claim);
    open.step(OpenEvent::Succeeded, "");
    assert_eq!(open.ask(), OpenAsk::Done);
    assert_eq!(open.into_result(), Ok(()));
}

#[test]
fn incompatible_mapping_is_left_alone() {
    let mut open = existing();
    open.step(OpenEvent::Opened { len: 100 }, "");
    assert_eq!(open.ask(), OpenAsk::Done);
    assert_eq!(
        open.into_result(),
        Err("共享内存 'bus' 已存在，但大小不足: actual=100, expected=67379264。这通常表示旧 layout 版本的残留对象。".to_string())
    );
    let mut open = existing();
    open.step(OpenEvent::Opened { len: SHM_TOTAL + 1 }, "");
    open.step(OpenEvent::Failed, "magic");
    assert_eq!(open.ask(), OpenAsk::Done);
    assert_eq!(
        open.into_result(),
        Err("共享内存 'bus' 已存在，但布局不兼容或无法复用: magic。".to_string())
    );
}

#[test]
fn what_was_left_behind_is_removed_once() {
    let mut open = existing();
    open.step(OpenEvent::Failed, "x");
    assert_eq!(open.ask(), OpenAsk::ReleaseByOwner);
    open.step(OpenEvent::Succeeded, "");
    assert_eq!(open.ask(), OpenAsk::RemoveFile);
    open.step(OpenEvent::Succeeded, "");
    assert_eq!(open.ask(), OpenAsk::Create);
    open.step(OpenEvent::Failed, "already exists");
    assert_eq!(open.ask(), OpenAsk::Done);
    assert_eq!(
        open.into_result(),
        Err("共享内存 'bus' 创建失败且复用失败；已通过 shared_memory owner drop 释放残留映射；已删除本地共享内存缓存文件，但重新创建仍失败。create_err=mapping already exists; reuse_err=共享内存 'bus' 已存在，但打开失败: x; recreate_err=创建共享内存 'bus' 失败: already exists".to_string())
    );
}

#[test]
fn mapping_is_made_anew_after_cleaning_up() {
    let mut open = existing();
    open.step(OpenEvent::Opened { len: SHM_TOTAL }, "");
    open.step(OpenEvent::Succeeded, "");
    open.step(OpenEvent::Failed, "lock");
    assert_eq!(open.ask(), OpenAsk::ReleaseByOwner);
    open.step(OpenEvent::Succeeded, "");
    open.step(OpenEvent::Absent, "");
    assert_eq!(open.ask(), OpenAsk::Create);
    open.step(OpenEvent::Succeeded, "");
    open.step(OpenEvent::Failed, "full");
    assert_eq!(
        open.into_result(),
        Err("共享内存 'bus' 创建失败且复用失败；已通过 shared_memory owner drop 释放残留映射，但重新创建仍失败。create_err=mapping already exists; reuse_err=lock; recreate_err=full".to_string())
    );
}

#[test]
fn file_alone_can_be_removed() {
    let mut open = existing();
    open.step(OpenEvent::Failed, "x");
    open.step(OpenEvent::Failed, "y");
    open.step(OpenEvent::Succeeded, "");
    assert_eq!(open.ask(), OpenAsk::Create);
    open.step(OpenEvent::Succeeded, "");
    open.step(OpenEvent::Succeeded, "");
    assert_eq!(open.into_result(), Ok(()));
}

#[test]
fn nothing_could_be_removed() {
    let mut open = existing();
    open.step(OpenEvent::Failed, "x");
    open.step(OpenEvent::Failed, "y");
    open.step(OpenEvent::Absent, "");
    assert_eq!(open.ask(), OpenAsk::Done);
    assert_eq!(
        open.into_result(),
        Err("共享内存 'bus' 创建失败且复用失败；清理残留对象/缓存文件也失败。create_err=mapping already exists; reuse_err=共享内存 'bus' 已存在，但打开失败: x; cleanup_err=未能移除共享内存 'bus' 的残留对象/缓存文件: 通过 os_id 打开残留映射失败: y".to_string())
    );
    let mut open = existing();
    open.step(OpenEvent::Failed, "x");
    open.step(OpenEvent::Failed, "y");
    open.step(OpenEvent::Failed, "z");
    assert!(open.into_result().unwrap_err().ends_with("残留对象/缓存文件: 通过 os_id 打开残留映射失败: y；z"));
    assert_eq!(remove_failed_message("/dev/shm/bus", "x"), "删除本地共享内存缓存文件 '/dev/shm/bus' 失败: x");
}

#[test]
fn subscriber_that_cannot_read_gives_its_entry_up() {
    let mut open = SubscriberOpen::open_shmem_and_header();
    assert_eq!(open.ask, JoinAsk::Open);
    let mut absent = open;
    absent.step(false);
    assert_eq!((absent.ask, absent.registered, absent.failed), (JoinAsk::Done, false, true));
    open.step(true);
    assert_eq!(open.ask, JoinAsk::Register);
    let mut full = open;
    full.step(false);
    assert_eq!((full.ask, full.registered, full.failed), (JoinAsk::Done, false, true));
    open.step(true);
    assert_eq!(open.ask, JoinAsk::ReadHeader);
    let mut unread = open;
    open.step(true);
    assert_eq!((open.ask, open.registered, open.failed), (JoinAsk::Done, true, false));
    unread.step(false);
    assert_eq!(unread.ask, JoinAsk::Release);
    unread.step(true);
    assert_eq!((unread.ask, unread.registered, unread.failed), (JoinAsk::Done, false, true));
}
