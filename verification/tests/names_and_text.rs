use rust_event_engine::errors::client_role_name;
use rust_event_engine::names::{
    is_already_exists_error, is_handler_lifecycle_error, is_not_found_error, is_publisher_closed_error,
    normalize_plain_shmem_name, normalize_shm_name,
};
use rust_event_engine::text::{has, has_lowered, push_decimal, push_hexadecimal, to_chars};
use rust_event_engine::timing::sleep_interruptible;

#[test]
fn names_keep_letters_digits_and_underscores() {
    assert_eq!(normalize_shm_name("vnpy_evbus"), "vnpy_evbus");
    assert_eq!(normalize_shm_name("a-b.c d/é中Z9"), "a_b_c_d___Z9");
    assert_eq!(normalize_shm_name(""), "");
}

#[test]
fn names_are_cut_at_31() {
    let long = "x".repeat(40);
    assert_eq!(normalize_shm_name(&long), "x".repeat(31));
    let exact = "y".repeat(31);
    assert_eq!(normalize_shm_name(&exact), exact);
    let wide = "中".repeat(40);
    assert_eq!(normalize_shm_name(&wide), "_".repeat(31));
}

#[test]
fn normalizing_twice_is_normalizing_once() {
    let once = normalize_shm_name("rates/EUR:USD - a name that is far too long");
    assert_eq!(normalize_shm_name(&once), once);
}

#[test]
fn plain_names_have_no_path_in_them() {
    assert_eq!(normalize_plain_shmem_name("bus"), Some("bus"));
    assert_eq!(normalize_plain_shmem_name("/bus"), Some("bus"));
    assert_eq!(normalize_plain_shmem_name("//\\\\bus"), Some("bus"));
    assert_eq!(normalize_plain_shmem_name("\\/bus"), None);
    assert_eq!(normalize_plain_shmem_name("a/b"), None);
    assert_eq!(normalize_plain_shmem_name("a\\b"), None);
    assert_eq!(normalize_plain_shmem_name("c:bus"), None);
    assert_eq!(normalize_plain_shmem_name("///"), None);
    assert_eq!(normalize_plain_shmem_name(""), None);
}

#[test]
fn errors_are_told_by_their_words() {
    assert!(is_not_found_error("No Such File or directory"));
    assert!(is_not_found_error("os error 2"));
    assert!(!is_not_found_error("permission denied"));
    assert!(is_already_exists_error("Mapping Already Exists"));
    assert!(is_already_exists_error("failed (os error 17)"));
    assert!(is_already_exists_error("ERROR 183"));
    assert!(is_already_exists_error("对象已存在"));
    assert!(!is_already_exists_error("os error 13"));
    assert!(is_publisher_closed_error("RuntimeError: 共享内存发布器已关闭"));
    assert!(is_publisher_closed_error("共享内存发布通道已关闭"));
    assert!(!is_publisher_closed_error("发布事件失败: x"));
    assert!(is_handler_lifecycle_error("RuntimeError: Cannot schedule new futures after shutdown"));
    assert!(is_handler_lifecycle_error("cannot schedule new futures after interpreter shutdown"));
    assert!(is_handler_lifecycle_error("Event loop is closed"));
    assert!(!is_handler_lifecycle_error("ValueError: bad tick"));
}

#[test]
fn roles_have_names() {
    assert_eq!(client_role_name(1), "publisher");
    assert_eq!(client_role_name(2), "subscriber");
    assert_eq!(client_role_name(7), "unknown");
}

#[test]
fn numbers_in_text() {
    let mut out = String::from("n=");
    push_decimal(&mut out, 0);
    out.push(',');
    push_decimal(&mut out, 18_446_744_073_709_551_615);
    out.push(',');
    push_hexadecimal(&mut out, 0x52AB, 16);
    assert_eq!(out, "n=0,18446744073709551615,00000000000052AB");
}

#[test]
fn searching_text() {
    assert!(has("abcabd", "abd"));
    assert!(!has("abcabd", "ABD"));
    assert!(has("abc", ""));
    assert!(!has("ab", "abc"));
    assert!(has_lowered("xABDx", "abd"));
    assert!(!has_lowered("ÄBD", "äbd"));
    assert_eq!(to_chars("a中"), vec!['a', '中']);
}

#[test]
fn sleeping_in_pieces() {
    assert_eq!(sleep_interruptible(true, 0, 250), Some(100));
    assert_eq!(sleep_interruptible(true, 200, 250), Some(50));
    assert_eq!(sleep_interruptible(true, 250, 250), None);
    assert_eq!(sleep_interruptible(false, 0, 250), None);
    assert_eq!(sleep_interruptible(true, 0, u128::from(u64::MAX) * 1000), Some(100));
}

#[test]
fn pieces_add_up_to_the_sleep() {
    let mut slept: u128 = 0;
    let mut pieces = 0;
    while let Some(piece) = sleep_interruptible(true, slept, 1_250) {
        slept += u128::from(piece);
        pieces += 1;
    }
    assert_eq!(slept, 1_250);
    assert_eq!(pieces, 13);
}
