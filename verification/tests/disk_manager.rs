use rustub::common::config::PAGE_SIZE;
use rustub::common::error::{RustubError, Violation};
use rustub::common::memcpy;
use rustub::storage::disk::{
    log_file_name, next_read_step, offset_of_page, plan_log_read, plan_page_read,
    plan_page_write, zero_fill, DiskManager, InMemDiskManager, ReadOutcome, ReadStep,
};

#[test]
fn test_read_write_page() {
    let mut buf = [0u8; PAGE_SIZE];
    let mut data = [0u8; PAGE_SIZE];
    let mut dm = InMemDiskManager::new();
    let test_str = &b"A test string."[..];
    memcpy(&mut data, test_str, test_str.len());

    // tolerate empty read
    dm.read_page(0, &mut buf[..]).unwrap();

    assert_eq!(buf, [0u8; PAGE_SIZE]);

    dm.write_page(0, &data[..]).unwrap();
    dm.read_page(0, &mut buf[..]).unwrap();
    assert_eq!(buf, data);

    buf.fill(0);
    dm.write_page(5, &mut data[..]).unwrap();
    dm.read_page(0, &mut buf[..]).unwrap();
    assert_eq!(buf, data);
}

#[test]
fn test_read_write_log() {
    let mut buf = [0u8; 16];
    let mut data = [0u8; 16];
    let mut dm = InMemDiskManager::new();

    let test_str = &b"A test string."[..];
    memcpy(&mut data, test_str, test_str.len());

    dm.write_log(&data[..]).unwrap();
    dm.read_log(&mut buf[..], 0);
    assert_eq!(buf, data);
}

#[test]
fn page_round_trip_at_any_page() {
    let mut dm = InMemDiskManager::new();
    let mut page = [0u8; PAGE_SIZE];
    for (i, b) in page.iter_mut().enumerate() {
        *b = (i % 251) as u8;
    }
    for pid in [3, 0, 7, 3] {
        page[0] = pid as u8;
        dm.write_page(pid, &page).unwrap();
        let mut buf = [0xaau8; PAGE_SIZE];
        dm.read_page(pid, &mut buf).unwrap();
        assert_eq!(buf, page);
    }
    assert_eq!(dm.num_writes(), 4);
}

#[test]
fn read_beyond_the_file_is_zero_filled() {
    let mut dm = InMemDiskManager::new();
    dm.write_page(0, &[1u8; PAGE_SIZE]).unwrap();
    let mut buf = [0x55u8; 100];
    dm.read_page(1, &mut buf).unwrap();
    assert_eq!(buf, [0u8; 100]);
    let mut buf = [0x55u8; PAGE_SIZE];
    dm.read_page(1000, &mut buf).unwrap();
    assert_eq!(buf, [0u8; PAGE_SIZE]);
}

#[test]
fn a_write_behind_the_end_leaves_zero_pages_in_the_gap() {
    let mut dm = InMemDiskManager::new();
    dm.write_page(2, &[9u8; PAGE_SIZE]).unwrap();
    let mut buf = [1u8; PAGE_SIZE];
    dm.read_page(0, &mut buf).unwrap();
    assert_eq!(buf, [0u8; PAGE_SIZE]);
    dm.read_page(1, &mut buf).unwrap();
    assert_eq!(buf, [0u8; PAGE_SIZE]);
    dm.read_page(2, &mut buf).unwrap();
    assert_eq!(buf, [9u8; PAGE_SIZE]);
}

#[test]
fn a_short_buffer_reads_the_start_of_the_page() {
    let mut dm = InMemDiskManager::new();
    let mut page = [0u8; PAGE_SIZE];
    page[..5].copy_from_slice(b"start");
    dm.write_page(1, &page).unwrap();
    let mut buf = [0u8; 5];
    dm.read_page(1, &mut buf).unwrap();
    assert_eq!(&buf, b"start");
    let mut one = [7u8; 1];
    dm.read_page(1, &mut one).unwrap();
    assert_eq!(one, [b's']);
}

#[test]
fn wrong_buffer_lengths_and_page_ids_are_refused() {
    let mut dm = InMemDiskManager::new();
    assert!(matches!(
        dm.write_page(0, &[0u8; 10]),
        Err(RustubError::ContractViolation(Violation::BufferLength))
    ));
    assert!(matches!(
        dm.write_page(0, &[0u8; PAGE_SIZE + 1]),
        Err(RustubError::ContractViolation(Violation::BufferLength))
    ));
    assert!(matches!(
        dm.write_page(-1, &[0u8; PAGE_SIZE]),
        Err(RustubError::ContractViolation(Violation::InvalidPageId))
    ));
    let mut empty = [0u8; 0];
    assert!(matches!(
        dm.read_page(0, &mut empty),
        Err(RustubError::ContractViolation(Violation::BufferLength))
    ));
    let mut long = [3u8; PAGE_SIZE + 1];
    assert!(matches!(
        dm.read_page(0, &mut long),
        Err(RustubError::ContractViolation(Violation::BufferLength))
    ));
    assert_eq!(long[0], 3);
    let mut buf = [3u8; 8];
    assert!(matches!(
        dm.read_page(-5, &mut buf),
        Err(RustubError::ContractViolation(Violation::InvalidPageId))
    ));
    assert_eq!(buf, [3u8; 8]);
    assert_eq!(dm.num_writes(), 0);
}

#[test]
fn log_append_and_read() {
    let mut dm = InMemDiskManager::new();
    assert!(!dm.is_flushed());
    dm.write_log(b"hello").unwrap();
    let mut buf5 = [0u8; 5];
    assert!(dm.read_log(&mut buf5, 0));
    assert_eq!(&buf5, b"hello");
    let mut buf1 = [9u8; 1];
    assert!(!dm.read_log(&mut buf1, 100));
    assert_eq!(buf1, [9]);
    assert!(!dm.read_log(&mut buf1, 5));
    assert!(dm.read_log(&mut buf1, 4));
    assert_eq!(buf1, [b'o']);
    assert_eq!(dm.num_flushes(), 1);
    assert!(dm.is_flushed());
}

#[test]
fn log_is_sequential_and_zero_padded() {
    let mut dm = InMemDiskManager::new();
    dm.write_log(b"12345").unwrap();
    dm.write_log(b"").unwrap();
    dm.write_log(b"678").unwrap();
    assert_eq!(dm.num_flushes(), 2);
    let mut buf = [0xffu8; 10];
    assert!(dm.read_log(&mut buf, 3));
    assert_eq!(&buf, b"45678\0\0\0\0\0");
    let mut page = [1u8; PAGE_SIZE];
    dm.read_page(0, &mut page).unwrap();
    assert_eq!(page, [0u8; PAGE_SIZE]);
}

#[test]
fn page_offsets() {
    assert_eq!(offset_of_page(0), 0);
    assert_eq!(offset_of_page(1), 4096);
    assert_eq!(offset_of_page(5), 20480);
    assert_eq!(offset_of_page(i32::MAX), 2147483647u64 * 4096);
}

#[test]
fn log_file_names() {
    assert_eq!(log_file_name("test.db"), "test.log");
    assert_eq!(log_file_name("test"), "test.log");
    assert_eq!(log_file_name("a.b.db"), "a.b.log");
    assert_eq!(log_file_name(""), ".log");
    assert_eq!(log_file_name("x."), "x.log");
    assert_eq!(log_file_name("t\u{e9}st.db"), "t\u{e9}st.log");
}

#[test]
fn a_dot_in_a_directory_name_starts_no_extension() {
    assert_eq!(log_file_name("dir.d/file"), "dir.d/file.log");
    assert_eq!(log_file_name("dir.v1/data"), "dir.v1/data.log");
    assert_eq!(log_file_name("dir.v1/data.db"), "dir.v1/data.log");
    assert_eq!(log_file_name("a/b.c/d.e.f"), "a/b.c/d.e.log");
    assert_eq!(log_file_name("dir.v1/"), "dir.v1/.log");
    assert_eq!(log_file_name("/abs/test.db"), "/abs/test.log");
}

#[test]
fn a_dot_file_has_no_extension() {
    assert_eq!(log_file_name(".db"), ".db.log");
    assert_eq!(log_file_name("dir/.db"), "dir/.db.log");
    assert_eq!(log_file_name(".hidden.db"), ".hidden.log");
}

#[test]
fn read_steps() {
    assert_eq!(next_read_step(10, 0, ReadOutcome::Read(4)), ReadStep::Continue { filled: 4 });
    assert_eq!(next_read_step(10, 4, ReadOutcome::Read(6)), ReadStep::Finish { filled: 10 });
    assert_eq!(next_read_step(10, 4, ReadOutcome::Read(0)), ReadStep::Finish { filled: 4 });
    assert_eq!(next_read_step(10, 4, ReadOutcome::Interrupted), ReadStep::Continue { filled: 4 });
    assert_eq!(next_read_step(10, 4, ReadOutcome::Failed), ReadStep::Abort);
    assert_eq!(next_read_step(10, 4, ReadOutcome::Read(99)), ReadStep::Finish { filled: 10 });
    assert_eq!(next_read_step(10, 10, ReadOutcome::Read(3)), ReadStep::Finish { filled: 10 });
    assert_eq!(next_read_step(10, 10, ReadOutcome::Failed), ReadStep::Finish { filled: 10 });
}

#[test]
fn read_and_write_plans() {
    assert!(matches!(plan_page_read(8192, 1, PAGE_SIZE), Ok(Some(4096))));
    assert!(matches!(plan_page_read(8192, 2, PAGE_SIZE), Ok(None)));
    assert!(matches!(plan_page_read(8193, 2, 1), Ok(Some(8192))));
    assert!(matches!(plan_page_read(0, 0, PAGE_SIZE), Ok(None)));
    assert!(matches!(
        plan_page_read(8192, 1, 0),
        Err(RustubError::ContractViolation(Violation::BufferLength))
    ));
    assert!(matches!(
        plan_page_read(8192, -1, 16),
        Err(RustubError::ContractViolation(Violation::InvalidPageId))
    ));
    assert!(matches!(plan_page_write(3, PAGE_SIZE), Ok(12288)));
    assert!(matches!(
        plan_page_write(3, 12),
        Err(RustubError::ContractViolation(Violation::BufferLength))
    ));
    assert!(matches!(
        plan_page_write(-3, PAGE_SIZE),
        Err(RustubError::ContractViolation(Violation::InvalidPageId))
    ));
    assert_eq!(plan_log_read(5, 0), Some(0));
    assert_eq!(plan_log_read(5, 4), Some(4));
    assert_eq!(plan_log_read(5, 5), None);
    assert_eq!(plan_log_read(5, 100), None);
}

#[test]
fn zero_fill_clears_the_tail() {
    let mut buf = *b"abcdef";
    zero_fill(&mut buf, 2);
    assert_eq!(&buf, b"ab\0\0\0\0");
    zero_fill(&mut buf, 6);
    assert_eq!(&buf, b"ab\0\0\0\0");
    zero_fill(&mut buf, 0);
    assert_eq!(buf, [0u8; 6]);
}
