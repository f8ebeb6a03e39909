use rustub::common::config::{INVALID_PAGE_ID, PAGE_SIZE};
use rustub::storage::page::{Page, TablePage};

#[test]
fn new_table_page_has_header_and_no_tuples() {
    let page = TablePage::new(3, 2);
    assert_eq!(page.page_id(), 3);
    assert_eq!(Page::page_id(&page), 3);
    assert_eq!(page.prev_page_id(), 2);
    assert_eq!(page.next_page_id(), INVALID_PAGE_ID);
    assert_eq!(page.tuple_count(), 0);
    assert_eq!(page.free_space_pointer(), PAGE_SIZE as u32);
    let data = page.data();
    assert_eq!(&data[0..4], &[0, 0, 0, 3]);
    assert_eq!(&data[4..8], &[0, 0, 0, 0]);
    assert_eq!(&data[8..12], &[0, 0, 0, 2]);
    assert_eq!(&data[12..16], &[0xff, 0xff, 0xff, 0xff]);
    assert_eq!(&data[16..20], &[0, 0, 0x10, 0]);
    assert_eq!(&data[20..24], &[0, 0, 0, 0]);
    assert!(page.is_dirty());
    assert_eq!(page.pin_count(), 0);
}

#[test]
fn page_links_can_be_set() {
    let mut page = TablePage::new(1, INVALID_PAGE_ID);
    page.set_next_page_id(9);
    page.set_prev_page_id(-1);
    assert_eq!(page.next_page_id(), 9);
    assert_eq!(page.prev_page_id(), -1);
    page.set_prev_page_id(0x0a0b0c0d);
    assert_eq!(&page.data()[8..12], &[0x0a, 0x0b, 0x0c, 0x0d]);
    assert_eq!(page.page_id(), 1);
    assert_eq!(page.tuple_count(), 0);
}

#[test]
fn tuples_grow_from_the_end_and_slots_from_the_header() {
    let mut page = TablePage::new(1, INVALID_PAGE_ID);
    assert_eq!(page.insert_tuple(b"hello"), Some(0));
    assert_eq!(page.insert_tuple(b"tuple two"), Some(1));
    assert_eq!(page.tuple_count(), 2);
    assert_eq!(page.free_space_pointer(), 4096 - 5 - 9);
    assert_eq!(page.get_tuple(0), Some(&b"hello"[..]));
    assert_eq!(page.get_tuple(1), Some(&b"tuple two"[..]));
    assert_eq!(page.get_tuple(2), None);
    let data = page.data();
    assert_eq!(&data[4091..4096], b"hello");
    assert_eq!(&data[4082..4091], b"tuple two");
    // slot 0: offset 4091, size 5; slot 1: offset 4082, size 9
    assert_eq!(&data[24..32], &[0, 0, 0x0f, 0xfb, 0, 0, 0, 5]);
    assert_eq!(&data[32..40], &[0, 0, 0x0f, 0xf2, 0, 0, 0, 9]);
    assert_eq!(&data[16..20], &[0, 0, 0x0f, 0xf2]);
    assert_eq!(&data[20..24], &[0, 0, 0, 2]);
}

#[test]
fn delete_marks_the_slot_and_keeps_the_others() {
    let mut page = TablePage::new(1, INVALID_PAGE_ID);
    assert_eq!(page.insert_tuple(b"a"), Some(0));
    assert_eq!(page.insert_tuple(b"bb"), Some(1));
    assert_eq!(page.insert_tuple(b"ccc"), Some(2));
    let pointer = page.free_space_pointer();
    assert!(page.delete_tuple(1));
    assert_eq!(page.get_tuple(1), None);
    assert_eq!(page.get_tuple(0), Some(&b"a"[..]));
    assert_eq!(page.get_tuple(2), Some(&b"ccc"[..]));
    assert_eq!(page.tuple_count(), 3);
    assert_eq!(page.free_space_pointer(), pointer);
    assert!(!page.delete_tuple(1));
    assert!(!page.delete_tuple(3));
    assert_eq!(page.insert_tuple(b"dddd"), Some(3));
    assert_eq!(page.get_tuple(3), Some(&b"dddd"[..]));
    assert_eq!(&page.data()[36..40], &[0xff, 0xff, 0xff, 0xff]);
}

#[test]
fn an_empty_tuple_is_a_live_tuple() {
    let mut page = TablePage::new(1, INVALID_PAGE_ID);
    assert_eq!(page.insert_tuple(b""), Some(0));
    assert_eq!(page.get_tuple(0), Some(&b""[..]));
    assert!(page.delete_tuple(0));
    assert_eq!(page.get_tuple(0), None);
}

#[test]
fn insert_fails_without_room_for_tuple_and_slot() {
    let mut page = TablePage::new(1, INVALID_PAGE_ID);
    // 4096 - 24 bytes are free; a tuple needs its length and 8 bytes of slot
    let too_long = vec![7u8; 4096 - 24 - 7];
    assert_eq!(page.insert_tuple(&too_long), None);
    assert_eq!(page.tuple_count(), 0);
    assert_eq!(page.free_space_pointer(), 4096);
    let fits = vec![7u8; 4096 - 24 - 8];
    assert_eq!(page.insert_tuple(&fits), Some(0));
    assert_eq!(page.free_space_pointer(), 32);
    assert_eq!(page.get_tuple(0), Some(&fits[..]));
    assert_eq!(page.insert_tuple(b""), None);
    assert_eq!(page.insert_tuple(b"x"), None);
    assert_eq!(page.tuple_count(), 1);
}

#[test]
fn a_page_fills_up_with_small_tuples() {
    let mut page = TablePage::new(1, INVALID_PAGE_ID);
    let mut n = 0;
    while let Some(slot) = page.insert_tuple(b"12345678") {
        assert_eq!(slot, n);
        n += 1;
    }
    // each tuple takes 8 bytes and 8 bytes of slot
    assert_eq!(n, (4096 - 24) / 16);
    for slot in 0..n {
        assert_eq!(page.get_tuple(slot), Some(&b"12345678"[..]));
    }
}

#[test]
fn validity_of_slotted_page_bytes() {
    let mut page = TablePage::new(1, INVALID_PAGE_ID);
    assert!(page.is_valid());
    assert_eq!(page.insert_tuple(b"abcd"), Some(0));
    assert_eq!(page.insert_tuple(b"efgh"), Some(1));
    assert!(page.is_valid());
    assert!(page.delete_tuple(0));
    assert!(page.is_valid());
    // the second tuple now reaches into the deleted one: still no live overlap
    page.data_mut()[39] = 8;
    assert!(page.is_valid());
    // the second tuple now reaches beyond the page
    page.data_mut()[39] = 9;
    assert!(!page.is_valid());
    page.data_mut()[39] = 4;
    assert!(page.is_valid());
    // a free-space pointer above the tuples
    page.data_mut()[19] = 0xf9;
    assert!(!page.is_valid());
    page.data_mut()[19] = 0xf8;
    assert!(page.is_valid());
    // a free-space pointer inside the slot table
    page.data_mut()[18] = 0;
    page.data_mut()[19] = 39;
    assert!(!page.is_valid());

    let zero = rustub::storage::page::BasePage::new();
    let mut raw = TablePage::new(0, 0);
    raw.data_mut().copy_from_slice(zero.data());
    // an all-zero page has its free-space pointer inside the header
    assert!(!raw.is_valid());
}

#[test]
fn overlapping_live_tuples_are_no_slotted_page() {
    let mut page = TablePage::new(1, INVALID_PAGE_ID);
    assert_eq!(page.insert_tuple(b"abcd"), Some(0));
    assert_eq!(page.insert_tuple(b"efgh"), Some(1));
    // slot 1 at offset 4088 with size 5 reaches into slot 0 at 4092
    page.data_mut()[39] = 5;
    assert!(!page.is_valid());
}
