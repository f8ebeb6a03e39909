use rustub::common::config::{INVALID_PAGE_ID, PAGE_SIZE};
use rustub::common::error::{RustubError, Violation};
use rustub::storage::page::{BasePage, HeaderPage, Page};

#[test]
fn header_page_crud() {
    let mut page = HeaderPage::new();
    let key = "rustub";
    assert_eq!(page.record_count(), 0);
    assert!(page.insert_record(key, 1));
    assert_eq!(page.record_count(), 1);
    assert!(!page.insert_record(key, 1));
    assert!(page.update_record(key, 2));
    assert_eq!(page.root_id(key), 2);
    assert!(page.delete_record(key));
    assert_eq!(page.record_count(), 0);
    assert_eq!(page.root_id(key), INVALID_PAGE_ID);
}

#[test]
fn new_header_page_is_a_clean_zero_page() {
    let page = HeaderPage::new();
    assert_eq!(page.data().len(), PAGE_SIZE);
    assert!(page.data().iter().all(|b| *b == 0));
    assert_eq!(page.page_id(), 0);
    assert_eq!(page.pin_count(), 0);
    assert!(!page.is_dirty());
}

#[test]
fn base_page_starts_without_an_id() {
    let page = BasePage::new();
    assert_eq!(page.page_id(), INVALID_PAGE_ID);
    assert_eq!(page.pin_count(), 0);
    assert!(!page.is_dirty());
    assert_eq!(page.data(), &[0u8; PAGE_SIZE][..]);
    let mut page = BasePage::with_page_id(7);
    assert_eq!(page.page_id(), 7);
    page.data_mut()[3] = 1;
    assert!(page.is_dirty());
    assert_eq!(page.data()[3], 1);
}

#[test]
fn insert_duplicate_is_refused() {
    let mut page = HeaderPage::new();
    assert!(page.insert_record("t1", 5));
    assert!(!page.insert_record("t1", 9));
    assert_eq!(page.record_count(), 1);
    assert_eq!(page.root_id("t1"), 5);
}

#[test]
fn delete_compacts_and_keeps_order() {
    let mut page = HeaderPage::new();
    assert!(page.insert_record("a", 1));
    assert!(page.insert_record("b", 2));
    assert!(page.insert_record("c", 3));
    assert!(page.delete_record("b"));
    assert_eq!(page.root_id("a"), 1);
    assert_eq!(page.root_id("c"), 3);
    assert_eq!(page.find("b"), -1);
    assert_eq!(page.record_count(), 2);
    assert_eq!(page.find("a"), 0);
    assert_eq!(page.find("c"), 1);
    assert!(!page.delete_record("b"));
    assert!(page.delete_record("a"));
    assert_eq!(page.find("c"), 0);
    assert_eq!(page.root_id("c"), 3);
}

#[test]
fn update_changes_one_root_only() {
    let mut page = HeaderPage::new();
    assert!(page.insert_record("a", 1));
    assert!(page.insert_record("b", 2));
    let before = page.data().to_vec();
    assert!(page.update_record("a", 42));
    assert_eq!(page.root_id("a"), 42);
    assert_eq!(page.root_id("b"), 2);
    assert_eq!(page.record_count(), 2);
    let after = page.data();
    for i in 0..PAGE_SIZE {
        if (36..40).contains(&i) {
            continue;
        }
        assert_eq!(before[i], after[i]);
    }
    assert_eq!(&after[36..40], &[0, 0, 0, 42]);
    assert!(!page.update_record("missing", 7));
}

#[test]
fn record_layout_is_count_then_name_and_root() {
    let mut page = HeaderPage::new();
    assert!(page.insert_record("ab", 0x0102_0304));
    assert!(page.insert_record("c", 1));
    let data = page.data();
    assert_eq!(&data[0..4], &[0, 0, 0, 2]);
    assert_eq!(&data[4..6], b"ab");
    assert!(data[6..36].iter().all(|b| *b == 0));
    assert_eq!(&data[36..40], &[1, 2, 3, 4]);
    assert_eq!(data[40], b'c');
    assert!(data[41..72].iter().all(|b| *b == 0));
    assert_eq!(&data[72..76], &[0, 0, 0, 1]);
    assert!(page.is_dirty());
}

#[test]
fn a_name_does_not_match_its_prefix_or_extension() {
    let mut page = HeaderPage::new();
    assert!(page.insert_record("table", 4));
    assert_eq!(page.find("tab"), -1);
    assert_eq!(page.find("tables"), -1);
    assert_eq!(page.root_id("tab"), INVALID_PAGE_ID);
    assert!(page.insert_record("tab", 5));
    assert_eq!(page.root_id("tab"), 5);
    assert_eq!(page.root_id("table"), 4);
}

#[test]
fn a_reused_slot_holds_no_bytes_of_the_old_name() {
    let mut page = HeaderPage::new();
    assert!(page.insert_record("a_rather_long_table_name", 1));
    assert!(page.delete_record("a_rather_long_table_name"));
    assert!(page.insert_record("x", 2));
    assert_eq!(page.find("x"), 0);
    assert_eq!(page.root_id("x"), 2);
    assert!(page.data()[5..36].iter().all(|b| *b == 0));
}

#[test]
fn directory_holds_113_records() {
    let mut page = HeaderPage::new();
    for i in 0..113 {
        assert!(page.insert_record(&format!("t{}", i), i));
    }
    assert_eq!(page.record_count(), 113);
    assert!(!page.insert_record("one_more", 1));
    assert_eq!(page.record_count(), 113);
    assert_eq!(page.root_id("t112"), 112);
    assert!(page.delete_record("t0"));
    assert!(page.insert_record("one_more", 1));
    assert_eq!(page.find("one_more"), 112);
    assert_eq!(page.find("t1"), 0);
}

#[test]
fn longest_name_has_31_bytes() {
    let mut page = HeaderPage::new();
    let name = "n".repeat(31);
    assert!(page.insert_record(&name, 9));
    assert_eq!(page.root_id(&name), 9);
    assert_eq!(page.data()[4 + 31], 0);
}

#[test]
fn a_failed_operation_leaves_the_page_clean() {
    let mut page = HeaderPage::new();
    assert!(!page.delete_record("none"));
    assert!(!page.update_record("none", 3));
    assert!(!page.is_dirty());
    assert!(page.insert_record("some", 3));
    assert!(page.is_dirty());
}

#[test]
fn checked_operations_refuse_bad_arguments() {
    let mut page = HeaderPage::new();
    let long = "n".repeat(32);
    assert!(matches!(
        page.try_insert_record(&long, 1),
        Err(RustubError::ContractViolation(Violation::KeyTooLong))
    ));
    assert!(matches!(
        page.try_insert_record("ok", -1),
        Err(RustubError::ContractViolation(Violation::InvalidRootId))
    ));
    assert!(matches!(
        page.try_insert_record("ok", i32::MIN),
        Err(RustubError::ContractViolation(Violation::InvalidRootId))
    ));
    assert!(!page.is_dirty());
    assert_eq!(page.record_count(), 0);
    assert!(matches!(page.try_insert_record("ok", 0), Ok(true)));
    assert!(matches!(page.try_insert_record("ok", 0), Ok(false)));
    assert!(matches!(page.try_root_id("ok"), Ok(0)));
    assert!(matches!(page.try_root_id("no"), Ok(-1)));
    assert!(matches!(
        page.try_root_id(&long),
        Err(RustubError::ContractViolation(Violation::KeyTooLong))
    ));
    assert!(matches!(page.try_update_record("ok", 8), Ok(true)));
    assert!(matches!(page.try_update_record("no", 8), Ok(false)));
    assert!(matches!(
        page.try_update_record(&long, 8),
        Err(RustubError::ContractViolation(Violation::KeyTooLong))
    ));
    assert!(matches!(
        page.try_delete_record(&long),
        Err(RustubError::ContractViolation(Violation::KeyTooLong))
    ));
    assert!(matches!(page.try_delete_record("ok"), Ok(true)));
    assert!(matches!(page.try_delete_record("ok"), Ok(false)));
}

#[test]
fn validity_of_directory_bytes() {
    let mut page = HeaderPage::new();
    assert!(page.is_valid());
    assert!(page.insert_record("a", 1));
    assert!(page.insert_record("b", 2));
    assert!(page.is_valid());
    // a count beyond the capacity
    page.data_mut()[3] = 114;
    assert!(!page.is_valid());
    page.data_mut()[3] = 113;
    // records 2.. are all zero: the same key twice
    assert!(!page.is_valid());
    page.data_mut()[3] = 3;
    assert!(page.is_valid());
    // make the second key equal to the first
    page.data_mut()[40] = b'a';
    assert!(!page.is_valid());
}
