use crate::common::config::{PageId, INVALID_PAGE_ID, PAGE_SIZE};
use vstd::prelude::*;

pub mod header;
pub mod table;

pub use header::HeaderPage;
pub use table::TablePage;

verus! {

// Page
//  |__ HeaderPage
//  |__ TablePage

/// Page is the basic unit of storage within the database system: a buffer of
/// `PAGE_SIZE` bytes held in main memory, with the book-keeping that a buffer
/// pool needs (page id, pin count, dirty flag).
pub trait Page {
    /// The bytes of the page.
    spec fn bytes(&self) -> Seq<u8>;

    /// The id of the page; it never changes.
    spec fn id(&self) -> PageId;

    /// Whether the bytes may differ from the page on disk.
    spec fn dirty(&self) -> bool;

    /// How many holders reference the page.
    spec fn pins(&self) -> nat;

    /// A page has `PAGE_SIZE` bytes.
    proof fn lemma_page_size(&self)
        ensures
            self.bytes().len() == PAGE_SIZE,
    ;

    /// Returns the actual data contained within this page
    fn data(&self) -> (r: &[u8])
        ensures
            r@ == self.bytes(),
    ;

    /// Hands out the bytes for writing. Whatever the holder of the borrow
    /// stores becomes the content of the page, and the page counts as dirty
    /// from the call on.
    fn data_mut(&mut self) -> (r: &mut [u8])
        ensures
            r@ == old(self).bytes(),
            final(self).bytes() == final(r)@,
            final(self).id() == old(self).id(),
            final(self).pins() == old(self).pins(),
            final(self).dirty(),
    ;

    /// Get the page id of this page
    fn page_id(&self) -> (r: PageId)
        ensures
            r == self.id(),
    ;

    /// Returns true if the page in memory has been modified from the page on disk.
    fn is_dirty(&self) -> (r: bool)
        ensures
            r == self.dirty(),
    ;

    /// Returns the pin count of this page
    fn pin_count(&self) -> (r: usize)
        ensures
            r == self.pins(),
    ;
}

/// The all-zero content of a fresh page.
pub open spec fn zero_page() -> Seq<u8> {
    Seq::new(PAGE_SIZE as nat, |i: int| 0u8)
}

pub struct BasePage {
    /// The actual data that is stored within the page
    data: [u8; PAGE_SIZE],
    /// The ID of this page
    page_id: PageId,
    /// The pin count of this page
    pin_count: usize,
    /// True if the page is dirty, i.e. it is different from its corresponding page on disk
    is_dirty: bool,
}

impl BasePage {
    /// A zero-filled page that is clean, unpinned and not yet given an id.
    pub fn new() -> (r: Self)
        ensures
            r.bytes() == zero_page(),
            r.id() == INVALID_PAGE_ID,
            r.pins() == 0,
            !r.dirty(),
    {
        BasePage { data: [0u8; PAGE_SIZE], page_id: INVALID_PAGE_ID, pin_count: 0, is_dirty: false }
    }

    /// A zero-filled, clean, unpinned page with the id `page_id`.
    pub fn with_page_id(page_id: PageId) -> (r: Self)
        ensures
            r.bytes() == zero_page(),
            r.id() == page_id,
            r.pins() == 0,
            !r.dirty(),
    {
        BasePage { data: [0u8; PAGE_SIZE], page_id, pin_count: 0, is_dirty: false }
    }
}

impl Page for BasePage {
    closed spec fn bytes(&self) -> Seq<u8> {
        self.data@
    }

    closed spec fn id(&self) -> PageId {
        self.page_id
    }

    closed spec fn dirty(&self) -> bool {
        self.is_dirty
    }

    closed spec fn pins(&self) -> nat {
        self.pin_count as nat
    }

    proof fn lemma_page_size(&self) {
    }

    fn data(&self) -> (r: &[u8]) {
        &self.data
    }

    fn data_mut(&mut self) -> (r: &mut [u8]) {
        self.is_dirty = true;
        &mut self.data
    }

    fn page_id(&self) -> (r: PageId) {
        self.page_id
    }

    fn is_dirty(&self) -> (r: bool) {
        self.is_dirty
    }

    fn pin_count(&self) -> (r: usize) {
        self.pin_count
    }
}

} // verus!
