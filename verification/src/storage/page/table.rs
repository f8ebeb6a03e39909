use crate::common::codec::{
    be_bytes, get_i32_at, get_u32_at, lemma_be_bytes_len, lemma_be_value_zeros,
    lemma_byte_range_values,
    lemma_field_range, lemma_same_field, lemma_signed_written, lemma_unsigned_written,
    put_i32_at, put_slice_at, put_u32_at, signed_at, splice, to_unsigned, unsigned_at,
};
use crate::common::config::{PageId, INVALID_PAGE_ID, PAGE_SIZE};
use crate::storage::page::{BasePage, Page};
use vstd::prelude::*;
use vstd::slice::slice_subrange;

verus! {

pub const SIZE_TABLE_PAGE_HEADER: usize = 24;

pub const SIZE_TUPLE: usize = 8;

pub const OFFSET_PAGE_ID: usize = 0;

pub const OFFSET_LSN: usize = 4;

pub const OFFSET_PREV_PAGE_ID: usize = 8;

pub const OFFSET_NEXT_PAGE_ID: usize = 12;

pub const OFFSET_FREE_SPACE: usize = 16;

pub const OFFSET_TUPLE_COUNT: usize = 20;

pub const OFFSET_TUPLE_OFFSET: usize = 24;

pub const OFFSET_TUPLE_SIZE: usize = 28;

/// The size that marks the slot of a deleted tuple. No tuple in a page can
/// be that long, so a live slot never holds it.
pub const DELETED_TUPLE_SIZE: u32 = 0xFFFF_FFFF;

/// The tuple count that the page bytes hold.
pub open spec fn stored_tuple_count(bytes: Seq<u8>) -> nat {
    unsigned_at(bytes, 20, 4)
}

/// The free-space pointer that the page bytes hold: where the tuple area starts.
pub open spec fn stored_free_space_pointer(bytes: Seq<u8>) -> nat {
    unsigned_at(bytes, 16, 4)
}

/// Where the slot table ends, and the free space starts.
pub open spec fn slot_table_end(bytes: Seq<u8>) -> int {
    24 + 8 * (stored_tuple_count(bytes) as int)
}

/// The tuple offset in slot `i`.
pub open spec fn slot_offset(bytes: Seq<u8>, i: int) -> nat {
    unsigned_at(bytes, 24 + 8 * i, 4)
}

/// The tuple size in slot `i`.
pub open spec fn slot_size(bytes: Seq<u8>, i: int) -> nat {
    unsigned_at(bytes, 28 + 8 * i, 4)
}

/// Whether slot `i` holds a tuple that was not deleted.
pub open spec fn slot_live(bytes: Seq<u8>, i: int) -> bool {
    slot_size(bytes, i) != DELETED_TUPLE_SIZE
}

/// The tuple of slot `i`, or `None` for a deleted one.
pub open spec fn stored_tuple(bytes: Seq<u8>, i: int) -> Option<Seq<u8>> {
    if slot_live(bytes, i) {
        Some(
            bytes.subrange(
                slot_offset(bytes, i) as int,
                (slot_offset(bytes, i) + slot_size(bytes, i)) as int,
            ),
        )
    } else {
        None
    }
}

/// The tuples of the page by slot index.
pub open spec fn stored_tuples(bytes: Seq<u8>) -> Seq<Option<Seq<u8>>> {
    Seq::new(stored_tuple_count(bytes), |i: int| stored_tuple(bytes, i))
}

/// The bytes form a slotted page: the slot table ends at or before the
/// free-space pointer, every live tuple lies between that pointer and the
/// end of the page, and a tuple of a later slot lies wholly before the
/// tuples of earlier slots.
pub open spec fn slotted(bytes: Seq<u8>) -> bool {
    &&& bytes.len() == PAGE_SIZE
    &&& slot_table_end(bytes) <= stored_free_space_pointer(bytes) <= PAGE_SIZE
    &&& forall|i: int|
        0 <= i < stored_tuple_count(bytes) && #[trigger] slot_live(bytes, i) ==> {
            &&& stored_free_space_pointer(bytes) <= slot_offset(bytes, i)
            &&& slot_offset(bytes, i) + slot_size(bytes, i) <= PAGE_SIZE
        }
    &&& forall|i: int, j: int|
        0 <= i < j < stored_tuple_count(bytes) && #[trigger] slot_live(bytes, i)
            && #[trigger] slot_live(bytes, j) ==> slot_offset(bytes, j) + slot_size(bytes, j)
            <= slot_offset(bytes, i)
}

/// What a slotted page holds.
pub struct TablePageView {
    pub page_id: PageId,
    pub lsn: u32,
    pub prev_page_id: PageId,
    pub next_page_id: PageId,
    /// Where the tuple area starts.
    pub free_space_pointer: nat,
    /// The tuple of each slot; `None` for a deleted one.
    pub tuples: Seq<Option<Seq<u8>>>,
}

impl TablePageView {
    /// The bytes between the slot table and the tuple area.
    pub open spec fn free_space(self) -> int {
        self.free_space_pointer - (24 + 8 * self.tuples.len())
    }
}

/// The page content that the bytes spell.
pub open spec fn stored_table_page(bytes: Seq<u8>) -> TablePageView {
    TablePageView {
        page_id: signed_at(bytes, 0, 4) as PageId,
        lsn: unsigned_at(bytes, 4, 4) as u32,
        prev_page_id: signed_at(bytes, 8, 4) as PageId,
        next_page_id: signed_at(bytes, 12, 4) as PageId,
        free_space_pointer: stored_free_space_pointer(bytes),
        tuples: stored_tuples(bytes),
    }
}

/// In a slotted page the tuples of two live slots do not overlap.
pub proof fn lemma_live_tuples_disjoint(bytes: Seq<u8>, i: int, j: int)
    requires
        slotted(bytes),
        0 <= i < stored_tuple_count(bytes),
        0 <= j < stored_tuple_count(bytes),
        i != j,
        slot_live(bytes, i),
        slot_live(bytes, j),
    ensures
        slot_offset(bytes, i) + slot_size(bytes, i) <= slot_offset(bytes, j) || slot_offset(
            bytes,
            j,
        ) + slot_size(bytes, j) <= slot_offset(bytes, i),
{
}

/// Slotted page format:
/// ----------------------------------------------------------
/// |  header | ... free space ... | ... inserted tuples ... |
/// ----------------------------------------------------------
///                                ^
///                                free space pointer
/// Header format:
/// -------------------------------------------------------------------------------------------
/// | page id (4) | LSN (4) | previous page id (4) | next page id (4) | free space pointer (4)|
/// -------------------------------------------------------------------------------------------
///
/// -----------------------------------------------------------------
/// | tuple count (4) | tuple_1 offset (4) | tuple_1 size (4) | ... |
/// -----------------------------------------------------------------
pub struct TablePage {
    base: BasePage,
}

impl View for TablePage {
    type V = TablePageView;

    open spec fn view(&self) -> TablePageView {
        stored_table_page(self.bytes())
    }
}

impl TablePage {
    /// The page bytes form a slotted page.
    pub open spec fn wf(&self) -> bool {
        slotted(self.bytes())
    }

    /// Whether nothing but the bytes of the page may differ between the two.
    pub open spec fn same_frame(&self, other: &Self) -> bool {
        &&& self.id() == other.id()
        &&& self.pins() == other.pins()
    }

    /// An empty slotted page: no tuples, the whole space behind the header
    /// free, no next page.
    pub fn new(page_id: PageId, prev_page_id: PageId) -> (page: Self)
        ensures
            page.wf(),
            page@ == (TablePageView {
                page_id,
                lsn: 0,
                prev_page_id,
                next_page_id: INVALID_PAGE_ID,
                free_space_pointer: PAGE_SIZE as nat,
                tuples: Seq::empty(),
            }),
            page.id() == page_id,
            page.pins() == 0,
            page.dirty(),
    {
        let mut page = TablePage { base: BasePage::with_page_id(page_id) };
        let ghost b0 = page.bytes();
        proof {
            page.lemma_page_size();
            lemma_byte_range_values();
            lemma_be_value_zeros(b0.subrange(4, 8));
            lemma_be_value_zeros(b0.subrange(20, 24));
        }
        page.write_i32(OFFSET_PAGE_ID, page_id);
        let ghost b1 = page.bytes();
        page.write_i32(OFFSET_PREV_PAGE_ID, prev_page_id);
        let ghost b2 = page.bytes();
        page.write_i32(OFFSET_NEXT_PAGE_ID, INVALID_PAGE_ID);
        let ghost b3 = page.bytes();
        page.write_u32(OFFSET_FREE_SPACE, PAGE_SIZE as u32);
        proof {
            let b4 = page.bytes();
            lemma_same_field(b4, b1, 0, 4);
            lemma_same_field(b4, b0, 4, 4);
            lemma_same_field(b4, b2, 8, 4);
            lemma_same_field(b4, b3, 12, 4);
            lemma_same_field(b4, b0, 20, 4);
            assert(stored_tuples(b4) =~= Seq::<Option<Seq<u8>>>::empty());
        }
        page
    }

    /// Returns the page id of this table page
    pub fn page_id(&self) -> (id: PageId)
        ensures
            id == self@.page_id,
    {
        proof {
            self.lemma_page_size();
            lemma_byte_range_values();
            lemma_field_range(self.bytes(), 0, 4);
        }
        get_i32_at(self.data(), OFFSET_PAGE_ID)
    }

    /// Returns the page id of the previous table page
    pub fn prev_page_id(&self) -> (id: PageId)
        ensures
            id == self@.prev_page_id,
    {
        proof {
            self.lemma_page_size();
            lemma_byte_range_values();
            lemma_field_range(self.bytes(), 8, 4);
        }
        get_i32_at(self.data(), OFFSET_PREV_PAGE_ID)
    }

    /// Returns the page id of the next table page
    pub fn next_page_id(&self) -> (id: PageId)
        ensures
            id == self@.next_page_id,
    {
        proof {
            self.lemma_page_size();
            lemma_byte_range_values();
            lemma_field_range(self.bytes(), 12, 4);
        }
        get_i32_at(self.data(), OFFSET_NEXT_PAGE_ID)
    }

    /// The number of slots, deleted ones included.
    pub fn tuple_count(&self) -> (count: u32)
        ensures
            count == self@.tuples.len(),
    {
        proof {
            self.lemma_page_size();
        }
        get_u32_at(self.data(), OFFSET_TUPLE_COUNT)
    }

    /// Where the tuple area starts.
    pub fn free_space_pointer(&self) -> (pointer: u32)
        ensures
            pointer == self@.free_space_pointer,
    {
        proof {
            self.lemma_page_size();
        }
        get_u32_at(self.data(), OFFSET_FREE_SPACE)
    }

    /// Set the page id of the next table page
    pub fn set_next_page_id(&mut self, pid: PageId)
        ensures
            final(self).bytes() == splice(
                old(self).bytes(),
                12,
                be_bytes(to_unsigned(pid as int, 4), 4),
            ),
            final(self)@.next_page_id == pid,
            old(self).wf() ==> final(self).wf() && final(self)@ == (TablePageView {
                next_page_id: pid,
                ..old(self)@
            }),
            final(self).same_frame(old(self)),
            final(self).dirty(),
    {
        let ghost b0 = self.bytes();
        self.write_i32(OFFSET_NEXT_PAGE_ID, pid);
        proof {
            self.lemma_page_size();
            if slotted(b0) {
                lemma_header_write_keeps_slots(b0, self.bytes(), 12);
                lemma_same_field(self.bytes(), b0, 0, 4);
                lemma_same_field(self.bytes(), b0, 4, 4);
                lemma_same_field(self.bytes(), b0, 8, 4);
            }
        }
    }

    /// Set the page id of the previous table page
    pub fn set_prev_page_id(&mut self, pid: PageId)
        ensures
            final(self).bytes() == splice(
                old(self).bytes(),
                8,
                be_bytes(to_unsigned(pid as int, 4), 4),
            ),
            final(self)@.prev_page_id == pid,
            old(self).wf() ==> final(self).wf() && final(self)@ == (TablePageView {
                prev_page_id: pid,
                ..old(self)@
            }),
            final(self).same_frame(old(self)),
            final(self).dirty(),
    {
        let ghost b0 = self.bytes();
        self.write_i32(OFFSET_PREV_PAGE_ID, pid);
        proof {
            self.lemma_page_size();
            if slotted(b0) {
                lemma_header_write_keeps_slots(b0, self.bytes(), 8);
                lemma_same_field(self.bytes(), b0, 0, 4);
                lemma_same_field(self.bytes(), b0, 4, 4);
                lemma_same_field(self.bytes(), b0, 12, 4);
            }
        }
    }

    /// Stores a tuple in the page and returns its slot. The tuple goes
    /// directly below the tuple area, its slot entry behind the slot table.
    /// Fails, and changes nothing, where the free space is smaller than the
    /// tuple and one slot entry.
    pub fn insert_tuple(&mut self, tuple: &[u8]) -> (slot: Option<u32>)
        requires
            old(self).wf(),
        ensures
            final(self).wf(),
            slot is Some <==> tuple@.len() + SIZE_TUPLE <= old(self)@.free_space(),
            slot matches Some(index) ==> {
                &&& index == old(self)@.tuples.len()
                &&& final(self)@ == (TablePageView {
                    free_space_pointer: (old(self)@.free_space_pointer - tuple@.len()) as nat,
                    tuples: old(self)@.tuples.push(Some(tuple@)),
                    ..old(self)@
                })
                &&& slot_offset(final(self).bytes(), index as int) == old(self)@.free_space_pointer
                    - tuple@.len()
                &&& final(self).dirty()
            },
            slot is None ==> *final(self) == *old(self),
            final(self).same_frame(old(self)),
    {
        let count = self.tuple_count();
        let pointer = self.free_space_pointer();
        let table_end = SIZE_TABLE_PAGE_HEADER + count as usize * SIZE_TUPLE;
        let free = pointer as usize - table_end;
        if free < SIZE_TUPLE || tuple.len() > free - SIZE_TUPLE {
            return None;
        }
        let size = tuple.len() as u32;
        let offset = pointer - size;
        let entry = table_end;
        let ghost b0 = self.bytes();
        proof {
            self.lemma_page_size();
            lemma_byte_range_values();
        }
        put_slice_at(self.data_mut(), offset as usize, tuple);
        let ghost b1 = self.bytes();
        self.write_u32(entry, offset);
        let ghost b2 = self.bytes();
        self.write_u32(entry + 4, size);
        let ghost b3 = self.bytes();
        self.write_u32(OFFSET_FREE_SPACE, offset);
        let ghost b4 = self.bytes();
        self.write_u32(OFFSET_TUPLE_COUNT, count + 1);
        proof {
            let b5 = self.bytes();
            let n = count as int;
            lemma_same_field(b5, b4, 16, 4);
            lemma_same_field(b5, b2, 24 + 8 * n, 4);
            lemma_same_field(b5, b3, 28 + 8 * n, 4);
            lemma_same_field(b5, b0, 0, 4);
            lemma_same_field(b5, b0, 4, 4);
            lemma_same_field(b5, b0, 8, 4);
            lemma_same_field(b5, b0, 12, 4);
            assert(b5.subrange(offset as int, offset + size) =~= tuple@);
            assert(stored_tuple(b5, n) == Some(tuple@));
            lemma_slots_kept(b0, b5, n, -1, pointer as int);
            assert(stored_tuples(b5) =~= stored_tuples(b0).push(Some(tuple@)));
        }
        Some(count)
    }

    /// Marks the tuple of `slot` as deleted. The slot stays, so the slots of
    /// other tuples keep their numbers, and the bytes of the tuple are not
    /// reclaimed. Fails, and changes nothing, where `slot` is out of range
    /// or deleted already.
    pub fn delete_tuple(&mut self, slot: u32) -> (deleted: bool)
        requires
            old(self).wf(),
        ensures
            final(self).wf(),
            deleted == (slot < old(self)@.tuples.len() && old(self)@.tuples[slot as int] is Some),
            deleted ==> final(self)@ == (TablePageView {
                tuples: old(self)@.tuples.update(slot as int, None),
                ..old(self)@
            }) && final(self).dirty(),
            !deleted ==> *final(self) == *old(self),
            final(self).same_frame(old(self)),
    {
        let count = self.tuple_count();
        if slot >= count {
            return false;
        }
        proof {
            self.lemma_page_size();
            lemma_byte_range_values();
        }
        let entry = SIZE_TABLE_PAGE_HEADER + slot as usize * SIZE_TUPLE;
        let size = get_u32_at(self.data(), entry + 4);
        if size == DELETED_TUPLE_SIZE {
            return false;
        }
        let ghost b0 = self.bytes();
        self.write_u32(entry + 4, DELETED_TUPLE_SIZE);
        proof {
            let b1 = self.bytes();
            let s = slot as int;
            lemma_same_field(b1, b0, 0, 4);
            lemma_same_field(b1, b0, 4, 4);
            lemma_same_field(b1, b0, 8, 4);
            lemma_same_field(b1, b0, 12, 4);
            lemma_same_field(b1, b0, 16, 4);
            lemma_same_field(b1, b0, 20, 4);
            lemma_slots_kept(b0, b1, count as int, s, stored_free_space_pointer(b0) as int);
            assert(!slot_live(b1, s));
            assert(stored_tuples(b1) =~= stored_tuples(b0).update(s, None));
        }
        true
    }

    /// The bytes of the tuple in `slot`; `None` where `slot` is out of range
    /// or its tuple was deleted.
    pub fn get_tuple(&self, slot: u32) -> (tuple: Option<&[u8]>)
        requires
            self.wf(),
        ensures
            match tuple {
                Some(bytes) => slot < self@.tuples.len() && self@.tuples[slot as int] == Some(
                    bytes@,
                ),
                None => slot >= self@.tuples.len() || self@.tuples[slot as int] is None,
            },
    {
        let count = self.tuple_count();
        if slot >= count {
            return None;
        }
        proof {
            self.lemma_page_size();
        }
        let entry = SIZE_TABLE_PAGE_HEADER + slot as usize * SIZE_TUPLE;
        let size = get_u32_at(self.data(), entry + 4);
        if size == DELETED_TUPLE_SIZE {
            return None;
        }
        let offset = get_u32_at(self.data(), entry);
        assert(slot_live(self.bytes(), slot as int));
        Some(slice_subrange(self.data(), offset as usize, offset as usize + size as usize))
    }

    /// Whether the bytes of the page form a slotted page. A page that was
    /// filled through `data_mut` is to be asked before it is used.
    pub fn is_valid(&self) -> (valid: bool)
        ensures
            valid == self.wf(),
    {
        proof {
            self.lemma_page_size();
        }
        let count = self.tuple_count();
        let pointer = self.free_space_pointer();
        if pointer as usize > PAGE_SIZE || count as usize > (PAGE_SIZE - SIZE_TABLE_PAGE_HEADER)
            / SIZE_TUPLE {
            return false;
        }
        if SIZE_TABLE_PAGE_HEADER + count as usize * SIZE_TUPLE > pointer as usize {
            return false;
        }
        let data = self.data();
        let ghost bytes = self.bytes();
        // the lowest offset of a live tuple so far, and the slot that has it
        let mut low: u32 = PAGE_SIZE as u32;
        let ghost mut lowest: int = -1;
        let mut i: u32 = 0;
        while i < count
            invariant
                i <= count,
                bytes == self.bytes(),
                data@ == bytes,
                bytes.len() == PAGE_SIZE,
                count == stored_tuple_count(bytes),
                pointer == stored_free_space_pointer(bytes),
                24 + 8 * count <= pointer <= PAGE_SIZE,
                low <= PAGE_SIZE,
                -1 <= lowest < i,
                lowest == -1 ==> low == PAGE_SIZE && forall|k: int|
                    0 <= k < i ==> !#[trigger] slot_live(bytes, k),
                lowest >= 0 ==> slot_live(bytes, lowest) && low == slot_offset(bytes, lowest),
                forall|k: int|
                    0 <= k < i && #[trigger] slot_live(bytes, k) ==> {
                        &&& pointer <= slot_offset(bytes, k)
                        &&& slot_offset(bytes, k) + slot_size(bytes, k) <= PAGE_SIZE
                        &&& low <= slot_offset(bytes, k)
                    },
                forall|a: int, b: int|
                    0 <= a < b < i && #[trigger] slot_live(bytes, a) && #[trigger] slot_live(
                        bytes,
                        b,
                    ) ==> slot_offset(bytes, b) + slot_size(bytes, b) <= slot_offset(bytes, a),
            decreases count - i,
        {
            let entry = SIZE_TABLE_PAGE_HEADER + i as usize * SIZE_TUPLE;
            let offset = get_u32_at(data, entry);
            let size = get_u32_at(data, entry + 4);
            if size != DELETED_TUPLE_SIZE {
                assert(slot_live(bytes, i as int));
                if offset < pointer || offset as u64 + size as u64 > low as u64 {
                    proof {
                        if lowest >= 0 {
                            assert(slot_live(bytes, lowest));
                        }
                    }
                    return false;
                }
                low = offset;
                proof {
                    lowest = i as int;
                }
            }
            i += 1;
        }
        true
    }

    fn write_u32(&mut self, offset: usize, v: u32)
        requires
            offset + 4 <= PAGE_SIZE,
        ensures
            final(self).bytes() == splice(old(self).bytes(), offset as int, be_bytes(v as nat, 4)),
            unsigned_at(final(self).bytes(), offset as int, 4) == v,
            forall|k: int|
                0 <= k < PAGE_SIZE && !(offset <= k < offset + 4) ==> final(self).bytes()[k] == old(
                    self,
                ).bytes()[k],
            final(self).same_frame(old(self)),
            final(self).dirty(),
    {
        proof {
            self.lemma_page_size();
            lemma_byte_range_values();
            lemma_be_bytes_len(v as nat, 4);
            lemma_unsigned_written(self.bytes(), offset as int, v as nat, 4);
        }
        put_u32_at(self.data_mut(), offset, v)
    }

    fn write_i32(&mut self, offset: usize, v: i32)
        requires
            offset + 4 <= PAGE_SIZE,
        ensures
            final(self).bytes() == splice(
                old(self).bytes(),
                offset as int,
                be_bytes(to_unsigned(v as int, 4), 4),
            ),
            signed_at(final(self).bytes(), offset as int, 4) == v,
            forall|k: int|
                0 <= k < PAGE_SIZE && !(offset <= k < offset + 4) ==> final(self).bytes()[k] == old(
                    self,
                ).bytes()[k],
            final(self).same_frame(old(self)),
            final(self).dirty(),
    {
        proof {
            self.lemma_page_size();
            lemma_byte_range_values();
            lemma_be_bytes_len(to_unsigned(v as int, 4), 4);
            lemma_signed_written(self.bytes(), offset as int, v as int, 4);
        }
        put_i32_at(self.data_mut(), offset, v)
    }
}

/// Slots whose entries and tuple bytes are the same in two pages hold the
/// same tuples. `skip` names one slot whose size field may differ (-1 for
/// none); `low` is where the unchanged tuple area starts.
proof fn lemma_slots_kept(b0: Seq<u8>, b1: Seq<u8>, n: int, skip: int, low: int)
    requires
        b0.len() == PAGE_SIZE,
        b1.len() == PAGE_SIZE,
        0 <= n,
        24 + 8 * n <= PAGE_SIZE,
        0 <= low,
        forall|k: int|
            24 <= k < 24 + 8 * n && !(28 + 8 * skip <= k < 32 + 8 * skip) ==> b1[k] == b0[k],
        forall|k: int| low <= k < PAGE_SIZE ==> b1[k] == b0[k],
        forall|i: int|
            0 <= i < n && i != skip && #[trigger] slot_live(b0, i) ==> low <= slot_offset(b0, i)
                && slot_offset(b0, i) + slot_size(b0, i) <= PAGE_SIZE,
    ensures
        forall|i: int|
            #![trigger slot_offset(b1, i)]
            0 <= i < n ==> slot_offset(b1, i) == slot_offset(b0, i),
        forall|i: int|
            #![trigger slot_live(b1, i)]
            #![trigger slot_size(b1, i)]
            #![trigger stored_tuple(b1, i)]
            0 <= i < n && i != skip ==> {
                &&& slot_size(b1, i) == slot_size(b0, i)
                &&& slot_live(b1, i) == slot_live(b0, i)
                &&& stored_tuple(b1, i) == stored_tuple(b0, i)
            },
{
    assert forall|i: int| 0 <= i < n implies #[trigger] slot_offset(b1, i) == slot_offset(
        b0,
        i,
    ) by {
        lemma_same_field(b1, b0, 24 + 8 * i, 4);
    }
    assert forall|i: int| 0 <= i < n && i != skip implies {
        &&& #[trigger] slot_size(b1, i) == slot_size(b0, i)
        &&& slot_live(b1, i) == slot_live(b0, i)
        &&& stored_tuple(b1, i) == stored_tuple(b0, i)
    } by {
        lemma_same_field(b1, b0, 24 + 8 * i, 4);
        lemma_same_field(b1, b0, 28 + 8 * i, 4);
        if slot_live(b0, i) {
            let at = slot_offset(b0, i) as int;
            let len = slot_size(b0, i) as int;
            assert(b1.subrange(at, at + len) =~= b0.subrange(at, at + len));
        }
    }
}

/// A write into one of the page-id fields of the header of a slotted page
/// leaves the free-space pointer, the slot table and the tuples as they were.
proof fn lemma_header_write_keeps_slots(b0: Seq<u8>, b1: Seq<u8>, at: int)
    requires
        slotted(b0),
        b1.len() == PAGE_SIZE,
        0 <= at <= 12,
        forall|k: int| 0 <= k < PAGE_SIZE && !(at <= k < at + 4) ==> b1[k] == b0[k],
    ensures
        stored_free_space_pointer(b1) == stored_free_space_pointer(b0),
        stored_tuples(b1) == stored_tuples(b0),
        slotted(b1),
{
    lemma_same_field(b1, b0, 16, 4);
    lemma_same_field(b1, b0, 20, 4);
    lemma_slots_kept(b0, b1, stored_tuple_count(b0) as int, -1, stored_free_space_pointer(b0) as int);
    assert(stored_tuples(b1) =~= stored_tuples(b0));
}

impl Page for TablePage {
    closed spec fn bytes(&self) -> Seq<u8> {
        self.base.bytes()
    }

    closed spec fn id(&self) -> PageId {
        self.base.id()
    }

    closed spec fn dirty(&self) -> bool {
        self.base.dirty()
    }

    closed spec fn pins(&self) -> nat {
        self.base.pins()
    }

    proof fn lemma_page_size(&self) {
        self.base.lemma_page_size();
    }

    fn data(&self) -> (r: &[u8]) {
        self.base.data()
    }

    fn data_mut(&mut self) -> (r: &mut [u8]) {
        self.base.data_mut()
    }

    fn page_id(&self) -> (r: PageId) {
        self.base.page_id()
    }

    fn is_dirty(&self) -> (r: bool) {
        self.base.is_dirty()
    }

    fn pin_count(&self) -> (r: usize) {
        self.base.pin_count()
    }
}

} // verus!
