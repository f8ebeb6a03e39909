use crate::common::codec::{
    be_bytes, be_value, get_i32_at, get_u32_at, lemma_be_bytes_of_value, lemma_be_value_of_bytes,
    lemma_be_value_zeros, lemma_byte_range_values, lemma_signed_round_trip, put_i32_at,
    put_slice_at, put_u32_at, splice, to_signed, to_unsigned,
};
use crate::common::config::{PageId, INVALID_PAGE_ID, PAGE_SIZE};
use crate::common::error::{RustubError, Violation};
use crate::common::memmove;
use crate::storage::page::{zero_page, BasePage, Page};
use vstd::prelude::*;
use vstd::string::StringSliceAdditionalSpecFns;

verus! {

pub const HEADER_PAGE_COUNT_SIZE: usize = 4;

pub const HEADER_PAGE_ENTRY_KEY_SIZE: usize = 32;

pub const HEADER_PAGE_ENTRY_VALUE_SIZE: usize = 4;

pub const HEADER_PAGE_ENTRY_SIZE: usize = 36;

/// How many records fit behind the record count.
pub const HEADER_PAGE_CAPACITY: usize = 113;

/// The page of a database file that holds the directory.
pub const HEADER_PAGE_ID: PageId = 0;

/// One record of the directory: the name field as stored, and the root page id.
pub struct DirectoryEntry {
    pub key: Seq<u8>,
    pub root_id: PageId,
}

/// The name field of a record: the bytes of the name, then zeros up to the
/// field's width.
pub open spec fn padded_key(name: Seq<u8>) -> Seq<u8> {
    Seq::new(
        HEADER_PAGE_ENTRY_KEY_SIZE as nat,
        |i: int|
            if i < name.len() {
                name[i]
            } else {
                0u8
            },
    )
}

/// Where record `i` starts in the page.
pub open spec fn entry_offset(i: int) -> int {
    4 + 36 * i
}

/// The record count that the page bytes hold.
pub open spec fn stored_count(bytes: Seq<u8>) -> nat {
    be_value(bytes.subrange(0, 4))
}

/// Record `i` as the page bytes hold it.
pub open spec fn stored_entry(bytes: Seq<u8>, i: int) -> DirectoryEntry {
    let at = entry_offset(i);
    DirectoryEntry {
        key: bytes.subrange(at, at + 32),
        root_id: to_signed(be_value(bytes.subrange(at + 32, at + 36)), 4) as PageId,
    }
}

/// The directory that the page bytes hold: the counted records, in order.
pub open spec fn stored_entries(bytes: Seq<u8>) -> Seq<DirectoryEntry> {
    Seq::new(stored_count(bytes), |i: int| stored_entry(bytes, i))
}

/// Index of the first record with the key, or -1 where there is none.
pub open spec fn position(entries: Seq<DirectoryEntry>, key: Seq<u8>) -> int
    decreases entries.len(),
{
    if entries.len() == 0 {
        -1
    } else {
        let before = position(entries.drop_last(), key);
        if before >= 0 {
            before
        } else if entries.last().key == key {
            entries.len() - 1
        } else {
            -1
        }
    }
}

/// The root page id that the directory holds for the key, or the invalid
/// page id where no record has the key.
pub open spec fn root_of(entries: Seq<DirectoryEntry>, key: Seq<u8>) -> PageId {
    if position(entries, key) >= 0 {
        entries[position(entries, key)].root_id
    } else {
        INVALID_PAGE_ID
    }
}

/// No two records share a key.
pub open spec fn keys_unique(entries: Seq<DirectoryEntry>) -> bool {
    forall|i: int, j: int|
        0 <= i < j < entries.len() ==> (#[trigger] entries[i]).key != (#[trigger] entries[j]).key
}

/// `position` finds the first record with the key, and -1 only where no
/// record has it.
pub proof fn lemma_position(entries: Seq<DirectoryEntry>, key: Seq<u8>)
    ensures
        -1 <= position(entries, key) < entries.len(),
        position(entries, key) >= 0 ==> entries[position(entries, key)].key == key,
        forall|i: int|
            0 <= i < entries.len() && (position(entries, key) == -1 || i < position(entries, key))
                ==> (#[trigger] entries[i]).key != key,
    decreases entries.len(),
{
    if entries.len() > 0 {
        let front = entries.drop_last();
        lemma_position(front, key);
        assert forall|i: int|
            0 <= i < entries.len() && (position(entries, key) == -1 || i < position(
                entries,
                key,
            )) implies (#[trigger] entries[i]).key != key by {
            if i < front.len() {
                assert(front[i] == entries[i]);
            }
        }
    }
}

/// Database use this first page (page_id = 0) as header page to store metadata, in our case, we will
/// contain information about table/index name (length less than 32 bytes) and their corresponding
/// root page id.
///
/// Format (size in byte):
/// ---------------------------------------------------------
/// | record count (4) |   name (32)   | root id (4) | ... |
/// ---------------------------------------------------------
pub struct HeaderPage {
    base: BasePage,
}

impl View for HeaderPage {
    type V = Seq<DirectoryEntry>;

    open spec fn view(&self) -> Seq<DirectoryEntry> {
        stored_entries(self.bytes())
    }
}

/// Builds the name field for `name`.
fn make_key(name: &[u8]) -> (key: Vec<u8>)
    requires
        name@.len() <= HEADER_PAGE_ENTRY_KEY_SIZE,
    ensures
        key@ == padded_key(name@),
{
    let mut key: Vec<u8> = Vec::new();
    let mut i: usize = 0;
    while i < HEADER_PAGE_ENTRY_KEY_SIZE
        invariant
            i <= HEADER_PAGE_ENTRY_KEY_SIZE,
            key@.len() == i,
            forall|k: int| 0 <= k < i ==> key@[k] == padded_key(name@)[k],
        decreases HEADER_PAGE_ENTRY_KEY_SIZE - i,
    {
        if i < name.len() {
            key.push(name[i]);
        } else {
            key.push(0u8);
        }
        i += 1;
    }
    assert(key@ =~= padded_key(name@));
    key
}

/// Whether the 32 bytes at `offset` are the name field of `name`.
fn key_matches(data: &[u8], offset: usize, name: &[u8]) -> (same: bool)
    requires
        offset + HEADER_PAGE_ENTRY_KEY_SIZE <= data@.len(),
        name@.len() <= HEADER_PAGE_ENTRY_KEY_SIZE,
    ensures
        same == (data@.subrange(offset as int, offset + 32) == padded_key(name@)),
{
    let len: usize = data.len();
    let mut i: usize = 0;
    while i < HEADER_PAGE_ENTRY_KEY_SIZE
        invariant
            i <= HEADER_PAGE_ENTRY_KEY_SIZE,
            len == data@.len(),
            offset + HEADER_PAGE_ENTRY_KEY_SIZE <= len,
            forall|k: int| 0 <= k < i ==> data@[offset + k] == padded_key(name@)[k],
        decreases HEADER_PAGE_ENTRY_KEY_SIZE - i,
    {
        let expected: u8 = if i < name.len() {
            name[i]
        } else {
            0u8
        };
        if data[offset + i] != expected {
            assert(data@.subrange(offset as int, offset + 32)[i as int] != padded_key(name@)[i as int]);
            return false;
        }
        i += 1;
    }
    assert(data@.subrange(offset as int, offset + 32) =~= padded_key(name@));
    true
}

/// Whether the 32 bytes at `first` and the 32 bytes at `second` are the same.
fn fields_equal(data: &[u8], first: usize, second: usize) -> (same: bool)
    requires
        first + HEADER_PAGE_ENTRY_KEY_SIZE <= data@.len(),
        second + HEADER_PAGE_ENTRY_KEY_SIZE <= data@.len(),
    ensures
        same == (data@.subrange(first as int, first + 32) == data@.subrange(
            second as int,
            second + 32,
        )),
{
    let len: usize = data.len();
    let mut i: usize = 0;
    while i < HEADER_PAGE_ENTRY_KEY_SIZE
        invariant
            i <= HEADER_PAGE_ENTRY_KEY_SIZE,
            len == data@.len(),
            first + HEADER_PAGE_ENTRY_KEY_SIZE <= len,
            second + HEADER_PAGE_ENTRY_KEY_SIZE <= len,
            forall|p: int|
                first <= p < first + i ==> #[trigger] data@[p] == data@[p - first + second],
        decreases HEADER_PAGE_ENTRY_KEY_SIZE - i,
    {
        if data[first + i] != data[second + i] {
            assert(data@.subrange(first as int, first + 32)[i as int] != data@.subrange(
                second as int,
                second + 32,
            )[i as int]);
            return false;
        }
        i += 1;
    }
    assert(data@.subrange(first as int, first + 32) =~= data@.subrange(second as int, second + 32));
    true
}

impl HeaderPage {
    /// The key under which `name` is stored and found: the name field that
    /// holds it. Names that differ only in zero bytes at their end fill
    /// the field alike and so share a key.
    pub open spec fn key_of(name: &str) -> Seq<u8> {
        padded_key(name.spec_bytes())
    }

    /// The directory is within the page's capacity and holds no key twice.
    pub open spec fn wf(&self) -> bool {
        &&& self@.len() <= HEADER_PAGE_CAPACITY
        &&& keys_unique(self@)
    }

    /// An empty directory in a zero-filled, clean page with the directory's page id.
    pub fn new() -> (page: Self)
        ensures
            page.wf(),
            page@ == Seq::<DirectoryEntry>::empty(),
            page.bytes() == zero_page(),
            page.id() == HEADER_PAGE_ID,
            page.pins() == 0,
            !page.dirty(),
    {
        let page = HeaderPage { base: BasePage::with_page_id(HEADER_PAGE_ID) };
        proof {
            lemma_be_value_zeros(page.bytes().subrange(0, 4));
            assert(page@ =~= Seq::<DirectoryEntry>::empty());
        }
        page
    }

    /// Adds the record `name` -> `root_id` behind the last record, unless
    /// the name is present already or the directory is full.
    pub fn insert_record(&mut self, name: &str, root_id: PageId) -> (inserted: bool)
        requires
            old(self).wf(),
            name.spec_bytes().len() < HEADER_PAGE_ENTRY_KEY_SIZE,
            root_id > INVALID_PAGE_ID,
        ensures
            final(self).wf(),
            inserted == (position(old(self)@, Self::key_of(name)) == -1 && old(self)@.len()
                < HEADER_PAGE_CAPACITY),
            inserted ==> final(self)@ == old(self)@.push(
                DirectoryEntry { key: Self::key_of(name), root_id },
            ) && final(self).dirty(),
            !inserted ==> *final(self) == *old(self),
            final(self).id() == old(self).id(),
            final(self).pins() == old(self).pins(),
    {
        if self.find(name) != -1 {
            return false;
        }
        let num = self.record_count();
        if num as usize >= HEADER_PAGE_CAPACITY {
            return false;
        }
        let offset = HEADER_PAGE_COUNT_SIZE + num as usize * HEADER_PAGE_ENTRY_SIZE;
        let key = make_key(name.as_bytes());
        proof {
            self.lemma_page_size();
            lemma_byte_range_values();
        }
        let ghost b0 = self.bytes();
        put_slice_at(self.data_mut(), offset, key.as_slice());
        let ghost b1 = self.bytes();
        put_i32_at(self.data_mut(), offset + HEADER_PAGE_ENTRY_KEY_SIZE, root_id);
        let ghost b2 = self.bytes();
        self.set_record_count(num + 1);
        proof {
            let b3 = self.bytes();
            let entry = DirectoryEntry { key: Self::key_of(name), root_id };
            let root_bytes = be_bytes(to_unsigned(root_id as int, 4), 4);
            lemma_signed_round_trip(root_id as int, 4);
            lemma_be_value_of_bytes(to_unsigned(root_id as int, 4), 4);
            lemma_be_value_of_bytes((num + 1) as nat, 4);
            assert(b3.subrange(0, 4) =~= be_bytes((num + 1) as nat, 4));
            assert(stored_count(b3) == num + 1);
            assert(b3.subrange(offset as int, offset + 32) =~= key@);
            assert(b3.subrange(offset + 32, offset + 36) =~= root_bytes);
            assert(stored_entry(b3, num as int) == entry);
            assert forall|i: int| 0 <= i < num implies stored_entry(b3, i) == stored_entry(
                b0,
                i,
            ) by {
                let at = entry_offset(i);
                assert(b3.subrange(at, at + 32) =~= b0.subrange(at, at + 32));
                assert(b3.subrange(at + 32, at + 36) =~= b0.subrange(at + 32, at + 36));
            }
            assert(stored_entries(b3) =~= stored_entries(b0).push(entry));
            lemma_position(stored_entries(b0), Self::key_of(name));
        }
        true
    }

    /// Removes the record of `name` and closes the gap: every later record
    /// moves one place towards the front.
    pub fn delete_record(&mut self, name: &str) -> (deleted: bool)
        requires
            old(self).wf(),
            name.spec_bytes().len() < HEADER_PAGE_ENTRY_KEY_SIZE,
        ensures
            final(self).wf(),
            deleted == (position(old(self)@, Self::key_of(name)) >= 0),
            deleted ==> final(self)@ == old(self)@.remove(position(old(self)@, Self::key_of(name)))
                && final(self).dirty(),
            !deleted ==> *final(self) == *old(self),
            final(self).id() == old(self).id(),
            final(self).pins() == old(self).pins(),
    {
        let idx = self.find(name);
        if idx == -1 {
            return false;
        }
        proof {
            lemma_position(self@, Self::key_of(name));
            self.lemma_page_size();
            lemma_byte_range_values();
        }
        let count = self.record_count();
        let offset = HEADER_PAGE_COUNT_SIZE + idx as usize * HEADER_PAGE_ENTRY_SIZE;
        let n = (count as usize - idx as usize - 1) * HEADER_PAGE_ENTRY_SIZE;
        let ghost b0 = self.bytes();
        memmove(self.data_mut(), offset, offset + HEADER_PAGE_ENTRY_SIZE, n);
        let ghost b1 = self.bytes();
        self.set_record_count(count - 1);
        proof {
            let b2 = self.bytes();
            lemma_be_value_of_bytes((count - 1) as nat, 4);
            assert(b2.subrange(0, 4) =~= be_bytes((count - 1) as nat, 4));
            assert(stored_count(b2) == count - 1);
            assert forall|i: int| 0 <= i < count - 1 implies stored_entry(b2, i) == (if i < idx {
                stored_entry(b0, i)
            } else {
                stored_entry(b0, i + 1)
            }) by {
                let at = entry_offset(i);
                if i < idx {
                    assert(b2.subrange(at, at + 32) =~= b0.subrange(at, at + 32));
                    assert(b2.subrange(at + 32, at + 36) =~= b0.subrange(at + 32, at + 36));
                } else {
                    assert(b2.subrange(at, at + 32) =~= b0.subrange(at + 36, at + 68));
                    assert(b2.subrange(at + 32, at + 36) =~= b0.subrange(at + 68, at + 72));
                }
            }
            assert(stored_entries(b2) =~= stored_entries(b0).remove(idx as int));
        }
        true
    }

    /// Replaces the root page id in the record of `name`; only the four
    /// bytes of that field change.
    pub fn update_record(&mut self, name: &str, root_id: PageId) -> (updated: bool)
        requires
            old(self).wf(),
            name.spec_bytes().len() < HEADER_PAGE_ENTRY_KEY_SIZE,
        ensures
            final(self).wf(),
            updated == (position(old(self)@, Self::key_of(name)) >= 0),
            updated ==> {
                let at = position(old(self)@, Self::key_of(name));
                &&& final(self)@ == old(self)@.update(
                    at,
                    DirectoryEntry { key: Self::key_of(name), root_id },
                )
                &&& final(self).bytes() == splice(
                    old(self).bytes(),
                    entry_offset(at) + 32,
                    be_bytes(to_unsigned(root_id as int, 4), 4),
                )
                &&& final(self).dirty()
            },
            !updated ==> *final(self) == *old(self),
            final(self).id() == old(self).id(),
            final(self).pins() == old(self).pins(),
    {
        let idx = self.find(name);
        if idx == -1 {
            return false;
        }
        proof {
            lemma_position(self@, Self::key_of(name));
            self.lemma_page_size();
            lemma_byte_range_values();
        }
        let offset = idx as usize * HEADER_PAGE_ENTRY_SIZE + HEADER_PAGE_COUNT_SIZE
            + HEADER_PAGE_ENTRY_KEY_SIZE;
        let ghost b0 = self.bytes();
        put_i32_at(self.data_mut(), offset, root_id);
        proof {
            let b1 = self.bytes();
            let entry = DirectoryEntry { key: Self::key_of(name), root_id };
            let root_bytes = be_bytes(to_unsigned(root_id as int, 4), 4);
            lemma_signed_round_trip(root_id as int, 4);
            lemma_be_value_of_bytes(to_unsigned(root_id as int, 4), 4);
            assert(b1.subrange(0, 4) =~= b0.subrange(0, 4));
            assert forall|i: int| 0 <= i < stored_count(b0) implies stored_entry(b1, i) == (if i
                == idx {
                entry
            } else {
                stored_entry(b0, i)
            }) by {
                let at = entry_offset(i);
                assert(b1.subrange(at, at + 32) =~= b0.subrange(at, at + 32));
                if i == idx {
                    assert(b1.subrange(at + 32, at + 36) =~= root_bytes);
                } else {
                    assert(b1.subrange(at + 32, at + 36) =~= b0.subrange(at + 32, at + 36));
                }
            }
            assert(stored_entries(b1) =~= stored_entries(b0).update(idx as int, entry));
        }
        true
    }

    /// The root page id stored for `name`, or the invalid page id where the
    /// directory has no such record.
    pub fn root_id(&self, name: &str) -> (id: PageId)
        requires
            self.wf(),
            name.spec_bytes().len() < HEADER_PAGE_ENTRY_KEY_SIZE,
        ensures
            id == root_of(self@, Self::key_of(name)),
    {
        let idx = self.find(name);
        if idx == -1 {
            return INVALID_PAGE_ID;
        }
        proof {
            lemma_position(self@, Self::key_of(name));
            self.lemma_page_size();
            lemma_byte_range_values();
            let at = entry_offset(idx as int);
            lemma_be_bytes_of_value(self.bytes().subrange(at + 32, at + 36));
        }
        get_i32_at(self.data(), (idx as usize + 1) * HEADER_PAGE_ENTRY_SIZE)
    }

    /// `insert_record` for callers that cannot vouch for their arguments:
    /// a name of 32 bytes or more and a root page id that is not above the
    /// invalid page id are refused, and the page stays as it is.
    pub fn try_insert_record(&mut self, name: &str, root_id: PageId) -> (r: Result<
        bool,
        RustubError,
    >)
        requires
            old(self).wf(),
        ensures
            final(self).wf(),
            name.spec_bytes().len() >= HEADER_PAGE_ENTRY_KEY_SIZE ==> r == Err::<
                bool,
                RustubError,
            >(RustubError::ContractViolation(Violation::KeyTooLong)),
            name.spec_bytes().len() < HEADER_PAGE_ENTRY_KEY_SIZE && root_id <= INVALID_PAGE_ID
                ==> r == Err::<bool, RustubError>(
                RustubError::ContractViolation(Violation::InvalidRootId),
            ),
            name.spec_bytes().len() < HEADER_PAGE_ENTRY_KEY_SIZE && root_id > INVALID_PAGE_ID
                ==> r == Ok::<bool, RustubError>(
                position(old(self)@, Self::key_of(name)) == -1 && old(self)@.len()
                    < HEADER_PAGE_CAPACITY,
            ),
            r == Ok::<bool, RustubError>(true) ==> final(self)@ == old(self)@.push(
                DirectoryEntry { key: Self::key_of(name), root_id },
            ) && final(self).dirty(),
            r != Ok::<bool, RustubError>(true) ==> *final(self) == *old(self),
            final(self).id() == old(self).id(),
            final(self).pins() == old(self).pins(),
    {
        if name.as_bytes().len() >= HEADER_PAGE_ENTRY_KEY_SIZE {
            return Err(RustubError::ContractViolation(Violation::KeyTooLong));
        }
        if root_id <= INVALID_PAGE_ID {
            return Err(RustubError::ContractViolation(Violation::InvalidRootId));
        }
        Ok(self.insert_record(name, root_id))
    }

    /// `delete_record` for callers that cannot vouch for the name: a name
    /// of 32 bytes or more is refused.
    pub fn try_delete_record(&mut self, name: &str) -> (r: Result<bool, RustubError>)
        requires
            old(self).wf(),
        ensures
            final(self).wf(),
            name.spec_bytes().len() >= HEADER_PAGE_ENTRY_KEY_SIZE ==> r == Err::<
                bool,
                RustubError,
            >(RustubError::ContractViolation(Violation::KeyTooLong)),
            name.spec_bytes().len() < HEADER_PAGE_ENTRY_KEY_SIZE ==> r == Ok::<bool, RustubError>(
                position(old(self)@, Self::key_of(name)) >= 0,
            ),
            r == Ok::<bool, RustubError>(true) ==> final(self)@ == old(self)@.remove(
                position(old(self)@, Self::key_of(name)),
            ) && final(self).dirty(),
            r != Ok::<bool, RustubError>(true) ==> *final(self) == *old(self),
            final(self).id() == old(self).id(),
            final(self).pins() == old(self).pins(),
    {
        if name.as_bytes().len() >= HEADER_PAGE_ENTRY_KEY_SIZE {
            return Err(RustubError::ContractViolation(Violation::KeyTooLong));
        }
        Ok(self.delete_record(name))
    }

    /// `update_record` for callers that cannot vouch for the name: a name
    /// of 32 bytes or more is refused.
    pub fn try_update_record(&mut self, name: &str, root_id: PageId) -> (r: Result<
        bool,
        RustubError,
    >)
        requires
            old(self).wf(),
        ensures
            final(self).wf(),
            name.spec_bytes().len() >= HEADER_PAGE_ENTRY_KEY_SIZE ==> r == Err::<
                bool,
                RustubError,
            >(RustubError::ContractViolation(Violation::KeyTooLong)),
            name.spec_bytes().len() < HEADER_PAGE_ENTRY_KEY_SIZE ==> r == Ok::<bool, RustubError>(
                position(old(self)@, Self::key_of(name)) >= 0,
            ),
            r == Ok::<bool, RustubError>(true) ==> final(self)@ == old(self)@.update(
                position(old(self)@, Self::key_of(name)),
                DirectoryEntry { key: Self::key_of(name), root_id },
            ) && final(self).dirty(),
            r != Ok::<bool, RustubError>(true) ==> *final(self) == *old(self),
            final(self).id() == old(self).id(),
            final(self).pins() == old(self).pins(),
    {
        if name.as_bytes().len() >= HEADER_PAGE_ENTRY_KEY_SIZE {
            return Err(RustubError::ContractViolation(Violation::KeyTooLong));
        }
        Ok(self.update_record(name, root_id))
    }

    /// `root_id` for callers that cannot vouch for the name: a name of 32
    /// bytes or more is refused.
    pub fn try_root_id(&self, name: &str) -> (r: Result<PageId, RustubError>)
        requires
            self.wf(),
        ensures
            name.spec_bytes().len() >= HEADER_PAGE_ENTRY_KEY_SIZE ==> r == Err::<
                PageId,
                RustubError,
            >(RustubError::ContractViolation(Violation::KeyTooLong)),
            name.spec_bytes().len() < HEADER_PAGE_ENTRY_KEY_SIZE ==> r == Ok::<
                PageId,
                RustubError,
            >(root_of(self@, Self::key_of(name))),
    {
        if name.as_bytes().len() >= HEADER_PAGE_ENTRY_KEY_SIZE {
            return Err(RustubError::ContractViolation(Violation::KeyTooLong));
        }
        Ok(self.root_id(name))
    }

    /// Whether the bytes of the page form a directory: as many records as
    /// fit, no key twice. A page that was filled through `data_mut` is to
    /// be asked before it is used.
    pub fn is_valid(&self) -> (valid: bool)
        ensures
            valid == self.wf(),
    {
        let count = self.record_count();
        if count as usize > HEADER_PAGE_CAPACITY {
            return false;
        }
        proof {
            self.lemma_page_size();
        }
        let data = self.data();
        let mut i: usize = 0;
        while i < count as usize
            invariant
                i <= count,
                count == self@.len(),
                count <= HEADER_PAGE_CAPACITY,
                data@ == self.bytes(),
                data@.len() == PAGE_SIZE,
                forall|a: int, b: int|
                    0 <= a < b < count && a < i ==> (#[trigger] self@[a]).key != (
                    #[trigger] self@[b]).key,
            decreases count - i,
        {
            let mut j: usize = i + 1;
            while j < count as usize
                invariant
                    i < j <= count,
                    count == self@.len(),
                    count <= HEADER_PAGE_CAPACITY,
                    data@ == self.bytes(),
                    data@.len() == PAGE_SIZE,
                    forall|b: int| i < b < j ==> self@[i as int].key != (#[trigger] self@[b]).key,
                decreases count - j,
            {
                let same = fields_equal(
                    data,
                    HEADER_PAGE_COUNT_SIZE + i * HEADER_PAGE_ENTRY_SIZE,
                    HEADER_PAGE_COUNT_SIZE + j * HEADER_PAGE_ENTRY_SIZE,
                );
                proof {
                    assert(self@[i as int] == stored_entry(self.bytes(), i as int));
                    assert(self@[j as int] == stored_entry(self.bytes(), j as int));
                }
                if same {
                    return false;
                }
                j += 1;
            }
            i += 1;
        }
        true
    }

    /// The number of records in the directory.
    pub fn record_count(&self) -> (count: u32)
        ensures
            count == self@.len(),
    {
        proof {
            self.lemma_page_size();
        }
        get_u32_at(self.data(), 0)
    }

    /// The index of the record of `name`, or -1.
    pub fn find(&self, name: &str) -> (index: i32)
        requires
            self.wf(),
            name.spec_bytes().len() < HEADER_PAGE_ENTRY_KEY_SIZE,
        ensures
            index == position(self@, Self::key_of(name)),
    {
        let count = self.record_count();
        let key = name.as_bytes();
        proof {
            self.lemma_page_size();
        }
        let mut i: u32 = 0;
        while i < count
            invariant
                i <= count,
                count == self@.len(),
                count <= HEADER_PAGE_CAPACITY,
                self.bytes().len() == PAGE_SIZE,
                key@ == name.spec_bytes(),
                key@.len() < HEADER_PAGE_ENTRY_KEY_SIZE,
                position(self@.take(i as int), Self::key_of(name)) == -1,
            decreases count - i,
        {
            let offset = HEADER_PAGE_COUNT_SIZE + i as usize * HEADER_PAGE_ENTRY_SIZE;
            let found = key_matches(self.data(), offset, key);
            proof {
                let prefix = self@.take(i + 1);
                assert(prefix.drop_last() =~= self@.take(i as int));
                assert(prefix.last() == stored_entry(self.bytes(), i as int));
                assert(found == (prefix.last().key == Self::key_of(name)));
                if found {
                    lemma_position_of_prefix(self@, Self::key_of(name), i + 1);
                }
            }
            if found {
                return i as i32;
            }
            i += 1;
        }
        proof {
            assert(self@.take(count as int) =~= self@);
        }
        -1
    }

    fn set_record_count(&mut self, count: u32)
        ensures
            final(self).bytes() == splice(old(self).bytes(), 0, be_bytes(count as nat, 4)),
            final(self).id() == old(self).id(),
            final(self).pins() == old(self).pins(),
            final(self).dirty(),
    {
        proof {
            self.lemma_page_size();
        }
        put_u32_at(self.data_mut(), 0, count)
    }
}

/// A key found in the first `n` records is found at the same place in the
/// whole directory.
pub proof fn lemma_position_of_prefix(entries: Seq<DirectoryEntry>, key: Seq<u8>, n: int)
    requires
        0 <= n <= entries.len(),
        position(entries.take(n), key) >= 0,
    ensures
        position(entries, key) == position(entries.take(n), key),
    decreases entries.len() - n,
{
    if n < entries.len() {
        assert(entries.take(n + 1).drop_last() =~= entries.take(n));
        lemma_position_of_prefix(entries, key, n + 1);
    } else {
        assert(entries.take(n) =~= entries);
    }
}

/// A key is found where the first record that holds it stands.
pub proof fn lemma_position_is(entries: Seq<DirectoryEntry>, key: Seq<u8>, at: int)
    requires
        0 <= at < entries.len(),
        entries[at].key == key,
        forall|i: int| 0 <= i < at ==> (#[trigger] entries[i]).key != key,
    ensures
        position(entries, key) == at,
{
    lemma_position(entries, key);
}

/// A key that no record holds is not found.
pub proof fn lemma_position_absent(entries: Seq<DirectoryEntry>, key: Seq<u8>)
    requires
        forall|i: int| 0 <= i < entries.len() ==> (#[trigger] entries[i]).key != key,
    ensures
        position(entries, key) == -1,
{
    lemma_position(entries, key);
}

/// Appending a record under a new key makes that key resolve to the new
/// root and leaves every other key as it was.
pub proof fn lemma_insert_lookup(
    entries: Seq<DirectoryEntry>,
    key: Seq<u8>,
    root_id: PageId,
    other: Seq<u8>,
)
    requires
        position(entries, key) == -1,
    ensures
        entries.push(DirectoryEntry { key, root_id }).len() == entries.len() + 1,
        root_of(entries.push(DirectoryEntry { key, root_id }), other) == (if other == key {
            root_id
        } else {
            root_of(entries, other)
        }),
{
    let after = entries.push(DirectoryEntry { key, root_id });
    assert(after.drop_last() =~= entries);
    lemma_position(entries, other);
}

/// Removing the record of a key makes that key unknown, keeps the root of
/// every other key, and keeps the remaining records in their order.
pub proof fn lemma_delete_lookup(entries: Seq<DirectoryEntry>, key: Seq<u8>, other: Seq<u8>)
    requires
        keys_unique(entries),
        position(entries, key) >= 0,
    ensures
        entries.remove(position(entries, key)).len() == entries.len() - 1,
        keys_unique(entries.remove(position(entries, key))),
        position(entries.remove(position(entries, key)), key) == -1,
        root_of(entries.remove(position(entries, key)), other) == (if other == key {
            INVALID_PAGE_ID
        } else {
            root_of(entries, other)
        }),
        forall|i: int|
            0 <= i < entries.len() - 1 ==> #[trigger] entries.remove(position(entries, key))[i]
                == (if i < position(entries, key) {
                entries[i]
            } else {
                entries[i + 1]
            }),
{
    let at = position(entries, key);
    let after = entries.remove(at);
    lemma_position(entries, key);
    lemma_position(entries, other);
    lemma_position(after, other);
    assert forall|i: int| 0 <= i < after.len() implies (#[trigger] after[i]).key != key by {
        if i < at {
            assert(after[i] == entries[i]);
        } else {
            assert(after[i] == entries[i + 1]);
        }
    }
    lemma_position_absent(after, key);
    if other != key {
        let p = position(entries, other);
        let q = position(after, other);
        if p >= 0 {
            let shifted = if p < at {
                p
            } else {
                p - 1
            };
            assert(after[shifted] == entries[p]);
            assert forall|i: int| 0 <= i < shifted implies (#[trigger] after[i]).key != other by {
                if i < at {
                    assert(after[i] == entries[i]);
                } else {
                    assert(after[i] == entries[i + 1]);
                }
            }
            lemma_position_is(after, other, shifted);
        } else {
            if q >= 0 {
                if q < at {
                    assert(after[q] == entries[q]);
                } else {
                    assert(after[q] == entries[q + 1]);
                }
            }
        }
    }
}

/// Replacing the root of a key changes what that key resolves to and
/// nothing else: the number of records, their keys and the roots of all
/// other keys stay.
pub proof fn lemma_update_lookup(
    entries: Seq<DirectoryEntry>,
    key: Seq<u8>,
    root_id: PageId,
    other: Seq<u8>,
)
    requires
        position(entries, key) >= 0,
    ensures
        entries.update(position(entries, key), DirectoryEntry { key, root_id }).len()
            == entries.len(),
        position(entries.update(position(entries, key), DirectoryEntry { key, root_id }), other)
            == position(entries, other),
        root_of(entries.update(position(entries, key), DirectoryEntry { key, root_id }), other)
            == (if other == key {
            root_id
        } else {
            root_of(entries, other)
        }),
{
    let at = position(entries, key);
    let after = entries.update(at, DirectoryEntry { key, root_id });
    lemma_position(entries, key);
    lemma_position(entries, other);
    let p = position(entries, other);
    if p >= 0 {
        assert forall|i: int| 0 <= i < p implies (#[trigger] after[i]).key != other by {
            assert(after[i].key == entries[i].key);
        }
        lemma_position_is(after, other, p);
    } else {
        assert forall|i: int| 0 <= i < after.len() implies (#[trigger] after[i]).key != other by {
            assert(after[i].key == entries[i].key);
        }
        lemma_position_absent(after, other);
    }
}

impl Page for HeaderPage {
    closed spec fn bytes(&self) -> Seq<u8> {
        self.base.bytes()
    }

    closed spec fn id(&self) -> PageId {
        self.base.id()
    }

    closed spec fn dirty(&self) -> bool {
        self.base.dirty()
    }

    closed spec fn pins(&self) -> nat {
        self.base.pins()
    }

    proof fn lemma_page_size(&self) {
        self.base.lemma_page_size();
    }

    fn data(&self) -> (r: &[u8]) {
        self.base.data()
    }

    fn data_mut(&mut self) -> (r: &mut [u8]) {
        self.base.data_mut()
    }

    fn page_id(&self) -> (r: PageId) {
        self.base.page_id()
    }

    fn is_dirty(&self) -> (r: bool) {
        self.base.is_dirty()
    }

    fn pin_count(&self) -> (r: usize) {
        self.base.pin_count()
    }
}

} // verus!
