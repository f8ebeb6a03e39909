use crate::common::codec::{put_slice_at, splice};
use crate::common::config::{PageId, PAGE_SIZE};
use crate::common::error::{RustubError, Violation};
use vstd::prelude::*;
use vstd::string::{StrSliceExecFns, StringExecFns};

verus! {

/// What a disk manager holds: the bytes of the data file and of the log
/// file, and the counters that it keeps for observers.
pub struct DiskView {
    /// The content of the data file; page `n` is at `n * PAGE_SIZE`.
    pub data: Seq<u8>,
    /// The content of the log file.
    pub log: Seq<u8>,
    /// How many log writes were flushed.
    pub num_flushes: u32,
    /// How many page writes reached the data file.
    pub num_writes: u32,
    /// Whether a log write was flushed.
    pub flushed: bool,
}

/// `n` zero bytes.
pub open spec fn zeros(n: nat) -> Seq<u8> {
    Seq::new(n, |i: int| 0u8)
}

/// Where page `pid` starts in the data file.
pub open spec fn page_offset(pid: PageId) -> int {
    pid * 4096
}

/// The file after `bytes` are written at `offset`. A write that starts
/// behind the end of the file leaves zeros in the gap.
pub open spec fn file_write(file: Seq<u8>, offset: int, bytes: Seq<u8>) -> Seq<u8> {
    Seq::new(
        if file.len() >= offset + bytes.len() {
            file.len()
        } else {
            (offset + bytes.len()) as nat
        },
        |i: int|
            if offset <= i < offset + bytes.len() {
                bytes[i - offset]
            } else if i < file.len() {
                file[i]
            } else {
                0u8
            },
    )
}

/// What a read of `len` bytes at `offset` yields: the bytes of the file as
/// far as it reaches, and zeros for the rest.
pub open spec fn file_read(file: Seq<u8>, offset: int, len: nat) -> Seq<u8> {
    Seq::new(
        len,
        |i: int|
            if offset + i < file.len() {
                file[offset + i]
            } else {
                0u8
            },
    )
}

/// A counter one step on; it stays at its largest value.
pub open spec fn bump(n: u32) -> u32 {
    if n < u32::MAX {
        (n + 1) as u32
    } else {
        n
    }
}

/// Whether a buffer of `len` bytes can take a page read.
pub open spec fn readable_len(len: nat) -> bool {
    1 <= len <= PAGE_SIZE
}

/// What was written at an offset is what a read of the same length at that
/// offset yields. For a page: `write_page(p, b)` followed by `read_page(p, ..)`
/// gives `b` back.
pub proof fn lemma_write_then_read(file: Seq<u8>, offset: int, bytes: Seq<u8>)
    requires
        0 <= offset,
    ensures
        file_read(file_write(file, offset, bytes), offset, bytes.len()) == bytes,
{
    assert(file_read(file_write(file, offset, bytes), offset, bytes.len()) =~= bytes);
}

/// A read that starts at or behind the end of the file yields zeros only.
pub proof fn lemma_read_past_end(file: Seq<u8>, offset: int, len: nat)
    requires
        offset >= file.len(),
    ensures
        file_read(file, offset, len) == zeros(len),
{
    assert(file_read(file, offset, len) =~= zeros(len));
}

/// A reader that stopped because its buffer was full or the file had
/// ended, with the bytes of the file in the part that it filled, has the
/// result of the read once the rest of the buffer is zero.
pub proof fn lemma_short_read(file: Seq<u8>, offset: int, buffer: Seq<u8>, filled: int)
    requires
        0 <= offset,
        0 <= filled <= buffer.len(),
        offset + filled <= file.len(),
        buffer.subrange(0, filled) == file.subrange(offset, offset + filled),
        filled == buffer.len() || offset + filled == file.len(),
    ensures
        buffer.subrange(0, filled) + zeros((buffer.len() - filled) as nat) == file_read(
            file,
            offset,
            buffer.len(),
        ),
{
    let result = buffer.subrange(0, filled) + zeros((buffer.len() - filled) as nat);
    assert forall|i: int| 0 <= i < buffer.len() implies result[i] == file_read(
        file,
        offset,
        buffer.len(),
    )[i] by {
        if i < filled {
            assert(buffer.subrange(0, filled)[i] == file.subrange(offset, offset + filled)[i]);
        }
    }
    assert(result =~= file_read(file, offset, buffer.len()));
}

/// A page write changes what a read of another page yields in no way.
pub proof fn lemma_write_keeps_other_pages(file: Seq<u8>, written: PageId, read: PageId, page: Seq<u8>, len: nat)
    requires
        written >= 0,
        read >= 0,
        written != read,
        page.len() == PAGE_SIZE,
        len <= PAGE_SIZE,
    ensures
        file_read(file_write(file, page_offset(written), page), page_offset(read), len)
            == file_read(file, page_offset(read), len),
{
    assert(file_read(file_write(file, page_offset(written), page), page_offset(read), len)
        =~= file_read(file, page_offset(read), len));
}

/// What was appended to the log is read back at the offset where the log
/// ended before.
pub proof fn lemma_append_then_read(log: Seq<u8>, bytes: Seq<u8>)
    ensures
        file_read(log + bytes, log.len() as int, bytes.len()) == bytes,
{
    assert(file_read(log + bytes, log.len() as int, bytes.len()) =~= bytes);
}

/// An append changes nothing of what the log held.
pub proof fn lemma_append_keeps_log(log: Seq<u8>, bytes: Seq<u8>, offset: int, len: nat)
    requires
        0 <= offset,
        offset + len <= log.len(),
    ensures
        file_read(log + bytes, offset, len) == file_read(log, offset, len),
{
    assert(file_read(log + bytes, offset, len) =~= file_read(log, offset, len));
}

/// DiskManager takes care of the allocation and deallocation of pages within a database. It performs
/// the reading and writing of pages to and from disk, providing a logical file layer within the
/// context of a DBMS.
pub trait DiskManager {
    /// The files and counters of the manager. The clauses below are
    /// proved of `InMemDiskManager` only. A manager whose files are files
    /// of a file system cannot say what they hold and keeps this body; the
    /// clauses are then claims that nothing has checked.
    open spec fn state(&self) -> DiskView {
        arbitrary()
    }

    /// Write a page to the database file. The page is visible to the next
    /// read when the call returns. A buffer that is not one page long, and a
    /// negative page id, are refused; any other error is a failure of the
    /// device, which leaves the log and the counters as they were.
    fn write_page(&mut self, pid: PageId, data: &[u8]) -> (r: Result<(), RustubError>)
        ensures
            data@.len() != PAGE_SIZE ==> r == Err::<(), RustubError>(
                RustubError::ContractViolation(Violation::BufferLength),
            ),
            data@.len() == PAGE_SIZE && pid < 0 ==> r == Err::<(), RustubError>(
                RustubError::ContractViolation(Violation::InvalidPageId),
            ),
            data@.len() == PAGE_SIZE && pid >= 0 ==> !(r matches Err(
                RustubError::ContractViolation(_),
            )),
            r is Ok ==> final(self).state() == (DiskView {
                data: file_write(old(self).state().data, page_offset(pid), data@),
                num_writes: bump(old(self).state().num_writes),
                ..old(self).state()
            }),
            r matches Err(RustubError::ContractViolation(_)) ==> final(self).state() == old(
                self,
            ).state(),
            r is Err ==> final(self).state() == (DiskView {
                data: final(self).state().data,
                ..old(self).state()
            }),
    ;

    /// Read a page of the database file into `data`, a buffer of 1 to
    /// `PAGE_SIZE` bytes. What the file does not hold reads as zeros. A
    /// buffer of another length, and a negative page id, are refused and
    /// leave the buffer as it was; on a failure of the device the buffer is
    /// zero-filled.
    fn read_page(&mut self, pid: PageId, data: &mut [u8]) -> (r: Result<(), RustubError>)
        ensures
            final(data)@.len() == old(data)@.len(),
            final(self).state() == old(self).state(),
            !readable_len(old(data)@.len()) ==> r == Err::<(), RustubError>(
                RustubError::ContractViolation(Violation::BufferLength),
            ),
            readable_len(old(data)@.len()) && pid < 0 ==> r == Err::<(), RustubError>(
                RustubError::ContractViolation(Violation::InvalidPageId),
            ),
            readable_len(old(data)@.len()) && pid >= 0 ==> !(r matches Err(
                RustubError::ContractViolation(_),
            )),
            r is Ok ==> final(data)@ == file_read(
                old(self).state().data,
                page_offset(pid),
                old(data)@.len(),
            ),
            r matches Err(RustubError::ContractViolation(_)) ==> final(data)@ == old(data)@,
            r is Err && !(r matches Err(RustubError::ContractViolation(_))) ==> final(data)@
                == zeros(old(data)@.len()),
    ;

    /// Append `data` to the log and flush it. Empty input is a no-op. A
    /// failure of the device leaves the data file and the counters as they
    /// were.
    fn write_log(&mut self, data: &[u8]) -> (r: Result<(), RustubError>)
        ensures
            data@.len() == 0 ==> r is Ok && final(self).state() == old(self).state(),
            data@.len() > 0 && r is Ok ==> final(self).state() == (DiskView {
                log: old(self).state().log + data@,
                num_flushes: bump(old(self).state().num_flushes),
                flushed: true,
                ..old(self).state()
            }),
            r is Err ==> final(self).state() == (DiskView {
                log: final(self).state().log,
                ..old(self).state()
            }),
    ;

    /// Read from the log at `offset` into `data`. Returns false, and leaves
    /// the buffer alone, where the log ends at or before `offset`. What the
    /// log does not hold behind `offset` reads as zeros.
    fn read_log(&mut self, data: &mut [u8], offset: u32) -> (r: bool)
        ensures
            final(data)@.len() == old(data)@.len(),
            final(self).state() == old(self).state(),
            offset >= old(self).state().log.len() ==> !r && final(data)@ == old(data)@,
            r ==> final(data)@ == file_read(
                old(self).state().log,
                offset as int,
                old(data)@.len(),
            ),
    ;

    fn num_flushes(&self) -> (n: u32)
        ensures
            n == self.state().num_flushes,
    ;

    fn is_flushed(&self) -> (flushed: bool)
        ensures
            flushed == self.state().flushed,
    ;

    fn num_writes(&self) -> (n: u32)
        ensures
            n == self.state().num_writes,
    ;
}

/// The byte offset at which page `pid` starts in the data file.
pub fn offset_of_page(pid: PageId) -> (offset: u64)
    requires
        pid >= 0,
    ensures
        offset == page_offset(pid),
        offset + PAGE_SIZE <= u64::MAX,
{
    pid as u64 * 4096
}

/// Sets the bytes of `data` from `from` on to zero.
pub fn zero_fill(data: &mut [u8], from: usize)
    requires
        from <= old(data)@.len(),
    ensures
        final(data)@ == old(data)@.subrange(0, from as int) + zeros(
            (old(data)@.len() - from) as nat,
        ),
{
    let len: usize = data.len();
    let mut i: usize = from;
    while i < len
        invariant
            from <= i <= len,
            len == data@.len(),
            data@.len() == old(data)@.len(),
            forall|k: int| 0 <= k < from ==> data@[k] == old(data)@[k],
            forall|k: int| from <= k < i ==> data@[k] == 0u8,
        decreases len - i,
    {
        data[i] = 0u8;
        i += 1;
    }
    assert(data@ =~= old(data)@.subrange(0, from as int) + zeros((old(data)@.len() - from) as nat));
}

/// Fills `out` with what a read at `offset` of `file` yields.
fn read_at(file: &[u8], offset: u64, out: &mut [u8])
    ensures
        final(out)@ == file_read(file@, offset as int, old(out)@.len()),
{
    let len: usize = out.len();
    let size: usize = file.len();
    let mut i: usize = 0;
    while i < len
        invariant
            i <= len,
            len == out@.len(),
            size == file@.len(),
            forall|k: int| 0 <= k < i ==> out@[k] == file_read(file@, offset as int, len as nat)[k],
        decreases len - i,
    {
        let byte: u8 = if offset < size as u64 && (i as u64) < size as u64 - offset {
            file[offset as usize + i]
        } else {
            0u8
        };
        out[i] = byte;
        i += 1;
    }
    assert(out@ =~= file_read(file@, offset as int, old(out)@.len()));
}

/// Index of the last `c` in a text, or -1 where it has none.
pub open spec fn last_index_of(text: Seq<char>, c: char) -> int
    decreases text.len(),
{
    if text.len() == 0 {
        -1
    } else if text.last() == c {
        text.len() - 1
    } else {
        last_index_of(text.drop_last(), c)
    }
}

/// Where the base name of a path starts: behind its last `/`, or at the
/// start of a path that has none.
pub open spec fn base_name_start(path: Seq<char>) -> int {
    last_index_of(path, '/') + 1
}

/// Where the extension of a path starts, counted from the start of the
/// path: at the last `.` of its base name. A `.` that begins the base
/// name begins no extension, so a dot-file such as `.db` has none, and a
/// `.` in a directory name does not count. -1 where there is no extension.
pub open spec fn extension_start(path: Seq<char>) -> int {
    let base = base_name_start(path);
    let dot = last_index_of(path.skip(base), '.');
    if dot > 0 {
        base + dot
    } else {
        -1
    }
}

/// The name of the log file that belongs to a data file: the path of the
/// data file with the extension of its base name replaced by `.log`, or
/// with `.log` behind it where the base name has no extension. So
/// `dir.v1/data` gives `dir.v1/data.log`, `test.db` gives `test.log`, and
/// the dot-file `.db` gives `.db.log`.
pub open spec fn log_name_of(db_file: Seq<char>) -> Seq<char> {
    (if extension_start(db_file) >= 0 {
        db_file.take(extension_start(db_file))
    } else {
        db_file
    }) + ".log"@
}

/// A `c` behind which no other `c` follows is the last one.
proof fn lemma_last_index_of(text: Seq<char>, c: char, at: int)
    requires
        -1 <= at < text.len(),
        at >= 0 ==> text[at] == c,
        forall|k: int| at < k < text.len() ==> text[k] != c,
    ensures
        last_index_of(text, c) == at,
    decreases text.len(),
{
    if text.len() > 0 && at < text.len() - 1 {
        lemma_last_index_of(text.drop_last(), c, at);
    }
}

/// The index of the last `c` at or behind `from` in a text, counted from
/// `from`; -1 where there is none.
fn find_last(text: &str, from: usize, c: char) -> (index: Option<usize>)
    requires
        from <= text@.len(),
    ensures
        match index {
            Some(at) => at == last_index_of(text@.skip(from as int), c) && from + at
                < text@.len() <= usize::MAX,
            None => last_index_of(text@.skip(from as int), c) == -1,
        },
{
    let len: usize = text.unicode_len();
    let ghost tail = text@.skip(from as int);
    let mut i: usize = len;
    while i > from
        invariant
            from <= i <= len,
            len == text@.len(),
            tail == text@.skip(from as int),
            forall|k: int| i - from <= k < tail.len() ==> tail[k] != c,
        decreases i,
    {
        if text.get_char(i - 1) == c {
            proof {
                lemma_last_index_of(tail, c, i - 1 - from);
            }
            return Some(i - 1 - from);
        }
        i -= 1;
    }
    proof {
        lemma_last_index_of(tail, c, -1);
    }
    None
}

/// The name of the log file that goes with the data file `db_file`.
pub fn log_file_name(db_file: &str) -> (name: String)
    ensures
        name@ == log_name_of(db_file@),
{
    proof {
        assert(db_file@.skip(0) =~= db_file@);
    }
    let base: usize = match find_last(db_file, 0, '/') {
        Some(slash) => slash + 1,
        None => 0,
    };
    match find_last(db_file, base, '.') {
        Some(dot) => {
            if dot > 0 {
                String::from_str(db_file.substring_char(0, base + dot)).concat(".log")
            } else {
                String::from_str(db_file).concat(".log")
            }
        },
        None => String::from_str(db_file).concat(".log"),
    }
}

/// What one read call on a file reported to a reader that fills a buffer.
#[derive(Clone, Copy, Debug, PartialEq, Eq, Structural)]
pub enum ReadOutcome {
    /// So many bytes arrived; none means that the file has ended.
    Read(usize),
    /// The call was interrupted before any byte arrived.
    Interrupted,
    /// The device failed.
    Failed,
}

/// What a reader that fills a buffer does next.
#[derive(Clone, Copy, Debug, PartialEq, Eq, Structural)]
pub enum ReadStep {
    /// Read again, into the buffer from `filled` on.
    Continue { filled: usize },
    /// Stop: the first `filled` bytes are read, the rest is to be zeroed.
    Finish { filled: usize },
    /// Give up: the whole buffer is to be zeroed and the failure reported.
    Abort,
}

/// The next step of a reader that has `filled` of `len` bytes and sees
/// `outcome`: it goes on until the buffer is full or the file ends, tries
/// again after an interruption, and gives up when the device fails. With
/// a full buffer there is nothing left to do.
pub open spec fn read_step(len: usize, filled: usize, outcome: ReadOutcome) -> ReadStep {
    if filled >= len {
        ReadStep::Finish { filled: len }
    } else {
        read_step_unfilled(len, filled, outcome)
    }
}

/// The next step where the buffer is not full yet.
pub open spec fn read_step_unfilled(len: usize, filled: usize, outcome: ReadOutcome) -> ReadStep {
    match outcome {
        ReadOutcome::Read(n) => {
            if n == 0 {
                ReadStep::Finish { filled }
            } else if n >= len - filled {
                ReadStep::Finish { filled: len }
            } else {
                ReadStep::Continue { filled: (filled + n) as usize }
            }
        },
        ReadOutcome::Interrupted => ReadStep::Continue { filled },
        ReadOutcome::Failed => ReadStep::Abort,
    }
}

/// Decides the next step of a reader that has `filled` of `len` bytes.
pub fn next_read_step(len: usize, filled: usize, outcome: ReadOutcome) -> (step: ReadStep)
    ensures
        step == read_step(len, filled, outcome),
        step matches ReadStep::Continue { filled: next } ==> filled <= next < len,
        step matches ReadStep::Finish { filled: last } ==> last <= len,
{
    if filled >= len {
        return ReadStep::Finish { filled: len };
    }
    match outcome {
        ReadOutcome::Read(n) => {
            if n == 0 {
                ReadStep::Finish { filled }
            } else if n >= len - filled {
                ReadStep::Finish { filled: len }
            } else {
                ReadStep::Continue { filled: filled + n }
            }
        },
        ReadOutcome::Interrupted => ReadStep::Continue { filled },
        ReadOutcome::Failed => ReadStep::Abort,
    }
}

/// Where a page read starts in a data file of `file_size` bytes, or `None`
/// where the page lies at or behind the end of the file, so that it reads
/// as zeros without a read call.
pub fn plan_page_read(file_size: u64, pid: PageId, len: usize) -> (plan: Result<
    Option<u64>,
    RustubError,
>)
    ensures
        !readable_len(len as nat) ==> plan == Err::<Option<u64>, RustubError>(
            RustubError::ContractViolation(Violation::BufferLength),
        ),
        readable_len(len as nat) && pid < 0 ==> plan == Err::<Option<u64>, RustubError>(
            RustubError::ContractViolation(Violation::InvalidPageId),
        ),
        readable_len(len as nat) && pid >= 0 ==> plan == Ok::<Option<u64>, RustubError>(
            if page_offset(pid) >= file_size {
                None
            } else {
                Some(page_offset(pid) as u64)
            },
        ),
{
    if len < 1 || len > PAGE_SIZE {
        return Err(RustubError::ContractViolation(Violation::BufferLength));
    }
    if pid < 0 {
        return Err(RustubError::ContractViolation(Violation::InvalidPageId));
    }
    let offset = offset_of_page(pid);
    if offset >= file_size {
        Ok(None)
    } else {
        Ok(Some(offset))
    }
}

/// Where a page write starts in the data file.
pub fn plan_page_write(pid: PageId, len: usize) -> (plan: Result<u64, RustubError>)
    ensures
        len != PAGE_SIZE ==> plan == Err::<u64, RustubError>(
            RustubError::ContractViolation(Violation::BufferLength),
        ),
        len == PAGE_SIZE && pid < 0 ==> plan == Err::<u64, RustubError>(
            RustubError::ContractViolation(Violation::InvalidPageId),
        ),
        len == PAGE_SIZE && pid >= 0 ==> plan == Ok::<u64, RustubError>(page_offset(pid) as u64),
{
    if len != PAGE_SIZE {
        return Err(RustubError::ContractViolation(Violation::BufferLength));
    }
    if pid < 0 {
        return Err(RustubError::ContractViolation(Violation::InvalidPageId));
    }
    Ok(offset_of_page(pid))
}

/// Where a log read starts, or `None` where the log of `file_size` bytes
/// ends at or before `offset`.
pub fn plan_log_read(file_size: u64, offset: u32) -> (plan: Option<u64>)
    ensures
        plan == (if offset >= file_size {
            None
        } else {
            Some(offset as u64)
        }),
{
    if offset as u64 >= file_size {
        None
    } else {
        Some(offset as u64)
    }
}

/// A disk manager that keeps both files in memory.
pub struct InMemDiskManager {
    data: Vec<u8>,
    log: Vec<u8>,
    num_flushes: u32,
    num_writes: u32,
    flush_log: bool,
}

impl InMemDiskManager {
    /// A manager with an empty data file and an empty log.
    pub fn new() -> (dm: Self)
        ensures
            dm.state() == (DiskView {
                data: Seq::empty(),
                log: Seq::empty(),
                num_flushes: 0,
                num_writes: 0,
                flushed: false,
            }),
    {
        InMemDiskManager {
            data: Vec::new(),
            log: Vec::new(),
            num_flushes: 0,
            num_writes: 0,
            flush_log: false,
        }
    }

    /// Whether the machine can address the end of page `pid`.
    pub open spec fn addressable(pid: PageId) -> bool {
        page_offset(pid) + PAGE_SIZE <= usize::MAX
    }
}

impl DiskManager for InMemDiskManager {
    closed spec fn state(&self) -> DiskView {
        DiskView {
            data: self.data@,
            log: self.log@,
            num_flushes: self.num_flushes,
            num_writes: self.num_writes,
            flushed: self.flush_log,
        }
    }

    fn write_page(&mut self, pid: PageId, data: &[u8]) -> (r: Result<(), RustubError>)
        ensures
            r is Ok <==> data@.len() == PAGE_SIZE && pid >= 0 && Self::addressable(pid),
            data@.len() == PAGE_SIZE && pid >= 0 && !Self::addressable(pid) ==> r == Err::<
                (),
                RustubError,
            >(RustubError::OutOfSpace),
            r is Err ==> final(self).state() == old(self).state(),
    {
        if data.len() != PAGE_SIZE {
            return Err(RustubError::ContractViolation(Violation::BufferLength));
        }
        if pid < 0 {
            return Err(RustubError::ContractViolation(Violation::InvalidPageId));
        }
        let end: u64 = offset_of_page(pid) + PAGE_SIZE as u64;
        if end > usize::MAX as u64 {
            return Err(RustubError::OutOfSpace);
        }
        let offset: usize = end as usize - PAGE_SIZE;
        let ghost before = self.data@;
        if self.data.len() < end as usize {
            self.data.resize(end as usize, 0u8);
        }
        let ghost grown = self.data@;
        put_slice_at(self.data.as_mut_slice(), offset, data);
        if self.num_writes < u32::MAX {
            self.num_writes += 1;
        }
        proof {
            assert(self.data@ =~= file_write(before, page_offset(pid), data@));
        }
        Ok(())
    }

    fn read_page(&mut self, pid: PageId, data: &mut [u8]) -> (r: Result<(), RustubError>)
        ensures
            r is Ok <==> readable_len(old(data)@.len()) && pid >= 0,
    {
        if data.len() < 1 || data.len() > PAGE_SIZE {
            return Err(RustubError::ContractViolation(Violation::BufferLength));
        }
        if pid < 0 {
            return Err(RustubError::ContractViolation(Violation::InvalidPageId));
        }
        let offset: u64 = offset_of_page(pid);
        read_at(self.data.as_slice(), offset, data);
        Ok(())
    }

    fn write_log(&mut self, data: &[u8]) -> (r: Result<(), RustubError>)
        ensures
            r is Ok,
    {
        if data.len() == 0 {
            return Ok(());
        }
        let ghost before = self.log@;
        self.log.extend_from_slice(data);
        if self.num_flushes < u32::MAX {
            self.num_flushes += 1;
        }
        self.flush_log = true;
        proof {
            assert(self.log@ =~= before + data@);
        }
        Ok(())
    }

    fn read_log(&mut self, data: &mut [u8], offset: u32) -> (r: bool)
        ensures
            r == (offset < old(self).state().log.len()),
    {
        if offset as usize >= self.log.len() {
            return false;
        }
        read_at(self.log.as_slice(), offset as u64, data);
        true
    }

    fn num_flushes(&self) -> (n: u32) {
        self.num_flushes
    }

    fn is_flushed(&self) -> (flushed: bool) {
        self.flush_log
    }

    fn num_writes(&self) -> (n: u32) {
        self.num_writes
    }
}

} // verus!
