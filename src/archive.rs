//! The container handle's coordination state, the entry descriptors it
//! hands out, and the entry readers that share its single decode cursor.
//!
//! The decode engine is driven by the caller. Each step here returns the
//! engine operation to perform next and takes back its outcome. Proofs speak
//! of the engine's cursor through a ghost model that follows those
//! operations: starting an entry at an offset puts the cursor at position 0
//! of that entry, producing `n` bytes moves it `n` bytes on, and any failed
//! operation leaves it unknown.
use vstd::prelude::*;

use crate::format::ArchiveFormat;
use crate::names::{entry_name, name_for_entry};

verus! {

/// The most bytes discarded by one engine call while a reader catches up.
pub const SKIP_BUF_SIZE: usize = 1024 * 1024 * 1024;

/// The cookie that no reader has: no reader owns the cursor.
pub const INVALID_READER_COOKIE: u64 = 0;

/// Why a reader could not be created.
#[derive(Clone, Copy, Debug, PartialEq, Eq, Structural)]
pub enum ReaderError {
    /// The engine could not start the entry at the descriptor's offset.
    EntryNotFound,
}

/// Why a read failed.
#[derive(Clone, Copy, Debug, PartialEq, Eq, Structural)]
pub enum ReadError {
    /// The engine could not start the entry again at its offset.
    PositionFailure,
    /// The engine failed while producing bytes that were to be discarded.
    DiscardFailure,
    /// The engine failed while producing the bytes asked for.
    DecodeFailure,
}

/// The engine operation a reader asks for next, or how its read ends.
#[derive(Clone, Copy, Debug, PartialEq, Eq, Structural)]
pub enum ReadAction {
    /// Start the entry at `offset`, then report the outcome.
    Reposition { offset: i64 },
    /// Produce `len` bytes into the reader's scratch buffer, then report.
    Discard { len: usize },
    /// Produce `len` bytes into the caller's buffer, then report.
    Deliver { len: usize },
    /// The read is over: `len` bytes were delivered.
    Complete { len: usize },
    /// The read failed.
    Fail { error: ReadError },
}

/// Where a reader stands within one read.
#[derive(Clone, Copy, Debug, PartialEq, Eq, Structural)]
pub enum ReadPhase {
    /// No read in progress.
    Idle,
    /// Waiting for the entry to be started again; `len` bytes are owed.
    Repositioning { len: usize },
    /// Waiting for `chunk` discarded bytes after `skipped` ones.
    Discarding { skipped: usize, chunk: usize, len: usize },
    /// Waiting for the `len` bytes owed to the caller.
    Delivering { len: usize },
}

/// The sum of the lengths.
pub open spec fn total(lens: Seq<nat>) -> nat
    decreases lens.len(),
{
    if lens.len() == 0 {
        0
    } else {
        total(lens.drop_last()) + lens.last()
    }
}

/// How many bytes a read with a buffer of `buf_len` bytes delivers.
pub open spec fn read_amount(size: nat, consumed: nat, buf_len: nat) -> nat {
    if size - consumed <= buf_len {
        (size - consumed) as nat
    } else {
        buf_len
    }
}

/// The coordination state of one opened container: its format, the cookies
/// handed out so far, and which reader last positioned the cursor.
pub struct ArArchive {
    format: ArchiveFormat,
    cookie_counter: u64,
    last_reader_cookie: u64,
    cursor: Ghost<Option<(i64, nat)>>,
}

/// An owned snapshot of one entry's name, offset, size and time.
#[derive(Clone, Debug)]
pub struct ArEntry {
    name: String,
    offset: i64,
    size: usize,
    time: i64,
}

/// One in-progress read of one entry.
pub struct EntryReader {
    entry_offset: i64,
    consumed: usize,
    size: usize,
    cookie: u64,
    phase: ReadPhase,
    reads: Ghost<Seq<nat>>,
}

impl ArArchive {
    pub closed spec fn spec_format(&self) -> ArchiveFormat {
        self.format
    }

    /// How many cookies have been handed out; they are `1..=issued()`.
    pub closed spec fn issued(&self) -> nat {
        self.cookie_counter as nat
    }

    /// The cookie of the reader that last positioned the cursor, or 0.
    pub closed spec fn active(&self) -> nat {
        self.last_reader_cookie as nat
    }

    /// The engine's cursor as an entry offset and a position in that entry,
    /// where it is known.
    pub closed spec fn cursor(&self) -> Option<(i64, nat)> {
        self.cursor@
    }

    pub closed spec fn wf(&self) -> bool {
        self.last_reader_cookie <= self.cookie_counter
    }

    /// What every step by the party with cookie `actor` (0 for the catalog)
    /// does to the shared state: cookies are never taken back, and the
    /// cursor moves only while no other existing reader is marked as its
    /// owner.
    pub open spec fn keeps_others(before: ArArchive, after: ArArchive, actor: nat) -> bool {
        &&& after.wf()
        &&& after.issued() >= before.issued()
        &&& after.spec_format() == before.spec_format()
        &&& after.active() == 0 || after.active() == actor || after.active() > before.issued()
            || (after.active() == before.active() && after.cursor() == before.cursor())
    }

    /// The state of a container just opened under `format`.
    pub fn new(format: ArchiveFormat) -> (a: ArArchive)
        ensures
            a.wf(),
            a.spec_format() == format,
            a.issued() == 0,
            a.active() == 0,
            a.cursor() is None,
    {
        ArArchive {
            format,
            cookie_counter: INVALID_READER_COOKIE,
            last_reader_cookie: INVALID_READER_COOKIE,
            cursor: Ghost(None),
        }
    }

    pub fn format(&self) -> (f: ArchiveFormat)
        ensures
            f == self.spec_format(),
    {
        self.format
    }

    /// Whether another reader can still be created.
    pub fn has_cookie_left(&self) -> (r: bool)
        ensures
            r == (self.issued() < u64::MAX),
    {
        self.cookie_counter < u64::MAX
    }

    /// Creates a reader for `entry`, once the engine has been asked to start
    /// the entry at its offset; `positioned` is whether it could.
    ///
    /// The new reader gets a cookie no reader had before and is marked as
    /// the cursor's owner, which stands at the start of its entry.
    pub fn reader_for(&mut self, entry: &ArEntry, positioned: bool) -> (r: Result<
        EntryReader,
        ReaderError,
    >)
        requires
            old(self).wf(),
            old(self).issued() < u64::MAX,
        ensures
            ArArchive::keeps_others(*old(self), *final(self), final(self).issued()),
            positioned <==> r is Ok,
            !positioned ==> r == Err::<EntryReader, ReaderError>(ReaderError::EntryNotFound)
                && final(self).issued() == old(self).issued() && final(self).active() == 0,
            r matches Ok(rd) ==> {
                &&& final(self).issued() == old(self).issued() + 1
                &&& rd.cookie() == final(self).issued()
                &&& final(self).active() == rd.cookie()
                &&& final(self).cursor() == Some((entry.spec_offset(), 0nat))
                &&& rd.offset() == entry.spec_offset()
                &&& rd.size() == entry.spec_size()
                &&& rd.consumed() == 0
                &&& rd.reads() == Seq::<nat>::empty()
                &&& rd.phase() == ReadPhase::Idle
                &&& rd.coherent(*final(self))
            },
    {
        if !positioned {
            self.last_reader_cookie = INVALID_READER_COOKIE;
            self.cursor = Ghost(None);
            return Err(ReaderError::EntryNotFound);
        }
        self.cookie_counter = self.cookie_counter + 1;
        self.last_reader_cookie = self.cookie_counter;
        self.cursor = Ghost(Some((entry.offset, 0nat)));
        Ok(
            EntryReader {
                entry_offset: entry.offset,
                consumed: 0,
                size: entry.size,
                cookie: self.cookie_counter,
                phase: ReadPhase::Idle,
                reads: Ghost(Seq::empty()),
            },
        )
    }
}

impl ArEntry {
    pub closed spec fn spec_name(&self) -> Seq<char> {
        self.name@
    }

    pub closed spec fn spec_offset(&self) -> i64 {
        self.offset
    }

    pub closed spec fn spec_size(&self) -> usize {
        self.size
    }

    pub closed spec fn spec_time(&self) -> i64 {
        self.time
    }

    /// The snapshot of an entry that the engine describes by these values,
    /// in a container of the given format.
    pub fn describe(format: ArchiveFormat, raw_name: &[u8], offset: i64, size: usize, time: i64) -> (e:
        ArEntry)
        ensures
            e.spec_name() == entry_name(format == ArchiveFormat::Zip, raw_name@),
            e.spec_offset() == offset,
            e.spec_size() == size,
            e.spec_time() == time,
    {
        let zip = match format {
            ArchiveFormat::Zip => true,
            _ => false,
        };
        ArEntry { name: name_for_entry(zip, raw_name), offset, size, time }
    }

    pub fn name(&self) -> (r: &str)
        ensures
            r@ == self.spec_name(),
    {
        self.name.as_str()
    }

    pub fn offset(&self) -> (r: i64)
        ensures
            r == self.spec_offset(),
    {
        self.offset
    }

    pub fn size(&self) -> (r: usize)
        ensures
            r == self.spec_size(),
    {
        self.size
    }

    pub fn time(&self) -> (r: i64)
        ensures
            r == self.spec_time(),
    {
        self.time
    }
}

/// The error a failed engine operation gives in each phase of a read.
pub open spec fn failure_in(phase: ReadPhase) -> ReadError {
    match phase {
        ReadPhase::Discarding { .. } => ReadError::DiscardFailure,
        ReadPhase::Delivering { .. } => ReadError::DecodeFailure,
        _ => ReadError::PositionFailure,
    }
}

/// How many bytes to discard in one engine call, `remaining` being left.
pub open spec fn discard_chunk(remaining: nat) -> nat {
    if remaining <= SKIP_BUF_SIZE {
        remaining
    } else {
        SKIP_BUF_SIZE as nat
    }
}

impl EntryReader {
    /// The offset of the entry this reader reads.
    pub closed spec fn offset(&self) -> i64 {
        self.entry_offset
    }

    /// How many bytes of the entry have been delivered so far.
    pub closed spec fn consumed(&self) -> nat {
        self.consumed as nat
    }

    /// The size of the entry.
    pub closed spec fn size(&self) -> nat {
        self.size as nat
    }

    pub closed spec fn cookie(&self) -> nat {
        self.cookie as nat
    }

    pub closed spec fn phase(&self) -> ReadPhase {
        self.phase
    }

    /// How many bytes each completed read delivered, in order. Read `k`
    /// began at the position the reads before it add up to.
    pub closed spec fn reads(&self) -> Seq<nat> {
        self.reads@
    }

    /// The reader agrees with the shared state. When idle and marked as the
    /// owner, the cursor stands right after the bytes delivered so far.
    /// Within a read, the reader owns the cursor, which stands where the
    /// phase says.
    pub open spec fn coherent(&self, arch: ArArchive) -> bool {
        &&& arch.wf()
        &&& self.consumed() <= self.size()
        &&& total(self.reads()) == self.consumed()
        &&& 0 < self.cookie() <= arch.issued()
        &&& match self.phase() {
            ReadPhase::Idle => arch.active() == self.cookie() ==> arch.cursor() == Some(
                (self.offset(), self.consumed()),
            ),
            ReadPhase::Repositioning { len } => {
                &&& arch.active() == self.cookie()
                &&& len <= self.size() - self.consumed()
            },
            ReadPhase::Discarding { skipped, chunk, len } => {
                &&& arch.active() == self.cookie()
                &&& arch.cursor() == Some((self.offset(), skipped as nat))
                &&& chunk == discard_chunk((self.consumed() - skipped) as nat)
                &&& skipped < self.consumed()
                &&& len <= self.size() - self.consumed()
            },
            ReadPhase::Delivering { len } => {
                &&& arch.active() == self.cookie()
                &&& arch.cursor() == Some((self.offset(), self.consumed()))
                &&& len <= self.size() - self.consumed()
            },
        }
    }

    /// The reader's entry, size and cookie are those of `other`.
    pub open spec fn same_binding(&self, other: EntryReader) -> bool {
        &&& self.offset() == other.offset()
        &&& self.size() == other.size()
        &&& self.cookie() == other.cookie()
    }

    /// Whether a read is in progress, waiting for an engine outcome.
    pub fn is_reading(&self) -> (r: bool)
        ensures
            r == (self.phase() != ReadPhase::Idle),
    {
        match self.phase {
            ReadPhase::Idle => false,
            _ => true,
        }
    }

    /// Starts a read into a buffer of `buf_len` bytes; `current_offset` is
    /// the offset of the entry the engine's cursor is in now.
    ///
    /// At the end of the entry the read is over at once. Where the cursor is
    /// in this entry and this reader was the last to position it, the bytes
    /// are asked for directly; otherwise the entry is started again first.
    pub fn start_read(&mut self, arch: &mut ArArchive, current_offset: i64, buf_len: usize) -> (a:
        ReadAction)
        requires
            old(self).coherent(*old(arch)),
            old(self).phase() == ReadPhase::Idle,
        ensures
            final(self).coherent(*final(arch)),
            final(self).same_binding(*old(self)),
            final(self).consumed() == old(self).consumed(),
            ArArchive::keeps_others(*old(arch), *final(arch), old(self).cookie()),
            final(arch).issued() == old(arch).issued(),
            old(self).consumed() == old(self).size() ==> a == (ReadAction::Complete { len: 0 })
                && final(self).phase() == ReadPhase::Idle && *final(arch) == *old(arch)
                && final(self).reads() == old(self).reads().push(0),
            old(self).consumed() < old(self).size() ==> final(self).reads() == old(self).reads(),
            old(self).consumed() < old(self).size() ==> {
                let len = read_amount(old(self).size(), old(self).consumed(), buf_len as nat);
                if current_offset == old(self).offset() && old(arch).active() == old(self).cookie() {
                    &&& a == (ReadAction::Deliver { len: len as usize })
                    &&& final(self).phase() == (ReadPhase::Delivering { len: len as usize })
                    &&& *final(arch) == *old(arch)
                } else {
                    &&& a == (ReadAction::Reposition { offset: old(self).offset() })
                    &&& final(self).phase() == (ReadPhase::Repositioning { len: len as usize })
                    &&& final(arch).active() == old(self).cookie()
                }
            },
            a is Deliver ==> final(arch).cursor() == Some((final(self).offset(), final(self).consumed()))
                && final(self).consumed() == total(final(self).reads()),
    {
        if self.consumed == self.size {
            proof {
                assert(self.reads@.push(0nat).drop_last() =~= self.reads@);
            }
            self.reads = Ghost(self.reads@.push(0nat));
            return ReadAction::Complete { len: 0 };
        }
        let left = self.size - self.consumed;
        let len = if left <= buf_len {
            left
        } else {
            buf_len
        };
        if current_offset == self.entry_offset && arch.last_reader_cookie == self.cookie {
            self.phase = ReadPhase::Delivering { len };
            ReadAction::Deliver { len }
        } else {
            arch.last_reader_cookie = self.cookie;
            self.phase = ReadPhase::Repositioning { len };
            ReadAction::Reposition { offset: self.entry_offset }
        }
    }

    /// After `skipped` bytes of the entry have been produced again, asks for
    /// the next bytes to discard, or for the `len` bytes owed.
    fn next_after_skip(&mut self, arch: &ArArchive, skipped: usize, len: usize) -> (a: ReadAction)
        requires
            arch.wf(),
            old(self).consumed() <= old(self).size(),
            0 < old(self).cookie() <= arch.issued(),
            arch.active() == old(self).cookie(),
            arch.cursor() == Some((old(self).offset(), skipped as nat)),
            skipped <= old(self).consumed(),
            total(old(self).reads()) == old(self).consumed(),
            len <= old(self).size() - old(self).consumed(),
        ensures
            final(self).coherent(*arch),
            final(self).same_binding(*old(self)),
            final(self).consumed() == old(self).consumed(),
            final(self).reads() == old(self).reads(),
            skipped == old(self).consumed() ==> a == (ReadAction::Deliver { len })
                && final(self).phase() == (ReadPhase::Delivering { len }),
            skipped < old(self).consumed() ==> {
                let chunk = discard_chunk((old(self).consumed() - skipped) as nat) as usize;
                &&& a == (ReadAction::Discard { len: chunk })
                &&& final(self).phase() == (ReadPhase::Discarding { skipped, chunk, len })
            },
    {
        if skipped == self.consumed {
            self.phase = ReadPhase::Delivering { len };
            ReadAction::Deliver { len }
        } else {
            let remaining = self.consumed - skipped;
            let chunk = if remaining <= SKIP_BUF_SIZE {
                remaining
            } else {
                SKIP_BUF_SIZE
            };
            self.phase = ReadPhase::Discarding { skipped, chunk, len };
            ReadAction::Discard { len: chunk }
        }
    }

    /// Takes the outcome of the engine operation the last action asked for,
    /// and says what comes next.
    ///
    /// A failure ends the read with the error of its phase, and leaves no
    /// reader marked as the cursor's owner, so that the next read starts the
    /// entry again.
    pub fn advance(&mut self, arch: &mut ArArchive, succeeded: bool) -> (a: ReadAction)
        requires
            old(self).coherent(*old(arch)),
            old(self).phase() != ReadPhase::Idle,
        ensures
            final(self).coherent(*final(arch)),
            final(self).same_binding(*old(self)),
            ArArchive::keeps_others(*old(arch), *final(arch), old(self).cookie()),
            final(arch).issued() == old(arch).issued(),
            !succeeded ==> final(self).reads() == old(self).reads(),
            succeeded ==> final(self).reads() == if old(self).phase() is Delivering {
                old(self).reads().push(old(self).phase()->Delivering_len as nat)
            } else {
                old(self).reads()
            },
            !succeeded ==> {
                &&& a == (ReadAction::Fail { error: failure_in(old(self).phase()) })
                &&& final(self).phase() == ReadPhase::Idle
                &&& final(self).consumed() == old(self).consumed()
                &&& final(arch).active() == 0
            },
            succeeded ==> match old(self).phase() {
                ReadPhase::Repositioning { len } => {
                    &&& final(self).consumed() == old(self).consumed()
                    &&& old(self).consumed() == 0 ==> a == (ReadAction::Deliver { len })
                    &&& old(self).consumed() > 0 ==> a == (ReadAction::Discard {
                        len: discard_chunk(old(self).consumed()) as usize,
                    }) && final(self).phase() == (ReadPhase::Discarding {
                        skipped: 0,
                        chunk: discard_chunk(old(self).consumed()) as usize,
                        len,
                    })
                },
                ReadPhase::Discarding { skipped, chunk, len } => {
                    &&& final(self).consumed() == old(self).consumed()
                    &&& skipped + chunk == old(self).consumed() ==> a == (ReadAction::Deliver { len })
                    &&& skipped + chunk < old(self).consumed() ==> a == (ReadAction::Discard {
                        len: discard_chunk((old(self).consumed() - skipped - chunk) as nat) as usize,
                    }) && final(self).phase() == (ReadPhase::Discarding {
                        skipped: (skipped + chunk) as usize,
                        chunk: discard_chunk((old(self).consumed() - skipped - chunk) as nat) as usize,
                        len,
                    })
                },
                ReadPhase::Delivering { len } => {
                    &&& a == (ReadAction::Complete { len })
                    &&& final(self).consumed() == old(self).consumed() + len
                    &&& final(self).phase() == ReadPhase::Idle
                    &&& final(arch).active() == old(self).cookie()
                },
                ReadPhase::Idle => false,
            },
            a matches ReadAction::Deliver { len } ==> final(self).phase() == (ReadPhase::Delivering {
                len,
            }) && final(arch).cursor() == Some((final(self).offset(), final(self).consumed()))
                && final(self).consumed() == total(final(self).reads()),
    {
        if !succeeded {
            let error = match self.phase {
                ReadPhase::Discarding { .. } => ReadError::DiscardFailure,
                ReadPhase::Delivering { .. } => ReadError::DecodeFailure,
                _ => ReadError::PositionFailure,
            };
            arch.last_reader_cookie = INVALID_READER_COOKIE;
            arch.cursor = Ghost(None);
            self.phase = ReadPhase::Idle;
            return ReadAction::Fail { error };
        }
        match self.phase {
            ReadPhase::Repositioning { len } => {
                arch.cursor = Ghost(Some((self.entry_offset, 0nat)));
                self.next_after_skip(arch, 0, len)
            },
            ReadPhase::Discarding { skipped, chunk, len } => {
                let done = skipped + chunk;
                arch.cursor = Ghost(Some((self.entry_offset, done as nat)));
                self.next_after_skip(arch, done, len)
            },
            ReadPhase::Delivering { len } => {
                proof {
                    assert(self.reads@.push(len as nat).drop_last() =~= self.reads@);
                }
                self.reads = Ghost(self.reads@.push(len as nat));
                self.consumed = self.consumed + len;
                arch.cursor = Ghost(Some((self.entry_offset, self.consumed as nat)));
                self.phase = ReadPhase::Idle;
                ReadAction::Complete { len }
            },
            ReadPhase::Idle => ReadAction::Complete { len: 0 },
        }
    }
}

/// The engine operation the catalog asks for next, or the end of the
/// sequence.
#[derive(Clone, Copy, Debug, PartialEq, Eq, Structural)]
pub enum CatalogAction {
    /// Start the entry at `offset`, then report the outcome.
    ParseAt { offset: i64 },
    /// Step to the entry after the current one, then report the outcome.
    ParseNext,
    /// Hand the current entry's name bytes, offset, size and time to
    /// `describe`.
    Describe,
    /// The sequence is over.
    End,
}

/// Where the catalog stands within one step of the enumeration.
#[derive(Clone, Copy, Debug, PartialEq, Eq, Structural)]
pub enum CatalogPhase {
    /// Between entries.
    Idle,
    /// Waiting for the first entry to be started.
    First,
    /// Waiting for the last entry seen to be started again.
    Realigning,
    /// Waiting for the step to the next entry.
    Advancing,
    /// Waiting for the current entry's description.
    Describing,
    /// The sequence is over.
    Finished,
}

/// Whether an entry at `offset` may follow the entries seen so far: the
/// first may stand anywhere, a later one must come after the previous one,
/// and offset 0 is exempt.
pub open spec fn offset_follows(seen: Seq<i64>, offset: i64) -> bool {
    seen.len() == 0 || offset == 0 || seen.last() < offset
}

/// A forward-only enumeration of a container's entries.
pub struct ArArchiveIterator {
    last_offset: Option<i64>,
    phase: CatalogPhase,
    seen: Ghost<Seq<i64>>,
}

impl ArArchive {
    /// A fresh enumeration, which starts again from the first entry.
    pub fn iter(&self) -> (it: ArArchiveIterator)
        ensures
            it.wf(),
            it.seen() == Seq::<i64>::empty(),
            it.phase() == CatalogPhase::Idle,
    {
        ArArchiveIterator { last_offset: None, phase: CatalogPhase::Idle, seen: Ghost(Seq::empty()) }
    }
}

impl ArArchiveIterator {
    /// The offsets of the entries yielded so far, in order.
    pub closed spec fn seen(&self) -> Seq<i64> {
        self.seen@
    }

    pub closed spec fn phase(&self) -> CatalogPhase {
        self.phase
    }

    pub closed spec fn wf(&self) -> bool {
        &&& self.last_offset == if self.seen@.len() == 0 {
            None
        } else {
            Some(self.seen@.last())
        }
        &&& forall|i: int|
            0 < i < self.seen@.len() ==> #[trigger] self.seen@[i] == 0 || self.seen@[i - 1]
                < self.seen@[i]
    }

    /// Starts the next step of the enumeration; `current_offset` is the
    /// offset of the entry the engine's cursor is in now.
    ///
    /// No reader is marked as the cursor's owner afterwards. The first step
    /// starts the entry at offset 0. A later one steps past the last entry
    /// seen, starting that entry again first where the cursor has left it.
    pub fn start_next(&mut self, arch: &mut ArArchive, current_offset: i64) -> (a: CatalogAction)
        requires
            old(self).wf(),
            old(arch).wf(),
            old(self).phase() == CatalogPhase::Idle || old(self).phase() == CatalogPhase::Finished,
        ensures
            final(self).wf(),
            final(self).seen() == old(self).seen(),
            ArArchive::keeps_others(*old(arch), *final(arch), 0),
            final(arch).issued() == old(arch).issued(),
            final(arch).active() == 0,
            old(self).phase() == CatalogPhase::Finished ==> a == CatalogAction::End
                && final(self).phase() == CatalogPhase::Finished,
            old(self).phase() == CatalogPhase::Idle ==> if old(self).seen().len() == 0 {
                &&& a == (CatalogAction::ParseAt { offset: 0 })
                &&& final(self).phase() == CatalogPhase::First
            } else if current_offset != old(self).seen().last() {
                &&& a == (CatalogAction::ParseAt { offset: old(self).seen().last() })
                &&& final(self).phase() == CatalogPhase::Realigning
            } else {
                &&& a == CatalogAction::ParseNext
                &&& final(self).phase() == CatalogPhase::Advancing
            },
    {
        arch.last_reader_cookie = INVALID_READER_COOKIE;
        arch.cursor = Ghost(None);
        match self.phase {
            CatalogPhase::Finished => CatalogAction::End,
            _ => match self.last_offset {
                None => {
                    self.phase = CatalogPhase::First;
                    CatalogAction::ParseAt { offset: 0 }
                },
                Some(last) => {
                    if current_offset != last {
                        self.phase = CatalogPhase::Realigning;
                        CatalogAction::ParseAt { offset: last }
                    } else {
                        self.phase = CatalogPhase::Advancing;
                        CatalogAction::ParseNext
                    }
                },
            },
        }
    }

    /// Takes the outcome of the engine operation the last action asked for.
    /// A failure ends the sequence.
    pub fn advance(&mut self, arch: &mut ArArchive, succeeded: bool) -> (a: CatalogAction)
        requires
            old(self).wf(),
            old(arch).wf(),
            old(self).phase() == CatalogPhase::First || old(self).phase() == CatalogPhase::Realigning
                || old(self).phase() == CatalogPhase::Advancing,
        ensures
            final(self).wf(),
            final(self).seen() == old(self).seen(),
            ArArchive::keeps_others(*old(arch), *final(arch), 0),
            final(arch).issued() == old(arch).issued(),
            final(arch).active() == 0,
            !succeeded ==> a == CatalogAction::End && final(self).phase() == CatalogPhase::Finished,
            succeeded && old(self).phase() == CatalogPhase::Realigning ==> a == CatalogAction::ParseNext
                && final(self).phase() == CatalogPhase::Advancing,
            succeeded && old(self).phase() != CatalogPhase::Realigning ==> a == CatalogAction::Describe
                && final(self).phase() == CatalogPhase::Describing,
    {
        arch.last_reader_cookie = INVALID_READER_COOKIE;
        arch.cursor = Ghost(None);
        if !succeeded {
            self.phase = CatalogPhase::Finished;
            return CatalogAction::End;
        }
        match self.phase {
            CatalogPhase::Realigning => {
                self.phase = CatalogPhase::Advancing;
                CatalogAction::ParseNext
            },
            _ => {
                self.phase = CatalogPhase::Describing;
                CatalogAction::Describe
            },
        }
    }

    /// Whether the engine's entry at `offset` may come next. An offset that
    /// may not breaks the engine's own contract: callers stop there.
    pub fn accepts_offset(&self, offset: i64) -> (r: bool)
        requires
            self.wf(),
        ensures
            r == offset_follows(self.seen(), offset),
    {
        match self.last_offset {
            Some(last) => offset == 0 || last < offset,
            None => true,
        }
    }

    /// Takes the description of the entry the engine now stands at, and
    /// yields its snapshot.
    pub fn describe(
        &mut self,
        arch: &ArArchive,
        raw_name: &[u8],
        offset: i64,
        size: usize,
        time: i64,
    ) -> (e: ArEntry)
        requires
            old(self).wf(),
            old(self).phase() == CatalogPhase::Describing,
            offset_follows(old(self).seen(), offset),
        ensures
            final(self).wf(),
            e.spec_name() == entry_name(arch.spec_format() == ArchiveFormat::Zip, raw_name@),
            e.spec_offset() == offset,
            e.spec_size() == size,
            e.spec_time() == time,
            final(self).seen() == old(self).seen().push(offset),
            final(self).phase() == CatalogPhase::Idle,
    {
        let entry = ArEntry::describe(arch.format, raw_name, offset, size, time);
        self.last_offset = Some(offset);
        self.seen = Ghost(self.seen@.push(offset));
        self.phase = CatalogPhase::Idle;
        entry
    }
}

/// Every entry the catalog yields after the first has a greater offset than
/// every entry it yielded before, as long as none after the first stands at
/// offset 0.
pub proof fn lemma_catalog_offsets_increase(it: ArArchiveIterator, i: int, j: int)
    requires
        it.wf(),
        0 <= i < j < it.seen().len(),
        forall|k: int| 0 < k < it.seen().len() ==> it.seen()[k] != 0,
    ensures
        it.seen()[i] < it.seen()[j],
    decreases j - i,
{
    if i + 1 < j {
        lemma_catalog_offsets_increase(it, i, j - 1);
    }
}

/// Where an entry's delivery count stands after reads with buffers of the
/// given lengths, starting from `consumed`.
pub open spec fn consumed_after(size: nat, consumed: nat, lens: Seq<nat>) -> nat
    decreases lens.len(),
{
    if lens.len() == 0 {
        consumed
    } else {
        consumed_after(
            size,
            consumed + read_amount(size, consumed, lens[0]),
            lens.drop_first(),
        )
    }
}

/// Reads never deliver past the end of an entry. Reading it in one pass,
/// with buffers of at least one byte and enough reads, delivers exactly its
/// remaining bytes; a read after that delivers none.
pub proof fn lemma_single_pass(size: nat, consumed: nat, lens: Seq<nat>, buf_len: nat)
    requires
        consumed <= size,
    ensures
        consumed_after(size, consumed, lens) <= size,
        (forall|i: int| 0 <= i < lens.len() ==> lens[i] >= 1) && lens.len() >= size - consumed
            ==> consumed_after(size, consumed, lens) == size,
        read_amount(size, size, buf_len) == 0,
    decreases lens.len(),
{
    if lens.len() > 0 {
        let next = consumed + read_amount(size, consumed, lens[0]);
        lemma_single_pass(size, next, lens.drop_first(), buf_len);
        if (forall|i: int| 0 <= i < lens.len() ==> lens[i] >= 1) && lens.len() >= size - consumed {
            assert(lens[0] >= 1);
            if consumed < size {
                assert forall|i: int| 0 <= i < lens.drop_first().len() implies lens.drop_first()[i]
                    >= 1 by {
                    assert(lens.drop_first()[i] == lens[i + 1]);
                }
            } else {
                lemma_stays_at_end(size, lens.drop_first());
            }
        }
    }
}

/// At the end of an entry, further reads deliver nothing.
proof fn lemma_stays_at_end(size: nat, lens: Seq<nat>)
    ensures
        consumed_after(size, size, lens) == size,
    decreases lens.len(),
{
    if lens.len() > 0 {
        lemma_stays_at_end(size, lens.drop_first());
    }
}

/// Whatever another reader or the catalog does to the shared state between
/// two reads of an idle reader, the reader stays coherent with it.
pub proof fn lemma_others_keep_reader(r: EntryReader, before: ArArchive, after: ArArchive, actor: nat)
    requires
        r.phase() == ReadPhase::Idle,
        r.coherent(before),
        ArArchive::keeps_others(before, after, actor),
        actor != r.cookie(),
    ensures
        r.coherent(after),
{
}

/// The bytes that reads of the given lengths hand out, read `k` taking the
/// entry's bytes from where the reads before it end.
pub open spec fn handed_out(content: Seq<u8>, reads: Seq<nat>) -> Seq<u8>
    decreases reads.len(),
{
    if reads.len() == 0 {
        Seq::empty()
    } else {
        let start = total(reads.drop_last());
        handed_out(content, reads.drop_last()) + content.subrange(
            start as int,
            (start + reads.last()) as int,
        )
    }
}

/// Reads that take up where the previous ones ended hand out a prefix of the
/// entry, as long as the entry's bytes.
pub proof fn lemma_reads_concatenate(content: Seq<u8>, reads: Seq<nat>)
    requires
        total(reads) <= content.len(),
    ensures
        handed_out(content, reads) == content.subrange(0, total(reads) as int),
    decreases reads.len(),
{
    if reads.len() > 0 {
        let before = reads.drop_last();
        lemma_reads_concatenate(content, before);
        let t0 = total(before) as int;
        let t = total(reads) as int;
        assert(content.subrange(0, t0) + content.subrange(t0, t) =~= content.subrange(0, t));
    } else {
        assert(content.subrange(0, 0) =~= Seq::<u8>::empty());
    }
}

/// The reads a reader has completed hand out, in order, exactly the first
/// `consumed` bytes of its entry, whatever other readers and the catalog did
/// between them; once all its bytes are delivered, the whole entry. Here
/// `content` is what the engine produces for the entry from its start: each
/// read's bytes are produced right after the reader is given `Deliver`, with
/// the cursor at the position its earlier reads add up to. A reader made again
/// for the same entry starts with no reads, so each full pass of each reader
/// hands out the same whole entry.
pub proof fn lemma_reads_hand_out_entry(r: EntryReader, arch: ArArchive, content: Seq<u8>)
    requires
        r.coherent(arch),
        content.len() == r.size(),
    ensures
        handed_out(content, r.reads()) == content.subrange(0, r.consumed() as int),
        r.consumed() == r.size() ==> handed_out(content, r.reads()) == content,
{
    lemma_reads_concatenate(content, r.reads());
    if r.consumed() == r.size() {
        assert(content.subrange(0, content.len() as int) =~= content);
    }
}

} // verus!
