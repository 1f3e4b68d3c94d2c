//! Many independent, freely interleaved readers over one forward-only
//! archive decoder.
//!
//! The decode engine has a single cursor: it can be told to start an entry at
//! a given offset, to step to the next entry, or to produce the next bytes of
//! the current entry. This crate decides, for each reader and for the entry
//! catalog, which of those operations to ask for next, so that every reader
//! sees its entry's bytes in order however the callers interleave them. The
//! caller performs each requested operation on the engine and hands back the
//! outcome.
use vstd::prelude::*;

pub mod archive;
pub mod format;
pub mod names;

pub use archive::{
    ArArchive, ArArchiveIterator, ArEntry, CatalogAction, CatalogPhase, EntryReader, ReadAction, ReadError, ReadPhase, ReaderError,
};
pub use format::{ArchiveFormat, FormatProber, ProbeAction};
pub use names::{guess_zip_name, name_for_entry};

verus! {

} // verus!
