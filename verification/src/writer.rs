//! How the archive is opened and buffered for each kind of conversion.

use vstd::prelude::*;

verus! {

/// The name of the archive inside the output directory.
pub const ARCHIVE_NAME: &'static str = "output.mbox";

/// The write buffer for a single message: 64 KiB.
pub const SINGLE_BUFFER_SIZE: usize = 65_536;

/// The write buffer for a batch: 1 MiB.
pub const BATCH_BUFFER_SIZE: usize = 1_048_576;

/// What becomes of an archive that is already there.
#[derive(Debug, Clone, Copy, PartialEq, Eq, Structural)]
pub enum OpenMode {
    /// What is written is put behind what the archive holds.
    Append,
    /// What the archive holds is discarded before anything is written.
    Truncate,
}

/// How the archive is opened and how large its write buffer is.
#[derive(Debug, Clone, Copy, PartialEq, Eq, Structural)]
pub struct WriterPolicy {
    /// What becomes of an archive that is already there.
    pub mode: OpenMode,
    /// The size of the write buffer, in bytes.
    pub buffer_size: usize,
}

/// What an archive holds after a run that opened it in `mode` and wrote `written`, where
/// it held `prior` before.
pub open spec fn archive_after(mode: OpenMode, prior: Seq<u8>, written: Seq<u8>) -> Seq<u8> {
    match mode {
        OpenMode::Append => prior + written,
        OpenMode::Truncate => written,
    }
}

/// The policy for converting one message: append, behind a small buffer.
pub fn single_message_policy() -> (policy: WriterPolicy)
    ensures
        policy == (WriterPolicy { mode: OpenMode::Append, buffer_size: SINGLE_BUFFER_SIZE }),
{
    WriterPolicy { mode: OpenMode::Append, buffer_size: SINGLE_BUFFER_SIZE }
}

/// The policy for converting a batch: start afresh, behind a large buffer.
pub fn batch_policy() -> (policy: WriterPolicy)
    ensures
        policy == (WriterPolicy { mode: OpenMode::Truncate, buffer_size: BATCH_BUFFER_SIZE }),
{
    WriterPolicy { mode: OpenMode::Truncate, buffer_size: BATCH_BUFFER_SIZE }
}

/// Opens an archive held in memory: what it holds stays or goes as `mode` says.
pub fn open_in_memory(mode: OpenMode, archive: &mut Vec<u8>)
    ensures
        final(archive)@ == archive_after(mode, old(archive)@, Seq::empty()),
{
    match mode {
        OpenMode::Append => {
            assert(archive@ + Seq::<u8>::empty() =~= archive@);
        },
        OpenMode::Truncate => {
            archive.clear();
            assert(archive@ =~= Seq::<u8>::empty());
        },
    }
}

/// Two runs that append leave both of their outputs behind what was there; of two runs
/// that truncate, only the output of the second is left.
pub proof fn lemma_append_keeps_truncate_replaces(
    prior: Seq<u8>,
    first: Seq<u8>,
    second: Seq<u8>,
)
    ensures
        archive_after(OpenMode::Append, archive_after(OpenMode::Append, prior, first), second)
            == prior + first + second,
        archive_after(
            OpenMode::Truncate,
            archive_after(OpenMode::Truncate, prior, first),
            second,
        ) == second,
{
}

} // verus!
