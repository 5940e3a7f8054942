//! Batches: which directory entries are converted, in which order, and how a
//! run over them proceeds chunk by chunk.
//!
//! The caller lists the directory, reads the files of each chunk and writes
//! what the library hands back; the library decides everything else.

use crate::error::MailoxideError;
use crate::framer::ends_with_newline;
use crate::framer::frame_at;
use crate::framer::framed;
use crate::framer::lemma_framed_is_delimited_and_terminated;
use crate::framer::starts_with_from;
use vstd::prelude::*;

verus! {

/// The greatest number of files that are read and framed together.
pub const CHUNK_SIZE: usize = 100;

/// A batch of more files than this is large: its run reports its start and its progress.
/// Progress is reported whenever the number of files done is a multiple of it.
pub const PROGRESS_INTERVAL: usize = 1000;

/// What the batch needs to know of one directory entry.
#[derive(Debug)]
pub struct EntryInfo {
    /// Whether the entry is a directory.
    pub is_dir: bool,
    /// The bytes of the entry's extension, without the dot, if its name has one.
    pub extension: Option<Vec<u8>>,
}

/// The bytes of `eml`, the extension of the files that are converted.
pub open spec fn eml_extension() -> Seq<u8> {
    // e m l
    seq![101u8, 109u8, 108u8]
}

/// Whether an extension is there and is exactly `eml`: no other case, nothing before or after.
pub open spec fn has_eml_extension(extension: Option<Vec<u8>>) -> bool {
    match extension {
        Some(bytes) => bytes@ == eml_extension(),
        None => false,
    }
}

/// Whether an entry belongs to the batch: it is no directory and its extension is `eml`.
pub open spec fn is_eligible(entry: EntryInfo) -> bool {
    !entry.is_dir && has_eml_extension(entry.extension)
}

/// The positions of the eligible entries, in the order of the listing.
pub open spec fn eligible_positions(entries: Seq<EntryInfo>) -> Seq<usize>
    decreases entries.len(),
{
    if entries.len() == 0 {
        Seq::empty()
    } else {
        let before = eligible_positions(entries.drop_last());
        if is_eligible(entries.last()) {
            before.push((entries.len() - 1) as usize)
        } else {
            before
        }
    }
}

/// Whether an extension is there and is exactly `eml`.
pub fn is_eml_extension(extension: &Option<Vec<u8>>) -> (found: bool)
    ensures
        found == has_eml_extension(*extension),
{
    match extension {
        Some(bytes) => {
            let found = bytes.len() == 3 && bytes[0] == 101u8 && bytes[1] == 109u8 && bytes[2]
                == 108u8;
            proof {
                if found {
                    assert(bytes@ =~= eml_extension());
                }
            }
            found
        },
        None => false,
    }
}

/// Whether an entry belongs to the batch.
pub fn is_eligible_entry(entry: &EntryInfo) -> (eligible: bool)
    ensures
        eligible == is_eligible(*entry),
{
    !entry.is_dir && is_eml_extension(&entry.extension)
}

/// The batch of a directory listing: the positions of its eligible entries, in the order
/// in which the listing reports them.
pub fn select_batch(entries: &Vec<EntryInfo>) -> (batch: Vec<usize>)
    ensures
        batch@ == eligible_positions(entries@),
{
    let mut batch: Vec<usize> = Vec::new();
    let mut i: usize = 0;
    while i < entries.len()
        invariant
            i <= entries.len(),
            batch@ == eligible_positions(entries@.take(i as int)),
        decreases entries.len() - i,
    {
        proof {
            assert(entries@.take(i + 1).drop_last() =~= entries@.take(i as int));
        }
        if is_eligible_entry(&entries[i]) {
            batch.push(i);
        }
        i += 1;
    }
    proof {
        assert(entries@.take(i as int) =~= entries@);
    }
    batch
}

/// A batch holds exactly the eligible entries, each once, in the order of the listing:
/// every position in it is that of an eligible entry, the positions increase, and no
/// eligible entry is left out. Entries that are not eligible are passed over.
pub proof fn lemma_batch_keeps_listing_order(entries: Seq<EntryInfo>)
    requires
        entries.len() <= usize::MAX,
    ensures
        eligible_positions(entries).len() <= entries.len(),
        forall|k: int|
            0 <= k < eligible_positions(entries).len() ==> {
                &&& (#[trigger] eligible_positions(entries)[k]) < entries.len()
                &&& is_eligible(entries[eligible_positions(entries)[k] as int])
            },
        forall|j: int, k: int|
            0 <= j < k < eligible_positions(entries).len() ==> eligible_positions(entries)[j]
                < eligible_positions(entries)[k],
        forall|i: int|
            0 <= i < entries.len() && is_eligible(#[trigger] entries[i]) ==> eligible_positions(
                entries,
            ).contains(i as usize),
    decreases entries.len(),
{
    if entries.len() > 0 {
        let shorter = entries.drop_last();
        let before = eligible_positions(shorter);
        lemma_batch_keeps_listing_order(shorter);
        let batch = eligible_positions(entries);
        assert forall|i: int| 0 <= i < entries.len() && is_eligible(#[trigger] entries[i])
            implies batch.contains(i as usize) by {
            if i < shorter.len() {
                assert(shorter[i] == entries[i]);
                let k = choose|k: int| 0 <= k < before.len() && before[k] == i as usize;
                assert(batch[k] == i as usize);
            } else {
                assert(batch[batch.len() - 1] == i as usize);
            }
        }
        assert forall|k: int| 0 <= k < batch.len() implies {
            &&& (#[trigger] batch[k]) < entries.len()
            &&& is_eligible(entries[batch[k] as int])
        } by {
            if k < before.len() {
                assert(batch[k] == before[k]);
                assert(shorter[before[k] as int] == entries[before[k] as int]);
            }
        }
    }
}

/// The bytes of `parts` written one after another.
pub open spec fn joined(parts: Seq<Seq<u8>>) -> Seq<u8>
    decreases parts.len(),
{
    if parts.len() == 0 {
        Seq::empty()
    } else {
        joined(parts.drop_last()) + parts.last()
    }
}

/// Writing the first `mid` parts and then the others gives what writing all of them gives.
pub proof fn lemma_joined_in_two(parts: Seq<Seq<u8>>, mid: int)
    requires
        0 <= mid <= parts.len(),
    ensures
        joined(parts.take(mid)) + joined(parts.skip(mid)) == joined(parts),
    decreases parts.len(),
{
    if mid == parts.len() {
        assert(parts.take(mid) =~= parts);
        assert(parts.skip(mid) =~= Seq::<Seq<u8>>::empty());
        assert(joined(parts) + Seq::<u8>::empty() =~= joined(parts));
    } else {
        let shorter = parts.drop_last();
        lemma_joined_in_two(shorter, mid);
        assert(shorter.take(mid) =~= parts.take(mid));
        assert(parts.skip(mid).drop_last() =~= shorter.skip(mid));
        assert(parts.skip(mid).last() == parts.last());
        assert(joined(parts.take(mid)) + (joined(shorter.skip(mid)) + parts.last()) =~= (joined(
            parts.take(mid),
        ) + joined(shorter.skip(mid))) + parts.last());
    }
}

/// What one file of a chunk contributes to the archive: its framed bytes, or nothing
/// where reading it failed.
pub open spec fn content_of<E>(result: Result<Vec<u8>, E>) -> Seq<u8> {
    match result {
        Ok(content) => content@,
        Err(_) => Seq::empty(),
    }
}

/// What each file of a chunk contributes, in the order of the chunk.
pub open spec fn contents_of<E>(results: Seq<Result<Vec<u8>, E>>) -> Seq<Seq<u8>> {
    Seq::new(results.len(), |i: int| content_of(results[i]))
}

/// Whether the file at `at` is the first of the chunk whose reading failed.
pub open spec fn is_first_failure<E>(results: Seq<Result<Vec<u8>, E>>, at: int) -> bool {
    &&& 0 <= at < results.len()
    &&& results[at] is Err
    &&& forall|j: int| 0 <= j < at ==> results[j] is Ok
}

/// Whether every file of the chunk was read.
pub open spec fn all_succeeded<E>(results: Seq<Result<Vec<u8>, E>>) -> bool {
    forall|j: int| 0 <= j < results.len() ==> results[j] is Ok
}

/// What is written for one chunk, and where the chunk failed.
#[derive(Debug)]
pub struct ChunkOutput {
    /// The bytes to write to the archive.
    pub bytes: Vec<u8>,
    /// The position in the chunk of the first file whose reading failed, if any did.
    /// The run ends with that file's error once `bytes` is written.
    pub failed_at: Option<usize>,
}

/// Puts the results of one chunk together, by position and not by time of completion.
///
/// Where every file was read, the bytes are the framed messages in the order of the
/// chunk. Where one failed, they are the framed messages that stand before the first
/// failure, and the position of that failure is reported.
pub fn gather_chunk<E>(results: &Vec<Result<Vec<u8>, E>>) -> (out: ChunkOutput)
    ensures
        match out.failed_at {
            Some(at) => is_first_failure(results@, at as int) && out.bytes@ == joined(
                contents_of(results@.take(at as int)),
            ),
            None => all_succeeded(results@) && out.bytes@ == joined(contents_of(results@)),
        },
{
    let mut bytes: Vec<u8> = Vec::new();
    let mut i: usize = 0;
    while i < results.len()
        invariant
            i <= results.len(),
            forall|j: int| 0 <= j < i ==> results@[j] is Ok,
            bytes@ == joined(contents_of(results@.take(i as int))),
        decreases results.len() - i,
    {
        match &results[i] {
            Ok(content) => {
                proof {
                    let longer = contents_of(results@.take(i + 1));
                    assert(longer.drop_last() =~= contents_of(results@.take(i as int)));
                    assert(longer.last() == content@);
                }
                bytes.extend_from_slice(content.as_slice());
            },
            Err(_) => {
                return ChunkOutput { bytes, failed_at: Some(i) };
            },
        }
        i += 1;
    }
    proof {
        assert(results@.take(i as int) =~= results@);
    }
    ChunkOutput { bytes, failed_at: None }
}

/// The position at which the chunk that starts at `start` ends, in a batch of `total` files.
pub open spec fn chunk_end(total: nat, start: nat) -> nat {
    if total - start > CHUNK_SIZE {
        start + CHUNK_SIZE as nat
    } else {
        total
    }
}

/// Whether progress is reported once `processed` files of `total` are done.
pub open spec fn progress_due(total: nat, processed: nat) -> bool {
    total > PROGRESS_INTERVAL && processed % (PROGRESS_INTERVAL as nat) == 0
}

/// The number of files written once `chunks` chunks of a batch of `total` files are written.
pub open spec fn processed_after(total: nat, chunks: nat) -> nat
    decreases chunks,
{
    if chunks == 0 {
        0
    } else {
        chunk_end(total, processed_after(total, (chunks - 1) as nat))
    }
}

/// The chunks of a batch are its consecutive runs of `CHUNK_SIZE` files, the last one
/// shorter where the batch ends: after `chunks` chunks, the first `chunks * CHUNK_SIZE`
/// files are written, or all of them where the batch holds no more.
pub proof fn lemma_chunks_cover_batch_in_order(total: nat, chunks: nat)
    ensures
        processed_after(total, chunks) == (if chunks * CHUNK_SIZE < total {
            chunks * CHUNK_SIZE
        } else {
            total as int
        }),
        processed_after(total, chunks) <= total,
    decreases chunks,
{
    if chunks > 0 {
        lemma_chunks_cover_batch_in_order(total, (chunks - 1) as nat);
        assert((chunks - 1) * CHUNK_SIZE + CHUNK_SIZE == chunks * CHUNK_SIZE) by (nonlinear_arith);
    }
}

/// Writing a chunk keeps the order of the batch: where the archive holds the first
/// `processed` messages of the batch, one after another, then after the next chunk is
/// written behind them it holds the messages up to the end of that chunk, one after another.
pub proof fn lemma_chunk_extends_archive_in_order(messages: Seq<Seq<u8>>, processed: nat)
    requires
        processed <= messages.len(),
    ensures
        joined(messages.take(processed as int)) + joined(
            messages.subrange(processed as int, chunk_end(messages.len(), processed) as int),
        ) == joined(messages.take(chunk_end(messages.len(), processed) as int)),
{
    let end = chunk_end(messages.len(), processed) as int;
    let upto = messages.take(end);
    lemma_joined_in_two(upto, processed as int);
    assert(upto.take(processed as int) =~= messages.take(processed as int));
    assert(upto.skip(processed as int) =~= messages.subrange(processed as int, end));
}

/// What the caller does next in a batch run.
#[derive(Debug, Clone, Copy, PartialEq, Eq, Structural)]
pub enum BatchStep {
    /// Read and frame the files at the batch positions from `start` up to, not
    /// including, `end`, then write them in that order.
    ReadChunk { start: usize, end: usize },
    /// Every file is written: flush the archive and report `total` files converted.
    Finish { total: usize },
}

/// The step that follows once `processed` files of `total` are written.
pub open spec fn step_after(total: nat, processed: nat) -> BatchStep {
    if processed < total {
        BatchStep::ReadChunk { start: processed as usize, end: chunk_end(total, processed) as usize }
    } else {
        BatchStep::Finish { total: total as usize }
    }
}

/// A batch run: how many files the batch holds and how many of them are written.
///
/// A run holds at least one file, and never more written files than files.
#[derive(Debug)]
pub struct BatchRun {
    total: usize,
    processed: usize,
}

impl BatchRun {
    #[verifier::type_invariant]
    spec fn well_formed(self) -> bool {
        0 < self.total && self.processed <= self.total
    }

    /// The number of files in the batch.
    pub closed spec fn total(self) -> nat {
        self.total as nat
    }

    /// The number of files written so far; they are the first of the batch.
    pub closed spec fn processed(self) -> nat {
        self.processed as nat
    }

    /// Starts a run over a batch of `total` files. An empty batch is refused before
    /// anything is opened or written.
    pub fn begin(total: usize) -> (run: Result<BatchRun, MailoxideError>)
        ensures
            total == 0 ==> run == Err::<BatchRun, MailoxideError>(MailoxideError::NoEmlFiles),
            total > 0 ==> run is Ok && run->Ok_0.total() == total && run->Ok_0.processed() == 0,
    {
        if total == 0 {
            Err(MailoxideError::NoEmlFiles)
        } else {
            Ok(BatchRun { total, processed: 0 })
        }
    }

    /// The number of files in the batch.
    pub fn file_count(&self) -> (count: usize)
        ensures
            count == self.total(),
            count > 0,
    {
        proof {
            use_type_invariant(self);
        }
        self.total
    }

    /// The number of files written so far.
    pub fn files_done(&self) -> (count: usize)
        ensures
            count == self.processed(),
            count <= self.total(),
    {
        proof {
            use_type_invariant(self);
        }
        self.processed
    }

    /// Whether the run reports its start: only a large batch does.
    pub fn announces_start(&self) -> (announced: bool)
        ensures
            announced == (self.total() > PROGRESS_INTERVAL),
    {
        self.total > PROGRESS_INTERVAL
    }

    /// What the caller does next: the next chunk, which starts where the last one ended
    /// and holds at most `CHUNK_SIZE` files, or the end of the run.
    pub fn next_step(&self) -> (step: BatchStep)
        ensures
            step == step_after(self.total(), self.processed()),
    {
        proof {
            use_type_invariant(self);
        }
        if self.processed < self.total {
            let end: usize = if self.total - self.processed > CHUNK_SIZE {
                self.processed + CHUNK_SIZE
            } else {
                self.total
            };
            BatchStep::ReadChunk { start: self.processed, end }
        } else {
            BatchStep::Finish { total: self.total }
        }
    }

    /// Records that the chunk of the last step is written. Returns the number of files
    /// done where progress is to be reported: in a large batch, at every multiple of
    /// `PROGRESS_INTERVAL`. Once every file is written, nothing changes any more.
    pub fn chunk_written(&mut self) -> (progress: Option<usize>)
        ensures
            final(self).total() == old(self).total(),
            final(self).processed() == chunk_end(old(self).total(), old(self).processed()),
            old(self).processed() == old(self).total() ==> progress is None,
            old(self).processed() < old(self).total() ==> progress == (if progress_due(
                final(self).total(),
                final(self).processed(),
            ) {
                Some(final(self).processed() as usize)
            } else {
                None
            }),
    {
        proof {
            use_type_invariant(&*self);
        }
        if self.processed == self.total {
            return None;
        }
        let end: usize = if self.total - self.processed > CHUNK_SIZE {
            self.processed + CHUNK_SIZE
        } else {
            self.total
        };
        self.processed = end;
        if self.total > PROGRESS_INTERVAL && end % PROGRESS_INTERVAL == 0 {
            Some(end)
        } else {
            None
        }
    }
}

/// The messages of a batch, each framed at the moment `secs`, in the order of the batch.
pub open spec fn framed_messages(contents: Seq<Vec<u8>>, secs: nat) -> Seq<Seq<u8>> {
    Seq::new(contents.len(), |i: int| framed(contents[i]@, secs))
}

/// The archive of a batch whose messages are all framed at the moment `secs`: the framed
/// messages one after another, in the order of the batch.
pub open spec fn batch_archive(contents: Seq<Vec<u8>>, secs: nat) -> Seq<u8> {
    joined(framed_messages(contents, secs))
}

fn frame_chunk_at(contents: &Vec<Vec<u8>>, start: usize, end: usize, secs: u64) -> (results: Vec<
    Result<Vec<u8>, MailoxideError>,
>)
    requires
        start <= end <= contents.len(),
    ensures
        all_succeeded(results@),
        contents_of(results@) == framed_messages(contents@, secs as nat).subrange(
            start as int,
            end as int,
        ),
{
    let mut results: Vec<Result<Vec<u8>, MailoxideError>> = Vec::new();
    let mut i: usize = start;
    while i < end
        invariant
            start <= i <= end <= contents.len(),
            results@.len() == i - start,
            forall|j: int|
                0 <= j < results@.len() ==> (#[trigger] results@[j]) is Ok && content_of(
                    results@[j],
                ) == framed(contents@[start + j]@, secs as nat),
        decreases end - i,
    {
        let message = frame_at(contents[i].as_slice(), secs);
        results.push(Ok(message));
        i += 1;
    }
    proof {
        assert(contents_of(results@) =~= framed_messages(contents@, secs as nat).subrange(
            start as int,
            end as int,
        ));
    }
    results
}

/// Every message of an archive stands behind a delimiter and ends with a line terminator,
/// so that the next delimiter begins a line.
pub proof fn lemma_archive_messages_are_framed(contents: Seq<Vec<u8>>, secs: u64)
    ensures
        framed_messages(contents, secs as nat).len() == contents.len(),
        forall|i: int|
            0 <= i < contents.len() ==> {
                &&& starts_with_from(#[trigger] framed_messages(contents, secs as nat)[i])
                &&& ends_with_newline(framed_messages(contents, secs as nat)[i])
            },
{
    assert forall|i: int| 0 <= i < contents.len() implies {
        &&& starts_with_from(#[trigger] framed_messages(contents, secs as nat)[i])
        &&& ends_with_newline(framed_messages(contents, secs as nat)[i])
    } by {
        lemma_framed_is_delimited_and_terminated(contents[i]@, secs);
    }
}

/// Converts a batch held in memory, with every message framed at the moment `secs`: the
/// run that a caller drives over files, chunk by chunk, with nothing left to the caller.
///
/// An empty batch is refused. Otherwise the archive holds the framed messages one after
/// another, in the order of the batch.
pub fn batch_archive_at(contents: &Vec<Vec<u8>>, secs: u64) -> (archive: Result<
    Vec<u8>,
    MailoxideError,
>)
    ensures
        contents.len() == 0 ==> archive == Err::<Vec<u8>, MailoxideError>(
            MailoxideError::NoEmlFiles,
        ),
        contents.len() > 0 ==> archive is Ok && archive->Ok_0@ == batch_archive(
            contents@,
            secs as nat,
        ),
{
    let mut run = match BatchRun::begin(contents.len()) {
        Ok(run) => run,
        Err(error) => {
            return Err(error);
        },
    };
    let ghost messages = framed_messages(contents@, secs as nat);
    let mut archive: Vec<u8> = Vec::new();
    assert(messages.take(0) =~= Seq::<Seq<u8>>::empty());
    loop
        invariant
            contents.len() > 0,
            run.total() == contents.len(),
            run.processed() <= run.total(),
            messages == framed_messages(contents@, secs as nat),
            archive@ == joined(messages.take(run.processed() as int)),
        decreases run.total() - run.processed(),
    {
        match run.next_step() {
            BatchStep::ReadChunk { start, end } => {
                let results = frame_chunk_at(contents, start, end, secs);
                let output = gather_chunk(&results);
                proof {
                    lemma_chunk_extends_archive_in_order(messages, run.processed());
                    if output.failed_at is Some {
                        assert(results@[output.failed_at->Some_0 as int] is Ok);
                    }
                }
                archive.extend_from_slice(output.bytes.as_slice());
                run.chunk_written();
            },
            BatchStep::Finish { total } => {
                proof {
                    assert(messages.take(run.processed() as int) =~= messages);
                }
                return Ok(archive);
            },
        }
    }
}

} // verus!
