//! Streaming fetch of the artifact, as a machine the host drives.
//!
//! A `Transfer` names the one operation that is in flight. The host performs
//! it, reports the `Outcome`, and `download_file` answers with what comes next:
//! another operation, completion, or the error that ends the download.

use vstd::prelude::*;
use vstd::string::StringExecFns;

verus! {

/// Why a download was given up.
#[derive(Clone, Copy, Debug, PartialEq, Eq, Structural)]
pub enum DownloadError {
    /// The request could not be sent or no response came back.
    Request,
    /// The response does not declare the length of its body.
    ContentLength,
    /// The destination file could not be created.
    CreateFile,
    /// The body broke off while a chunk was awaited.
    Chunk,
    /// A chunk could not be written to the destination.
    Write,
}

impl DownloadError {
    /// The text that describes this error for a download from `url` to `path`.
    pub open spec fn message_text(self, url: Seq<char>, path: Seq<char>) -> Seq<char> {
        match self {
            DownloadError::Request => "Failed to GET from '"@ + url + "'"@,
            DownloadError::ContentLength => "Failed to get content length from '"@ + url + "'"@,
            DownloadError::CreateFile => "Failed to create file '"@ + path + "'"@,
            DownloadError::Chunk => "Error while downloading file"@,
            DownloadError::Write => "Error while writing to file"@,
        }
    }

    /// Describes this error for a download from `url` to `path`.
    pub fn message(&self, url: &str, path: &str) -> (text: String)
        ensures
            text@ == self.message_text(url@, path@),
    {
        match self {
            DownloadError::Request => quoted("Failed to GET from '", url),
            DownloadError::ContentLength => quoted("Failed to get content length from '", url),
            DownloadError::CreateFile => quoted("Failed to create file '", path),
            DownloadError::Chunk => String::from_str("Error while downloading file"),
            DownloadError::Write => String::from_str("Error while writing to file"),
        }
    }
}

/// `lead`, then `name`, then a closing quote.
fn quoted(lead: &str, name: &str) -> (text: String)
    ensures
        text@ == lead@ + name@ + "'"@,
{
    let mut text = String::from_str(lead);
    text.append(name);
    text.append("'");
    text
}

/// A download in progress: the operation the host has to perform next.
#[derive(Clone, Copy, Debug, PartialEq, Eq, Structural)]
pub enum Transfer {
    /// Send the request and wait for the head of the response.
    Requesting,
    /// The response declared `total` bytes; create or truncate the destination.
    Creating { total: u64 },
    /// Wait for the next chunk of the body.
    Receiving { total: u64, downloaded: u64 },
    /// Write the chunk of `chunk` bytes that just arrived.
    Writing { total: u64, downloaded: u64, chunk: u64 },
}

/// What the host reports once the operation in flight has ended.
#[derive(Clone, Copy, Debug, PartialEq, Eq, Structural)]
pub enum Outcome {
    /// The operation failed.
    Failed,
    /// The head of the response arrived, with the body length it declares.
    Response { content_length: Option<u64> },
    /// The destination exists and is empty.
    Created,
    /// A chunk of `len` bytes arrived.
    Chunk { len: u64 },
    /// The chunk was written in full.
    Written,
    /// The body ended.
    EndOfBody,
}

/// Where a download stands after an outcome was taken in.
#[derive(Clone, Copy, Debug, PartialEq, Eq, Structural)]
pub enum Progress {
    /// The download goes on with the given operation.
    Pending(Transfer),
    /// The body was written in full; `downloaded` of the `total` declared
    /// bytes were counted.
    Complete { total: u64, downloaded: u64 },
    /// The download was given up.
    Failed(DownloadError),
}

/// The count after `chunk` more bytes: the sum, capped at the declared total.
pub open spec fn counted(downloaded: int, chunk: int, total: int) -> int {
    if downloaded + chunk < total {
        downloaded + chunk
    } else {
        total
    }
}

impl Transfer {
    /// The count never exceeds the declared total.
    pub open spec fn wf(self) -> bool {
        match self {
            Transfer::Receiving { total, downloaded } => downloaded <= total,
            Transfer::Writing { total, downloaded, .. } => downloaded <= total,
            _ => true,
        }
    }

    /// Where the download stands once `outcome` is taken in. An outcome that
    /// does not answer the operation in flight changes nothing.
    pub open spec fn advance(self, outcome: Outcome) -> Progress {
        match (self, outcome) {
            (Transfer::Requesting, Outcome::Failed) => Progress::Failed(DownloadError::Request),
            (Transfer::Requesting, Outcome::Response { content_length: None }) => Progress::Failed(
                DownloadError::ContentLength,
            ),
            (
                Transfer::Requesting,
                Outcome::Response { content_length: Some(total) },
            ) => Progress::Pending(Transfer::Creating { total }),
            (Transfer::Creating { .. }, Outcome::Failed) => Progress::Failed(
                DownloadError::CreateFile,
            ),
            (Transfer::Creating { total }, Outcome::Created) => Progress::Pending(
                Transfer::Receiving { total, downloaded: 0 },
            ),
            (Transfer::Receiving { .. }, Outcome::Failed) => Progress::Failed(DownloadError::Chunk),
            (Transfer::Receiving { total, downloaded }, Outcome::Chunk { len }) => Progress::Pending(
                Transfer::Writing { total, downloaded, chunk: len },
            ),
            (Transfer::Receiving { total, downloaded }, Outcome::EndOfBody) => Progress::Complete {
                total,
                downloaded,
            },
            (Transfer::Writing { .. }, Outcome::Failed) => Progress::Failed(DownloadError::Write),
            (Transfer::Writing { total, downloaded, chunk }, Outcome::Written) => Progress::Pending(
                Transfer::Receiving {
                    total,
                    downloaded: counted(downloaded as int, chunk as int, total as int) as u64,
                },
            ),
            _ => Progress::Pending(self),
        }
    }
}

impl Progress {
    /// The count never exceeds the declared total.
    pub open spec fn wf(self) -> bool {
        match self {
            Progress::Pending(transfer) => transfer.wf(),
            Progress::Complete { total, downloaded } => downloaded <= total,
            Progress::Failed(_) => true,
        }
    }

    /// Whether the destination file may have been created or written to.
    pub open spec fn touched_destination(self) -> bool {
        match self {
            Progress::Pending(Transfer::Requesting) => false,
            Progress::Failed(DownloadError::Request) => false,
            Progress::Failed(DownloadError::ContentLength) => false,
            _ => true,
        }
    }
}

/// Takes the outcome of the operation in flight into a download.
///
/// The request comes first; a response without a declared length ends the
/// download before the destination is created, and nothing but a response
/// that declares one leads on to the destination. Then the destination is
/// created, and chunks are awaited and written in arrival order while the
/// count of bytes grows, capped at the declared total. Any failure ends the
/// download with the error of the operation that failed. An outcome that does
/// not answer the operation in flight is ignored.
pub fn download_file(transfer: Transfer, outcome: Outcome) -> (progress: Progress)
    ensures
        progress == transfer.advance(outcome),
        transfer.wf() ==> progress.wf(),
        transfer is Requesting && outcome == (Outcome::Response { content_length: None })
            ==> progress == Progress::Failed(DownloadError::ContentLength),
        transfer is Requesting && !declares_length(outcome) ==> !progress.touched_destination(),
{
    match transfer {
        Transfer::Requesting => match outcome {
            Outcome::Failed => Progress::Failed(DownloadError::Request),
            Outcome::Response { content_length: None } => Progress::Failed(
                DownloadError::ContentLength,
            ),
            Outcome::Response { content_length: Some(total) } => Progress::Pending(
                Transfer::Creating { total },
            ),
            _ => Progress::Pending(transfer),
        },
        Transfer::Creating { total } => match outcome {
            Outcome::Failed => Progress::Failed(DownloadError::CreateFile),
            Outcome::Created => Progress::Pending(Transfer::Receiving { total, downloaded: 0 }),
            _ => Progress::Pending(transfer),
        },
        Transfer::Receiving { total, downloaded } => match outcome {
            Outcome::Failed => Progress::Failed(DownloadError::Chunk),
            Outcome::Chunk { len } => Progress::Pending(
                Transfer::Writing { total, downloaded, chunk: len },
            ),
            Outcome::EndOfBody => Progress::Complete { total, downloaded },
            _ => Progress::Pending(transfer),
        },
        Transfer::Writing { total, downloaded, chunk } => match outcome {
            Outcome::Failed => Progress::Failed(DownloadError::Write),
            Outcome::Written => {
                let counted: u64 = if downloaded < total && chunk < total - downloaded {
                    downloaded + chunk
                } else {
                    total
                };
                Progress::Pending(Transfer::Receiving { total, downloaded: counted })
            },
            _ => Progress::Pending(transfer),
        },
    }
}

/// Where a download stands after the outcomes of `outcomes` were taken in one
/// after the other, starting from `transfer`. Nothing is taken in once the
/// download is complete or given up.
pub open spec fn replay(transfer: Transfer, outcomes: Seq<Outcome>) -> Progress
    decreases outcomes.len(),
{
    if outcomes.len() == 0 {
        Progress::Pending(transfer)
    } else {
        match transfer.advance(outcomes[0]) {
            Progress::Pending(next) => replay(next, outcomes.drop_first()),
            ended => ended,
        }
    }
}

/// What the host reports while a body of the given chunks arrives and every
/// chunk is written.
pub open spec fn body(chunks: Seq<u64>) -> Seq<Outcome>
    decreases chunks.len(),
{
    if chunks.len() == 0 {
        Seq::empty()
    } else {
        seq![Outcome::Chunk { len: chunks[0] }, Outcome::Written] + body(chunks.drop_first())
    }
}

/// The number of bytes in a body of the given chunks.
pub open spec fn body_len(chunks: Seq<u64>) -> int
    decreases chunks.len(),
{
    if chunks.len() == 0 {
        0
    } else {
        chunks[0] + body_len(chunks.drop_first())
    }
}

/// Whether an outcome is a response that declares the length of its body.
pub open spec fn declares_length(outcome: Outcome) -> bool {
    outcome matches Outcome::Response { content_length: Some(_) }
}

/// Replaying a sequence of outcomes is replaying its first part and then,
/// if the download still goes on, the rest.
pub proof fn lemma_replay_in_two(transfer: Transfer, first: Seq<Outcome>, rest: Seq<Outcome>)
    ensures
        replay(transfer, first + rest) == match replay(transfer, first) {
            Progress::Pending(next) => replay(next, rest),
            ended => ended,
        },
    decreases first.len(),
{
    if first.len() == 0 {
        assert(first + rest =~= rest);
    } else {
        assert((first + rest).drop_first() =~= first.drop_first() + rest);
        match transfer.advance(first[0]) {
            Progress::Pending(next) => lemma_replay_in_two(next, first.drop_first(), rest),
            _ => {},
        }
    }
}

/// Replaying one outcome is taking it in.
proof fn lemma_replay_single(transfer: Transfer, outcome: Outcome)
    ensures
        replay(transfer, seq![outcome]) == transfer.advance(outcome),
{
    let one = seq![outcome];
    assert(one[0] == outcome);
    assert(one.drop_first().len() == 0);
    match transfer.advance(outcome) {
        Progress::Pending(next) => {
            assert(replay(next, one.drop_first()) == Progress::Pending(next));
        },
        _ => {},
    }
}

/// Replaying two outcomes is taking in the first and then, if the download
/// still goes on, the second.
proof fn lemma_replay_pair(transfer: Transfer, first: Outcome, second: Outcome)
    ensures
        replay(transfer, seq![first, second]) == match transfer.advance(first) {
            Progress::Pending(next) => next.advance(second),
            ended => ended,
        },
{
    assert(seq![first, second] =~= seq![first] + seq![second]);
    lemma_replay_single(transfer, first);
    lemma_replay_in_two(transfer, seq![first], seq![second]);
    match transfer.advance(first) {
        Progress::Pending(next) => lemma_replay_single(next, second),
        _ => {},
    }
}

/// Without a response that declares a length, the destination is never
/// created nor written to, whatever else the host reports.
pub proof fn lemma_no_declared_length_no_destination(outcomes: Seq<Outcome>)
    requires
        forall|i: int| 0 <= i < outcomes.len() ==> !declares_length(#[trigger] outcomes[i]),
    ensures
        !replay(Transfer::Requesting, outcomes).touched_destination(),
    decreases outcomes.len(),
{
    if outcomes.len() > 0 {
        assert(!declares_length(outcomes[0]));
        let rest = outcomes.drop_first();
        assert forall|i: int| 0 <= i < rest.len() implies !declares_length(#[trigger] rest[i]) by {
            assert(rest[i] == outcomes[i + 1]);
        }
        lemma_no_declared_length_no_destination(rest);
    }
}

/// While chunks arrive and are written, the count is the number of bytes
/// received so far, capped at the declared total.
pub proof fn lemma_count_is_capped_sum(total: u64, downloaded: u64, chunks: Seq<u64>)
    requires
        downloaded <= total,
    ensures
        replay(Transfer::Receiving { total, downloaded }, body(chunks)) == Progress::Pending(
            Transfer::Receiving {
                total,
                downloaded: counted(downloaded as int, body_len(chunks), total as int) as u64,
            },
        ),
        0 <= body_len(chunks),
    decreases chunks.len(),
{
    let start = Transfer::Receiving { total, downloaded };
    if chunks.len() > 0 {
        let rest = chunks.drop_first();
        let next = counted(downloaded as int, chunks[0] as int, total as int) as u64;
        let head = seq![Outcome::Chunk { len: chunks[0] }, Outcome::Written];
        assert(replay(start, head) == Progress::Pending(
            Transfer::Receiving { total, downloaded: next },
        )) by {
            lemma_replay_pair(start, Outcome::Chunk { len: chunks[0] }, Outcome::Written);
        }
        lemma_replay_in_two(start, head, body(rest));
        lemma_count_is_capped_sum(total, next, rest);
    }
}

/// A download in which every operation succeeds completes, and its count is
/// the length of the body, capped at the length that the response declared.
pub proof fn lemma_undisturbed_download_completes(total: u64, chunks: Seq<u64>)
    ensures
        replay(
            Transfer::Requesting,
            seq![Outcome::Response { content_length: Some(total) }, Outcome::Created] + body(chunks)
                + seq![Outcome::EndOfBody],
        ) == (Progress::Complete {
            total,
            downloaded: counted(0, body_len(chunks), total as int) as u64,
        }),
{
    let head = seq![Outcome::Response { content_length: Some(total) }, Outcome::Created];
    let tail = seq![Outcome::EndOfBody];
    let receiving = Transfer::Receiving { total, downloaded: 0 };
    assert(replay(Transfer::Requesting, head) == Progress::Pending(receiving)) by {
        lemma_replay_pair(
            Transfer::Requesting,
            Outcome::Response { content_length: Some(total) },
            Outcome::Created,
        );
    }
    lemma_count_is_capped_sum(total, 0, chunks);
    let counted_all = counted(0, body_len(chunks), total as int) as u64;
    let at_end = Transfer::Receiving { total, downloaded: counted_all };
    lemma_replay_single(at_end, Outcome::EndOfBody);
    lemma_replay_in_two(receiving, body(chunks), tail);
    assert(head + body(chunks) + tail =~= head + (body(chunks) + tail));
    lemma_replay_in_two(Transfer::Requesting, head, body(chunks) + tail);
}

} // verus!
