//! Copying the bytes of one file, chunk by chunk.

use vstd::prelude::*;

use super::OsFailure;

verus! {

/// The length of a chunk, in bytes.
pub const CHUNK_BYTES: usize = 1048576;

/// The work that is due.
#[derive(Debug)]
pub enum ChunkStep {
    /// Open the file.
    OpenSource,
    /// Create its copy.
    CreateTarget,
    /// Wait as long as the work is paused.
    WaitWhilePaused,
    /// Read the next bytes, at most a chunk of them.
    Read,
    /// Write the bytes that were read.
    Write { bytes: u64 },
    /// Report them as progress.
    Report { bytes: u64 },
    /// Write what is still held back.
    Flush,
    /// Give the copy the time at which the file was changed; failures do not matter.
    StampTime,
    /// Nothing.
    Finished(Result<(), OsFailure>),
}

/// What came of the work.
#[derive(Debug)]
pub enum ChunkReply {
    Done,
    Failed(OsFailure),
    Bytes(u64),
}

impl ChunkStep {
    /// Whether `reply` is an answer to the work of this step; no more than a chunk is read at
    /// a time.
    pub open spec fn accepts(self, reply: ChunkReply) -> bool {
        match self {
            ChunkStep::Read => match reply {
                ChunkReply::Bytes(bytes) => bytes <= CHUNK_BYTES,
                ChunkReply::Failed(_) => true,
                ChunkReply::Done => false,
            },
            ChunkStep::OpenSource
            | ChunkStep::CreateTarget
            | ChunkStep::Write { .. }
            | ChunkStep::Flush => reply is Done || reply is Failed,
            ChunkStep::WaitWhilePaused
            | ChunkStep::Report { .. }
            | ChunkStep::StampTime => reply is Done,
            ChunkStep::Finished(_) => false,
        }
    }

    /// The step that follows this one when its work came to `reply`: every failure ends the
    /// copy, and reading nothing means the end of the file.
    pub open spec fn after(self, reply: ChunkReply) -> ChunkStep {
        match (self, reply) {
            (ChunkStep::Finished(result), _) => ChunkStep::Finished(result),
            (_, ChunkReply::Failed(failure)) => ChunkStep::Finished(Err(failure)),
            (ChunkStep::OpenSource, _) => ChunkStep::CreateTarget,
            (ChunkStep::CreateTarget, _) => ChunkStep::WaitWhilePaused,
            (ChunkStep::WaitWhilePaused, _) => ChunkStep::Read,
            (ChunkStep::Read, _) => if reply->Bytes_0 == 0 {
                ChunkStep::Flush
            } else {
                ChunkStep::Write { bytes: reply->Bytes_0 }
            },
            (ChunkStep::Write { bytes }, _) => ChunkStep::Report { bytes },
            (ChunkStep::Report { .. }, _) => ChunkStep::WaitWhilePaused,
            (ChunkStep::Flush, _) => ChunkStep::StampTime,
            (ChunkStep::StampTime, _) => ChunkStep::Finished(Ok(())),
        }
    }

    /// The step with which the work begins.
    pub fn start() -> (r: ChunkStep)
        ensures
            r == ChunkStep::OpenSource,
            r == chunk_run(Seq::empty()),
    {
        ChunkStep::OpenSource
    }

    /// Takes what came of the work to the next step.
    pub fn next(self, reply: ChunkReply) -> (r: ChunkStep)
        requires
            self.accepts(reply),
        ensures
            r == self.after(reply),
    {
        let bytes_read: u64 = match reply {
            ChunkReply::Failed(failure) => {
                return ChunkStep::Finished(Err(failure));
            },
            ChunkReply::Bytes(bytes) => bytes,
            ChunkReply::Done => 0,
        };
        match self {
            ChunkStep::OpenSource => ChunkStep::CreateTarget,
            ChunkStep::CreateTarget => ChunkStep::WaitWhilePaused,
            ChunkStep::WaitWhilePaused => ChunkStep::Read,
            ChunkStep::Read => {
                if bytes_read == 0 {
                    ChunkStep::Flush
                } else {
                    ChunkStep::Write { bytes: bytes_read }
                }
            },
            ChunkStep::Write { bytes } => ChunkStep::Report { bytes },
            ChunkStep::Report { .. } => ChunkStep::WaitWhilePaused,
            ChunkStep::Flush => ChunkStep::StampTime,
            ChunkStep::StampTime => ChunkStep::Finished(Ok(())),
            ChunkStep::Finished(result) => ChunkStep::Finished(result),
        }
    }
}

/// The step that is reached from the start by `replies`.
pub open spec fn chunk_run(replies: Seq<ChunkReply>) -> ChunkStep
    decreases replies.len(),
{
    if replies.len() == 0 {
        ChunkStep::OpenSource
    } else {
        chunk_run(replies.drop_last()).after(replies.last())
    }
}

/// Whether each of `replies` answers the work that was due.
pub open spec fn chunk_answers(replies: Seq<ChunkReply>) -> bool
    decreases replies.len(),
{
    replies.len() == 0 || {
        &&& chunk_answers(replies.drop_last())
        &&& chunk_run(replies.drop_last()).accepts(replies.last())
    }
}

/// The bytes that were read, written and reported.
pub struct Totals {
    pub read: nat,
    pub written: nat,
    pub reported: nat,
}

/// The bytes that were read, written and reported while the work came to `replies`.
pub open spec fn totals(replies: Seq<ChunkReply>) -> Totals
    decreases replies.len(),
{
    if replies.len() == 0 {
        Totals { read: 0, written: 0, reported: 0 }
    } else {
        let before = totals(replies.drop_last());
        match (chunk_run(replies.drop_last()), replies.last()) {
            (ChunkStep::Read, ChunkReply::Bytes(bytes)) => Totals {
                read: before.read + bytes as nat,
                ..before
            },
            (ChunkStep::Write { bytes }, ChunkReply::Done) => Totals {
                written: before.written + bytes as nat,
                ..before
            },
            (ChunkStep::Report { bytes }, _) => Totals {
                reported: before.reported + bytes as nat,
                ..before
            },
            _ => before,
        }
    }
}

/// When a file is copied, every byte that was read was written and reported as progress,
/// none of them twice; and never are more bytes reported than written, or written than read.
pub proof fn law_every_byte_is_reported(replies: Seq<ChunkReply>)
    requires
        chunk_answers(replies),
    ensures
        totals(replies).reported <= totals(replies).written <= totals(replies).read,
        match chunk_run(replies) {
            ChunkStep::Write { bytes } => totals(replies).read == totals(replies).written + bytes
                && totals(replies).written == totals(replies).reported,
            ChunkStep::Report { bytes } => totals(replies).read == totals(replies).written
                && totals(replies).written == totals(replies).reported + bytes,
            ChunkStep::Finished(Err(_)) => true,
            _ => totals(replies).read == totals(replies).written && totals(replies).written
                == totals(replies).reported,
        },
    decreases replies.len(),
{
    if replies.len() > 0 {
        law_every_byte_is_reported(replies.drop_last());
    }
}

/// Every report of progress is of at least one byte and of at most a chunk, so nothing is
/// reported of an empty file.
pub proof fn law_report_fits_chunk(replies: Seq<ChunkReply>)
    requires
        chunk_answers(replies),
    ensures
        match chunk_run(replies) {
            ChunkStep::Write { bytes } | ChunkStep::Report { bytes } => 1 <= bytes
                <= CHUNK_BYTES,
            _ => true,
        },
    decreases replies.len(),
{
    if replies.len() > 0 {
        law_report_fits_chunk(replies.drop_last());
    }
}

/// A file that is being copied.
pub struct ChunkDisk {
    /// The bytes of the file. They do not change meanwhile.
    pub source: Seq<u8>,
    /// What stands where the copy goes to, `None` where nothing does.
    pub target: Option<Seq<u8>>,
    /// How many bytes of the file have been read.
    pub position: int,
    /// The bytes that were read last.
    pub chunk: Seq<u8>,
}

/// What the work of `step` does to the disk when it came to `reply`.
///
/// Creating the copy leaves nothing of what stood there, a read gives the next bytes of the
/// file and none only at its end, and a write that worked appends what was read.
pub open spec fn chunk_effect(
    step: ChunkStep,
    reply: ChunkReply,
    before: ChunkDisk,
    after: ChunkDisk,
) -> bool {
    match step {
        ChunkStep::CreateTarget => {
            &&& after == ChunkDisk { target: after.target, ..before }
            &&& reply is Done ==> after.target == Some(Seq::<u8>::empty())
        },
        ChunkStep::Read => match reply {
            ChunkReply::Bytes(bytes) => {
                let end = before.position + bytes;
                &&& end <= before.source.len()
                &&& bytes == 0 ==> before.position == before.source.len()
                &&& after == ChunkDisk {
                    position: end,
                    chunk: before.source.subrange(before.position, end),
                    ..before
                }
            },
            _ => after == before,
        },
        ChunkStep::Write { .. } => {
            &&& after == ChunkDisk { target: after.target, ..before }
            &&& reply is Done && before.target is Some ==> after.target == Some(
                before.target->0 + before.chunk,
            )
        },
        _ => after == before,
    }
}

/// Whether the disk can have gone through `disks` while the work came to `replies`.
pub open spec fn chunk_history(replies: Seq<ChunkReply>, disks: Seq<ChunkDisk>) -> bool {
    &&& disks.len() == replies.len() + 1
    &&& disks[0].position == 0
    &&& chunk_answers(replies)
    &&& forall|i: int|
        0 <= i < replies.len() ==> chunk_effect(
            chunk_run(replies.take(i)),
            replies[i],
            disks[i],
            #[trigger] disks[i + 1],
        )
}

/// What is read, written and reported while `step` is due.
pub open spec fn chunk_keeps(
    step: ChunkStep,
    first: ChunkDisk,
    disk: ChunkDisk,
    reported: nat,
) -> bool {
    let read = disk.source.take(disk.position);
    &&& disk.source == first.source
    &&& 0 <= disk.position <= disk.source.len()
    &&& match step {
        ChunkStep::OpenSource | ChunkStep::CreateTarget => disk == first && reported == 0,
        ChunkStep::WaitWhilePaused | ChunkStep::Read => disk.target == Some(read) && reported
            == disk.position,
        ChunkStep::Write { bytes } => {
            &&& bytes == disk.chunk.len()
            &&& bytes <= disk.position
            &&& disk.chunk == disk.source.subrange(disk.position - bytes, disk.position)
            &&& disk.target == Some(disk.source.take(disk.position - bytes))
            &&& reported == disk.position - bytes
        },
        ChunkStep::Report { bytes } => disk.target == Some(read) && reported == disk.position
            - bytes,
        ChunkStep::Flush | ChunkStep::StampTime | ChunkStep::Finished(Ok(_)) => disk.target
            == Some(disk.source) && reported == disk.source.len(),
        ChunkStep::Finished(Err(_)) => true,
    }
}

proof fn lemma_shorter_history(replies: Seq<ChunkReply>, disks: Seq<ChunkDisk>)
    requires
        chunk_history(replies, disks),
        replies.len() > 0,
    ensures
        chunk_history(replies.drop_last(), disks.drop_last()),
{
    let shorter = replies.drop_last();
    assert forall|i: int| 0 <= i < shorter.len() implies chunk_effect(
        chunk_run(shorter.take(i)),
        shorter[i],
        disks.drop_last()[i],
        #[trigger] disks.drop_last()[i + 1],
    ) by {
        assert(shorter.take(i) =~= replies.take(i));
        assert(disks[i + 1] == disks.drop_last()[i + 1]);
    }
}

/// A copy that ends well is exact: it holds the bytes of the file and nothing else, and as
/// many bytes were reported as the file has, and last the time of change was passed on. The
/// file itself stays as it is.
pub proof fn law_copy_is_exact(replies: Seq<ChunkReply>, disks: Seq<ChunkDisk>)
    requires
        chunk_history(replies, disks),
    ensures
        chunk_keeps(chunk_run(replies), disks[0], disks.last(), totals(replies).reported),
        chunk_run(replies) matches ChunkStep::Finished(Ok(_)) ==> disks.last().target == Some(
            disks[0].source,
        ) && totals(replies).reported == disks[0].source.len() && chunk_run(replies.drop_last())
            is StampTime,
        disks.last().source == disks[0].source,
    decreases replies.len(),
{
    if replies.len() > 0 {
        let shorter = replies.drop_last();
        let n = shorter.len() as int;
        lemma_shorter_history(replies, disks);
        law_copy_is_exact(shorter, disks.drop_last());
        assert(replies.take(n) =~= shorter);
        assert(disks[n + 1] == disks.last());
        assert(disks.drop_last().last() == disks[n]);
        let before = disks[n];
        match chunk_run(shorter) {
            ChunkStep::CreateTarget => {
                assert(before.source.take(0) =~= Seq::<u8>::empty());
            },
            ChunkStep::Read => {
                assert(before.source.take(before.source.len() as int) =~= before.source);
            },
            ChunkStep::Write { bytes } => {
                assert(before.source.take(before.position - bytes) + before.chunk
                    =~= before.source.take(before.position));
            },
            _ => {},
        }
    }
}

/// A file that cannot be opened is not copied: the place of the copy is not touched.
pub proof fn law_unopened_file_leaves_target(replies: Seq<ChunkReply>, disks: Seq<ChunkDisk>)
    requires
        chunk_history(replies, disks),
        replies.len() > 0,
        replies[0] is Failed,
    ensures
        replies.len() == 1,
        chunk_run(replies) == ChunkStep::Finished(Err(replies[0]->Failed_0)),
        disks.last() == disks[0],
        totals(replies).reported == 0,
    decreases replies.len(),
{
    assert(replies.take(0) =~= Seq::<ChunkReply>::empty());
    let first: int = 0;
    assert(disks[first + 1] == disks[1]);
    if replies.len() == 1 {
        assert(replies.drop_last() =~= Seq::<ChunkReply>::empty());
        assert(totals(replies.drop_last()).reported == 0);
    } else {
        let shorter = replies.drop_last();
        lemma_shorter_history(replies, disks);
        law_unopened_file_leaves_target(shorter, disks.drop_last());
    }
}

/// A pause is kept before every chunk: nothing is read but right after waiting for the pause
/// to end.
pub proof fn law_pause_comes_before_every_chunk(replies: Seq<ChunkReply>)
    requires
        chunk_answers(replies),
        chunk_run(replies) is Read,
    ensures
        replies.len() > 0,
        chunk_run(replies.drop_last()) is WaitWhilePaused,
{
}

/// No step is due without its cause: what is written is what was read, what is reported is
/// what was written, the end of the file is where nothing is read, and a failure that ends the
/// copy is that of its last step.
pub proof fn law_chunk_step_has_cause(step: ChunkStep, reply: ChunkReply)
    requires
        step.accepts(reply),
    ensures
        match step.after(reply) {
            ChunkStep::OpenSource => false,
            ChunkStep::CreateTarget => step is OpenSource && reply is Done,
            ChunkStep::WaitWhilePaused => (step is CreateTarget || step is Report) && reply
                is Done,
            ChunkStep::Read => step is WaitWhilePaused,
            ChunkStep::Write { bytes } => step is Read && reply == ChunkReply::Bytes(bytes)
                && bytes > 0,
            ChunkStep::Report { bytes } => step == (ChunkStep::Write { bytes }) && reply is Done,
            ChunkStep::Flush => step is Read && reply == ChunkReply::Bytes(0),
            ChunkStep::StampTime => step is Flush && reply is Done,
            ChunkStep::Finished(Ok(_)) => step is StampTime,
            ChunkStep::Finished(Err(failure)) => reply == ChunkReply::Failed(failure),
        },
{
}

/// Every failure ends the copy at once, and is what the copy comes to.
pub proof fn law_chunk_failure_ends_copy(step: ChunkStep, failure: OsFailure)
    requires
        step.accepts(ChunkReply::Failed(failure)),
    ensures
        step.after(ChunkReply::Failed(failure)) == ChunkStep::Finished(Err(failure)),
{
}

/// The replies when the file is read in pieces of the given lengths and nothing fails.
pub open spec fn smooth_replies(pieces: Seq<u64>) -> Seq<ChunkReply>
    decreases pieces.len(),
{
    if pieces.len() == 0 {
        seq![ChunkReply::Done, ChunkReply::Done]
    } else {
        smooth_replies(pieces.drop_last()) + seq![
            ChunkReply::Done,
            ChunkReply::Bytes(pieces.last()),
            ChunkReply::Done,
            ChunkReply::Done,
        ]
    }
}

proof fn lemma_chunk_run_adds(replies: Seq<ChunkReply>, more: Seq<ChunkReply>)
    requires
        more.len() == 4,
    ensures
        chunk_run(replies + more) == chunk_run(replies).after(more[0]).after(more[1]).after(
            more[2],
        ).after(more[3]),
{
    let all = replies + more;
    assert(all.drop_last() =~= replies + more.take(3));
    assert(all.drop_last().drop_last() =~= replies + more.take(2));
    assert(all.drop_last().drop_last().drop_last() =~= replies + more.take(1));
    assert(all.drop_last().drop_last().drop_last().drop_last() =~= replies);
    reveal_with_fuel(chunk_run, 5);
}

proof fn lemma_pieces_are_copied(pieces: Seq<u64>)
    requires
        forall|i: int| 0 <= i < pieces.len() ==> 1 <= #[trigger] pieces[i] <= CHUNK_BYTES,
    ensures
        chunk_run(smooth_replies(pieces)) is WaitWhilePaused,
    decreases pieces.len(),
{
    if pieces.len() == 0 {
        let begin = smooth_replies(pieces);
        assert(begin.drop_last().drop_last() =~= Seq::<ChunkReply>::empty());
        reveal_with_fuel(chunk_run, 3);
    } else {
        lemma_pieces_are_copied(pieces.drop_last());
        assert(pieces[pieces.len() - 1] >= 1);
        lemma_chunk_run_adds(
            smooth_replies(pieces.drop_last()),
            seq![
                ChunkReply::Done,
                ChunkReply::Bytes(pieces.last()),
                ChunkReply::Done,
                ChunkReply::Done,
            ],
        );
    }
}

/// A copy in which nothing fails succeeds, in however many pieces the file is read: it goes on
/// after each piece, and ends when nothing more is read.
pub proof fn law_smooth_copy_succeeds(pieces: Seq<u64>)
    requires
        forall|i: int| 0 <= i < pieces.len() ==> 1 <= #[trigger] pieces[i] <= CHUNK_BYTES,
    ensures
        chunk_run(
            smooth_replies(pieces) + seq![
                ChunkReply::Done,
                ChunkReply::Bytes(0),
                ChunkReply::Done,
                ChunkReply::Done,
            ],
        ) == ChunkStep::Finished(Ok(())),
{
    lemma_pieces_are_copied(pieces);
    lemma_chunk_run_adds(
        smooth_replies(pieces),
        seq![ChunkReply::Done, ChunkReply::Bytes(0), ChunkReply::Done, ChunkReply::Done],
    );
}

} // verus!
