//! The output of one transcode, and how readers follow it.
//!
//! A job is written by one producer and read by any number of readers while
//! it is still growing. Bytes are only ever added at the end, so what a
//! reader has seen stays what it was.

use crate::http::Status;
use crate::stream::{plan_of, BodySource, ByteRangeSpec, RangeView, Size};
use vstd::prelude::*;

verus! {

/// Where a job stands.
#[derive(Clone, Copy, Debug, PartialEq, Eq, Structural)]
pub enum JobState {
    /// The transcode is still producing output.
    Running,
    /// All output is there.
    Complete,
    /// The transcode failed. Nothing more will be read from this job.
    Failed,
}

/// The output of a transcode so far.
#[derive(Debug)]
pub struct Job {
    data: Vec<u8>,
    state: JobState,
}

/// What a [`Job`] holds.
pub ghost struct JobView {
    pub data: Seq<u8>,
    pub state: JobState,
}

impl JobView {
    /// What holds of the output of every job: its bytes can be counted.
    pub open spec fn wf(self) -> bool {
        self.data.len() <= u64::MAX
    }
}

/// What a reader gets when it asks a job for more.
#[derive(Debug)]
pub enum ReadStep {
    /// The next bytes of the stream.
    Chunk(Vec<u8>),
    /// The next bytes are not produced yet: ask again when the job has grown.
    Pending,
    /// The reader has had everything it asked for.
    Done,
    /// The transcode failed.
    Failed,
}

/// What a [`ReadStep`] holds.
pub ghost enum StepView {
    Chunk(Seq<u8>),
    Pending,
    Done,
    Failed,
}

impl View for ReadStep {
    type V = StepView;

    open spec fn view(&self) -> StepView {
        match self {
            ReadStep::Chunk(bytes) => StepView::Chunk(bytes@),
            ReadStep::Pending => StepView::Pending,
            ReadStep::Done => StepView::Done,
            ReadStep::Failed => StepView::Failed,
        }
    }
}

/// The size that a job reports: what is there now, and the total once the
/// job is complete.
pub open spec fn size_of(job: JobView) -> Size
    recommends
        job.wf(),
{
    Size {
        available: job.data.len() as u64,
        total: if job.state == JobState::Complete {
            Some(job.data.len() as u64)
        } else {
            None
        },
    }
}

/// The job after its producer has handed over `chunk`. Only a running job
/// grows.
pub open spec fn appended(job: JobView, chunk: Seq<u8>) -> JobView {
    if job.state == JobState::Running {
        JobView { data: job.data + chunk, state: job.state }
    } else {
        job
    }
}

/// The job after the move from `Running` to `state`. A job that has ended
/// stays as it is.
pub open spec fn ended(job: JobView, state: JobState) -> JobView {
    if job.state == JobState::Running {
        JobView { data: job.data, state }
    } else {
        job
    }
}

/// How far a reader that wants the bytes up to `end` can read now.
pub open spec fn readable_end(job: JobView, end: Option<u64>) -> int {
    match end {
        Some(e) => if e < job.data.len() {
            e as int
        } else {
            job.data.len() as int
        },
        None => job.data.len() as int,
    }
}

/// What a reader at `pos` that wants the bytes up to `end` (all of them if
/// `None`) gets, at most `limit` bytes at a time. A limit of 0 is no limit.
///
/// A failed job gives `Failed`, whatever it holds. A reader that has reached
/// its end, or the end of a complete job, is `Done`. Where bytes are ready
/// the reader gets them; only where none is ready yet is it `Pending`.
pub open spec fn read_step(job: JobView, pos: u64, end: Option<u64>, limit: usize) -> StepView {
    if job.state == JobState::Failed {
        StepView::Failed
    } else if end is Some && pos >= end->0 {
        StepView::Done
    } else if pos < job.data.len() {
        let stop = readable_end(job, end);
        StepView::Chunk(job.data.subrange(pos as int, if limit > 0 && pos + limit < stop {
            pos + limit
        } else {
            stop
        }))
    } else if job.state == JobState::Complete {
        StepView::Done
    } else {
        StepView::Pending
    }
}

impl View for Job {
    type V = JobView;

    closed spec fn view(&self) -> JobView {
        JobView { data: self.data@, state: self.state }
    }
}

impl Job {
    /// A job that has just started: running, with no output yet.
    pub fn new() -> (job: Job)
        ensures
            job@ == (JobView { data: Seq::empty(), state: JobState::Running }),
    {
        Job { data: Vec::new(), state: JobState::Running }
    }

    /// Where the job stands.
    pub fn state(&self) -> (state: JobState)
        ensures
            state == self@.state,
    {
        self.state
    }

    /// How much can be read.
    pub fn size(&self) -> (size: Size)
        ensures
            size == size_of(self@),
            self@.wf(),
    {
        let available: u64 = self.data.len() as u64;
        Size {
            available,
            total: match self.state {
                JobState::Complete => Some(available),
                _ => None,
            },
        }
    }

    /// Takes the next output of the transcode.
    pub fn append(&mut self, chunk: &[u8])
        ensures
            final(self)@ == appended(old(self)@, chunk@),
            final(self)@.wf(),
    {
        match self.state {
            JobState::Running => {
                let mut i: usize = 0;
                while i < chunk.len()
                    invariant
                        i <= chunk@.len(),
                        self.state == old(self).state,
                        self.data@ == old(self).data@ + chunk@.subrange(0, i as int),
                    decreases chunk.len() - i,
                {
                    self.data.push(chunk[i]);
                    assert(chunk@.subrange(0, i + 1) =~= chunk@.subrange(0, i as int).push(
                        chunk@[i as int],
                    ));
                    i += 1;
                }
                assert(chunk@.subrange(0, i as int) =~= chunk@);
            },
            _ => {},
        }
        let _ = self.data.len();
    }

    /// Records that the transcode has produced all its output.
    pub fn finish(&mut self)
        ensures
            final(self)@ == ended(old(self)@, JobState::Complete),
    {
        match self.state {
            JobState::Running => {
                self.state = JobState::Complete;
            },
            _ => {},
        }
    }

    /// Records that the transcode has failed.
    pub fn fail(&mut self)
        ensures
            final(self)@ == ended(old(self)@, JobState::Failed),
    {
        match self.state {
            JobState::Running => {
                self.state = JobState::Failed;
            },
            _ => {},
        }
    }

    /// Gives a reader at `pos` its next step. See [`read_step`].
    pub fn read(&self, pos: u64, end: Option<u64>, limit: usize) -> (step: ReadStep)
        ensures
            step@ == read_step(self@, pos, end, limit),
            step@ matches StepView::Chunk(bytes) ==> 0 < bytes.len() && pos + bytes.len()
                <= self@.data.len() <= usize::MAX,
    {
        if let JobState::Failed = self.state {
            return ReadStep::Failed;
        }
        if let Some(e) = end {
            if pos >= e {
                return ReadStep::Done;
            }
        }
        let len: usize = self.data.len();
        if pos < len as u64 {
            let start: usize = pos as usize;
            let mut stop: usize = len;
            if let Some(e) = end {
                if e < len as u64 {
                    stop = e as usize;
                }
            }
            if limit > 0 && limit < stop - start {
                stop = start + limit;
            }
            let mut bytes: Vec<u8> = Vec::new();
            let mut i: usize = start;
            while i < stop
                invariant
                    start <= i <= stop <= self.data@.len(),
                    bytes@ == self.data@.subrange(start as int, i as int),
                decreases stop - i,
            {
                bytes.push(self.data[i]);
                assert(self.data@.subrange(start as int, i + 1) =~= self.data@.subrange(
                    start as int,
                    i as int,
                ).push(self.data@[i as int]));
                i += 1;
            }
            return ReadStep::Chunk(bytes);
        }
        match self.state {
            JobState::Complete => ReadStep::Done,
            _ => ReadStep::Pending,
        }
    }
}

/// A reader of a job: where it stands and where it ends.
#[derive(Clone, Copy, Debug, PartialEq, Eq)]
pub struct Reader {
    pub pos: u64,
    pub end: Option<u64>,
}

impl Reader {
    /// A reader for the body of a response, at its first byte.
    pub fn new(body: BodySource) -> (reader: Reader)
        ensures
            reader == match body {
                BodySource::All => Reader { pos: 0, end: None },
                BodySource::Span { start, end } => Reader { pos: start, end: Some(end) },
            },
    {
        match body {
            BodySource::All => Reader { pos: 0, end: None },
            BodySource::Span { start, end } => Reader { pos: start, end: Some(end) },
        }
    }

    /// Asks the job for more and moves past what it gave.
    pub fn poll(&mut self, job: &Job, limit: usize) -> (step: ReadStep)
        ensures
            step@ == read_step(job@, old(self).pos, old(self).end, limit),
            final(self).end == old(self).end,
            final(self).pos == match step@ {
                StepView::Chunk(bytes) => old(self).pos + bytes.len(),
                _ => old(self).pos as int,
            },
    {
        let step = job.read(self.pos, self.end, limit);
        if let ReadStep::Chunk(bytes) = &step {
            self.pos = self.pos + bytes.len() as u64;
        }
        step
    }
}

/// The chunks that a reader at `pos` gets from a job as it stands, one poll
/// after the other, until it would have to wait or is done.
pub open spec fn stream_of(job: JobView, pos: u64, end: Option<u64>, limit: usize) -> Seq<Seq<u8>>
    decreases job.data.len() - pos,
{
    match read_step(job, pos, end, limit) {
        StepView::Chunk(bytes) => if 0 < bytes.len() && pos + bytes.len() <= u64::MAX {
            seq![bytes] + stream_of(job, (pos + bytes.len()) as u64, end, limit)
        } else {
            Seq::empty()
        },
        _ => Seq::empty(),
    }
}

/// The views of a sequence of chunks.
pub open spec fn chunk_views(chunks: Seq<Vec<u8>>) -> Seq<Seq<u8>> {
    Seq::new(chunks.len(), |i: int| chunks[i]@)
}

impl Job {
    /// Reads what is ready of the bytes from `pos` up to `end`, in chunks of
    /// at most `limit` bytes, or in one chunk if `limit` is 0.
    pub fn read_ready(&self, pos: u64, end: Option<u64>, limit: usize) -> (chunks: Vec<Vec<u8>>)
        ensures
            chunk_views(chunks@) == stream_of(self@, pos, end, limit),
    {
        let mut reader = Reader { pos, end };
        let mut chunks: Vec<Vec<u8>> = Vec::new();
        loop
            invariant
                reader.end == end,
                chunk_views(chunks@) + stream_of(self@, reader.pos, end, limit) == stream_of(
                    self@,
                    pos,
                    end,
                    limit,
                ),
            ensures
                stream_of(self@, reader.pos, end, limit) == Seq::<Seq<u8>>::empty(),
            decreases self@.data.len() - reader.pos,
        {
            let ghost before = chunk_views(chunks@);
            let ghost at = reader.pos;
            match self.read(reader.pos, reader.end, limit) {
                ReadStep::Chunk(bytes) => {
                    reader.pos = reader.pos + bytes.len() as u64;
                    chunks.push(bytes);
                    assert(chunk_views(chunks@) =~= before + seq![bytes@]);
                    assert(chunk_views(chunks@) + stream_of(self@, reader.pos, end, limit)
                        =~= before + stream_of(self@, at, end, limit));
                },
                _ => {
                    break ;
                },
            }
        }
        assert(chunk_views(chunks@) + Seq::<Seq<u8>>::empty() =~= chunk_views(chunks@));
        chunks
    }

    /// Reads what is ready of the bytes from `start` up to `end`, which is not
    /// included.
    pub fn read_range(&self, start: u64, end: u64, limit: usize) -> (chunks: Vec<Vec<u8>>)
        ensures
            chunk_views(chunks@) == stream_of(self@, start, Some(end), limit),
    {
        self.read_ready(start, Some(end), limit)
    }

    /// Reads what is ready of the whole stream.
    pub fn read_all(&self, limit: usize) -> (chunks: Vec<Vec<u8>>)
        ensures
            chunk_views(chunks@) == stream_of(self@, 0, None, limit),
    {
        self.read_ready(0, None, limit)
    }
}

/// Read one after the other, the chunks of a stream are the bytes of the job
/// from the reader's position to where it can read now: in order, with no
/// gap and nothing twice, whatever the limit on a chunk. A job that has
/// failed gives no bytes: every read from it fails.
pub proof fn lemma_stream_is_slice(job: JobView, pos: u64, end: Option<u64>, limit: usize)
    requires
        job.wf(),
        job.state != JobState::Failed,
        pos <= readable_end(job, end),
    ensures
        stream_of(job, pos, end, limit).flatten() == job.data.subrange(
            pos as int,
            readable_end(job, end),
        ),
    decreases job.data.len() - pos,
{
    let stop = readable_end(job, end);
    if end is Some && pos >= end->0 {
        assert(job.data.subrange(pos as int, stop) =~= Seq::<u8>::empty());
    } else if pos < job.data.len() {
        let next = if limit > 0 && pos + limit < stop {
            pos + limit
        } else {
            stop
        };
        let bytes = job.data.subrange(pos as int, next);
        let rest = stream_of(job, next as u64, end, limit);
        lemma_stream_is_slice(job, next as u64, end, limit);
        assert((seq![bytes] + rest).drop_first() =~= rest);
        assert(bytes + job.data.subrange(next, stop) =~= job.data.subrange(pos as int, stop));
    } else {
        assert(job.data.subrange(pos as int, stop) =~= Seq::<u8>::empty());
    }
}

/// A range `first-last` that lies within what is ready is answered with
/// status 206 and a length of `last - first + 1`, and the body streamed for
/// it is exactly that many bytes: those of the job from `first` to `last`.
/// They are the same bytes of whatever the job grows into. This holds of
/// every job but a failed one, from which every read fails.
pub proof fn lemma_range_body(job: JobView, first: u64, last: u64, limit: usize, more: Seq<u8>)
    requires
        job.wf(),
        job.state != JobState::Failed,
        first <= last < job.data.len(),
    ensures
        ({
            let range = Some(RangeView::Bytes(seq![ByteRangeSpec::FromTo(first, last)]));
            let plan = plan_of(range, size_of(job));
            let body = stream_of(job, first, Some((last + 1) as u64), limit).flatten();
            &&& plan.status == Status::PartialContent
            &&& plan.content_length == Some((last - first + 1) as u64)
            &&& plan.body == (BodySource::Span { start: first, end: (last + 1) as u64 })
            &&& body.len() == last - first + 1
            &&& body == job.data.subrange(first as int, last + 1)
            &&& body == appended(job, more).data.subrange(first as int, last + 1)
        }),
{
    lemma_stream_is_slice(job, first, Some((last + 1) as u64), limit);
    assert(appended(job, more).data.subrange(first as int, last + 1) =~= job.data.subrange(
        first as int,
        last + 1,
    ));
}

} // verus!
