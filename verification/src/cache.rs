//! The transcode cache: one job for each combination of item, target format
//! and device, shared by everyone who asks for it.
//!
//! Every method is one step under the cache's lock. The transcode itself
//! runs elsewhere and reports through [`TranscodeCache::append`],
//! [`TranscodeCache::finish`] and [`TranscodeCache::fail`].

use crate::job::{appended, ended, read_step, size_of, Job, JobState, JobView, ReadStep, StepView};
use crate::stream::Size;
use vstd::prelude::*;

verus! {

/// What identifies one output: the item, the format it is turned into, and
/// the device it is for. The cache takes all three as they are; it only
/// tells whether two of them are the same.
#[derive(Debug)]
pub struct TranscodeKey {
    pub item: String,
    pub format: String,
    pub device: String,
}

/// What a [`TranscodeKey`] holds.
pub ghost struct KeyView {
    pub item: Seq<char>,
    pub format: Seq<char>,
    pub device: Seq<char>,
}

impl View for TranscodeKey {
    type V = KeyView;

    open spec fn view(&self) -> KeyView {
        KeyView { item: self.item@, format: self.format@, device: self.device@ }
    }
}

/// Whether two keys are the same.
pub fn same_key(a: &TranscodeKey, b: &TranscodeKey) -> (same: bool)
    ensures
        same == (a@ == b@),
{
    a.item == b.item && a.format == b.format && a.device == b.device
}

/// One job of the cache with what the cache knows of it.
#[derive(Debug)]
struct Slot {
    key: TranscodeKey,
    id: u64,
    job: Job,
    readers: u64,
}

/// One job of the cache: its key, its number, its output so far, and how
/// many handles are attached to it.
pub ghost struct SlotView {
    pub key: KeyView,
    pub id: u64,
    pub job: JobView,
    pub readers: u64,
}

impl View for Slot {
    type V = SlotView;

    closed spec fn view(&self) -> SlotView {
        SlotView { key: self.key@, id: self.id, job: self.job@, readers: self.readers }
    }
}

/// The jobs of a cache, and the number that the next job gets.
pub ghost struct CacheView {
    pub slots: Seq<SlotView>,
    pub next_id: u64,
}

/// The cache of transcode jobs.
#[derive(Debug)]
pub struct TranscodeCache {
    slots: Vec<Slot>,
    next_id: u64,
}

/// A job that has not failed answers requests for its key.
pub open spec fn is_live(slot: SlotView, key: KeyView) -> bool {
    slot.key == key && slot.job.state != JobState::Failed
}

/// The index of the first job from `from` on that answers requests for
/// `key`, if there is one.
pub open spec fn live_from(slots: Seq<SlotView>, key: KeyView, from: int) -> Option<int>
    decreases slots.len() - from,
{
    if from < 0 || from >= slots.len() {
        None
    } else if is_live(slots[from], key) {
        Some(from)
    } else {
        live_from(slots, key, from + 1)
    }
}

/// The index of the first job from `from` on that has the number `id`, if
/// there is one.
pub open spec fn job_from(slots: Seq<SlotView>, id: u64, from: int) -> Option<int>
    decreases slots.len() - from,
{
    if from < 0 || from >= slots.len() {
        None
    } else if slots[from].id == id {
        Some(from)
    } else {
        job_from(slots, id, from + 1)
    }
}

impl CacheView {
    /// The index of the job that answers requests for `key`.
    pub open spec fn live(self, key: KeyView) -> Option<int> {
        live_from(self.slots, key, 0)
    }

    /// The index of the job with the number `id`.
    pub open spec fn job(self, id: u64) -> Option<int> {
        job_from(self.slots, id, 0)
    }

    /// What every cache keeps: no two jobs have one number, every number is
    /// below the next one to be given, only a complete job is kept without
    /// a handle, and of the jobs of one key at most one has not failed.
    pub open spec fn wf(self) -> bool {
        &&& forall|i: int| 0 <= i < self.slots.len() ==> (#[trigger] self.slots[i]).id < self.next_id
        &&& forall|i: int|
            0 <= i < self.slots.len() ==> (#[trigger] self.slots[i]).readers > 0
                || self.slots[i].job.state == JobState::Complete
        &&& forall|i: int, j: int|
            0 <= i < j < self.slots.len() ==> (#[trigger] self.slots[i]).id != (
            #[trigger] self.slots[j]).id
        &&& forall|i: int, j: int|
            0 <= i < j < self.slots.len() && (#[trigger] self.slots[i]).key == (
            #[trigger] self.slots[j]).key ==> self.slots[i].job.state == JobState::Failed
                || self.slots[j].job.state == JobState::Failed
    }
}

/// What `live_from` finds is a job for the key, and no job before it is.
pub proof fn lemma_live_from(slots: Seq<SlotView>, key: KeyView, from: int)
    requires
        0 <= from,
    ensures
        match live_from(slots, key, from) {
            Some(i) => from <= i < slots.len() && is_live(slots[i], key) && forall|n: int|
                from <= n < i ==> !is_live(#[trigger] slots[n], key),
            None => forall|n: int| from <= n < slots.len() ==> !is_live(#[trigger] slots[n], key),
        },
    decreases slots.len() - from,
{
    if from < slots.len() && !is_live(slots[from], key) {
        lemma_live_from(slots, key, from + 1);
    }
}

/// What `job_from` finds is a job with the number, and no job before it is.
pub proof fn lemma_job_from(slots: Seq<SlotView>, id: u64, from: int)
    requires
        0 <= from,
    ensures
        match job_from(slots, id, from) {
            Some(i) => from <= i < slots.len() && slots[i].id == id && forall|n: int|
                from <= n < i ==> (#[trigger] slots[n]).id != id,
            None => forall|n: int| from <= n < slots.len() ==> (#[trigger] slots[n]).id != id,
        },
    decreases slots.len() - from,
{
    if from < slots.len() && slots[from].id != id {
        lemma_job_from(slots, id, from + 1);
    }
}

/// What a request for a job came to.
#[derive(Clone, Copy, Debug, PartialEq, Eq, Structural)]
pub struct Resolved {
    /// The number of the job that answers the request.
    pub job: u64,
    /// Whether the job is new, so that its transcode has to be started.
    pub start: bool,
}

/// Why a request for a job was turned down.
#[derive(Clone, Copy, Debug, PartialEq, Eq, Structural)]
pub enum CacheError {
    /// The job has as many handles as can be counted.
    TooManyReaders,
    /// The cache has given out every job number.
    TooManyJobs,
}

/// The job that a new key gets.
pub open spec fn fresh_slot(key: KeyView, id: u64) -> SlotView {
    SlotView {
        key,
        id,
        job: JobView { data: Seq::empty(), state: JobState::Running },
        readers: 1,
    }
}

/// The slot with one more handle attached.
pub open spec fn attach(slot: SlotView) -> SlotView {
    SlotView { readers: (slot.readers + 1) as u64, ..slot }
}

/// The cache after a request for `key`, and what the request came to.
///
/// Where a job answers for the key, one more handle is attached to it and
/// nothing is started. Where none does, a new job is entered under the next
/// number, with one handle, and is to be started.
pub open spec fn resolved(c: CacheView, key: KeyView) -> (CacheView, Result<Resolved, CacheError>) {
    match c.live(key) {
        Some(i) => if c.slots[i].readers == u64::MAX {
            (c, Err(CacheError::TooManyReaders))
        } else {
            (
                CacheView { slots: c.slots.update(i, attach(c.slots[i])), ..c },
                Ok(Resolved { job: c.slots[i].id, start: false }),
            )
        },
        None => if c.next_id == u64::MAX {
            (c, Err(CacheError::TooManyJobs))
        } else {
            (
                CacheView {
                    slots: c.slots.push(fresh_slot(key, c.next_id)),
                    next_id: (c.next_id + 1) as u64,
                },
                Ok(Resolved { job: c.next_id, start: true }),
            )
        },
    }
}

impl View for TranscodeCache {
    type V = CacheView;

    closed spec fn view(&self) -> CacheView {
        CacheView { slots: Seq::new(self.slots@.len(), |i: int| self.slots@[i]@), next_id: self.next_id }
    }
}

impl TranscodeCache {
    /// Whether the cache is as every cache is kept. See [`CacheView::wf`].
    pub open spec fn wf(&self) -> bool {
        self@.wf()
    }

    /// An empty cache.
    pub fn new() -> (cache: TranscodeCache)
        ensures
            cache.wf(),
            cache@ == (CacheView { slots: Seq::empty(), next_id: 0 }),
    {
        let cache = TranscodeCache { slots: Vec::new(), next_id: 0 };
        assert(cache@.slots =~= Seq::empty());
        cache
    }

    /// Finds the job that answers requests for `key`.
    fn find_live(&self, key: &TranscodeKey) -> (found: Option<usize>)
        ensures
            found matches Some(i) ==> self@.live(key@) == Some(i as int) && i < self.slots@.len(),
            found is None ==> self@.live(key@) is None,
    {
        let mut i: usize = 0;
        while i < self.slots.len()
            invariant
                i <= self.slots@.len(),
                self@.live(key@) == live_from(self@.slots, key@, i as int),
            decreases self.slots.len() - i,
        {
            let live = match self.slots[i].job.state() {
                JobState::Failed => false,
                _ => same_key(&self.slots[i].key, key),
            };
            if live {
                return Some(i);
            }
            i += 1;
        }
        None
    }

    /// Finds the job with the number `id`.
    fn find_job(&self, id: u64) -> (found: Option<usize>)
        ensures
            found matches Some(i) ==> self@.job(id) == Some(i as int) && i < self.slots@.len(),
            found is None ==> self@.job(id) is None,
    {
        let mut i: usize = 0;
        while i < self.slots.len()
            invariant
                i <= self.slots@.len(),
                self@.job(id) == job_from(self@.slots, id, i as int),
            decreases self.slots.len() - i,
        {
            if self.slots[i].id == id {
                return Some(i);
            }
            i += 1;
        }
        None
    }

    /// Answers a request for the output that `key` identifies.
    ///
    /// If a job answers for the key already, the caller is attached to it;
    /// otherwise a new job is entered, and the caller has to start its
    /// transcode. See [`resolved`].
    pub fn resolve(&mut self, key: TranscodeKey) -> (outcome: Result<Resolved, CacheError>)
        requires
            old(self).wf(),
        ensures
            final(self).wf(),
            (final(self)@, outcome) == resolved(old(self)@, key@),
    {
        proof {
            lemma_live_from(self@.slots, key@, 0);
        }
        match self.find_live(&key) {
            Some(i) => {
                if self.slots[i].readers == u64::MAX {
                    return Err(CacheError::TooManyReaders);
                }
                let id = self.slots[i].id;
                self.slots[i].readers = self.slots[i].readers + 1;
                assert(self@.slots =~= old(self)@.slots.update(i as int, attach(old(self)@.slots[i as int])));
                Ok(Resolved { job: id, start: false })
            },
            None => {
                if self.next_id == u64::MAX {
                    return Err(CacheError::TooManyJobs);
                }
                let id = self.next_id;
                self.slots.push(Slot { key, id, job: Job::new(), readers: 1 });
                self.next_id = id + 1;
                assert(self@.slots =~= old(self)@.slots.push(fresh_slot(key@, id)));
                Ok(Resolved { job: id, start: true })
            },
        }
    }
}

/// The cache with the job at index `i` replaced.
pub open spec fn with_job(c: CacheView, i: int, job: JobView) -> CacheView {
    CacheView { slots: c.slots.update(i, SlotView { job, ..c.slots[i] }), ..c }
}

/// The cache after the transcode of job `id` has handed over `chunk`.
pub open spec fn fed(c: CacheView, id: u64, chunk: Seq<u8>) -> CacheView {
    match c.job(id) {
        Some(i) => with_job(c, i, appended(c.slots[i].job, chunk)),
        None => c,
    }
}

/// The cache after the transcode of job `id` has ended in `state`.
///
/// A job that fails stays where it is, so that the handles attached to it
/// see the failure, but it no longer answers requests for its key.
pub open spec fn closed_with(c: CacheView, id: u64, state: JobState) -> CacheView {
    match c.job(id) {
        Some(i) => with_job(c, i, ended(c.slots[i].job, state)),
        None => c,
    }
}

/// What became of a job when a handle let go of it.
#[derive(Clone, Copy, Debug, PartialEq, Eq, Structural)]
pub enum Released {
    /// The cache has no job of that number.
    Unknown,
    /// The job stays in the cache.
    Kept,
    /// The job had failed, this was its last handle, and it is gone.
    Dropped,
    /// The job was running, this was its last handle, and it is gone: its
    /// transcode has to be stopped.
    Cancelled,
}

/// The cache after a handle has let go of job `id`, and what became of it.
///
/// A complete job stays for later requests. Any other job leaves the cache
/// with its last handle.
pub open spec fn released(c: CacheView, id: u64) -> (CacheView, Released) {
    match c.job(id) {
        Some(i) => {
            let slot = c.slots[i];
            if slot.readers > 1 {
                (
                    CacheView {
                        slots: c.slots.update(
                            i,
                            SlotView { readers: (slot.readers - 1) as u64, ..slot },
                        ),
                        ..c
                    },
                    Released::Kept,
                )
            } else if slot.job.state == JobState::Complete {
                (
                    CacheView { slots: c.slots.update(i, SlotView { readers: 0, ..slot }), ..c },
                    Released::Kept,
                )
            } else {
                (
                    CacheView { slots: c.slots.remove(i), ..c },
                    if slot.job.state == JobState::Failed {
                        Released::Dropped
                    } else {
                        Released::Cancelled
                    },
                )
            }
        },
        None => (c, Released::Unknown),
    }
}

/// Whether a job only waits for later requests: it is complete and no
/// handle is attached to it.
pub open spec fn is_idle(slot: SlotView) -> bool {
    slot.job.state == JobState::Complete && slot.readers == 0
}

/// The cache after job `id` has been evicted. Only an idle job can be.
pub open spec fn evicted(c: CacheView, id: u64) -> CacheView {
    match c.job(id) {
        Some(i) => if is_idle(c.slots[i]) {
            CacheView { slots: c.slots.remove(i), ..c }
        } else {
            c
        },
        None => c,
    }
}

impl TranscodeCache {
    /// How many jobs the cache holds.
    pub fn len(&self) -> (n: usize)
        ensures
            n == self@.slots.len(),
    {
        self.slots.len()
    }

    /// Takes the next output of the transcode of job `id`. Nothing happens
    /// if there is no such job, or if it is not running.
    pub fn append(&mut self, id: u64, chunk: &[u8])
        requires
            old(self).wf(),
        ensures
            final(self).wf(),
            final(self)@ == fed(old(self)@, id, chunk@),
    {
        proof {
            lemma_job_from(self@.slots, id, 0);
        }
        if let Some(i) = self.find_job(id) {
            self.slots[i].job.append(chunk);
            assert(self@.slots =~= fed(old(self)@, id, chunk@).slots);
        }
    }

    /// Records that the transcode of job `id` has produced all its output.
    pub fn finish(&mut self, id: u64)
        requires
            old(self).wf(),
        ensures
            final(self).wf(),
            final(self)@ == closed_with(old(self)@, id, JobState::Complete),
    {
        proof {
            lemma_job_from(self@.slots, id, 0);
        }
        if let Some(i) = self.find_job(id) {
            self.slots[i].job.finish();
            assert(self@.slots =~= closed_with(old(self)@, id, JobState::Complete).slots);
        }
    }

    /// Records that the transcode of job `id` has failed. From now on every
    /// read from the job fails, and the next request for its key starts a
    /// new job.
    pub fn fail(&mut self, id: u64)
        requires
            old(self).wf(),
        ensures
            final(self).wf(),
            final(self)@ == closed_with(old(self)@, id, JobState::Failed),
    {
        proof {
            lemma_job_from(self@.slots, id, 0);
        }
        if let Some(i) = self.find_job(id) {
            self.slots[i].job.fail();
            assert(self@.slots =~= closed_with(old(self)@, id, JobState::Failed).slots);
        }
    }

    /// Detaches one handle from job `id`. See [`released`].
    pub fn release(&mut self, id: u64) -> (outcome: Released)
        requires
            old(self).wf(),
        ensures
            final(self).wf(),
            (final(self)@, outcome) == released(old(self)@, id),
    {
        proof {
            lemma_job_from(self@.slots, id, 0);
        }
        match self.find_job(id) {
            Some(i) => {
                let readers = self.slots[i].readers;
                let state = self.slots[i].job.state();
                if readers > 1 {
                    self.slots[i].readers = readers - 1;
                    assert(self@.slots =~= released(old(self)@, id).0.slots);
                    Released::Kept
                } else {
                    match state {
                        JobState::Complete => {
                            self.slots[i].readers = 0;
                            assert(self@.slots =~= released(old(self)@, id).0.slots);
                            Released::Kept
                        },
                        JobState::Failed => {
                            self.slots.remove(i);
                            assert(self@.slots =~= released(old(self)@, id).0.slots);
                            Released::Dropped
                        },
                        JobState::Running => {
                            self.slots.remove(i);
                            assert(self@.slots =~= released(old(self)@, id).0.slots);
                            Released::Cancelled
                        },
                    }
                }
            },
            None => Released::Unknown,
        }
    }

    /// Evicts job `id` if it is idle, and says whether it did. When to evict
    /// what is the caller's policy; the cache itself keeps complete jobs
    /// for as long as it is let.
    pub fn evict(&mut self, id: u64) -> (gone: bool)
        requires
            old(self).wf(),
        ensures
            final(self).wf(),
            final(self)@ == evicted(old(self)@, id),
            gone == (old(self)@.job(id) is Some && is_idle(
                old(self)@.slots[old(self)@.job(id)->0],
            )),
    {
        proof {
            lemma_job_from(self@.slots, id, 0);
        }
        match self.find_job(id) {
            Some(i) => {
                let idle = self.slots[i].readers == 0 && match self.slots[i].job.state() {
                    JobState::Complete => true,
                    _ => false,
                };
                if idle {
                    self.slots.remove(i);
                    assert(self@.slots =~= evicted(old(self)@, id).slots);
                }
                idle
            },
            None => false,
        }
    }

    /// How much of job `id` can be read, if there is such a job.
    pub fn size(&self, id: u64) -> (size: Option<Size>)
        requires
            self.wf(),
        ensures
            size == match self@.job(id) {
                Some(i) => Some(size_of(self@.slots[i].job)),
                None => None,
            },
    {
        match self.find_job(id) {
            Some(i) => Some(self.slots[i].job.size()),
            None => None,
        }
    }

    /// Gives a reader of job `id` at `pos` its next step, if there is such a
    /// job. See [`read_step`].
    pub fn read(&self, id: u64, pos: u64, end: Option<u64>, limit: usize) -> (step: Option<ReadStep>)
        requires
            self.wf(),
        ensures
            match self@.job(id) {
                Some(i) => step matches Some(s) && s@ == read_step(
                    self@.slots[i].job,
                    pos,
                    end,
                    limit,
                ),
                None => step is None,
            },
    {
        match self.find_job(id) {
            Some(i) => Some(self.slots[i].job.read(pos, end, limit)),
            None => None,
        }
    }
}

/// A request leaves the cache as every cache is kept.
pub proof fn lemma_resolved_wf(c: CacheView, key: KeyView)
    requires
        c.wf(),
    ensures
        resolved(c, key).0.wf(),
{
    lemma_live_from(c.slots, key, 0);
}

/// A job that answers for `key` still does after a request for any key,
/// from the same place and under the same number.
pub proof fn lemma_resolve_keeps_live(c: CacheView, key: KeyView, other: KeyView)
    requires
        c.wf(),
        c.live(key) is Some,
    ensures
        resolved(c, other).0.live(key) == c.live(key),
        resolved(c, other).0.slots[c.live(key)->0].id == c.slots[c.live(key)->0].id,
{
    let after = resolved(c, other).0;
    lemma_live_from(c.slots, key, 0);
    lemma_live_from(c.slots, other, 0);
    lemma_live_from(after.slots, key, 0);
    let i = c.live(key)->0;
    assert(is_live(after.slots[i], key));
}

/// After a request for `key` has been granted, the job it was given answers
/// for the key.
pub proof fn lemma_resolved_is_live(c: CacheView, key: KeyView)
    requires
        c.wf(),
        resolved(c, key).1 is Ok,
    ensures
        ({
            let (after, outcome) = resolved(c, key);
            &&& after.live(key) is Some
            &&& after.slots[after.live(key)->0].id == outcome->Ok_0.job
            &&& outcome->Ok_0.start <==> c.live(key) is None
        }),
{
    let after = resolved(c, key).0;
    lemma_live_from(c.slots, key, 0);
    lemma_live_from(after.slots, key, 0);
    if c.live(key) is Some {
        assert(is_live(after.slots[c.live(key)->0], key));
    } else {
        assert(is_live(after.slots[c.slots.len() as int], key));
    }
}

/// Single flight, for two requests: where a request for a key is followed by
/// another for the same key, the second starts nothing, and if it is
/// granted, so was the first, and both are given the same job.
pub proof fn lemma_single_flight(c: CacheView, key: KeyView)
    requires
        c.wf(),
    ensures
        ({
            let (first, a) = resolved(c, key);
            let (second, b) = resolved(first, key);
            b matches Ok(later) ==> a is Ok && later.job == a->Ok_0.job && !later.start
        }),
{
    lemma_resolved_wf(c, key);
    if resolved(c, key).1 is Ok {
        lemma_resolved_is_live(c, key);
        if resolved(resolved(c, key).0, key).1 is Ok {
            lemma_resolved_is_live(resolved(c, key).0, key);
        }
    }
}

/// What can happen to a cache while jobs run and nothing fails: a request for
/// a key, or a report from the transcode of a job.
pub ghost enum Event {
    /// A request for the output that the key identifies.
    Resolve(KeyView),
    /// The transcode of the job has produced these bytes.
    Feed(u64, Seq<u8>),
    /// The transcode of the job has produced all its output.
    Finish(u64),
}

/// The cache after one event.
pub open spec fn after_event(c: CacheView, event: Event) -> CacheView {
    match event {
        Event::Resolve(key) => resolved(c, key).0,
        Event::Feed(id, chunk) => fed(c, id, chunk),
        Event::Finish(id) => closed_with(c, id, JobState::Complete),
    }
}

/// The cache after a sequence of events, one after the other.
pub open spec fn after_events(c: CacheView, events: Seq<Event>) -> CacheView
    decreases events.len(),
{
    if events.len() == 0 {
        c
    } else {
        after_event(after_events(c, events.drop_last()), events.last())
    }
}

/// What the request that is event `n` came to.
pub open spec fn outcome_at(c: CacheView, events: Seq<Event>, n: int) -> Result<
    Resolved,
    CacheError,
>
    recommends
        0 <= n < events.len(),
        events[n] is Resolve,
{
    resolved(after_events(c, events.take(n)), events[n]->Resolve_0).1
}

/// An event leaves the cache as every cache is kept, and a job that answers
/// for `key` still does, from the same place and under the same number.
pub proof fn lemma_event_keeps_live(c: CacheView, key: KeyView, event: Event)
    requires
        c.wf(),
    ensures
        after_event(c, event).wf(),
        c.live(key) is Some ==> after_event(c, event).live(key) == c.live(key) && after_event(
            c,
            event,
        ).slots[c.live(key)->0].id == c.slots[c.live(key)->0].id,
{
    let after = after_event(c, event);
    lemma_live_from(c.slots, key, 0);
    lemma_live_from(after.slots, key, 0);
    match event {
        Event::Resolve(other) => {
            lemma_resolved_wf(c, other);
            if c.live(key) is Some {
                lemma_resolve_keeps_live(c, key, other);
            }
        },
        Event::Feed(id, chunk) => {
            lemma_job_from(c.slots, id, 0);
            if c.live(key) is Some {
                assert(is_live(after.slots[c.live(key)->0], key));
            }
        },
        Event::Finish(id) => {
            lemma_job_from(c.slots, id, 0);
            if c.live(key) is Some {
                assert(is_live(after.slots[c.live(key)->0], key));
            }
        },
    }
}

/// Any number of events leave the cache as every cache is kept, and a job
/// that answers for `key` still does.
pub proof fn lemma_events_keep_live(c: CacheView, key: KeyView, events: Seq<Event>)
    requires
        c.wf(),
    ensures
        after_events(c, events).wf(),
        c.live(key) is Some ==> after_events(c, events).live(key) == c.live(key) && after_events(
            c,
            events,
        ).slots[c.live(key)->0].id == c.slots[c.live(key)->0].id,
    decreases events.len(),
{
    if events.len() > 0 {
        lemma_events_keep_live(c, key, events.drop_last());
        lemma_event_keeps_live(after_events(c, events.drop_last()), key, events.last());
    }
}

/// Events that happen one after the other can be split at any point.
proof fn lemma_events_split(c: CacheView, events: Seq<Event>, n: int)
    requires
        0 <= n <= events.len(),
    ensures
        after_events(c, events) == after_events(after_events(c, events.take(n)), events.skip(n)),
    decreases events.len() - n,
{
    if n == events.len() {
        assert(events.take(n) =~= events);
    } else {
        lemma_events_split(c, events.drop_last(), n);
        assert(events.drop_last().take(n) =~= events.take(n));
        assert(events.drop_last().skip(n) =~= events.skip(n).drop_last());
    }
}

/// A key that no job answers for is still without one after any event but
/// a request for the key itself.
pub proof fn lemma_event_keeps_dead(c: CacheView, key: KeyView, event: Event)
    requires
        c.wf(),
        c.live(key) is None,
        event != Event::Resolve(key),
    ensures
        after_event(c, event).live(key) is None,
{
    let after = after_event(c, event);
    lemma_live_from(c.slots, key, 0);
    lemma_live_from(after.slots, key, 0);
    match event {
        Event::Resolve(other) => {
            lemma_live_from(c.slots, other, 0);
            if after.live(key) is Some {
                let j = after.live(key)->0;
                assert(is_live(after.slots[j], key));
                assert(j < c.slots.len());
                assert(is_live(c.slots[j], key));
            }
        },
        Event::Feed(id, chunk) => {
            lemma_job_from(c.slots, id, 0);
            if after.live(key) is Some {
                assert(is_live(c.slots[after.live(key)->0], key));
            }
        },
        Event::Finish(id) => {
            lemma_job_from(c.slots, id, 0);
            if after.live(key) is Some {
                assert(is_live(c.slots[after.live(key)->0], key));
            }
        },
    }
}

/// A request that is refused is refused again after any event: nothing that
/// happens while jobs run gives a counter room again.
pub proof fn lemma_event_keeps_refusal(c: CacheView, key: KeyView, event: Event)
    requires
        c.wf(),
        resolved(c, key).1 is Err,
    ensures
        after_event(c, event).wf(),
        resolved(after_event(c, event), key).1 == resolved(c, key).1,
{
    let after = after_event(c, event);
    lemma_event_keeps_live(c, key, event);
    lemma_live_from(c.slots, key, 0);
    lemma_live_from(after.slots, key, 0);
    if c.live(key) is Some {
        // the job of the key has all the handles that can be counted
        let i = c.live(key)->0;
        match event {
            Event::Resolve(other) => {
                lemma_live_from(c.slots, other, 0);
            },
            Event::Feed(id, chunk) => {
                lemma_job_from(c.slots, id, 0);
            },
            Event::Finish(id) => {
                lemma_job_from(c.slots, id, 0);
            },
        }
        assert(after.slots[i].readers == c.slots[i].readers);
    } else {
        // every job number has been given out
        if event == Event::Resolve(key) {
        } else {
            lemma_event_keeps_dead(c, key, event);
            match event {
                Event::Resolve(other) => {
                    lemma_live_from(c.slots, other, 0);
                },
                _ => {},
            }
        }
        assert(after.next_id == c.next_id);
    }
}

/// A request that is refused is refused again after any number of events.
pub proof fn lemma_events_keep_refusal(c: CacheView, key: KeyView, events: Seq<Event>)
    requires
        c.wf(),
        resolved(c, key).1 is Err,
    ensures
        after_events(c, events).wf(),
        resolved(after_events(c, events), key).1 == resolved(c, key).1,
    decreases events.len(),
{
    if events.len() > 0 {
        lemma_events_keep_refusal(c, key, events.drop_last());
        lemma_event_keeps_refusal(after_events(c, events.drop_last()), key, events.last());
    }
}

/// Single flight: however many requests are made, in whatever order,
/// whatever other keys are asked for in between and however far the
/// transcodes get meanwhile, the later of two requests for one key starts
/// nothing, and if it is granted, so was the earlier one, and both are given
/// the same job.
pub proof fn lemma_single_flight_all(c: CacheView, events: Seq<Event>, m: int, n: int)
    requires
        c.wf(),
        0 <= m < n < events.len(),
        events[m] is Resolve,
        events[n] == events[m],
    ensures
        outcome_at(c, events, n) matches Ok(later) ==> outcome_at(c, events, m) is Ok
            && later.job == outcome_at(c, events, m)->Ok_0.job && !later.start,
{
    let key = events[m]->Resolve_0;
    let before = after_events(c, events.take(m));
    let granted = resolved(before, key).0;
    lemma_events_keep_live(c, key, events.take(m));
    lemma_resolved_wf(before, key);
    let between = events.subrange(m + 1, n);
    assert(after_events(c, events.take(n)) == after_events(granted, between)) by {
        lemma_events_split(c, events.take(n), m + 1);
        assert(events.take(n).take(m + 1) =~= events.take(m + 1));
        assert(events.take(n).skip(m + 1) =~= between);
        assert(events.take(m + 1).drop_last() =~= events.take(m));
        assert(events.take(m + 1).last() == events[m]);
    }
    if resolved(before, key).1 is Ok {
        lemma_resolved_is_live(before, key);
        lemma_events_keep_live(granted, key, between);
        if outcome_at(c, events, n) is Ok {
            lemma_resolved_is_live(after_events(granted, between), key);
        }
    } else {
        assert(granted == before);
        lemma_events_keep_refusal(before, key, between);
    }
}

/// Whether a request came to a new job, whose transcode has to be started.
pub open spec fn is_start(outcome: Result<Resolved, CacheError>) -> bool {
    match outcome {
        Ok(r) => r.start,
        Err(_) => false,
    }
}

/// How many of the requests for `key` among `events` start a job.
pub open spec fn starts(c: CacheView, events: Seq<Event>, key: KeyView) -> nat
    decreases events.len(),
{
    if events.len() == 0 {
        0
    } else {
        let earlier = starts(c, events.drop_last(), key);
        if events.last() == Event::Resolve(key) && is_start(
            outcome_at(c, events, events.len() - 1),
        ) {
            earlier + 1
        } else {
            earlier
        }
    }
}

proof fn lemma_starts(c: CacheView, events: Seq<Event>, key: KeyView)
    requires
        c.wf(),
    ensures
        after_events(c, events).wf(),
        starts(c, events, key) <= 1,
        starts(c, events, key) == 1 ==> after_events(c, events).live(key) is Some
            && c.live(key) is None,
        starts(c, events, key) == 0 && c.live(key) is None ==> after_events(c, events).live(key)
            is None,
        forall|n: int|
            0 <= n < events.len() && events[n] == Event::Resolve(key) && starts(c, events, key)
                == 0 && c.live(key) is None ==> (#[trigger] outcome_at(c, events, n)) is Err,
    decreases events.len(),
{
    if events.len() > 0 {
        let init = events.drop_last();
        let last = events.last();
        let before = after_events(c, init);
        lemma_starts(c, init, key);
        lemma_events_keep_live(c, key, init);
        lemma_event_keeps_live(before, key, last);
        assert(events.take(events.len() - 1) =~= init);
        if last == Event::Resolve(key) {
            if resolved(before, key).1 is Ok {
                lemma_resolved_is_live(before, key);
            }
        } else if before.live(key) is None {
            lemma_event_keeps_dead(before, key, last);
        }
        assert forall|n: int|
            0 <= n < events.len() && events[n] == Event::Resolve(key) && starts(c, events, key)
                == 0 && c.live(key) is None implies (#[trigger] outcome_at(c, events, n))
            is Err by {
            if n < events.len() - 1 {
                assert(events.take(n) =~= init.take(n));
                assert(outcome_at(c, events, n) == outcome_at(c, init, n));
            } else {
                if resolved(before, key).1 is Ok {
                    lemma_resolved_is_live(before, key);
                }
            }
        }
    }
}

/// Single flight, counted: among any requests and reports, in whatever
/// order, at most one request for a key starts a job. None does if a job
/// answers for the key from the beginning. If none does then, exactly one
/// does as soon as a request for the key is granted.
pub proof fn lemma_one_start(c: CacheView, events: Seq<Event>, key: KeyView)
    requires
        c.wf(),
    ensures
        after_events(c, events).wf(),
        starts(c, events, key) <= 1,
        c.live(key) is Some ==> starts(c, events, key) == 0,
        c.live(key) is None && (exists|n: int|
            0 <= n < events.len() && events[n] == Event::Resolve(key) && (#[trigger] outcome_at(
                c,
                events,
                n,
            )) is Ok) ==> starts(c, events, key) == 1,
{
    lemma_starts(c, events, key);
}

/// The first request for a key that no job answers for starts a job under
/// the next number, unless every number has been given out.
pub proof fn lemma_first_request_starts(c: CacheView, key: KeyView)
    requires
        c.wf(),
        c.live(key) is None,
    ensures
        resolved(c, key).1 == if c.next_id == u64::MAX {
            Err::<Resolved, CacheError>(CacheError::TooManyJobs)
        } else {
            Ok::<Resolved, CacheError>(Resolved { job: c.next_id, start: true })
        },
{
}

/// A failure is final and is seen by everyone: once the transcode of a
/// running job has failed, every read from the job fails, wherever the
/// reader stands and whatever the job held, and nothing that the transcode
/// reports later changes that. The cache starts nothing by itself. The job
/// no longer answers for its key: the next request for the key is never
/// given the failed job. It is given a new job, which is running, holds
/// nothing yet and is to be started, unless every number has been given out.
pub proof fn lemma_failure(
    c: CacheView,
    id: u64,
    pos: u64,
    end: Option<u64>,
    limit: usize,
    more: Seq<u8>,
)
    requires
        c.wf(),
        c.job(id) is Some,
        c.slots[c.job(id)->0].job.state == JobState::Running,
    ensures
        ({
            let i = c.job(id)->0;
            let key = c.slots[i].key;
            let after = closed_with(c, id, JobState::Failed);
            let (retried, outcome) = resolved(after, key);
            &&& after.wf()
            &&& after.job(id) == Some(i)
            &&& after.slots.len() == c.slots.len()
            &&& after.next_id == c.next_id
            &&& read_step(after.slots[i].job, pos, end, limit) == StepView::Failed
            &&& fed(after, id, more).slots[i].job == after.slots[i].job
            &&& closed_with(after, id, JobState::Complete).slots[i].job == after.slots[i].job
            &&& after.live(key) is None
            &&& c.next_id != id
            &&& outcome == if c.next_id == u64::MAX {
                Err::<Resolved, CacheError>(CacheError::TooManyJobs)
            } else {
                Ok::<Resolved, CacheError>(Resolved { job: c.next_id, start: true })
            }
            &&& outcome is Ok ==> retried.job(c.next_id) == Some(c.slots.len() as int)
                && retried.slots[c.slots.len() as int] == fresh_slot(key, c.next_id)
                && retried.live(key) == Some(c.slots.len() as int)
        }),
{
    let i = c.job(id)->0;
    let key = c.slots[i].key;
    let after = closed_with(c, id, JobState::Failed);
    let retried = resolved(after, key).0;
    lemma_job_from(c.slots, id, 0);
    lemma_job_from(after.slots, id, 0);
    lemma_live_from(after.slots, key, 0);
    assert(after.slots[i].id == id);
    if after.live(key) is Some {
        let j = after.live(key)->0;
        assert(is_live(after.slots[j], key));
        assert(c.slots[j].key == c.slots[i].key);
    }
    if c.next_id < u64::MAX {
        lemma_job_from(retried.slots, c.next_id, 0);
        lemma_live_from(retried.slots, key, 0);
        assert(is_live(retried.slots[c.slots.len() as int], key));
        if retried.live(key)->0 < c.slots.len() {
            assert(is_live(after.slots[retried.live(key)->0], key));
        }
    }
}

/// The cache after `n` handles have let go of job `id`, one after the other.
pub open spec fn released_times(c: CacheView, id: u64, n: nat) -> CacheView
    decreases n,
{
    if n == 0 {
        c
    } else {
        released(released_times(c, id, (n - 1) as nat), id).0
    }
}

/// A failed job stays in the cache, failed, for as long as a handle is
/// attached to it, and leaves with the last one: once every handle has let
/// go of it, nothing of it stays behind.
pub proof fn lemma_failed_job_leaves(c: CacheView, id: u64, n: nat)
    requires
        c.wf(),
        c.job(id) is Some,
        c.slots[c.job(id)->0].job.state == JobState::Failed,
        n <= c.slots[c.job(id)->0].readers,
    ensures
        ({
            let i = c.job(id)->0;
            let after = released_times(c, id, n);
            &&& after.wf()
            &&& n < c.slots[i].readers ==> after.job(id) == Some(i) && after.slots[i]
                == (SlotView { readers: (c.slots[i].readers - n) as u64, ..c.slots[i] })
                && after.slots.len() == c.slots.len()
            &&& n == c.slots[i].readers ==> after.job(id) is None && after.slots.len()
                == c.slots.len() - 1
        }),
    decreases n,
{
    let i = c.job(id)->0;
    lemma_job_from(c.slots, id, 0);
    if n > 0 {
        let before = released_times(c, id, (n - 1) as nat);
        let after = released(before, id).0;
        lemma_failed_job_leaves(c, id, (n - 1) as nat);
        lemma_job_from(before.slots, id, 0);
        lemma_job_from(after.slots, id, 0);
        if n == c.slots[i].readers {
            if after.job(id) is Some {
                let j = after.job(id)->0;
                assert(after.slots[j] == before.slots[if j < i {
                    j
                } else {
                    j + 1
                }]);
            }
        } else {
            assert(after.slots[i].id == id);
        }
    }
}

} // verus!
