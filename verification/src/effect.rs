//! The pluggable sink invoked once per stepping iteration: it checks
//! for cancellation, feeds the progress reporter, and decides when to
//! flush the working record — into a long-lived in-memory accumulator,
//! or into the chunked disk store.

use vstd::prelude::*;
use crate::progress::ProgressBar;
use crate::progress::UpdateState;
use crate::progress::Wrt;
use crate::record::Line;
use crate::record::Record;
use crate::record::Vec3;
use crate::store::Batch;
use crate::store::Store;
use crate::store::StoreErr;
use crate::store::chunk_matches;
use crate::store::lemma_lines_after_append;

verus! {

/// The run was interrupted by the host's cancellation signal: a clean
/// early termination, observed at the start of a sink update.
#[derive(Clone, Copy, Debug, PartialEq, Eq)]
pub struct Cancelled;

/// Width of the progress bar drawn by the sinks.
pub const BAR_WIDTH: usize = 50;

/// An in-memory sink drains the working record into its accumulator
/// when a render reports more than this many samples accumulated.
pub const MEMORY_FLUSH_THRESHOLD: usize = 1000;

/// A disk sink flushes the working record to the store when a render
/// reports more than this many samples accumulated. Smaller than the
/// in-memory threshold: disk checkpoints must be eager to bound memory.
pub const DISK_FLUSH_THRESHOLD: usize = 10;

/// The progress-driven flush policy: flush on completion, or on a
/// render that accumulated more than `threshold` samples.
pub open spec fn should_flush(res: UpdateState, threshold: usize) -> bool {
    match res {
        UpdateState::Done => true,
        UpdateState::Print(n) => n > threshold,
        UpdateState::Nothing => false,
    }
}

/// Computes the progress-driven flush policy.
pub fn flush_decision(res: UpdateState, threshold: usize) -> (b: bool)
    ensures
        b == should_flush(res, threshold),
{
    match res {
        UpdateState::Done => true,
        UpdateState::Print(n) => n > threshold,
        UpdateState::Nothing => false,
    }
}

/// Sink that accumulates every sample in memory and returns it as the
/// run outcome.
pub struct InMemory<W: Wrt> {
    /// The sink's progress reporter.
    pub bar: ProgressBar<W>,
    /// The long-lived accumulator the run's samples are folded into.
    pub record: Record,
}

impl<W: Wrt> InMemory<W> {
    /// The sink's progress reporter.
    pub open spec fn spec_bar(&self) -> ProgressBar<W> {
        self.bar
    }

    pub open spec fn wf(&self) -> bool {
        &&& self.spec_bar().wf()
        &&& self.record.wf()
    }

    /// Creates the sink with an empty accumulator for `n_objects`
    /// objects and draws the empty progress bar once.
    pub fn new(writer: W, total: u64, n_objects: usize, save_acc: bool, now_ms: u64) -> (s:
        InMemory<W>)
        requires
            total > 0,
        ensures
            s.wf(),
            s.record@.len() == n_objects,
            forall|i: int| 0 <= i < n_objects ==> #[trigger] s.record@[i] == Seq::<Line>::empty(),
            s.record.spec_save_acc() == save_acc,
            s.spec_bar().spec_total() == total as nat,
            s.spec_bar().spec_width() == BAR_WIDTH as nat,
            s.spec_bar().spec_last_ms() == now_ms as nat,
            s.spec_bar().spec_pending() == 0,
            !s.spec_bar().spec_done(),
    {
        let bar = ProgressBar::new(writer, BAR_WIDTH, total, now_ms);
        let record = Record::new(n_objects, save_acc);
        InMemory { bar, record }
    }

    /// Folds every object's buffered samples of `other` onto the end of
    /// the accumulator, leaving `other` empty.
    pub fn drain(&mut self, other: &mut Record)
        requires
            old(self).wf(),
            old(other)@.len() == old(self).record@.len(),
            old(other).wf(),
            old(other).spec_save_acc() == old(self).record.spec_save_acc(),
        ensures
            final(self).wf(),
            final(self).spec_bar() == old(self).spec_bar(),
            final(self).record.spec_save_acc() == old(self).record.spec_save_acc(),
            final(self).record@.len() == old(self).record@.len(),
            forall|i: int|
                0 <= i < old(self).record@.len() ==> #[trigger] final(self).record@[i] == old(
                    self,
                ).record@[i] + old(other)@[i],
            final(other)@.len() == old(other)@.len(),
            forall|i: int|
                0 <= i < old(other)@.len() ==> #[trigger] final(other)@[i] == Seq::<Line>::empty(),
            final(other).spec_save_acc() == old(other).spec_save_acc(),
            final(other).wf(),
    {
        let acc = &mut self.record;
        acc.drain(other);
    }

    /// One sink invocation: aborts on a pending cancellation, otherwise
    /// counts the iteration on the progress reporter and, on completion
    /// or on a render past the in-memory threshold, drains the working
    /// record into the accumulator.
    pub fn update(&mut self, current: u64, now_ms: u64, cancelled: bool, record: &mut Record) -> (r:
        Result<UpdateState, Cancelled>)
        requires
            old(self).wf(),
            old(record)@.len() == old(self).record@.len(),
            old(record).wf(),
            old(record).spec_save_acc() == old(self).record.spec_save_acc(),
        ensures
            r is Err <==> cancelled,
            cancelled ==> *final(self) == *old(self) && *final(record) == *old(record),
            !cancelled ==> ({
                let res = old(self).spec_bar().spec_result(current, now_ms);
                &&& r == Ok::<UpdateState, Cancelled>(res)
                &&& old(self).spec_bar().stepped(final(self).spec_bar(), current, now_ms)
                &&& final(self).wf()
                &&& final(record).wf()
                &&& final(self).record.spec_save_acc() == old(self).record.spec_save_acc()
                &&& final(record).spec_save_acc() == old(record).spec_save_acc()
                &&& final(self).record@.len() == old(self).record@.len()
                &&& final(record)@.len() == old(record)@.len()
                &&& if should_flush(res, MEMORY_FLUSH_THRESHOLD) {
                    (forall|i: int|
                        0 <= i < old(self).record@.len() ==> #[trigger] final(self).record@[i]
                            == old(self).record@[i] + old(record)@[i]) && (forall|i: int|
                        0 <= i < old(record)@.len() ==> #[trigger] final(record)@[i]
                            == Seq::<Line>::empty())
                } else {
                    final(self).record == old(self).record && *final(record) == *old(record)
                }
            }),
    {
        if cancelled {
            return Err(Cancelled);
        }
        let res = self.bar.update(current, now_ms);
        let flush = flush_decision(res, MEMORY_FLUSH_THRESHOLD);
        if flush {
            self.drain(record);
        }
        Ok(res)
    }
}

/// Sink that checkpoints every flushed sample into the chunked store.
pub struct InDisk<W: Wrt> {
    /// The sink's progress reporter.
    pub bar: ProgressBar<W>,
    /// The chunked store the sink flushes into.
    pub store: Store,
    /// The fixed center-of-mass offset applied to positions at write time.
    pub cm: Vec3,
}

impl<W: Wrt> InDisk<W> {
    /// The sink's progress reporter.
    pub open spec fn spec_bar(&self) -> ProgressBar<W> {
        self.bar
    }

    /// The chunked store the sink flushes into.
    pub open spec fn spec_store(&self) -> Store {
        self.store
    }

    /// The fixed center-of-mass offset applied to positions at write
    /// time.
    pub open spec fn spec_cm(&self) -> Vec3 {
        self.cm
    }

    pub open spec fn wf(&self) -> bool {
        &&& self.spec_bar().wf()
        &&& self.spec_store().wf()
    }

    /// Creates the sink: draws the empty progress bar once and creates
    /// the store, refusing an existing dataset file unless `replace` is
    /// set.
    pub fn new(
        writer: W,
        total: u64,
        path: String,
        replace: bool,
        n_objects: usize,
        save_acc: bool,
        cm: Vec3,
        file_exists: bool,
        now_ms: u64,
    ) -> (r: Result<InDisk<W>, StoreErr>)
        requires
            total > 0,
        ensures
            r is Err <==> (file_exists && !replace),
            r is Err ==> r->Err_0 == StoreErr::AlreadyExists,
            r is Ok ==> ({
                let s = r->Ok_0;
                &&& s.wf()
                &&& s.spec_cm() == cm
                &&& s.spec_store().spec_path() == path@
                &&& s.spec_store().spec_save_acc() == save_acc
                &&& s.spec_store().spec_n_objects() == n_objects
                &&& forall|i: int| 0 <= i < n_objects ==> s.spec_store().spec_counter(i) == 0
                &&& forall|i: int|
                    0 <= i < n_objects ==> s.spec_store().spec_batches(i) == Seq::<Batch>::empty()
                &&& s.spec_bar().spec_total() == total as nat
                &&& s.spec_bar().spec_width() == BAR_WIDTH as nat
                &&& s.spec_bar().spec_last_ms() == now_ms as nat
                &&& s.spec_bar().spec_pending() == 0
                &&& !s.spec_bar().spec_done()
            }),
    {
        let bar = ProgressBar::new(writer, BAR_WIDTH, total, now_ms);
        match Store::new(path, n_objects, replace, save_acc, file_exists) {
            Ok(store) => Ok(InDisk { bar, store, cm }),
            Err(e) => Err(e),
        }
    }

    /// The path of the dataset file the sink writes to.
    pub fn get_path(&self) -> (p: String)
        ensures
            p@ == self.spec_store().spec_path(),
    {
        self.store.path().clone()
    }

    /// Read access to the store.
    pub fn store_ref(&self) -> (s: &Store)
        ensures
            s == self.spec_store(),
    {
        &self.store
    }

    /// Takes every object's buffered samples out of `record` and
    /// appends them to the store as one new chunk per object, positions
    /// offset by the sink's center-of-mass vector.
    pub fn store(&mut self, record: &mut Record)
        requires
            old(self).wf(),
            old(record)@.len() == old(self).spec_store().spec_n_objects(),
            old(record).wf(),
            old(record).spec_save_acc() == old(self).spec_store().spec_save_acc(),
        ensures
            final(self).wf(),
            final(self).spec_bar() == old(self).spec_bar(),
            final(self).spec_cm() == old(self).spec_cm(),
            final(self).spec_store().spec_n_objects() == old(self).spec_store().spec_n_objects(),
            final(self).spec_store().spec_path() == old(self).spec_store().spec_path(),
            final(self).spec_store().spec_save_acc() == old(self).spec_store().spec_save_acc(),
            forall|i: int|
                0 <= i < old(record)@.len() ==> #[trigger] final(self).spec_store().spec_batches(i)
                    == old(self).spec_store().spec_batches(i).push(
                    (Batch { lines: old(record)@[i], cm: old(self).spec_cm() }),
                ),
            forall|i: int|
                0 <= i < old(record)@.len() ==> #[trigger] final(self).spec_store().spec_lines(i)
                    == old(self).spec_store().spec_lines(i) + old(record)@[i],
            forall|i: int|
                0 <= i < old(record)@.len() ==> #[trigger] final(self).spec_store().spec_counter(i)
                    == old(self).spec_store().spec_counter(i) + 1,
            forall|i: int|
                0 <= i < old(record)@.len() ==> chunk_matches(
                    (#[trigger] final(self).spec_store().spec_chunks(i)).last(),
                    old(record)@[i],
                    old(self).spec_cm(),
                    old(self).spec_store().spec_save_acc(),
                ),
            final(record)@.len() == old(record)@.len(),
            forall|i: int|
                0 <= i < old(record)@.len() ==> #[trigger] final(record)@[i]
                    == Seq::<Line>::empty(),
            final(record).spec_save_acc() == old(record).spec_save_acc(),
            final(record).wf(),
    {
        let n = record.len();
        let mut i: usize = 0;
        while i < n
            invariant
                n == old(record)@.len(),
                n == old(self).spec_store().spec_n_objects(),
                i <= n,
                self.wf(),
                self.spec_bar() == old(self).spec_bar(),
                self.spec_cm() == old(self).spec_cm(),
                self.spec_store().spec_n_objects() == old(self).spec_store().spec_n_objects(),
                self.spec_store().spec_path() == old(self).spec_store().spec_path(),
                self.spec_store().spec_save_acc() == old(self).spec_store().spec_save_acc(),
                record@.len() == n,
                record.wf(),
                record.spec_save_acc() == old(record).spec_save_acc(),
                record.spec_save_acc() == self.spec_store().spec_save_acc(),
                forall|k: int| i <= k < n ==> #[trigger] record@[k] == old(record)@[k],
                forall|k: int| 0 <= k < i ==> #[trigger] record@[k] == Seq::<Line>::empty(),
                forall|k: int|
                    0 <= k < i ==> #[trigger] self.spec_store().spec_batches(k) == old(
                        self,
                    ).spec_store().spec_batches(k).push(
                        (Batch { lines: old(record)@[k], cm: old(self).spec_cm() }),
                    ),
                forall|k: int|
                    0 <= k < i ==> #[trigger] self.spec_store().spec_counter(k) == old(
                        self,
                    ).spec_store().spec_counter(k) + 1,
                forall|k: int|
                    0 <= k < i ==> chunk_matches(
                        (#[trigger] self.spec_store().spec_chunks(k)).last(),
                        old(record)@[k],
                        old(self).spec_cm(),
                        old(self).spec_store().spec_save_acc(),
                    ),
                forall|k: int|
                    i <= k < n ==> #[trigger] self.spec_store().spec_batches(k) == old(
                        self,
                    ).spec_store().spec_batches(k),
                forall|k: int|
                    i <= k < n ==> #[trigger] self.spec_store().spec_counter(k) == old(
                        self,
                    ).spec_store().spec_counter(k),
            decreases n - i,
        {
            let lines = record.take(i);
            let st = &mut self.store;
            st.append(i, lines, self.cm);
            i += 1;
        }
        proof {
            assert forall|i: int|
                0 <= i < old(record)@.len() implies #[trigger] self.spec_store().spec_lines(i)
                == old(self).spec_store().spec_lines(i) + old(record)@[i] by {
                lemma_lines_after_append(
                    old(self).spec_store().spec_batches(i),
                    Batch { lines: old(record)@[i], cm: old(self).spec_cm() },
                );
            }
        }
    }

    /// One sink invocation: aborts on a pending cancellation, otherwise
    /// counts the iteration on the progress reporter and, on completion
    /// or on a render past the disk threshold, flushes the working
    /// record to the store.
    pub fn update(&mut self, current: u64, now_ms: u64, cancelled: bool, record: &mut Record) -> (r:
        Result<UpdateState, Cancelled>)
        requires
            old(self).wf(),
            old(record)@.len() == old(self).spec_store().spec_n_objects(),
            old(record).wf(),
            old(record).spec_save_acc() == old(self).spec_store().spec_save_acc(),
        ensures
            r is Err <==> cancelled,
            cancelled ==> *final(self) == *old(self) && *final(record) == *old(record),
            !cancelled ==> ({
                let res = old(self).spec_bar().spec_result(current, now_ms);
                &&& r == Ok::<UpdateState, Cancelled>(res)
                &&& old(self).spec_bar().stepped(final(self).spec_bar(), current, now_ms)
                &&& final(self).wf()
                &&& final(record).wf()
                &&& final(self).spec_cm() == old(self).spec_cm()
                &&& final(self).spec_store().spec_n_objects() == old(
                    self,
                ).spec_store().spec_n_objects()
                &&& final(self).spec_store().spec_path() == old(self).spec_store().spec_path()
                &&& final(self).spec_store().spec_save_acc() == old(
                    self,
                ).spec_store().spec_save_acc()
                &&& final(record).spec_save_acc() == old(record).spec_save_acc()
                &&& final(record)@.len() == old(record)@.len()
                &&& if should_flush(res, DISK_FLUSH_THRESHOLD) {
                    (forall|i: int|
                        0 <= i < old(record)@.len()
                            ==> #[trigger] final(self).spec_store().spec_lines(i) == old(
                            self,
                        ).spec_store().spec_lines(i) + old(record)@[i]) && (forall|i: int|
                        0 <= i < old(record)@.len() ==> #[trigger] final(record)@[i]
                            == Seq::<Line>::empty())
                } else {
                    final(self).spec_store() == old(self).spec_store() && *final(record)
                        == *old(record)
                }
            }),
    {
        if cancelled {
            return Err(Cancelled);
        }
        let res = self.bar.update(current, now_ms);
        let flush = flush_decision(res, DISK_FLUSH_THRESHOLD);
        if flush {
            self.store(record);
        }
        Ok(res)
    }
}

/// The polymorphic sink: in-memory accumulation or chunked disk
/// append, behind one contract.
pub enum Effect<W: Wrt> {
    InMemory(InMemory<W>),
    InDisk(InDisk<W>),
}

impl<W: Wrt> Effect<W> {
    /// The sink's progress reporter.
    pub open spec fn spec_bar(&self) -> ProgressBar<W> {
        match self {
            Effect::InMemory(m) => m.spec_bar(),
            Effect::InDisk(d) => d.spec_bar(),
        }
    }

    /// The object count the sink was created for.
    pub open spec fn spec_n_objects(&self) -> int {
        match self {
            Effect::InMemory(m) => m.record@.len() as int,
            Effect::InDisk(d) => d.spec_store().spec_n_objects(),
        }
    }

    /// Whether samples carry acceleration values.
    pub open spec fn spec_save_acc(&self) -> bool {
        match self {
            Effect::InMemory(m) => m.record.spec_save_acc(),
            Effect::InDisk(d) => d.spec_store().spec_save_acc(),
        }
    }

    /// All samples the sink holds for object `i`, in the order they
    /// were flushed: the accumulator's buffer, or the concatenation of
    /// the store's batches.
    pub open spec fn spec_stored(&self, i: int) -> Seq<Line> {
        match self {
            Effect::InMemory(m) => m.record@[i],
            Effect::InDisk(d) => d.spec_store().spec_lines(i),
        }
    }

    /// The sink's progress-driven flush threshold.
    pub open spec fn spec_threshold(&self) -> usize {
        match self {
            Effect::InMemory(_) => MEMORY_FLUSH_THRESHOLD,
            Effect::InDisk(_) => DISK_FLUSH_THRESHOLD,
        }
    }

    pub open spec fn wf(&self) -> bool {
        match self {
            Effect::InMemory(m) => m.wf(),
            Effect::InDisk(d) => d.wf(),
        }
    }

    /// The object count the sink was created for.
    pub fn n_objects(&self) -> (n: usize)
        ensures
            n == self.spec_n_objects(),
    {
        match self {
            Effect::InMemory(m) => m.record.len(),
            Effect::InDisk(d) => d.store.n_objects(),
        }
    }

    /// Whether samples carry acceleration values.
    pub fn save_acc(&self) -> (b: bool)
        ensures
            b == self.spec_save_acc(),
    {
        match self {
            Effect::InMemory(m) => m.record.save_acc(),
            Effect::InDisk(d) => d.store.save_acc(),
        }
    }

    /// The total measure of the sink's progress reporter.
    pub fn bar_total(&self) -> (t: u64)
        ensures
            t as nat == self.spec_bar().spec_total(),
    {
        match self {
            Effect::InMemory(m) => m.bar.total(),
            Effect::InDisk(d) => d.bar.total(),
        }
    }

    /// The sink's progress-driven flush threshold.
    pub fn threshold(&self) -> (t: usize)
        ensures
            t == self.spec_threshold(),
    {
        match self {
            Effect::InMemory(_) => MEMORY_FLUSH_THRESHOLD,
            Effect::InDisk(_) => DISK_FLUSH_THRESHOLD,
        }
    }

    /// One sink invocation, the contract the two variants share:
    /// abort on a pending cancellation; otherwise count the iteration
    /// on the progress reporter and, on completion or on a render past
    /// the sink's threshold, move every buffered sample of the working
    /// record into the sink, in order, losing none.
    pub fn update(&mut self, current: u64, now_ms: u64, cancelled: bool, record: &mut Record) -> (r:
        Result<UpdateState, Cancelled>)
        requires
            old(self).wf(),
            old(record)@.len() == old(self).spec_n_objects(),
            old(record).wf(),
            old(record).spec_save_acc() == old(self).spec_save_acc(),
        ensures
            r is Err <==> cancelled,
            cancelled ==> *final(self) == *old(self) && *final(record) == *old(record),
            !cancelled ==> ({
                let res = old(self).spec_bar().spec_result(current, now_ms);
                &&& r == Ok::<UpdateState, Cancelled>(res)
                &&& old(self).spec_bar().stepped(final(self).spec_bar(), current, now_ms)
                &&& final(self).wf()
                &&& final(record).wf()
                &&& final(self).spec_n_objects() == old(self).spec_n_objects()
                &&& final(self).spec_save_acc() == old(self).spec_save_acc()
                &&& final(self).spec_threshold() == old(self).spec_threshold()
                &&& final(record).spec_save_acc() == old(record).spec_save_acc()
                &&& final(record)@.len() == old(record)@.len()
                &&& if should_flush(res, old(self).spec_threshold()) {
                    (forall|i: int|
                        0 <= i < old(record)@.len() ==> #[trigger] final(self).spec_stored(i)
                            == old(self).spec_stored(i) + old(record)@[i]) && (forall|i: int|
                        0 <= i < old(record)@.len() ==> #[trigger] final(record)@[i]
                            == Seq::<Line>::empty())
                } else {
                    (forall|i: int|
                        0 <= i < old(record)@.len() ==> #[trigger] final(self).spec_stored(i)
                            == old(self).spec_stored(i)) && *final(record) == *old(record)
                }
            }),
    {
        match self {
            Effect::InMemory(m) => m.update(current, now_ms, cancelled, record),
            Effect::InDisk(d) => d.update(current, now_ms, cancelled, record),
        }
    }

    /// Unconditionally moves every buffered sample of the working
    /// record into the sink, in order: the memory-bound mid-run
    /// checkpoint and the final flush of the consumer loop.
    pub fn flush(&mut self, record: &mut Record)
        requires
            old(self).wf(),
            old(record)@.len() == old(self).spec_n_objects(),
            old(record).wf(),
            old(record).spec_save_acc() == old(self).spec_save_acc(),
        ensures
            final(self).wf(),
            final(record).wf(),
            final(self).spec_bar() == old(self).spec_bar(),
            final(self).spec_n_objects() == old(self).spec_n_objects(),
            final(self).spec_save_acc() == old(self).spec_save_acc(),
            final(self).spec_threshold() == old(self).spec_threshold(),
            final(record).spec_save_acc() == old(record).spec_save_acc(),
            final(record)@.len() == old(record)@.len(),
            forall|i: int|
                0 <= i < old(record)@.len() ==> #[trigger] final(self).spec_stored(i) == old(
                    self,
                ).spec_stored(i) + old(record)@[i],
            forall|i: int|
                0 <= i < old(record)@.len() ==> #[trigger] final(record)@[i]
                    == Seq::<Line>::empty(),
    {
        match self {
            Effect::InMemory(m) => m.drain(record),
            Effect::InDisk(d) => d.store(record),
        }
    }
}

} // verus!
