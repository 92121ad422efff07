//! The consumer side of the producer/consumer pipeline.
//!
//! A background producer steps the opaque simulation and emits one
//! message per step: the elapsed measure and the current state of every
//! body. The host loop hands each message to [`Consumer::step`], which
//! folds the bodies into the working record, invokes the sink once, and
//! applies the memory-bound flush threshold; on channel closure the
//! host calls [`Consumer::finish`], which renders the terminal progress
//! state and flushes everything that remains buffered. The consumer
//! state machine owns every decision; the channel, the thread and its
//! join live with the host.

use vstd::prelude::*;
use crate::effect::Cancelled;
use crate::effect::Effect;
use crate::effect::flush_decision;
use crate::effect::should_flush;
use crate::progress::Wrt;
use crate::record::Line;
use crate::record::Record;
use crate::record::Vec3;
use crate::record::spec_add;

verus! {

/// The flush threshold the disk-streaming caller layers on top of the
/// progress-driven policy: a memory-bound checkpoint for very long,
/// high-frequency runs.
pub const PIPELINE_FLUSH_THRESHOLD: usize = 65536;

/// One body's state within a producer message.
#[derive(Clone, Copy, Debug, PartialEq, Eq)]
pub struct BodyState {
    pub r: Vec3,
    pub v: Vec3,
    pub a: Option<Vec3>,
}

/// Keeps an acceleration value only when the run retains acceleration.
pub fn some_acc(a: Option<Vec3>, save_acc: bool) -> (r: Option<Vec3>)
    ensures
        r == (if save_acc {
            a
        } else {
            None::<Vec3>
        }),
{
    if save_acc {
        a
    } else {
        None
    }
}

/// The sample a message contributes for one body.
pub open spec fn line_of(t: u64, b: BodyState, save_acc: bool) -> Line {
    Line {
        t,
        r: b.r,
        v: b.v,
        a: if save_acc {
            b.a
        } else {
            None
        },
    }
}

/// A working record after one message has been folded in: every
/// object's buffer extended by that body's sample.
pub open spec fn folded_record(s: Seq<Seq<Line>>, t: u64, bodies: Seq<BodyState>, save_acc: bool) -> Seq<
    Seq<Line>,
> {
    Seq::new(s.len(), |i: int| s[i].push(line_of(t, bodies[i], save_acc)))
}

/// The total sample count buffered across all objects.
pub open spec fn total_buffered(s: Seq<Seq<Line>>) -> nat
    decreases s.len(),
{
    if s.len() == 0 {
        0
    } else {
        s[0].len() + total_buffered(s.drop_first())
    }
}

/// Replacing one object's buffer changes the total by the length
/// difference.
pub proof fn lemma_total_update(s: Seq<Seq<Line>>, i: int, t: Seq<Line>)
    requires
        0 <= i < s.len(),
    ensures
        total_buffered(s.update(i, t)) + s[i].len() == total_buffered(s) + t.len(),
    decreases s.len(),
{
    if i == 0 {
        assert(s.update(0, t).drop_first() =~= s.drop_first());
    } else {
        assert(s.update(i, t).drop_first() =~= s.drop_first().update(i - 1, t));
        lemma_total_update(s.drop_first(), i - 1, t);
    }
}

/// An all-empty record buffers nothing.
pub proof fn lemma_total_empty(s: Seq<Seq<Line>>)
    requires
        forall|i: int| 0 <= i < s.len() ==> (#[trigger] s[i]).len() == 0,
    ensures
        total_buffered(s) == 0,
    decreases s.len(),
{
    if s.len() > 0 {
        assert(s[0].len() == 0);
        lemma_total_empty(s.drop_first());
    }
}

/// The consumer's state: the working record the producer's samples are
/// folded into, the sink they are flushed to, and the memory-bound
/// flush threshold (`None` for a purely progress-driven run). The ghost
/// history records every sample ever folded, per object; well-formedness
/// says the pipeline loses none of them.
pub struct Consumer<W: Wrt> {
    effect: Effect<W>,
    record: Record,
    buffered: usize,
    flush_threshold: Option<usize>,
    history: Ghost<Seq<Seq<Line>>>,
}

impl<W: Wrt> Consumer<W> {
    /// The sink.
    pub closed spec fn spec_effect(&self) -> Effect<W> {
        self.effect
    }

    /// The working record.
    pub closed spec fn spec_record(&self) -> Record {
        self.record
    }

    /// The tracked total of buffered samples.
    pub closed spec fn spec_buffered(&self) -> nat {
        self.buffered as nat
    }

    /// The memory-bound flush threshold.
    pub closed spec fn spec_threshold_opt(&self) -> Option<usize> {
        self.flush_threshold
    }

    /// Every sample ever folded into the pipeline, per object, in
    /// order.
    pub closed spec fn spec_history(&self) -> Seq<Seq<Line>> {
        self.history@
    }

    /// Consistency, and conservation: what was fed in is the sink's
    /// contents followed by what is still buffered — no sample is lost
    /// and none is duplicated or reordered.
    pub open spec fn wf(&self) -> bool {
        &&& self.spec_effect().wf()
        &&& self.spec_record().wf()
        &&& self.spec_record()@.len() == self.spec_effect().spec_n_objects()
        &&& self.spec_record().spec_save_acc() == self.spec_effect().spec_save_acc()
        &&& self.spec_history().len() == self.spec_effect().spec_n_objects()
        &&& forall|i: int|
            0 <= i < self.spec_history().len() ==> #[trigger] self.spec_history()[i]
                == self.spec_effect().spec_stored(i) + self.spec_record()@[i]
        &&& match self.spec_threshold_opt() {
            Some(th) => {
                &&& th >= 1
                &&& th + self.spec_effect().spec_n_objects() <= usize::MAX
                &&& self.spec_buffered() == total_buffered(self.spec_record()@)
                &&& self.spec_buffered() < th
            },
            None => self.spec_buffered() == 0,
        }
    }

    /// Starts a run around an existing sink: an empty working record,
    /// and a history that starts at whatever the sink already holds.
    pub fn new(effect: Effect<W>, flush_threshold: Option<usize>) -> (c: Consumer<W>)
        requires
            effect.wf(),
            match flush_threshold {
                Some(th) => th >= 1 && th + effect.spec_n_objects() <= usize::MAX,
                None => true,
            },
        ensures
            c.wf(),
            c.spec_effect() == effect,
            c.spec_threshold_opt() == flush_threshold,
            c.spec_history().len() == effect.spec_n_objects(),
            forall|i: int|
                0 <= i < effect.spec_n_objects() ==> #[trigger] c.spec_history()[i]
                    == effect.spec_stored(i),
            forall|i: int|
                0 <= i < effect.spec_n_objects() ==> #[trigger] c.spec_record()@[i]
                    == Seq::<Line>::empty(),
    {
        let n = effect.n_objects();
        let save_acc = effect.save_acc();
        let record = Record::new(n, save_acc);
        proof {
            lemma_total_empty(record@);
        }
        let c = Consumer {
            effect,
            record,
            buffered: 0,
            flush_threshold,
            history: Ghost(Seq::new(n as nat, |i: int| effect.spec_stored(i))),
        };
        proof {
            assert forall|i: int| 0 <= i < c.spec_history().len() implies #[trigger] c.spec_history()[i]
                == c.spec_effect().spec_stored(i) + c.spec_record()@[i] by {
                assert(c.spec_record()@[i] == Seq::<Line>::empty());
                assert(c.spec_effect().spec_stored(i) + Seq::<Line>::empty()
                    =~= c.spec_effect().spec_stored(i));
            }
        }
        c
    }

    /// The sink, for reading the run's outcome.
    pub fn effect_ref(&self) -> (e: &Effect<W>)
        ensures
            e == self.spec_effect(),
    {
        &self.effect
    }

    /// Gives up the consumer and hands back its sink.
    pub fn into_effect(self) -> (e: Effect<W>)
        ensures
            e == self.spec_effect(),
    {
        self.effect
    }

    /// Consumes one producer message: checks for cancellation, folds
    /// every body's state into the working record, invokes the sink
    /// once with the message's progress measure, and flushes everything
    /// when the buffered sample count has reached the memory-bound
    /// threshold. The history grows by exactly this message's samples;
    /// conservation (`wf`) is maintained. `t` is the sample timestamp,
    /// `measure` the progress made against the sink reporter's total
    /// (elapsed time on the producer's scale, or an iteration count).
    pub fn step(
        &mut self,
        t: u64,
        measure: u64,
        bodies: &Vec<BodyState>,
        now_ms: u64,
        cancelled: bool,
    ) -> (r: Result<(), Cancelled>)
        requires
            old(self).wf(),
            bodies@.len() == old(self).spec_effect().spec_n_objects(),
            old(self).spec_effect().spec_save_acc() ==> forall|i: int|
                0 <= i < bodies@.len() ==> (#[trigger] bodies@[i]).a is Some,
        ensures
            r is Err <==> cancelled,
            cancelled ==> *final(self) == *old(self),
            !cancelled ==> ({
                &&& final(self).wf()
                &&& final(self).spec_effect().spec_n_objects()
                    == old(self).spec_effect().spec_n_objects()
                &&& final(self).spec_effect().spec_save_acc()
                    == old(self).spec_effect().spec_save_acc()
                &&& final(self).spec_threshold_opt() == old(self).spec_threshold_opt()
                &&& final(self).spec_history().len() == old(self).spec_history().len()
                &&& forall|i: int|
                    0 <= i < old(self).spec_history().len()
                        ==> #[trigger] final(self).spec_history()[i]
                        == old(self).spec_history()[i].push(
                        line_of(t, bodies@[i], old(self).spec_effect().spec_save_acc()),
                    )
                &&& old(self).spec_effect().spec_bar().stepped(
                    final(self).spec_effect().spec_bar(),
                    measure,
                    now_ms,
                )
                &&& {
                    let res = old(self).spec_effect().spec_bar().spec_result(measure, now_ms);
                    let folded = folded_record(
                        old(self).spec_record()@,
                        t,
                        bodies@,
                        old(self).spec_effect().spec_save_acc(),
                    );
                    let progress_flush = should_flush(res, old(self).spec_effect().spec_threshold());
                    let bound_flush = match old(self).spec_threshold_opt() {
                        Some(th) => total_buffered(folded) >= th,
                        None => false,
                    };
                    if progress_flush || bound_flush {
                        forall|i: int|
                            0 <= i < folded.len() ==> #[trigger] final(self).spec_record()@[i]
                                == Seq::<Line>::empty()
                    } else {
                        final(self).spec_record()@ == folded && (forall|i: int|
                            0 <= i < folded.len() ==> #[trigger] final(self).spec_effect().spec_stored(
                                i,
                            ) == old(self).spec_effect().spec_stored(i))
                    }
                }
            }),
    {
        if cancelled {
            return Err(Cancelled);
        }
        let n = bodies.len();
        let save_acc = self.effect.save_acc();
        let track = self.flush_threshold.is_some();
        let mut k: usize = 0;
        while k < n
            invariant
                k <= n,
                n == bodies@.len(),
                n == self.spec_record()@.len(),
                save_acc == self.spec_record().spec_save_acc(),
                save_acc ==> forall|i: int|
                    0 <= i < bodies@.len() ==> (#[trigger] bodies@[i]).a is Some,
                self.spec_record().wf(),
                self.spec_effect() == old(self).spec_effect(),
                self.spec_threshold_opt() == old(self).spec_threshold_opt(),
                self.spec_history() == old(self).spec_history(),
                track == (self.spec_threshold_opt() is Some),
                forall|j: int|
                    0 <= j < k ==> #[trigger] self.spec_record()@[j]
                        == old(self).spec_record()@[j].push(line_of(t, bodies@[j], save_acc)),
                forall|j: int|
                    k <= j < n ==> #[trigger] self.spec_record()@[j] == old(self).spec_record()@[j],
                track ==> self.spec_buffered() == total_buffered(self.spec_record()@),
                track ==> total_buffered(self.spec_record()@) == total_buffered(
                    old(self).spec_record()@,
                ) + k,
                !track ==> self.spec_buffered() == 0,
                track ==> total_buffered(old(self).spec_record()@) + n <= usize::MAX,
            decreases n - k,
        {
            let b = bodies[k];
            let a = some_acc(b.a, save_acc);
            let line = Line { t, r: b.r, v: b.v, a };
            let ghost prev = self.spec_record()@;
            let rec = &mut self.record;
            proof {
                assert(line == line_of(t, bodies@[k as int], save_acc));
            }
            rec.add(k, line);
            proof {
                if track {
                    lemma_total_update(prev, k as int, prev[k as int].push(line));
                    assert(self.spec_record()@ == spec_add(prev, k as int, line));
                }
            }
            if track {
                self.buffered = self.buffered + 1;
            }
            k += 1;
        }
        proof {
            self.history@ = Seq::new(
                old(self).spec_history().len(),
                |i: int| old(self).spec_history()[i].push(line_of(t, bodies@[i], save_acc)),
            );
        }
        let ghost mid = *self;
        let res = match self.effect.update(measure, now_ms, false, &mut self.record) {
            Ok(res) => res,
            Err(e) => {
                proof {
                    assert(false);
                }
                return Err(e);
            },
        };
        let flushed = flush_decision(res, self.effect.threshold());
        if flushed {
            proof {
                assert forall|i: int| 0 <= i < self.spec_record()@.len() implies (#[trigger] self.spec_record()@[i]).len()
                    == 0 by {
                    assert(self.spec_record()@[i] == Seq::<Line>::empty());
                }
                lemma_total_empty(self.spec_record()@);
            }
            self.buffered = 0;
        }
        if track {
            let th = match self.flush_threshold {
                Some(th) => th,
                None => {
                    proof {
                        assert(false);
                    }
                    return Ok(());
                },
            };
            if self.buffered >= th {
                let eff = &mut self.effect;
                eff.flush(&mut self.record);
                proof {
                    assert forall|i: int| 0 <= i < self.spec_record()@.len() implies (#[trigger] self.spec_record()@[i]).len()
                        == 0 by {
                        assert(self.spec_record()@[i] == Seq::<Line>::empty());
                    }
                    lemma_total_empty(self.spec_record()@);
                }
                self.buffered = 0;
            }
        }
        proof {
            assert forall|i: int| 0 <= i < self.spec_history().len() implies #[trigger] self.spec_history()[i]
                == self.spec_effect().spec_stored(i) + self.spec_record()@[i] by {
                let line = line_of(t, bodies@[i], save_acc);
                assert(mid.spec_record()@[i] == old(self).spec_record()@[i].push(line));
                assert((old(self).spec_effect().spec_stored(i) + old(self).spec_record()@[i]).push(
                    line,
                ) =~= old(self).spec_effect().spec_stored(i) + old(self).spec_record()@[i].push(
                    line,
                ));
                assert(self.spec_effect().spec_stored(i) + Seq::<Line>::empty()
                    =~= self.spec_effect().spec_stored(i));
            }
            let folded = folded_record(old(self).spec_record()@, t, bodies@, save_acc);
            assert(mid.spec_record()@ =~= folded);
            match self.flush_threshold {
                Some(_) => {
                    assert(mid.spec_buffered() == total_buffered(folded));
                },
                None => {},
            }
        }
        Ok(())
    }

    /// Ends the run: renders the terminal progress state (the measure
    /// at its total) and flushes everything that remains buffered. The
    /// sink then holds exactly the history: every sample the producer
    /// ever emitted, in order.
    pub fn finish(&mut self, now_ms: u64)
        requires
            old(self).wf(),
        ensures
            final(self).wf(),
            final(self).spec_history() == old(self).spec_history(),
            final(self).spec_effect().spec_n_objects() == old(self).spec_effect().spec_n_objects(),
            final(self).spec_effect().spec_save_acc() == old(self).spec_effect().spec_save_acc(),
            forall|i: int|
                0 <= i < old(self).spec_history().len()
                    ==> #[trigger] final(self).spec_record()@[i] == Seq::<Line>::empty(),
            forall|i: int|
                0 <= i < old(self).spec_history().len()
                    ==> #[trigger] final(self).spec_effect().spec_stored(i)
                    == old(self).spec_history()[i],
            final(self).spec_effect().spec_bar().spec_done(),
    {
        let total = self.effect.bar_total();
        let res = match self.effect.update(total, now_ms, false, &mut self.record) {
            Ok(res) => res,
            Err(_) => {
                proof {
                    assert(false);
                }
                unreached()
            },
        };
        let flushed = flush_decision(res, self.effect.threshold());
        if flushed {
            proof {
                lemma_total_empty(self.spec_record()@);
            }
            self.buffered = 0;
        }
        let eff = &mut self.effect;
        eff.flush(&mut self.record);
        proof {
            lemma_total_empty(self.spec_record()@);
        }
        self.buffered = 0;
        proof {
            assert forall|i: int| 0 <= i < old(self).spec_history().len() implies #[trigger] self.spec_effect().spec_stored(
                i,
            ) == old(self).spec_history()[i] by {
                assert(self.spec_effect().spec_stored(i) + Seq::<Line>::empty()
                    =~= self.spec_effect().spec_stored(i));
            }
        }
    }
}

/// Conservation: at every reachable consumer state, the samples fed in
/// for each object are exactly the sink's contents followed by what is
/// still buffered — the pipeline loses, duplicates and reorders
/// nothing.
pub proof fn lemma_conservation<W: Wrt>(c: Consumer<W>, i: int)
    requires
        c.wf(),
        0 <= i < c.spec_effect().spec_n_objects(),
    ensures
        c.spec_history()[i] == c.spec_effect().spec_stored(i) + c.spec_record()@[i],
{
}

} // verus!
