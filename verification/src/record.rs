//! Per-object ordered buffers of trajectory samples awaiting persistence.

use vstd::prelude::*;

verus! {

/// A three-component vector whose components are IEEE-754 double
/// bit patterns.
#[derive(Clone, Copy, Debug, PartialEq, Eq, Structural)]
pub struct Vec3 {
    pub x: u64,
    pub y: u64,
    pub z: u64,
}

/// One time-stamped observation of one body: time, position, velocity
/// and, when acceleration is retained for the run, acceleration.
#[derive(Clone, Copy, Debug, PartialEq, Eq)]
pub struct Line {
    pub t: u64,
    pub r: Vec3,
    pub v: Vec3,
    pub a: Option<Vec3>,
}

impl Line {
    /// Whether this sample carries an acceleration value.
    pub open spec fn has_acc(self) -> bool {
        self.a is Some
    }
}

/// The effect of one `Record::add` call on the buffered contents.
pub open spec fn spec_add(s: Seq<Seq<Line>>, i: int, line: Line) -> Seq<Seq<Line>> {
    s.update(i, s[i].push(line))
}

/// The effect of `add`ing each sample of `lines` in turn to object `i`.
pub open spec fn spec_add_seq(s: Seq<Seq<Line>>, i: int, lines: Seq<Line>) -> Seq<Seq<Line>>
    decreases lines.len(),
{
    if lines.len() == 0 {
        s
    } else {
        spec_add_seq(spec_add(s, i, lines[0]), i, lines.drop_first())
    }
}

/// Per-object ordered buffer of samples.
///
/// The object count is fixed at construction and never changes; whether
/// samples carry an acceleration value is decided once at construction
/// (`save_acc`), and every sample appended afterwards must agree with it.
pub struct Record {
    objects: Vec<Vec<Line>>,
    save_acc: bool,
}

impl View for Record {
    type V = Seq<Seq<Line>>;

    closed spec fn view(&self) -> Seq<Seq<Line>> {
        self.objects@.map(|_i: int, v: Vec<Line>| v@)
    }
}

impl Record {
    /// Whether acceleration values are retained for this run.
    pub closed spec fn spec_save_acc(&self) -> bool {
        self.save_acc
    }

    /// Every buffered sample agrees with the run's acceleration policy.
    pub open spec fn wf(&self) -> bool {
        forall|i: int, j: int|
            0 <= i < self@.len() && 0 <= j < self@[i].len()
                ==> (#[trigger] self@[i][j]).has_acc() == self.spec_save_acc()
    }

    /// Allocates `n_objects` empty ordered lists.
    pub fn new(n_objects: usize, save_acc: bool) -> (r: Record)
        ensures
            r@.len() == n_objects,
            forall|i: int| 0 <= i < n_objects ==> #[trigger] r@[i] == Seq::<Line>::empty(),
            r.spec_save_acc() == save_acc,
            r.wf(),
    {
        let mut objects: Vec<Vec<Line>> = Vec::with_capacity(n_objects);
        let mut k: usize = 0;
        while k < n_objects
            invariant
                k <= n_objects,
                objects@.len() == k,
                forall|i: int| 0 <= i < k ==> #[trigger] objects@[i]@ == Seq::<Line>::empty(),
            decreases n_objects - k,
        {
            objects.push(Vec::new());
            k += 1;
        }
        Record { objects, save_acc }
    }

    /// The object count (not the sample count).
    pub fn len(&self) -> (n: usize)
        ensures
            n == self@.len(),
    {
        self.objects.len()
    }

    /// Whether acceleration values are retained for this run.
    pub fn save_acc(&self) -> (b: bool)
        ensures
            b == self.spec_save_acc(),
    {
        self.save_acc
    }

    /// Read access to one object's buffered samples.
    pub fn lines(&self, obj_id: usize) -> (v: &Vec<Line>)
        requires
            obj_id < self@.len(),
        ensures
            v@ == self@[obj_id as int],
    {
        &self.objects[obj_id]
    }

    /// Appends one sample to one object's list.
    pub fn add(&mut self, obj_id: usize, line: Line)
        requires
            obj_id < old(self)@.len(),
            line.has_acc() == old(self).spec_save_acc(),
        ensures
            final(self)@ == spec_add(old(self)@, obj_id as int, line),
            final(self).spec_save_acc() == old(self).spec_save_acc(),
            old(self).wf() ==> final(self).wf(),
    {
        let obj = &mut self.objects[obj_id];
        obj.push(line);
        proof {
            assert(self@ =~= spec_add(old(self)@, obj_id as int, line));
            assert forall|i: int, j: int|
                old(self).wf() && 0 <= i < self@.len() && 0 <= j < self@[i].len()
                    implies (#[trigger] self@[i][j]).has_acc() == self.spec_save_acc() by {
                if i != obj_id || j < old(self)@[i].len() {
                    assert(self@[i][j] == old(self)@[i][j]);
                }
            }
        }
    }

    /// Bulk variant of `add`: appends a whole batch to one object's list.
    pub fn add_many(&mut self, obj_id: usize, lines: Vec<Line>)
        requires
            obj_id < old(self)@.len(),
            forall|j: int|
                0 <= j < lines@.len()
                    ==> (#[trigger] lines@[j]).has_acc() == old(self).spec_save_acc(),
        ensures
            final(self)@ == old(self)@.update(obj_id as int, old(self)@[obj_id as int] + lines@),
            final(self).spec_save_acc() == old(self).spec_save_acc(),
            old(self).wf() ==> final(self).wf(),
    {
        let mut tmp = lines;
        let obj = &mut self.objects[obj_id];
        obj.append(&mut tmp);
        proof {
            assert(self@ =~= old(self)@.update(obj_id as int, old(self)@[obj_id as int] + lines@));
            assert forall|i: int, j: int|
                old(self).wf() && 0 <= i < self@.len() && 0 <= j < self@[i].len()
                    implies (#[trigger] self@[i][j]).has_acc() == self.spec_save_acc() by {
                if i != obj_id || j < old(self)@[i].len() {
                    assert(self@[i][j] == old(self)@[i][j]);
                } else {
                    assert(self@[i][j] == lines@[j - old(self)@[i].len()]);
                }
            }
        }
    }

    /// Empties one object's list and returns its prior contents in order.
    pub fn take(&mut self, obj_id: usize) -> (lines: Vec<Line>)
        requires
            obj_id < old(self)@.len(),
        ensures
            lines@ == old(self)@[obj_id as int],
            final(self)@ == old(self)@.update(obj_id as int, Seq::<Line>::empty()),
            final(self).spec_save_acc() == old(self).spec_save_acc(),
            old(self).wf() ==> final(self).wf(),
    {
        let mut tmp: Vec<Line> = Vec::new();
        let obj = &mut self.objects[obj_id];
        core::mem::swap(obj, &mut tmp);
        proof {
            assert(self@ =~= old(self)@.update(obj_id as int, Seq::<Line>::empty()));
            assert forall|i: int, j: int|
                old(self).wf() && 0 <= i < self@.len() && 0 <= j < self@[i].len()
                    implies (#[trigger] self@[i][j]).has_acc() == self.spec_save_acc() by {
                assert(self@[i][j] == old(self)@[i][j]);
            }
        }
        tmp
    }

    /// For every object id, takes `other`'s buffer and appends it onto
    /// `self`'s buffer.
    pub fn drain(&mut self, other: &mut Record)
        requires
            old(self)@.len() == old(other)@.len(),
            old(other).wf(),
            old(other).spec_save_acc() == old(self).spec_save_acc(),
        ensures
            final(self)@.len() == old(self)@.len(),
            forall|i: int|
                0 <= i < old(self)@.len()
                    ==> #[trigger] final(self)@[i] == old(self)@[i] + old(other)@[i],
            final(other)@.len() == old(other)@.len(),
            forall|i: int|
                0 <= i < old(other)@.len()
                    ==> #[trigger] final(other)@[i] == Seq::<Line>::empty(),
            final(self).spec_save_acc() == old(self).spec_save_acc(),
            final(other).spec_save_acc() == old(other).spec_save_acc(),
            old(self).wf() ==> final(self).wf(),
            final(other).wf(),
    {
        let n = self.len();
        let mut i: usize = 0;
        while i < n
            invariant
                n == old(self)@.len(),
                n == old(other)@.len(),
                i <= n,
                self@.len() == n,
                other@.len() == n,
                self.spec_save_acc() == old(self).spec_save_acc(),
                other.spec_save_acc() == old(other).spec_save_acc(),
                other.spec_save_acc() == self.spec_save_acc(),
                other.wf(),
                old(self).wf() ==> self.wf(),
                forall|k: int| 0 <= k < i ==> #[trigger] self@[k] == old(self)@[k] + old(other)@[k],
                forall|k: int| i <= k < n ==> #[trigger] self@[k] == old(self)@[k],
                forall|k: int| 0 <= k < i ==> #[trigger] other@[k] == Seq::<Line>::empty(),
                forall|k: int| i <= k < n ==> #[trigger] other@[k] == old(other)@[k],
            decreases n - i,
        {
            let lines = other.take(i);
            proof {
                assert(forall|j: int|
                    0 <= j < lines@.len()
                        ==> (#[trigger] lines@[j]).has_acc() == self.spec_save_acc());
            }
            self.add_many(i, lines);
            i += 1;
        }
    }
}

/// Adding a batch sample by sample appends the batch to the chosen
/// object's list and leaves every other object's list unchanged.
pub proof fn lemma_add_seq(s: Seq<Seq<Line>>, i: int, lines: Seq<Line>)
    requires
        0 <= i < s.len(),
    ensures
        spec_add_seq(s, i, lines).len() == s.len(),
        spec_add_seq(s, i, lines)[i] == s[i] + lines,
        forall|k: int| 0 <= k < s.len() && k != i ==> #[trigger] spec_add_seq(s, i, lines)[k] == s[k],
    decreases lines.len(),
{
    if lines.len() == 0 {
        assert(s[i] + lines =~= s[i]);
    } else {
        let s1 = spec_add(s, i, lines[0]);
        lemma_add_seq(s1, i, lines.drop_first());
        assert(s1[i] + lines.drop_first() =~= s[i] + lines);
    }
}

/// Buffer round trip: starting from an empty buffer for object `i`,
/// `add`ing the samples of `added` one at a time and then `take`ing
/// object `i` returns exactly `added` in insertion order, and a second
/// `take` returns the empty sequence.
pub proof fn lemma_buffer_round_trip(s: Seq<Seq<Line>>, i: int, added: Seq<Line>)
    requires
        0 <= i < s.len(),
        s[i] == Seq::<Line>::empty(),
    ensures
        spec_add_seq(s, i, added)[i] == added,
        spec_add_seq(s, i, added).update(i, Seq::<Line>::empty())[i] == Seq::<Line>::empty(),
{
    lemma_add_seq(s, i, added);
    assert(Seq::<Line>::empty() + added =~= added);
}

} // verus!
