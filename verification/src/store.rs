//! Chunked dataset of trajectory samples: per object, per physical
//! quantity, a dense sequence of numbered chunks, one chunk per append.
//!
//! This module owns the append protocol: the per-object chunk counters,
//! the splitting of a sample batch into parallel per-quantity columns,
//! and the center-of-mass correction applied to position columns at
//! write time. The mirroring of the resulting chunks onto a disk file
//! is an I/O concern left to the host around this library.

use vstd::prelude::*;
use crate::ieee::sum_bits;
use crate::ieee::offset;
use crate::record::Line;
use crate::record::Vec3;
use crate::text::dec_digits;
use crate::text::decodes;
use crate::text::push_dec;
use crate::text::ascii_string;

verus! {

/// The name of a chunk dataset: its index as a decimal string,
/// starting at `"0"`.
pub fn chunk_name(chunk_id: usize) -> (s: String)
    ensures
        decodes(s@, dec_digits(chunk_id as nat)),
{
    let mut out: Vec<u8> = Vec::new();
    push_dec(&mut out, chunk_id as u64);
    proof {
        assert(out@ =~= dec_digits(chunk_id as nat));
    }
    ascii_string(out)
}

/// The bytes of an object's group path: `objects/` followed by the
/// object id as a decimal string.
pub open spec fn object_group_bytes(obj_id: nat) -> Seq<u8> {
    seq![111u8, 98u8, 106u8, 101u8, 99u8, 116u8, 115u8, 47u8] + dec_digits(obj_id)
}

/// The group path of one object within the dataset.
pub fn object_group_path(obj_id: usize) -> (s: String)
    ensures
        decodes(s@, object_group_bytes(obj_id as nat)),
{
    let mut out: Vec<u8> = Vec::new();
    out.push(111);
    out.push(98);
    out.push(106);
    out.push(101);
    out.push(99);
    out.push(116);
    out.push(115);
    out.push(47);
    push_dec(&mut out, obj_id as u64);
    proof {
        assert(out@ =~= object_group_bytes(obj_id as nat));
    }
    ascii_string(out)
}

/// Why creating or extending a store failed.
#[derive(Clone, Copy, Debug, PartialEq, Eq)]
pub enum StoreErr {
    /// A dataset file already exists at the path and `redo` was not set.
    AlreadyExists,
    /// A lower-level failure of the storage engine, surfaced by the
    /// disk edge around this library.
    Storage,
}

/// The columns written by one append call: one chunk per quantity,
/// each holding the submitted values for that quantity in sample order.
/// Acceleration columns are present exactly when the run retains
/// acceleration.
pub struct Chunk {
    pub t: Vec<u64>,
    pub x: Vec<u64>,
    pub y: Vec<u64>,
    pub z: Vec<u64>,
    pub vx: Vec<u64>,
    pub vy: Vec<u64>,
    pub vz: Vec<u64>,
    pub ax: Option<Vec<u64>>,
    pub ay: Option<Vec<u64>>,
    pub az: Option<Vec<u64>>,
}

/// The mathematical contents of a `Chunk`.
pub ghost struct ChunkView {
    pub t: Seq<u64>,
    pub x: Seq<u64>,
    pub y: Seq<u64>,
    pub z: Seq<u64>,
    pub vx: Seq<u64>,
    pub vy: Seq<u64>,
    pub vz: Seq<u64>,
    pub ax: Option<Seq<u64>>,
    pub ay: Option<Seq<u64>>,
    pub az: Option<Seq<u64>>,
}

impl View for Chunk {
    type V = ChunkView;

    closed spec fn view(&self) -> ChunkView {
        ChunkView {
            t: self.t@,
            x: self.x@,
            y: self.y@,
            z: self.z@,
            vx: self.vx@,
            vy: self.vy@,
            vz: self.vz@,
            ax: match self.ax {
                Some(v) => Some(v@),
                None => None,
            },
            ay: match self.ay {
                Some(v) => Some(v@),
                None => None,
            },
            az: match self.az {
                Some(v) => Some(v@),
                None => None,
            },
        }
    }
}

/// The time column of a sample batch.
pub open spec fn col_t(lines: Seq<Line>) -> Seq<u64> {
    lines.map(|_i: int, l: Line| l.t)
}

/// A position column: the chosen component of each sample's position,
/// offset by the matching component of the center-of-mass vector.
pub open spec fn col_x(lines: Seq<Line>, cm: Vec3) -> Seq<u64> {
    lines.map(|_i: int, l: Line| sum_bits(l.r.x, cm.x))
}

pub open spec fn col_y(lines: Seq<Line>, cm: Vec3) -> Seq<u64> {
    lines.map(|_i: int, l: Line| sum_bits(l.r.y, cm.y))
}

pub open spec fn col_z(lines: Seq<Line>, cm: Vec3) -> Seq<u64> {
    lines.map(|_i: int, l: Line| sum_bits(l.r.z, cm.z))
}

/// A velocity column: written as submitted, without correction.
pub open spec fn col_vx(lines: Seq<Line>) -> Seq<u64> {
    lines.map(|_i: int, l: Line| l.v.x)
}

pub open spec fn col_vy(lines: Seq<Line>) -> Seq<u64> {
    lines.map(|_i: int, l: Line| l.v.y)
}

pub open spec fn col_vz(lines: Seq<Line>) -> Seq<u64> {
    lines.map(|_i: int, l: Line| l.v.z)
}

/// An acceleration column: written as submitted, without correction.
/// Meaningful only when every sample carries an acceleration value.
pub open spec fn col_ax(lines: Seq<Line>) -> Seq<u64> {
    lines.map(|_i: int, l: Line| l.a.unwrap().x)
}

pub open spec fn col_ay(lines: Seq<Line>) -> Seq<u64> {
    lines.map(|_i: int, l: Line| l.a.unwrap().y)
}

pub open spec fn col_az(lines: Seq<Line>) -> Seq<u64> {
    lines.map(|_i: int, l: Line| l.a.unwrap().z)
}

/// `c` holds exactly the columns of the batch `lines`, positions offset
/// by `cm`, with acceleration columns present exactly when `save_acc`.
pub open spec fn chunk_matches(c: ChunkView, lines: Seq<Line>, cm: Vec3, save_acc: bool) -> bool {
    &&& c.t == col_t(lines)
    &&& c.x == col_x(lines, cm)
    &&& c.y == col_y(lines, cm)
    &&& c.z == col_z(lines, cm)
    &&& c.vx == col_vx(lines)
    &&& c.vy == col_vy(lines)
    &&& c.vz == col_vz(lines)
    &&& if save_acc {
        c.ax == Some(col_ax(lines)) && c.ay == Some(col_ay(lines)) && c.az == Some(col_az(lines))
    } else {
        c.ax is None && c.ay is None && c.az is None
    }
}

/// Splits a batch of samples into parallel per-quantity columns in
/// sample order, adding the center-of-mass offset to each position
/// component and leaving velocity and acceleration values untouched.
pub fn unpack(lines: &Vec<Line>, cm: Vec3, save_acc: bool) -> (c: Chunk)
    requires
        forall|j: int|
            0 <= j < lines@.len() ==> (#[trigger] lines@[j]).has_acc() == save_acc,
    ensures
        chunk_matches(c@, lines@, cm, save_acc),
{
    let n = lines.len();
    let mut t: Vec<u64> = Vec::with_capacity(n);
    let mut x: Vec<u64> = Vec::with_capacity(n);
    let mut y: Vec<u64> = Vec::with_capacity(n);
    let mut z: Vec<u64> = Vec::with_capacity(n);
    let mut vx: Vec<u64> = Vec::with_capacity(n);
    let mut vy: Vec<u64> = Vec::with_capacity(n);
    let mut vz: Vec<u64> = Vec::with_capacity(n);
    let mut ax: Vec<u64> = Vec::new();
    let mut ay: Vec<u64> = Vec::new();
    let mut az: Vec<u64> = Vec::new();
    let mut j: usize = 0;
    while j < n
        invariant
            j <= n,
            n == lines@.len(),
            forall|k: int|
                0 <= k < lines@.len() ==> (#[trigger] lines@[k]).has_acc() == save_acc,
            t@.len() == j,
            x@.len() == j,
            y@.len() == j,
            z@.len() == j,
            vx@.len() == j,
            vy@.len() == j,
            vz@.len() == j,
            ax@.len() == if save_acc { j as int } else { 0 },
            ay@.len() == if save_acc { j as int } else { 0 },
            az@.len() == if save_acc { j as int } else { 0 },
            forall|k: int| 0 <= k < j ==> #[trigger] t@[k] == lines@[k].t,
            forall|k: int| 0 <= k < j ==> #[trigger] x@[k] == sum_bits(lines@[k].r.x, cm.x),
            forall|k: int| 0 <= k < j ==> #[trigger] y@[k] == sum_bits(lines@[k].r.y, cm.y),
            forall|k: int| 0 <= k < j ==> #[trigger] z@[k] == sum_bits(lines@[k].r.z, cm.z),
            forall|k: int| 0 <= k < j ==> #[trigger] vx@[k] == lines@[k].v.x,
            forall|k: int| 0 <= k < j ==> #[trigger] vy@[k] == lines@[k].v.y,
            forall|k: int| 0 <= k < j ==> #[trigger] vz@[k] == lines@[k].v.z,
            save_acc ==> forall|k: int| 0 <= k < j ==> #[trigger] ax@[k] == lines@[k].a.unwrap().x,
            save_acc ==> forall|k: int| 0 <= k < j ==> #[trigger] ay@[k] == lines@[k].a.unwrap().y,
            save_acc ==> forall|k: int| 0 <= k < j ==> #[trigger] az@[k] == lines@[k].a.unwrap().z,
        decreases n - j,
    {
        let line = lines[j];
        t.push(line.t);
        let p = offset(line.r, cm);
        x.push(p.x);
        y.push(p.y);
        z.push(p.z);
        vx.push(line.v.x);
        vy.push(line.v.y);
        vz.push(line.v.z);
        if save_acc {
            let a = match line.a {
                Some(a) => a,
                None => {
                    proof {
                        assert(lines@[j as int].has_acc());
                    }
                    unreached()
                },
            };
            ax.push(a.x);
            ay.push(a.y);
            az.push(a.z);
        }
        j += 1;
    }
    proof {
        assert(t@ =~= col_t(lines@));
        assert(x@ =~= col_x(lines@, cm));
        assert(y@ =~= col_y(lines@, cm));
        assert(z@ =~= col_z(lines@, cm));
        assert(vx@ =~= col_vx(lines@));
        assert(vy@ =~= col_vy(lines@));
        assert(vz@ =~= col_vz(lines@));
        if save_acc {
            assert(ax@ =~= col_ax(lines@));
            assert(ay@ =~= col_ay(lines@));
            assert(az@ =~= col_az(lines@));
        }
    }
    if save_acc {
        Chunk { t, x, y, z, vx, vy, vz, ax: Some(ax), ay: Some(ay), az: Some(az) }
    } else {
        Chunk { t, x, y, z, vx, vy, vz, ax: None, ay: None, az: None }
    }
}

/// One append call as submitted: the batch of samples and the
/// center-of-mass offset supplied with it.
pub ghost struct Batch {
    pub lines: Seq<Line>,
    pub cm: Vec3,
}

/// All samples of a sequence of append calls, in the order submitted.
pub open spec fn lines_of(batches: Seq<Batch>) -> Seq<Line> {
    batches.map(|_k: int, b: Batch| b.lines).flatten()
}

/// Recording one more append call extends the persisted samples by
/// exactly that call's batch.
pub proof fn lemma_lines_after_append(pre: Seq<Batch>, b: Batch)
    ensures
        lines_of(pre.push(b)) == lines_of(pre) + b.lines,
{
    let f = |_k: int, x: Batch| x.lines;
    assert(pre.push(b).map(f) =~= pre.map(f).push(b.lines));
    pre.map(f).lemma_flatten_push(b.lines);
}

/// Chunked dataset with one dense, zero-based chunk sequence per object
/// and per quantity, and a per-object counter that increments exactly
/// once per successful append.
pub struct Store {
    path: String,
    save_acc: bool,
    counters: Vec<usize>,
    chunks: Vec<Vec<Chunk>>,
    batches: Ghost<Seq<Seq<Batch>>>,
}

impl Store {
    /// The path of the dataset file this store stands for.
    pub closed spec fn spec_path(&self) -> Seq<char> {
        self.path@
    }

    /// Whether acceleration columns are written.
    pub closed spec fn spec_save_acc(&self) -> bool {
        self.save_acc
    }

    /// The object count fixed at creation.
    pub closed spec fn spec_n_objects(&self) -> int {
        self.chunks@.len() as int
    }

    /// The chunk counter of object `i`.
    pub closed spec fn spec_counter(&self, i: int) -> int {
        self.counters@[i] as int
    }

    /// The chunks of object `i`, in chunk-index order.
    pub closed spec fn spec_chunks(&self, i: int) -> Seq<ChunkView> {
        self.chunks@[i]@.map(|_k: int, c: Chunk| c@)
    }

    /// The append calls recorded for object `i`, in order.
    pub closed spec fn spec_batches(&self, i: int) -> Seq<Batch> {
        self.batches@[i]
    }

    /// All samples persisted for object `i`, in the order submitted.
    pub open spec fn spec_lines(&self, i: int) -> Seq<Line> {
        lines_of(self.spec_batches(i))
    }

    /// Dense chunk numbering, and chunks that hold exactly the columns
    /// of the batches submitted for them.
    pub closed spec fn wf(&self) -> bool {
        &&& self.counters@.len() == self.chunks@.len()
        &&& self.batches@.len() == self.chunks@.len()
        &&& forall|i: int|
            0 <= i < self.spec_n_objects()
                ==> #[trigger] self.spec_counter(i) == self.spec_chunks(i).len()
        &&& forall|i: int|
            0 <= i < self.spec_n_objects()
                ==> (#[trigger] self.spec_batches(i)).len() == self.spec_chunks(i).len()
        &&& forall|i: int, k: int|
            0 <= i < self.spec_n_objects() && 0 <= k < self.spec_chunks(i).len()
                ==> chunk_matches(
                    #[trigger] self.spec_chunks(i)[k],
                    self.spec_batches(i)[k].lines,
                    self.spec_batches(i)[k].cm,
                    self.spec_save_acc(),
                )
        &&& forall|i: int, k: int, j: int|
            0 <= i < self.spec_n_objects() && 0 <= k < self.spec_batches(i).len() && 0 <= j
                < self.spec_batches(i)[k].lines.len()
                ==> (#[trigger] self.spec_batches(i)[k].lines[j]).has_acc()
                    == self.spec_save_acc()
    }

    /// Creates a store for `n_objects` objects rooted at `path`.
    ///
    /// `file_exists` reports whether a dataset file is already present
    /// at the path; when it is and `redo` is not set, creation is
    /// refused with `AlreadyExists` and nothing is touched. Otherwise
    /// the store starts with an empty dense chunk hierarchy for every
    /// object and every counter at zero.
    pub fn new(path: String, n_objects: usize, redo: bool, save_acc: bool, file_exists: bool) -> (r:
        Result<Store, StoreErr>)
        ensures
            r is Err <==> (file_exists && !redo),
            r is Err ==> r->Err_0 == StoreErr::AlreadyExists,
            r is Ok ==> {
                let s = r->Ok_0;
                &&& s.wf()
                &&& s.spec_path() == path@
                &&& s.spec_save_acc() == save_acc
                &&& s.spec_n_objects() == n_objects
                &&& forall|i: int| 0 <= i < n_objects ==> s.spec_counter(i) == 0
                &&& forall|i: int| 0 <= i < n_objects ==> s.spec_chunks(i) == Seq::<ChunkView>::empty()
                &&& forall|i: int| 0 <= i < n_objects ==> s.spec_batches(i) == Seq::<Batch>::empty()
            },
    {
        if file_exists && !redo {
            return Err(StoreErr::AlreadyExists);
        }
        let mut counters: Vec<usize> = Vec::with_capacity(n_objects);
        let mut chunks: Vec<Vec<Chunk>> = Vec::with_capacity(n_objects);
        let mut k: usize = 0;
        while k < n_objects
            invariant
                k <= n_objects,
                counters@.len() == k,
                chunks@.len() == k,
                forall|i: int| 0 <= i < k ==> #[trigger] counters@[i] == 0,
                forall|i: int| 0 <= i < k ==> (#[trigger] chunks@[i])@ == Seq::<Chunk>::empty(),
            decreases n_objects - k,
        {
            counters.push(0);
            chunks.push(Vec::new());
            k += 1;
        }
        let s = Store {
            path,
            save_acc,
            counters,
            chunks,
            batches: Ghost(Seq::new(n_objects as nat, |_i: int| Seq::<Batch>::empty())),
        };
        proof {
            assert forall|i: int| 0 <= i < n_objects implies s.spec_chunks(i)
                == Seq::<ChunkView>::empty() by {
                assert(s.spec_chunks(i) =~= Seq::<ChunkView>::empty());
            }
        }
        Ok(s)
    }

    /// The object count fixed at creation.
    pub fn n_objects(&self) -> (n: usize)
        ensures
            n == self.spec_n_objects(),
    {
        self.chunks.len()
    }

    /// The path of the dataset file this store stands for.
    pub fn path(&self) -> (p: &String)
        ensures
            p@ == self.spec_path(),
    {
        &self.path
    }

    /// Whether acceleration columns are written.
    pub fn save_acc(&self) -> (b: bool)
        ensures
            b == self.spec_save_acc(),
    {
        self.save_acc
    }

    /// The chunk counter of an object: the number of the next chunk,
    /// and the number of chunks written so far.
    pub fn chunk_count(&self, obj_id: usize) -> (n: usize)
        requires
            self.wf(),
            obj_id < self.spec_n_objects(),
        ensures
            n == self.spec_counter(obj_id as int),
            n == self.spec_chunks(obj_id as int).len(),
    {
        proof {
            assert(self.spec_counter(obj_id as int) == self.spec_chunks(obj_id as int).len());
        }
        self.counters[obj_id]
    }

    /// Reads back one written chunk.
    pub fn read_chunk(&self, obj_id: usize, chunk_id: usize) -> (c: &Chunk)
        requires
            self.wf(),
            obj_id < self.spec_n_objects(),
            chunk_id < self.spec_counter(obj_id as int),
        ensures
            c@ == self.spec_chunks(obj_id as int)[chunk_id as int],
    {
        &self.chunks[obj_id][chunk_id]
    }

    /// Appends one batch of samples for one object as the next numbered
    /// chunk of every quantity: the columns of `lines`, positions offset
    /// component-wise by `cm`. The object's counter increments exactly
    /// once; every other object and every existing chunk is untouched.
    pub fn append(&mut self, obj_id: usize, lines: Vec<Line>, cm: Vec3)
        requires
            old(self).wf(),
            obj_id < old(self).spec_n_objects(),
            forall|j: int|
                0 <= j < lines@.len()
                    ==> (#[trigger] lines@[j]).has_acc() == old(self).spec_save_acc(),
        ensures
            final(self).wf(),
            final(self).spec_n_objects() == old(self).spec_n_objects(),
            final(self).spec_path() == old(self).spec_path(),
            final(self).spec_save_acc() == old(self).spec_save_acc(),
            final(self).spec_counter(obj_id as int) == old(self).spec_counter(obj_id as int) + 1,
            final(self).spec_chunks(obj_id as int).len() == old(self).spec_chunks(
                obj_id as int,
            ).len() + 1,
            final(self).spec_chunks(obj_id as int).drop_last() == old(self).spec_chunks(
                obj_id as int,
            ),
            chunk_matches(
                final(self).spec_chunks(obj_id as int).last(),
                lines@,
                cm,
                old(self).spec_save_acc(),
            ),
            final(self).spec_batches(obj_id as int) == old(self).spec_batches(obj_id as int).push(
                (Batch { lines: lines@, cm }),
            ),
            forall|i: int|
                0 <= i < old(self).spec_n_objects() && i != obj_id
                    ==> #[trigger] final(self).spec_counter(i) == old(self).spec_counter(i),
            forall|i: int|
                0 <= i < old(self).spec_n_objects() && i != obj_id
                    ==> #[trigger] final(self).spec_chunks(i) == old(self).spec_chunks(i),
            forall|i: int|
                0 <= i < old(self).spec_n_objects() && i != obj_id
                    ==> #[trigger] final(self).spec_batches(i) == old(self).spec_batches(i),
    {
        let save_acc = self.save_acc;
        let chunk = unpack(&lines, cm, save_acc);
        let obj = &mut self.chunks[obj_id];
        obj.push(chunk);
        let n = self.chunks[obj_id].len();
        let cref = &mut self.counters[obj_id];
        *cref = n;
        proof {
            self.batches@ = self.batches@.update(
                obj_id as int,
                self.batches@[obj_id as int].push(Batch { lines: lines@, cm }),
            );
            assert(self.spec_chunks(obj_id as int) =~= old(self).spec_chunks(obj_id as int).push(
                self.chunks@[obj_id as int]@.last()@,
            ));
            assert(self.spec_chunks(obj_id as int).drop_last() =~= old(self).spec_chunks(
                obj_id as int,
            ));
            assert forall|i: int|
                0 <= i < old(self).spec_n_objects() && i != obj_id implies #[trigger] self.spec_counter(
                i,
            ) == old(self).spec_counter(i) by {
                assert(self.counters@[i] == old(self).counters@[i]);
            }
            assert forall|i: int|
                0 <= i < old(self).spec_n_objects() && i != obj_id implies #[trigger] self.spec_chunks(
                i,
            ) == old(self).spec_chunks(i) by {
                assert(self.chunks@[i] == old(self).chunks@[i]);
            }
            assert forall|i: int|
                0 <= i < old(self).spec_n_objects() && i != obj_id implies #[trigger] self.spec_batches(
                i,
            ) == old(self).spec_batches(i) by {
                assert(self.batches@[i] == old(self).batches@[i]);
            }
            assert(self.spec_chunks(obj_id as int).last() == chunk@);
            assert(self.spec_batches(obj_id as int).last() == (Batch { lines: lines@, cm }));
            assert(self.counters@.len() == self.chunks@.len());
            assert(self.batches@.len() == self.chunks@.len());
            assert forall|i: int| 0 <= i < self.spec_n_objects() implies self.spec_counter(i)
                == self.spec_chunks(i).len() by {
                if i != obj_id {
                    assert(self.chunks@[i] == old(self).chunks@[i]);
                    assert(self.counters@[i] == old(self).counters@[i]);
                }
            }
            assert forall|i: int| 0 <= i < self.spec_n_objects() implies (#[trigger] self.spec_batches(
                i,
            )).len() == self.spec_chunks(i).len() by {
                if i != obj_id {
                    assert(self.chunks@[i] == old(self).chunks@[i]);
                    assert(self.spec_batches(i) == old(self).spec_batches(i));
                    assert(self.spec_chunks(i) =~= old(self).spec_chunks(i));
                    assert(old(self).spec_batches(i).len() == old(self).spec_chunks(i).len());
                } else {
                    assert(old(self).spec_batches(i).len() == old(self).spec_chunks(i).len());
                    assert(self.spec_batches(i) == old(self).spec_batches(i).push(
                        Batch { lines: lines@, cm },
                    ));
                    assert(self.spec_chunks(i).len() == old(self).spec_chunks(i).len() + 1);
                }
            }
            assert forall|i: int, k: int|
                0 <= i < self.spec_n_objects() && 0 <= k < self.spec_chunks(i).len()
                    implies chunk_matches(
                    #[trigger] self.spec_chunks(i)[k],
                    self.spec_batches(i)[k].lines,
                    self.spec_batches(i)[k].cm,
                    self.spec_save_acc(),
                ) by {
                if i == obj_id {
                    if k < old(self).spec_chunks(i).len() {
                        assert(self.spec_chunks(i)[k] == self.spec_chunks(i).drop_last()[k]);
                        assert(self.spec_chunks(i)[k] == old(self).spec_chunks(i)[k]);
                        assert(self.spec_batches(i)[k] == old(self).spec_batches(i)[k]);
                    } else {
                        assert(old(self).spec_batches(i).len() == old(self).spec_chunks(i).len());
                        assert(self.spec_batches(i).len() == self.spec_chunks(i).len());
                        assert(k == self.spec_chunks(i).len() - 1);
                        assert(self.spec_chunks(i)[k] == self.spec_chunks(i).last());
                        assert(self.spec_batches(i)[k] == self.spec_batches(i).last());
                    }
                } else {
                    assert(self.spec_chunks(i) == old(self).spec_chunks(i));
                    assert(self.spec_batches(i) == old(self).spec_batches(i));
                }
            }
            assert forall|i: int, k: int, j: int|
                0 <= i < self.spec_n_objects() && 0 <= k < self.spec_batches(i).len() && 0 <= j
                    < self.spec_batches(i)[k].lines.len()
                    implies (#[trigger] self.spec_batches(i)[k].lines[j]).has_acc()
                    == self.spec_save_acc() by {
                if i == obj_id && k == old(self).spec_batches(i).len() {
                    assert(self.spec_batches(i)[k].lines == lines@);
                } else {
                    assert(self.spec_batches(i)[k] == old(self).spec_batches(i)[k]);
                }
            }
        }
    }
}

/// Converts a whole record into per-object columns: the run outcome of
/// an in-memory capture, positions offset by the center of mass.
pub fn to_columns(record: &crate::record::Record, cm: Vec3) -> (cols: Vec<Chunk>)
    requires
        record.wf(),
    ensures
        cols@.len() == record@.len(),
        forall|i: int|
            0 <= i < record@.len() ==> chunk_matches(
                (#[trigger] cols@[i])@,
                record@[i],
                cm,
                record.spec_save_acc(),
            ),
{
    let n = record.len();
    let save_acc = record.save_acc();
    let mut cols: Vec<Chunk> = Vec::with_capacity(n);
    let mut i: usize = 0;
    while i < n
        invariant
            i <= n,
            n == record@.len(),
            record.wf(),
            save_acc == record.spec_save_acc(),
            cols@.len() == i,
            forall|k: int|
                0 <= k < i ==> chunk_matches(
                    (#[trigger] cols@[k])@,
                    record@[k],
                    cm,
                    record.spec_save_acc(),
                ),
        decreases n - i,
    {
        let c = unpack(record.lines(i), cm, save_acc);
        cols.push(c);
        i += 1;
    }
    cols
}

/// Chunk numbering is dense and append-only: in a well-formed store
/// exactly chunks `0..counter` exist for each object, and one append
/// writes chunk `counter` without overwriting any earlier chunk.
pub proof fn lemma_chunk_numbering(pre: Store, post: Store, i: int, c: ChunkView)
    requires
        pre.wf(),
        post.wf(),
        0 <= i < pre.spec_n_objects(),
        post.spec_counter(i) == pre.spec_counter(i) + 1,
        post.spec_chunks(i).len() == pre.spec_chunks(i).len() + 1,
        post.spec_chunks(i).drop_last() == pre.spec_chunks(i),
        post.spec_chunks(i).last() == c,
    ensures
        pre.spec_counter(i) == pre.spec_chunks(i).len(),
        post.spec_counter(i) == post.spec_chunks(i).len(),
        forall|k: int|
            0 <= k < pre.spec_counter(i) ==> #[trigger] post.spec_chunks(i)[k]
                == pre.spec_chunks(i)[k],
        post.spec_chunks(i)[post.spec_counter(i) - 1] == c,
{
    assert forall|k: int| 0 <= k < pre.spec_counter(i) implies #[trigger] post.spec_chunks(i)[k]
        == pre.spec_chunks(i)[k] by {
        assert(post.spec_chunks(i).drop_last()[k] == post.spec_chunks(i)[k]);
    }
}

/// Round trip: a chunk that records a batch holds, for each quantity and
/// each sample index, exactly the submitted value — positions offset
/// component-wise by the supplied center-of-mass vector, velocity and
/// acceleration values unmodified.
pub proof fn lemma_store_round_trip(
    c: ChunkView,
    lines: Seq<Line>,
    cm: Vec3,
    save_acc: bool,
    j: int,
)
    requires
        chunk_matches(c, lines, cm, save_acc),
        0 <= j < lines.len(),
    ensures
        c.t.len() == lines.len(),
        c.t[j] == lines[j].t,
        c.x[j] == sum_bits(lines[j].r.x, cm.x),
        c.y[j] == sum_bits(lines[j].r.y, cm.y),
        c.z[j] == sum_bits(lines[j].r.z, cm.z),
        c.vx[j] == lines[j].v.x,
        c.vy[j] == lines[j].v.y,
        c.vz[j] == lines[j].v.z,
        save_acc ==> c.ax == Some(col_ax(lines)) && c.ax.unwrap()[j] == lines[j].a.unwrap().x,
        save_acc ==> c.ay == Some(col_ay(lines)) && c.ay.unwrap()[j] == lines[j].a.unwrap().y,
        save_acc ==> c.az == Some(col_az(lines)) && c.az.unwrap()[j] == lines[j].a.unwrap().z,
{
}

} // verus!
