//! Rate-gated textual progress reporting.
//!
//! The reporter reduces the run's progress to a fraction of a fixed
//! total measure (elapsed simulated time or an iteration count, both
//! behind one contract), re-renders a single status line at most once
//! per 100 ms of wall-clock time, and reports completion exactly once.
//! The clock is injected: every call takes the current wall-clock
//! milliseconds, so timing behaviour is fully determined by the
//! arguments.

use vstd::prelude::*;
use vstd::arithmetic::div_mod::lemma_div_is_ordered;
use vstd::arithmetic::div_mod::lemma_div_multiples_vanish;
use vstd::arithmetic::mul::lemma_mul_inequality;
use crate::text::dec_digits;
use crate::text::two_dec_digits;
use crate::text::decodes;
use crate::text::push_dec;
use crate::text::push_two_dec;
use crate::text::ascii_string;

verus! {

pub const CR: u8 = 13;

pub const SPACE: u8 = 32;

pub const HASH: u8 = 35;

pub const PERCENT: u8 = 37;

pub const SLASH: u8 = 47;

pub const DOT: u8 = 46;

pub const QMARK: u8 = 63;

pub const ZERO: u8 = 48;

pub const LBRACKET: u8 = 91;

pub const RBRACKET: u8 = 93;

pub const LOWER_I: u8 = 105;

pub const LOWER_S: u8 = 115;

pub const LOWER_T: u8 = 116;

/// Wall-clock milliseconds elapsed since the last render; a clock that
/// moved backwards counts as no time passed.
pub open spec fn spec_delta(last_ms: nat, now_ms: nat) -> nat {
    if now_ms >= last_ms {
        (now_ms - last_ms) as nat
    } else {
        0
    }
}

/// The sample counter after one more sample, saturating at the
/// machine limit.
pub open spec fn sat_inc(p: nat) -> nat {
    if p < usize::MAX as nat {
        p + 1
    } else {
        p
    }
}

/// The displayed speed: accumulated sample count times 1000 over the
/// elapsed milliseconds, saturating to the maximum sentinel when no
/// time elapsed (or on overflow).
pub open spec fn spec_speed(it: nat, delta_ms: nat) -> nat {
    if delta_ms == 0 {
        u64::MAX as nat
    } else if 1000 * it / delta_ms > u64::MAX as nat {
        u64::MAX as nat
    } else {
        1000 * it / delta_ms
    }
}

/// Computes the displayed speed.
pub fn calc_speed(it: usize, delta_ms: u64) -> (s: u64)
    ensures
        s as nat == spec_speed(it as nat, delta_ms as nat),
{
    if delta_ms == 0 {
        u64::MAX
    } else {
        proof {
            lemma_mul_inequality(it as int, u64::MAX as int, 1000);
        }
        let v: u128 = 1000u128 * (it as u128) / (delta_ms as u128);
        if v > u64::MAX as u128 {
            u64::MAX
        } else {
            v as u64
        }
    }
}

/// The progress fraction of `current` against `total`, clamped to one
/// for display, in basis points (hundredths of a percent).
pub open spec fn spec_bp(current: nat, total: nat) -> int {
    (if current > total {
        total as int
    } else {
        current as int
    }) * 10000 / (total as int)
}

/// The rendered fill width: the clamped fraction of the bar's width.
pub open spec fn spec_fill(current: nat, total: nat, width: nat) -> int {
    (if current > total {
        total as int
    } else {
        current as int
    }) * (width as int) / (total as int)
}

fn compute_bp(current: u64, total: u64) -> (bp: u64)
    requires
        total > 0,
    ensures
        bp == spec_bp(current as nat, total as nat),
        bp <= 10000,
{
    let m: u64 = if current > total {
        total
    } else {
        current
    };
    proof {
        lemma_mul_inequality(m as int, total as int, 10000);
        lemma_div_is_ordered(m as int * 10000, total as int * 10000, total as int);
        lemma_div_multiples_vanish(10000, total as int);
        lemma_mul_inequality(m as int, u64::MAX as int, 10000);
    }
    let v: u128 = (m as u128) * 10000u128 / (total as u128);
    v as u64
}

fn compute_fill(current: u64, total: u64, width: usize) -> (f: usize)
    requires
        total > 0,
    ensures
        f == spec_fill(current as nat, total as nat, width as nat),
        f <= width,
{
    let m: u64 = if current > total {
        total
    } else {
        current
    };
    proof {
        lemma_mul_inequality(m as int, total as int, width as int);
        lemma_div_is_ordered(m as int * width as int, total as int * width as int, total as int);
        lemma_div_multiples_vanish(width as int, total as int);
        lemma_mul_inequality(m as int, u64::MAX as int, width as int);
        lemma_mul_inequality(width as int, u64::MAX as int, u64::MAX as int);
    }
    let v: u128 = (m as u128) * (width as u128) / (total as u128);
    v as usize
}

/// The speed field of the status line: the decimal speed, or a
/// placeholder when no wall-clock time has elapsed.
pub open spec fn speed_bytes(it: nat, delta_ms: nat) -> Seq<u8> {
    if delta_ms == 0 {
        seq![QMARK, QMARK, QMARK]
    } else {
        dec_digits(spec_speed(it, delta_ms))
    }
}

/// The full status line for one render: a carriage return, the bar of
/// `fill` hashes padded to `width`, the clamped percentage with two
/// decimals, and the speed.
pub open spec fn bar_line_bytes(width: nat, fill: nat, bp: nat, it: nat, delta_ms: nat) -> Seq<
    u8,
> {
    seq![CR, LBRACKET] + Seq::new(fill, |_i: int| HASH) + Seq::new(
        (width - fill) as nat,
        |_i: int| SPACE,
    ) + seq![RBRACKET, SPACE] + dec_digits(bp / 100) + seq![DOT] + two_dec_digits(bp % 100)
        + seq![PERCENT, SPACE, LBRACKET] + speed_bytes(it, delta_ms) + seq![
        SPACE,
        LOWER_I,
        LOWER_T,
        SLASH,
        LOWER_S,
        RBRACKET,
    ]
}

/// The empty bar drawn once at construction.
pub open spec fn start_line_bytes(width: nat) -> Seq<u8> {
    seq![CR, LBRACKET] + Seq::new(width, |_i: int| SPACE) + seq![
        RBRACKET,
        SPACE,
        ZERO,
        PERCENT,
        SPACE,
        LBRACKET,
        QMARK,
        QMARK,
        QMARK,
        SPACE,
        LOWER_I,
        LOWER_T,
        SLASH,
        LOWER_S,
        RBRACKET,
    ]
}

/// Renders the status line for one update.
pub fn format_bar(width: usize, fill: usize, bp: u64, it: usize, delta_ms: u64) -> (s: String)
    requires
        fill <= width,
    ensures
        decodes(s@, bar_line_bytes(width as nat, fill as nat, bp as nat, it as nat, delta_ms as nat)),
{
    let mut out: Vec<u8> = Vec::new();
    out.push(CR);
    out.push(LBRACKET);
    let ghost s0 = seq![CR, LBRACKET];
    proof {
        assert(out@ =~= s0);
    }
    let mut k: usize = 0;
    while k < fill
        invariant
            k <= fill,
            out@ == s0 + Seq::new(k as nat, |_i: int| HASH),
        decreases fill - k,
    {
        out.push(HASH);
        k += 1;
        proof {
            assert(out@ =~= s0 + Seq::new(k as nat, |_i: int| HASH));
        }
    }
    let ghost s1 = s0 + Seq::new(fill as nat, |_i: int| HASH);
    let mut k2: usize = 0;
    let pad = width - fill;
    while k2 < pad
        invariant
            k2 <= pad,
            out@ == s1 + Seq::new(k2 as nat, |_i: int| SPACE),
        decreases pad - k2,
    {
        out.push(SPACE);
        k2 += 1;
        proof {
            assert(out@ =~= s1 + Seq::new(k2 as nat, |_i: int| SPACE));
        }
    }
    let ghost s2 = s1 + Seq::new((width - fill) as nat, |_i: int| SPACE);
    out.push(RBRACKET);
    out.push(SPACE);
    let ghost s3 = s2 + seq![RBRACKET, SPACE];
    proof {
        assert(out@ =~= s3);
    }
    push_dec(&mut out, bp / 100);
    let ghost s4 = s3 + dec_digits((bp / 100) as nat);
    out.push(DOT);
    let ghost s5 = s4 + seq![DOT];
    push_two_dec(&mut out, bp % 100);
    let ghost s6 = s5 + two_dec_digits((bp % 100) as nat);
    out.push(PERCENT);
    out.push(SPACE);
    out.push(LBRACKET);
    let ghost s7 = s6 + seq![PERCENT, SPACE, LBRACKET];
    proof {
        assert(out@ =~= s7);
    }
    if delta_ms == 0 {
        out.push(QMARK);
        out.push(QMARK);
        out.push(QMARK);
    } else {
        let sp = calc_speed(it, delta_ms);
        push_dec(&mut out, sp);
    }
    let ghost s8 = s7 + speed_bytes(it as nat, delta_ms as nat);
    proof {
        assert(out@ =~= s8);
    }
    out.push(SPACE);
    out.push(LOWER_I);
    out.push(LOWER_T);
    out.push(SLASH);
    out.push(LOWER_S);
    out.push(RBRACKET);
    proof {
        assert(out@ =~= bar_line_bytes(
            width as nat,
            fill as nat,
            bp as nat,
            it as nat,
            delta_ms as nat,
        ));
        assert forall|i: int| 0 <= i < out@.len() implies out@[i] < 128 by {}
    }
    ascii_string(out)
}

/// Renders the empty bar drawn once at construction.
pub fn format_bar_start(width: usize) -> (s: String)
    ensures
        decodes(s@, start_line_bytes(width as nat)),
{
    let mut out: Vec<u8> = Vec::new();
    out.push(CR);
    out.push(LBRACKET);
    let ghost s0 = seq![CR, LBRACKET];
    proof {
        assert(out@ =~= s0);
    }
    let mut k: usize = 0;
    while k < width
        invariant
            k <= width,
            out@ == s0 + Seq::new(k as nat, |_i: int| SPACE),
        decreases width - k,
    {
        out.push(SPACE);
        k += 1;
        proof {
            assert(out@ =~= s0 + Seq::new(k as nat, |_i: int| SPACE));
        }
    }
    out.push(RBRACKET);
    out.push(SPACE);
    out.push(ZERO);
    out.push(PERCENT);
    out.push(SPACE);
    out.push(LBRACKET);
    out.push(QMARK);
    out.push(QMARK);
    out.push(QMARK);
    out.push(SPACE);
    out.push(LOWER_I);
    out.push(LOWER_T);
    out.push(SLASH);
    out.push(LOWER_S);
    out.push(RBRACKET);
    proof {
        assert(out@ =~= start_line_bytes(width as nat));
        assert forall|i: int| 0 <= i < out@.len() implies out@[i] < 128 by {}
    }
    ascii_string(out)
}

/// Sink for progress output. The host injects a console or stream; the
/// reporter calls `write` once per rendered line, and the sink is
/// expected to flush on every call.
pub trait Wrt {
    fn write(&mut self, s: &str);
}

/// What one `update` call did.
#[derive(Clone, Copy, Debug, PartialEq, Eq)]
pub enum UpdateState {
    /// Progress reached or passed the total; fires at most once per
    /// reporter lifetime, with a terminal newline after the final bar.
    Done,
    /// A render occurred; carries the sample count accumulated since
    /// the previous render.
    Print(usize),
    /// No render occurred (throttled).
    Nothing,
}

/// Rate-limited progress bar over an injected sink and clock.
pub struct ProgressBar<W: Wrt> {
    writer: W,
    width: usize,
    total: u64,
    last_ms: u64,
    pending: usize,
    fill: usize,
    done: bool,
}

impl<W: Wrt> ProgressBar<W> {
    /// The bar width in characters.
    pub closed spec fn spec_width(&self) -> nat {
        self.width as nat
    }

    /// The total measure that counts as full progress.
    pub closed spec fn spec_total(&self) -> nat {
        self.total as nat
    }

    /// The wall-clock timestamp of the last render.
    pub closed spec fn spec_last_ms(&self) -> nat {
        self.last_ms as nat
    }

    /// Samples accumulated since the last render.
    pub closed spec fn spec_pending(&self) -> nat {
        self.pending as nat
    }

    /// The last rendered fill width.
    pub closed spec fn spec_fill(&self) -> nat {
        self.fill as nat
    }

    /// Whether `Done` has already fired.
    pub closed spec fn spec_done(&self) -> bool {
        self.done
    }

    pub open spec fn wf(&self) -> bool {
        &&& self.spec_total() > 0
        &&& self.spec_fill() <= self.spec_width()
    }

    /// What `update` answers for a given measure and clock reading:
    /// completion the first time the measure reaches the total, a
    /// render when more than 100 ms of wall-clock time have passed,
    /// and nothing otherwise.
    pub open spec fn spec_result(&self, current: u64, now_ms: u64) -> UpdateState {
        if current as nat >= self.spec_total() && !self.spec_done() {
            UpdateState::Done
        } else if spec_delta(self.spec_last_ms(), now_ms as nat) > 100 {
            UpdateState::Print(sat_inc(self.spec_pending()) as usize)
        } else {
            UpdateState::Nothing
        }
    }

    /// How one `update` call changes the reporter's state: `Done`
    /// latches, a `Print` resets the sample counter and the render
    /// timestamp, and the recorded fill width follows the measure.
    pub open spec fn stepped(&self, post: Self, current: u64, now_ms: u64) -> bool {
        let res = self.spec_result(current, now_ms);
        &&& post.wf()
        &&& post.spec_width() == self.spec_width()
        &&& post.spec_total() == self.spec_total()
        &&& post.spec_done() == (self.spec_done() || res is Done)
        &&& post.spec_fill() == spec_fill(current as nat, self.spec_total(), self.spec_width())
        &&& post.spec_pending() == (if res is Print {
            0
        } else {
            sat_inc(self.spec_pending()) as int
        })
        &&& post.spec_last_ms() == (if res is Print {
            now_ms as nat
        } else {
            self.spec_last_ms()
        })
    }

    /// Gives the reporter up and hands back its sink.
    pub fn into_writer(self) -> W {
        self.writer
    }

    /// The total measure that counts as full progress.
    pub fn total(&self) -> (t: u64)
        ensures
            t as nat == self.spec_total(),
    {
        self.total
    }

    /// Creates the reporter and draws the empty bar once.
    pub fn new(writer: W, width: usize, total: u64, now_ms: u64) -> (bar: ProgressBar<W>)
        requires
            total > 0,
        ensures
            bar.wf(),
            bar.spec_width() == width as nat,
            bar.spec_total() == total as nat,
            bar.spec_last_ms() == now_ms as nat,
            bar.spec_pending() == 0,
            bar.spec_fill() == 0,
            !bar.spec_done(),
    {
        let mut writer = writer;
        let s = format_bar_start(width);
        writer.write(s.as_str());
        ProgressBar { writer, width, total, last_ms: now_ms, pending: 0, fill: 0, done: false }
    }

    /// Counts one sample and re-renders the status line when allowed:
    /// the first time the measure reaches the total it renders, emits
    /// the terminal newline and answers `Done`; when more than 100 ms
    /// have passed since the last render it renders and answers
    /// `Print` with the accumulated sample count, which resets; and
    /// otherwise it answers `Nothing` and touches nothing but the
    /// sample counter and the recorded fill width.
    pub fn update(&mut self, current: u64, now_ms: u64) -> (res: UpdateState)
        requires
            old(self).wf(),
        ensures
            res == old(self).spec_result(current, now_ms),
            old(self).stepped(*final(self), current, now_ms),
    {
        let p1: usize = if self.pending < usize::MAX {
            self.pending + 1
        } else {
            self.pending
        };
        self.pending = p1;
        let delta: u64 = if now_ms >= self.last_ms {
            now_ms - self.last_ms
        } else {
            0
        };
        let fill = compute_fill(current, self.total, self.width);
        self.fill = fill;
        let bp = compute_bp(current, self.total);
        if current >= self.total && !self.done {
            let line = format_bar(self.width, fill, bp, p1, delta);
            self.writer.write(line.as_str());
            self.writer.write("\n");
            self.done = true;
            UpdateState::Done
        } else if delta > 100 {
            let line = format_bar(self.width, fill, bp, p1, delta);
            self.writer.write(line.as_str());
            self.pending = 0;
            self.last_ms = now_ms;
            UpdateState::Print(p1)
        } else {
            UpdateState::Nothing
        }
    }
}

/// Rendering policy: within 100 ms of the last render and short of the
/// total the reporter stays silent; reaching the total fires `Done` the
/// first time; once `Done` has fired it never fires again.
pub proof fn lemma_update_policy<W: Wrt>(bar: ProgressBar<W>, current: u64, now_ms: u64)
    ensures
        (current as nat) < bar.spec_total() && spec_delta(bar.spec_last_ms(), now_ms as nat) <= 100
            ==> bar.spec_result(current, now_ms) is Nothing,
        current as nat >= bar.spec_total() && !bar.spec_done() ==> bar.spec_result(
            current,
            now_ms,
        ) is Done,
        bar.spec_done() ==> !(bar.spec_result(current, now_ms) is Done),
        spec_delta(bar.spec_last_ms(), now_ms as nat) > 100 && ((current as nat)
            < bar.spec_total() || bar.spec_done()) ==> bar.spec_result(current, now_ms) is Print,
{
}

/// `Done` fires at most once per reporter lifetime: after an update
/// answered `Done`, no later update answers `Done` again.
pub proof fn lemma_done_once<W: Wrt>(
    pre: ProgressBar<W>,
    post: ProgressBar<W>,
    current: u64,
    now_ms: u64,
    current2: u64,
    now_ms2: u64,
)
    requires
        pre.spec_result(current, now_ms) is Done,
        post.spec_done() == (pre.spec_done() || pre.spec_result(current, now_ms) is Done),
    ensures
        !(post.spec_result(current2, now_ms2) is Done),
{
}

} // verus!
