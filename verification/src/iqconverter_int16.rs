//! Fixed-point IQ converter: turns a block of real 16-bit samples into
//! interleaved I/Q pairs in place.
//!
//! Pipeline: DC removal, then translation by fs/4, then a half-band FIR
//! on the I (even) samples and a compensating delay on the Q (odd)
//! samples. Integer widths and wrapping follow the reference converter
//! exactly, so outputs are bit-exact.
//!
//! The contracts describe the converter by its state model
//! ([`Int16Model`]): the DC filter state and the whole history of
//! samples that entered the FIR and the delay line. The output of a
//! call is a function of that model and the input block alone.
use vstd::prelude::*;

verus! {

/// FIR queue length multiplier.
pub const SIZE_FACTOR: usize = 16;

/// The abstract state of an [`IqConverterInt16`].
pub struct Int16Model {
    /// The FIR taps (every other tap of the half-band kernel).
    pub kernel: Seq<i32>,
    /// Length of the Q-branch delay line.
    pub delay_len: nat,
    /// Previous input of the DC filter.
    pub old_x: i16,
    /// Previous output of the DC filter.
    pub old_y: i16,
    /// Error feedback of the DC filter.
    pub old_e: i32,
    /// Every sample that has entered the FIR, oldest first.
    pub fir_history: Seq<i16>,
    /// Every sample that has entered the delay line, oldest first.
    pub delay_history: Seq<i16>,
}

/// The sample at position `k` of a history, zero before the start.
pub open spec fn hist(h: Seq<i16>, k: int) -> int {
    if 0 <= k < h.len() {
        h[k] as int
    } else {
        0
    }
}

/// `x` reduced into the `i32` range modulo 2^32 (two's complement
/// wrapping).
pub open spec fn wrap_i32(x: int) -> i32 {
    (((x + 0x8000_0000) % 0x1_0000_0000) - 0x8000_0000) as i32
}

/// The exact dot product of the first `n` taps with the history ending
/// at position `t`: `sum_{j < n} kernel[j] * hist(h, t - j)`.
pub open spec fn fir_sum(kernel: Seq<i32>, h: Seq<i16>, t: int, n: nat) -> int
    decreases n,
{
    if n == 0 {
        0
    } else {
        fir_sum(kernel, h, t, (n - 1) as nat) + kernel[n - 1] * hist(h, t - (n - 1))
    }
}

/// The FIR output for history position `t`: the dot product wrapped to
/// 32 bits, shifted right by 15 and truncated to 16 bits.
pub open spec fn fir_output(kernel: Seq<i32>, h: Seq<i16>, t: int) -> i16 {
    ((wrap_i32(fir_sum(kernel, h, t, kernel.len())) >> 15u32) as i16)
}

/// One step of the DC-blocking filter on input `x`: the new
/// `(old_x, old_y, old_e)`; the filter output is the middle field.
pub open spec fn dc_step(st: (i16, i16, i32), x: i16) -> (i16, i16, i32) {
    let w = (x - st.0) as i16;
    let u = vstd::wrapping::i32_specs::wrapping_add(
        st.2,
        vstd::wrapping::i32_specs::wrapping_mul(st.1 as i32, 32100i32),
    );
    let sh = (u >> 15u32) as i16;
    let y = (w + sh) as i16;
    let e = vstd::wrapping::i32_specs::wrapping_sub(u, (sh * 32768) as i32);
    (x, y, e)
}

/// The DC filter state after the first `n` samples of `s`.
pub open spec fn dc_state(st: (i16, i16, i32), s: Seq<i16>, n: nat) -> (i16, i16, i32)
    decreases n,
{
    if n == 0 {
        st
    } else {
        dc_step(dc_state(st, s, (n - 1) as nat), s[n - 1])
    }
}

/// The DC filter output for the block `s`.
pub open spec fn dc_output(st: (i16, i16, i32), s: Seq<i16>) -> Seq<i16> {
    Seq::new(s.len(), |i: int| dc_state(st, s, (i + 1) as nat).1)
}

/// Multiplication of sample `d` at position `i` by the fs/4 phase
/// sequence (-1, -j, +1, +j), the imaginary phases halved.
pub open spec fn translate_sample(d: i16, i: int) -> i16 {
    if i % 4 == 0 {
        (-d) as i16
    } else if i % 4 == 1 {
        ((-d) as i32 >> 1u32) as i16
    } else if i % 4 == 2 {
        d
    } else {
        (d as i32 >> 1u32) as i16
    }
}

/// The fs/4 translation of a block; a tail shorter than 4 samples is
/// left as it is.
pub open spec fn translate_block(d: Seq<i16>) -> Seq<i16> {
    Seq::new(
        d.len(),
        |i: int|
            if i < 4 * (d.len() / 4) {
                translate_sample(d[i], i)
            } else {
                d[i]
            },
    )
}

/// The even-indexed samples of a block (the I branch).
pub open spec fn evens(t: Seq<i16>) -> Seq<i16> {
    Seq::new(((t.len() + 1) / 2) as nat, |k: int| t[2 * k])
}

/// The odd-indexed samples of a block (the Q branch).
pub open spec fn odds(t: Seq<i16>) -> Seq<i16> {
    Seq::new(t.len() / 2, |k: int| t[2 * k + 1])
}

/// The block after DC removal and fs/4 translation.
pub open spec fn translated(m: Int16Model, s: Seq<i16>) -> Seq<i16> {
    translate_block(dc_output((m.old_x, m.old_y, m.old_e), s))
}

/// The model after processing block `s`.
pub open spec fn process_model(m: Int16Model, s: Seq<i16>) -> Int16Model {
    let st = dc_state((m.old_x, m.old_y, m.old_e), s, s.len());
    let t = translated(m, s);
    Int16Model {
        kernel: m.kernel,
        delay_len: m.delay_len,
        old_x: st.0,
        old_y: st.1,
        old_e: st.2,
        fir_history: m.fir_history + evens(t),
        delay_history: m.delay_history + odds(t),
    }
}

/// The converted block: at even positions the FIR output over the I
/// history, at odd positions the Q sample that entered the delay line
/// `delay_len` Q samples earlier (zero before the start).
pub open spec fn process_output(m: Int16Model, s: Seq<i16>) -> Seq<i16> {
    let n = process_model(m, s);
    Seq::new(
        s.len(),
        |i: int|
            if i % 2 == 0 {
                fir_output(m.kernel, n.fir_history, m.fir_history.len() + i / 2)
            } else {
                hist(n.delay_history, m.delay_history.len() + i / 2 - m.delay_len) as i16
            },
    )
}

/// The model of a freshly created (or reset) converter.
pub open spec fn fresh_model(kernel: Seq<i32>, delay_len: nat) -> Int16Model {
    Int16Model {
        kernel,
        delay_len,
        old_x: 0,
        old_y: 0,
        old_e: 0,
        fir_history: Seq::empty(),
        delay_history: Seq::empty(),
    }
}

/// The FIR taps kept from a half-band kernel: every other tap.
pub open spec fn decimated_kernel(hb: Seq<i16>) -> Seq<i32> {
    Seq::new(((hb.len() + 1) / 2) as nat, |j: int| hb[2 * j] as i32)
}

/// The fixed-point IQ converter's persistent state.
pub struct IqConverterInt16 {
    fir_kernel: Vec<i32>,
    fir_queue: Vec<i32>,
    delay_line: Vec<i16>,
    fir_index: usize,
    delay_index: usize,
    old_x: i16,
    old_y: i16,
    old_e: i32,
    fir_history: Ghost<Seq<i16>>,
    delay_history: Ghost<Seq<i16>>,
}

impl View for IqConverterInt16 {
    type V = Int16Model;

    closed spec fn view(&self) -> Int16Model {
        Int16Model {
            kernel: self.fir_kernel@,
            delay_len: self.delay_line@.len(),
            old_x: self.old_x,
            old_y: self.old_y,
            old_e: self.old_e,
            fir_history: self.fir_history@,
            delay_history: self.delay_history@,
        }
    }
}

impl IqConverterInt16 {
    /// Well-formedness: the sliding FIR queue and the circular delay
    /// line hold exactly the recent history the model records.
    pub closed spec fn wf(&self) -> bool {
        let l = self.fir_kernel@.len();
        let d = self.delay_line@.len();
        let h = self.fir_history@;
        let g = self.delay_history@;
        &&& l >= 1
        &&& self.fir_queue@.len() >= 16 * l
        &&& self.fir_index <= 15 * l
        &&& forall|j: int| 0 <= j < l ==> -32768 <= #[trigger] self.fir_kernel@[j] <= 32767
        &&& forall|j: int|
            1 <= j < l ==> #[trigger] self.fir_queue@[self.fir_index + j] as int == hist(
                h,
                h.len() - j,
            )
        &&& d >= 1
        &&& self.delay_index < d
        &&& forall|i: int|
            self.delay_index <= i < d ==> #[trigger] self.delay_line@[i] as int == hist(
                g,
                g.len() - d + (i - self.delay_index),
            )
        &&& forall|i: int|
            0 <= i < self.delay_index ==> #[trigger] self.delay_line@[i] as int == hist(
                g,
                g.len() - self.delay_index + i,
            )
    }
}


/// The model of a freshly created converter for the half-band kernel
/// `hb`.
pub open spec fn model_for_kernel(hb: Seq<i16>) -> Int16Model {
    fresh_model(decimated_kernel(hb), ((hb.len() / 2 + 1) / 2) as nat)
}

impl IqConverterInt16 {
    /// Create a converter for the half-band kernel `hb_kernel`, keeping
    /// every other tap (the half-band zeros drop out).
    pub fn new(hb_kernel: &[i16]) -> (c: Self)
        requires
            hb_kernel@.len() >= 2,
            (hb_kernel@.len() / 2 + 1) * 16 <= usize::MAX,
        ensures
            c.wf(),
            c@ == model_for_kernel(hb_kernel@),
    {
        let n = hb_kernel.len();
        let len = n / 2 + 1;
        let taps = (n + 1) / 2;
        let mut fir_kernel: Vec<i32> = Vec::new();
        let mut k: usize = 0;
        while k < taps
            invariant
                taps == (n + 1) / 2,
                n == hb_kernel@.len(),
                k <= taps,
                fir_kernel@ == decimated_kernel(hb_kernel@).subrange(0, k as int),
            decreases taps - k,
        {
            fir_kernel.push(hb_kernel[2 * k] as i32);
            k = k + 1;
            assert(fir_kernel@ =~= decimated_kernel(hb_kernel@).subrange(0, k as int));
        }
        assert(fir_kernel@ =~= decimated_kernel(hb_kernel@));
        let fir_queue: Vec<i32> = vec![0i32; len * 16];
        let delay_line: Vec<i16> = vec![0i16; len / 2];
        let c = IqConverterInt16 {
            fir_kernel,
            fir_queue,
            delay_line,
            fir_index: 0,
            delay_index: 0,
            old_x: 0,
            old_y: 0,
            old_e: 0,
            fir_history: Ghost(Seq::empty()),
            delay_history: Ghost(Seq::empty()),
        };
        assert forall|j: int| 1 <= j < c.fir_kernel@.len() implies #[trigger] c.fir_queue@[
            c.fir_index + j] as int == hist(c.fir_history@, c.fir_history@.len() - j) by {
            assert(cloned(0i32, c.fir_queue@[j]));
        }
        assert forall|i: int| c.delay_index <= i < c.delay_line@.len() implies #[trigger] c.delay_line@[i]
            as int == hist(
            c.delay_history@,
            c.delay_history@.len() - c.delay_line@.len() + (i - c.delay_index),
        ) by {
            assert(cloned(0i16, c.delay_line@[i]));
        }
        c
    }

    /// The FIR taps in use.
    pub fn fir_kernel(&self) -> (k: &Vec<i32>)
        ensures
            k@ == self@.kernel,
    {
        &self.fir_kernel
    }

    /// The length of the Q-branch delay line.
    pub fn delay_len(&self) -> (d: usize)
        ensures
            d == self@.delay_len,
    {
        self.delay_line.len()
    }

    /// Restore the freshly created state: clear the DC filter, the FIR
    /// queue and the delay line.
    pub fn reset(&mut self)
        requires
            old(self).wf(),
        ensures
            final(self).wf(),
            final(self)@ == fresh_model(old(self)@.kernel, old(self)@.delay_len),
    {
        self.fir_index = 0;
        self.delay_index = 0;
        self.old_x = 0;
        self.old_y = 0;
        self.old_e = 0;
        let dl = self.delay_line.len();
        let mut i: usize = 0;
        while i < dl
            invariant
                dl == self.delay_line@.len(),
                i <= dl,
                self.fir_kernel == old(self).fir_kernel,
                self.fir_queue == old(self).fir_queue,
                self.delay_line@.len() == old(self).delay_line@.len(),
                self.fir_index == 0,
                self.delay_index == 0,
                self.old_x == 0 && self.old_y == 0 && self.old_e == 0,
                forall|k: int| 0 <= k < i ==> self.delay_line@[k] == 0,
            decreases dl - i,
        {
            self.delay_line.set(i, 0);
            i = i + 1;
        }
        let ql = self.fir_queue.len();
        let mut i: usize = 0;
        while i < ql
            invariant
                ql == self.fir_queue@.len(),
                i <= ql,
                self.fir_kernel == old(self).fir_kernel,
                self.fir_queue@.len() == old(self).fir_queue@.len(),
                self.delay_line@.len() == old(self).delay_line@.len(),
                forall|k: int| 0 <= k < self.delay_line@.len() ==> self.delay_line@[k] == 0,
                self.fir_index == 0,
                self.delay_index == 0,
                self.old_x == 0 && self.old_y == 0 && self.old_e == 0,
                forall|k: int| 0 <= k < i ==> self.fir_queue@[k] == 0,
            decreases ql - i,
        {
            self.fir_queue.set(i, 0);
            i = i + 1;
        }
        self.fir_history = Ghost(Seq::empty());
        self.delay_history = Ghost(Seq::empty());
        assert forall|j: int| 1 <= j < self.fir_kernel@.len() implies #[trigger] self.fir_queue@[
            self.fir_index + j] as int == hist(self.fir_history@, self.fir_history@.len() - j) by {
            assert(self.fir_queue@[j] == 0);
        }
    }

    /// The DC-blocking filter with error feedback, in place.
    fn remove_dc(&mut self, samples: &mut [i16])
        ensures
            final(self).fir_kernel == old(self).fir_kernel,
            final(self).fir_queue == old(self).fir_queue,
            final(self).delay_line == old(self).delay_line,
            final(self).fir_index == old(self).fir_index,
            final(self).delay_index == old(self).delay_index,
            final(self).fir_history == old(self).fir_history,
            final(self).delay_history == old(self).delay_history,
            (final(self).old_x, final(self).old_y, final(self).old_e) == dc_state(
                (old(self).old_x, old(self).old_y, old(self).old_e),
                old(samples)@,
                old(samples)@.len(),
            ),
            final(samples)@ == dc_output(
                (old(self).old_x, old(self).old_y, old(self).old_e),
                old(samples)@,
            ),
    {
        let ghost st0 = (self.old_x, self.old_y, self.old_e);
        let ghost s0 = samples@;
        let mut old_x = self.old_x;
        let mut old_y = self.old_y;
        let mut old_e = self.old_e;
        let n = samples.len();
        let mut i: usize = 0;
        while i < n
            invariant
                n == samples@.len(),
                s0.len() == n,
                i <= n,
                (old_x, old_y, old_e) == dc_state(st0, s0, i as nat),
                forall|k: int| i <= k < n ==> samples@[k] == s0[k],
                forall|k: int| 0 <= k < i ==> samples@[k] == dc_state(st0, s0, (k + 1) as nat).1,
            decreases n - i,
        {
            let x = samples[i];
            let w = (x as i32 - old_x as i32) as i16;
            let u = old_e.wrapping_add((old_y as i32).wrapping_mul(32100));
            let sh = (u >> 15) as i16;
            let y = (w as i32 + sh as i32) as i16;
            old_e = u.wrapping_sub((sh as i32) * 32768);
            old_x = x;
            old_y = y;
            samples[i] = y;
            i = i + 1;
        }
        self.old_x = old_x;
        self.old_y = old_y;
        self.old_e = old_e;
        assert(samples@ =~= dc_output(st0, s0));
    }
}


/// Adding an `i32` with wrapping to a wrapped value wraps the exact sum.
proof fn lemma_wrap_add(a: int, b: i32)
    ensures
        vstd::wrapping::i32_specs::wrapping_add(wrap_i32(a), b) == wrap_i32(a + b),
{
    let m: int = 0x1_0000_0000;
    let h: int = 0x8000_0000;
    let q = (a + h) / m;
    let r = (a + h) % m;
    vstd::arithmetic::div_mod::lemma_fundamental_div_mod(a + h, m);
    assert(0 <= r < m);
    let x = r - h;
    assert(wrap_i32(a) == x);
    let s = x + b;
    if s > i32::MAX {
        vstd::arithmetic::div_mod::lemma_fundamental_div_mod_converse(a + b + h, m, q + 1, s - m + h);
    } else if s < i32::MIN {
        vstd::arithmetic::div_mod::lemma_fundamental_div_mod_converse(a + b + h, m, q - 1, s + m + h);
    } else {
        vstd::arithmetic::div_mod::lemma_fundamental_div_mod_converse(a + b + h, m, q, s + h);
    }
}

impl IqConverterInt16 {
    /// One FIR step: push `x` into the sliding queue, return the FIR
    /// output for it, and slide the queue back by one (copying the
    /// live window to the far end when the front is reached).
    #[verifier::loop_isolation(false)]
    fn fir_step(&mut self, x: i16) -> (y: i16)
        requires
            old(self).wf(),
        ensures
            final(self).wf(),
            final(self).fir_kernel == old(self).fir_kernel,
            final(self).delay_line == old(self).delay_line,
            final(self).delay_index == old(self).delay_index,
            final(self).old_x == old(self).old_x,
            final(self).old_y == old(self).old_y,
            final(self).old_e == old(self).old_e,
            final(self).delay_history == old(self).delay_history,
            final(self).fir_history@ == old(self).fir_history@.push(x),
            y == fir_output(
                old(self).fir_kernel@,
                final(self).fir_history@,
                old(self).fir_history@.len() as int,
            ),
    {
        let ghost h0 = self.fir_history@;
        let fir_len = self.fir_kernel.len();
        let qlen = self.fir_queue.len();
        let p = self.fir_index;
        self.fir_queue.set(p, x as i32);
        self.fir_history = Ghost(h0.push(x));
        let ghost h1 = self.fir_history@;
        let ghost t = h0.len() as int;
        assert forall|j: int| 0 <= j < fir_len implies #[trigger] self.fir_queue@[p + j] as int
            == hist(h1, t - j) by {
            if j > 0 {
                assert(hist(h0, h0.len() - j) == hist(h1, t - j));
            }
        }
        let mut acc: i32 = 0;
        let mut j: usize = 0;
        while j < fir_len
            invariant
                fir_len == self.fir_kernel@.len(),
                j <= fir_len,
                qlen == self.fir_queue@.len(),
                qlen >= 16 * fir_len,
                p <= 15 * fir_len,
                forall|k: int| 0 <= k < fir_len ==> -32768 <= #[trigger] self.fir_kernel@[k] <= 32767,
                forall|k: int| 0 <= k < fir_len ==> #[trigger] self.fir_queue@[p + k] as int == hist(h1, t - k),
                forall|k: int| 0 <= k < h1.len() ==> -32768 <= #[trigger] h1[k] <= 32767,
                acc == wrap_i32(fir_sum(self.fir_kernel@, h1, t, j as nat)),
            decreases fir_len - j,
        {
            let kj = self.fir_kernel[j];
            let qj = self.fir_queue[p + j];
            assert(-32768 <= qj <= 32767) by {
                assert(qj as int == hist(h1, t - j));
            }
            assert(-0x4000_0000 <= kj as int * qj as int <= 0x4000_0000) by (nonlinear_arith)
                requires
                    -32768 <= kj <= 32767,
                    -32768 <= qj <= 32767,
            ;
            let prod = kj * qj;
            proof {
                lemma_wrap_add(fir_sum(self.fir_kernel@, h1, t, j as nat), prod);
            }
            acc = acc.wrapping_add(prod);
            j = j + 1;
        }
        if p == 0 {
            assert forall|k: int| 0 <= k < fir_len implies #[trigger] self.fir_queue@[k] as int == hist(h1, t - k) by {
                assert(self.fir_queue@[p + k] as int == hist(h1, t - k));
            }
            let base = fir_len * 15;
            let mut i: usize = 0;
            while i + 1 < fir_len
                invariant
                    fir_len == self.fir_kernel@.len(),
                    fir_len >= 1,
                    base == fir_len * 15,
                    qlen == self.fir_queue@.len(),
                    base + fir_len <= qlen,
                    self.fir_kernel == old(self).fir_kernel,
                    self.delay_line == old(self).delay_line,
                    self.delay_index == old(self).delay_index,
                    self.fir_index == old(self).fir_index,
                    self.old_x == old(self).old_x,
                    self.old_y == old(self).old_y,
                    self.old_e == old(self).old_e,
                    self.delay_history == old(self).delay_history,
                    self.fir_history@ == h1,
                    i < fir_len,
                    forall|k: int| 0 <= k < fir_len ==> #[trigger] self.fir_queue@[k] as int == hist(h1, t - k),
                    forall|k: int| 0 <= k < i ==> #[trigger] self.fir_queue@[base + 1 + k] as int == hist(h1, t - k),
                decreases fir_len - i,
            {
                let v = self.fir_queue[i];
                self.fir_queue.set(base + 1 + i, v);
                i = i + 1;
            }
            self.fir_index = base;
            assert forall|j: int| 1 <= j < fir_len implies #[trigger] self.fir_queue@[self.fir_index + j]
                as int == hist(h1, h1.len() - j) by {
                assert(self.fir_queue@[base + 1 + (j - 1)] as int == hist(h1, t - (j - 1)));
            }
        } else {
            self.fir_index = p - 1;
            assert forall|j: int| 1 <= j < fir_len implies #[trigger] self.fir_queue@[self.fir_index + j]
                as int == hist(h1, h1.len() - j) by {
                assert(self.fir_queue@[p + (j - 1)] as int == hist(h1, t - (j - 1)));
            }
        }
        #[verifier::truncate]
        ((acc >> 15) as i16)
    }
}


/// The FIR output at position `t` depends only on the history up to
/// `t`.
proof fn lemma_fir_sum_prefix(kernel: Seq<i32>, h1: Seq<i16>, h2: Seq<i16>, t: int, n: nat)
    requires
        h1.len() <= h2.len(),
        forall|k: int| 0 <= k < h1.len() ==> h1[k] == h2[k],
        t < h1.len(),
    ensures
        fir_sum(kernel, h1, t, n) == fir_sum(kernel, h2, t, n),
    decreases n,
{
    if n > 0 {
        lemma_fir_sum_prefix(kernel, h1, h2, t, (n - 1) as nat);
        assert(hist(h1, t - (n - 1)) == hist(h2, t - (n - 1)));
    }
}

/// Multiply each group of four samples by the fs/4 phase sequence
/// (-1, -j, +1, +j), halving the imaginary phases; a shorter tail is
/// left untouched.
fn translate_phases(samples: &mut [i16])
    ensures
        final(samples)@ == translate_block(old(samples)@),
{
    let ghost s0 = samples@;
    let n = samples.len();
    let chunks = n / 4;
    let mut c: usize = 0;
    while c < chunks
        invariant
            n == samples@.len(),
            s0.len() == n,
            chunks == n / 4,
            c <= chunks,
            forall|k: int| 4 * c <= k < n ==> samples@[k] == s0[k],
            forall|k: int| 0 <= k < 4 * c ==> samples@[k] == translate_sample(s0[k], k),
        decreases chunks - c,
    {
        let b = 4 * c;
        let a0 = samples[b];
        let a1 = samples[b + 1];
        let a3 = samples[b + 3];
        samples[b] = (-(a0 as i32)) as i16;
        samples[b + 1] = ((-(a1 as i32)) >> 1) as i16;
        samples[b + 3] = ((a3 as i32) >> 1) as i16;
        assert(b % 4 == 0 && (b + 1) % 4 == 1 && (b + 2) % 4 == 2 && (b + 3) % 4 == 3);
        c = c + 1;
    }
    assert(samples@ =~= translate_block(s0));
}

impl IqConverterInt16 {
    /// One delay-line step: return the Q sample that entered
    /// `delay_len` steps ago (zero before the start) and store `q`.
    fn delay_step(&mut self, q: i16) -> (y: i16)
        requires
            old(self).wf(),
        ensures
            final(self).wf(),
            final(self).fir_kernel == old(self).fir_kernel,
            final(self).fir_history == old(self).fir_history,
            final(self).old_x == old(self).old_x,
            final(self).old_y == old(self).old_y,
            final(self).old_e == old(self).old_e,
            final(self).delay_line@.len() == old(self).delay_line@.len(),
            final(self).delay_history@ == old(self).delay_history@.push(q),
            y as int == hist(
                old(self).delay_history@,
                old(self).delay_history@.len() - old(self).delay_line@.len(),
            ),
    {
        let ghost g0 = self.delay_history@;
        let d = self.delay_line.len();
        let idx = self.delay_index;
        let y = self.delay_line[idx];
        self.delay_line.set(idx, q);
        self.delay_history = Ghost(g0.push(q));
        let ghost g1 = self.delay_history@;
        if idx + 1 >= d {
            self.delay_index = 0;
        } else {
            self.delay_index = idx + 1;
        }
        assert forall|i: int|
            self.delay_index <= i < d implies #[trigger] self.delay_line@[i] as int == hist(
            g1,
            g1.len() - d + (i - self.delay_index),
        ) by {
            if i != idx {
                if i > idx {
                    assert(old(self).delay_line@[i] as int == hist(g0, g0.len() - d + (i - idx)));
                } else {
                    assert(old(self).delay_line@[i] as int == hist(g0, g0.len() - idx + i));
                }
            }
        }
        assert forall|i: int|
            0 <= i < self.delay_index implies #[trigger] self.delay_line@[i] as int == hist(
            g1,
            g1.len() - self.delay_index + i,
        ) by {
            if i != idx {
                assert(old(self).delay_line@[i] as int == hist(g0, g0.len() - idx + i));
            }
        }
        y
    }

    /// Convert `samples` in place: real input, interleaved I/Q output
    /// (I at even, Q at odd indices). The converter state carries over
    /// to the next call.
    pub fn process(&mut self, samples: &mut [i16])
        requires
            old(self).wf(),
        ensures
            final(self).wf(),
            final(self)@ == process_model(old(self)@, old(samples)@),
            final(samples)@ == process_output(old(self)@, old(samples)@),
    {
        let ghost m0 = self@;
        let ghost s0 = samples@;
        self.remove_dc(samples);
        translate_phases(samples);
        let ghost ts = samples@;
        assert(ts == translated(m0, s0));
        let ghost hfull = m0.fir_history + evens(ts);
        let ghost gfull = m0.delay_history + odds(ts);
        let n = samples.len();
        assert(hfull.subrange(0, m0.fir_history.len() as int) =~= m0.fir_history);
        assert(gfull.subrange(0, m0.delay_history.len() as int) =~= m0.delay_history);
        let even_count = n / 2 + n % 2;
        let mut c: usize = 0;
        while c < even_count
            invariant
                self.wf(),
                n == samples@.len(),
                ts.len() == n,
                even_count == (n + 1) / 2,
                hfull == m0.fir_history + evens(ts),
                c <= even_count,
                self.fir_kernel@ == m0.kernel,
                self.delay_line@.len() == m0.delay_len,
                (self.old_x, self.old_y, self.old_e) == dc_state(
                    (m0.old_x, m0.old_y, m0.old_e),
                    s0,
                    s0.len(),
                ),
                self.delay_history@ == m0.delay_history,
                self.fir_history@ == hfull.subrange(0, m0.fir_history.len() + c),
                forall|k: int| 2 * c <= k < n ==> samples@[k] == ts[k],
                forall|k: int| 0 <= k < 2 * c && k < n && k % 2 == 1 ==> samples@[k] == ts[k],
                forall|k: int|
                    0 <= k < 2 * c && k % 2 == 0 ==> samples@[k] == fir_output(
                        m0.kernel,
                        hfull,
                        m0.fir_history.len() + k / 2,
                    ),
            decreases even_count - c,
        {
            let i = 2 * c;
            let x = samples[i];
            let ghost pos = m0.fir_history.len() + c;
            assert(hfull[pos] == evens(ts)[c as int]);
            let y = self.fir_step(x);
            proof {
                assert(self.fir_history@ =~= hfull.subrange(0, pos + 1));
                lemma_fir_sum_prefix(m0.kernel, self.fir_history@, hfull, pos, m0.kernel.len());
            }
            samples[i] = y;
            c = c + 1;
        }
        assert(self.fir_history@ =~= hfull);
        let odd_count = n / 2;
        let mut c: usize = 0;
        while c < odd_count
            invariant
                self.wf(),
                n == samples@.len(),
                ts.len() == n,
                odd_count == n / 2,
                hfull == m0.fir_history + evens(ts),
                gfull == m0.delay_history + odds(ts),
                c <= odd_count,
                self.fir_kernel@ == m0.kernel,
                self.fir_history@ == hfull,
                self.delay_line@.len() == m0.delay_len,
                (self.old_x, self.old_y, self.old_e) == dc_state(
                    (m0.old_x, m0.old_y, m0.old_e),
                    s0,
                    s0.len(),
                ),
                self.delay_history@ == gfull.subrange(0, m0.delay_history.len() + c),
                forall|k: int| 2 * c <= k < n && k % 2 == 1 ==> samples@[k] == ts[k],
                forall|k: int|
                    0 <= k < n && k % 2 == 0 ==> samples@[k] == fir_output(
                        m0.kernel,
                        hfull,
                        m0.fir_history.len() + k / 2,
                    ),
                forall|k: int|
                    0 <= k < 2 * c && k < n && k % 2 == 1 ==> samples@[k] as int == hist(
                        gfull,
                        m0.delay_history.len() + k / 2 - m0.delay_len,
                    ),
            decreases odd_count - c,
        {
            let i = 2 * c + 1;
            let q = samples[i];
            let ghost gcur = self.delay_history@;
            let ghost pos = m0.delay_history.len() + c;
            assert(gfull[pos] == odds(ts)[c as int]);
            let y = self.delay_step(q);
            proof {
                assert(self.delay_history@ =~= gfull.subrange(0, pos + 1));
                let back = gcur.len() - m0.delay_len;
                if 0 <= back < gcur.len() {
                    assert(gcur[back] == gfull[back]);
                }
            }
            samples[i] = y;
            c = c + 1;
        }
        assert(self.delay_history@ =~= gfull);
        assert(self@ =~= process_model(m0, s0));
        assert(samples@ =~= process_output(m0, s0));
    }
}

/// The model after processing each of `blocks` in turn.
pub open spec fn process_blocks(m: Int16Model, blocks: Seq<Seq<i16>>) -> Int16Model
    decreases blocks.len(),
{
    if blocks.len() == 0 {
        m
    } else {
        process_model(process_blocks(m, blocks.drop_last()), blocks.last())
    }
}

/// Resetting brings a converter back to the state it was created in,
/// whatever blocks it processed since: processing never changes the
/// kernel or the delay length, and a reset clears everything else. A
/// reset converter therefore converts every later block as a new one.
pub proof fn lemma_reset_restores(hb: Seq<i16>, blocks: Seq<Seq<i16>>)
    ensures
        ({
            let m = process_blocks(model_for_kernel(hb), blocks);
            fresh_model(m.kernel, m.delay_len) == model_for_kernel(hb)
        }),
    decreases blocks.len(),
{
    if blocks.len() > 0 {
        lemma_reset_restores(hb, blocks.drop_last());
    }
}

proof fn lemma_dc_state_prefix(st: (i16, i16, i32), a: Seq<i16>, b: Seq<i16>, n: nat)
    requires
        n <= a.len(),
    ensures
        dc_state(st, a + b, n) == dc_state(st, a, n),
    decreases n,
{
    if n > 0 {
        lemma_dc_state_prefix(st, a, b, (n - 1) as nat);
        assert((a + b)[n - 1] == a[n - 1]);
    }
}

proof fn lemma_dc_state_suffix(st: (i16, i16, i32), a: Seq<i16>, b: Seq<i16>, k: nat)
    requires
        k <= b.len(),
    ensures
        dc_state(st, a + b, a.len() + k) == dc_state(dc_state(st, a, a.len()), b, k),
    decreases k,
{
    if k == 0 {
        lemma_dc_state_prefix(st, a, b, a.len());
    } else {
        lemma_dc_state_suffix(st, a, b, (k - 1) as nat);
        assert((a + b)[a.len() + k - 1] == b[k - 1]);
        assert((a.len() + k - 1) as nat == (a.len() + (k - 1)) as nat);
    }
}

proof fn lemma_dc_output_split(st: (i16, i16, i32), a: Seq<i16>, b: Seq<i16>)
    ensures
        dc_output(st, a + b) == dc_output(st, a) + dc_output(dc_state(st, a, a.len()), b),
{
    let l = dc_output(st, a + b);
    let r = dc_output(st, a) + dc_output(dc_state(st, a, a.len()), b);
    assert forall|i: int| 0 <= i < l.len() implies l[i] == r[i] by {
        if i < a.len() {
            lemma_dc_state_prefix(st, a, b, (i + 1) as nat);
        } else {
            let k = (i - a.len() + 1) as nat;
            lemma_dc_state_suffix(st, a, b, k);
            assert((i + 1) as nat == (a.len() + k) as nat);
        }
    }
    assert(l =~= r);
}

proof fn lemma_quarter_split(lx: int, ly: int, j: int)
    by (nonlinear_arith)
    requires
        lx >= 0,
        ly >= 0,
        j >= 0,
        lx % 4 == 0,
    ensures
        4 * ((lx + ly) / 4) == lx + 4 * (ly / 4),
        (lx + j) % 4 == j % 4,
        4 * (lx / 4) == lx,
{
}

proof fn lemma_translate_split(x: Seq<i16>, y: Seq<i16>)
    requires
        x.len() % 4 == 0,
    ensures
        translate_block(x + y) == translate_block(x) + translate_block(y),
{
    let l = translate_block(x + y);
    let r = translate_block(x) + translate_block(y);
    assert forall|i: int| 0 <= i < l.len() implies l[i] == r[i] by {
        if i < x.len() {
            lemma_quarter_split(x.len() as int, y.len() as int, 0);
            assert((x + y)[i] == x[i]);
        } else {
            let j = i - x.len();
            lemma_quarter_split(x.len() as int, y.len() as int, j);
            assert((x + y)[i] == y[j]);
        }
    }
    assert(l =~= r);
}

proof fn lemma_half_split(lx: int, ly: int, k: int)
    by (nonlinear_arith)
    requires
        lx >= 0,
        ly >= 0,
        lx % 2 == 0,
    ensures
        (lx + ly + 1) / 2 == lx / 2 + (ly + 1) / 2,
        (lx + ly) / 2 == lx / 2 + ly / 2,
        k >= lx / 2 ==> 2 * k - lx == 2 * (k - lx / 2),
        k < lx / 2 ==> 2 * k + 1 < lx,
        (lx + 1) / 2 == lx / 2,
{
}

proof fn lemma_branches_split(x: Seq<i16>, y: Seq<i16>)
    requires
        x.len() % 2 == 0,
    ensures
        evens(x + y) == evens(x) + evens(y),
        odds(x + y) == odds(x) + odds(y),
{
    let e = evens(x + y);
    let er = evens(x) + evens(y);
    let o = odds(x + y);
    let or = odds(x) + odds(y);
    lemma_half_split(x.len() as int, y.len() as int, 0);
    assert forall|k: int| 0 <= k < e.len() implies e[k] == er[k] by {
        lemma_half_split(x.len() as int, y.len() as int, k);
    }
    assert forall|k: int| 0 <= k < o.len() implies o[k] == or[k] by {
        lemma_half_split(x.len() as int, y.len() as int, k);
    }
    assert(e =~= er);
    assert(o =~= or);
}

/// Splitting a block at a multiple of four samples changes nothing:
/// processing `a` and then `b` leaves the converter as processing
/// `a + b` does, and the two outputs joined are the output for `a + b`.
pub proof fn lemma_split_block(m: Int16Model, a: Seq<i16>, b: Seq<i16>)
    requires
        a.len() % 4 == 0,
    ensures
        process_model(process_model(m, a), b) == process_model(m, a + b),
        process_output(m, a) + process_output(process_model(m, a), b) == process_output(m, a + b),
{
    let st = (m.old_x, m.old_y, m.old_e);
    let ma = process_model(m, a);
    let sta = dc_state(st, a, a.len());
    lemma_dc_output_split(st, a, b);
    lemma_dc_state_suffix(st, a, b, b.len());
    assert(dc_output(st, a).len() == a.len());
    lemma_translate_split(dc_output(st, a), dc_output(sta, b));
    let ta = translated(m, a);
    let tb = translated(ma, b);
    assert(translated(m, a + b) == ta + tb);
    lemma_branches_split(ta, tb);
    let mab = process_model(m, a + b);
    let mb = process_model(ma, b);
    assert(mb.fir_history =~= mab.fir_history);
    assert(mb.delay_history =~= mab.delay_history);
    assert(mb == mab);
    let out = process_output(m, a + b);
    let oa = process_output(m, a);
    let ob = process_output(ma, b);
    let joined = oa + ob;
    lemma_half_split(a.len() as int, b.len() as int, 0);
    assert forall|i: int| 0 <= i < out.len() implies out[i] == joined[i] by {
        if i < a.len() {
            assert(joined[i] == oa[i]);
            if i % 2 == 0 {
                let pos = m.fir_history.len() + i / 2;
                lemma_fir_sum_prefix(m.kernel, ma.fir_history, mab.fir_history, pos, m.kernel.len());
            } else {
                let pos = m.delay_history.len() + i / 2 - m.delay_len;
                assert(i / 2 < a.len() / 2);
                assert(hist(ma.delay_history, pos) == hist(mab.delay_history, pos));
            }
        } else {
            let j = i - a.len();
            assert(joined[i] == ob[j]);
            assert(i % 2 == j % 2);
            assert(i / 2 == a.len() / 2 + j / 2);
        }
    }
    assert(out =~= joined);
}

proof fn lemma_halve(y: i32)
    by (bit_vector)
    requires
        -32768 <= y <= 32768,
    ensures
        2 * (y >> 1u32) <= y,
        y <= 2 * (y >> 1u32) + 1,
        -16384 <= (y >> 1u32) <= 16384,
{
}

/// The fs/4 translation multiplies the DC-free block by the phase
/// sequence (-1, -j, +1, +j), the imaginary phases halved (rounding
/// down): in every whole group of four, the first sample is negated
/// (with 16-bit wrapping), the second negated and halved, the third
/// kept and the fourth halved; a tail shorter than four stays as it
/// is.
pub proof fn lemma_translation_phases(m: Int16Model, s: Seq<i16>)
    ensures
        ({
            let d = dc_output((m.old_x, m.old_y, m.old_e), s);
            let t = translated(m, s);
            &&& t.len() == s.len()
            &&& forall|p: int|
                0 <= p < 4 * (s.len() / 4) && p % 4 == 0 ==> #[trigger] t[p] as int == (if d[p]
                    == i16::MIN {
                    d[p] as int
                } else {
                    -(d[p] as int)
                })
            &&& forall|p: int|
                0 <= p < 4 * (s.len() / 4) && p % 4 == 1 ==> 2 * (#[trigger] t[p] as int) <= -(
                d[p] as int) <= 2 * (t[p] as int) + 1
            &&& forall|p: int| 0 <= p < 4 * (s.len() / 4) && p % 4 == 2 ==> #[trigger] t[p] == d[p]
            &&& forall|p: int|
                0 <= p < 4 * (s.len() / 4) && p % 4 == 3 ==> 2 * (#[trigger] t[p] as int) <= d[p]
                    as int <= 2 * (t[p] as int) + 1
            &&& forall|p: int| 4 * (s.len() / 4) <= p < s.len() ==> #[trigger] t[p] == d[p]
        }),
{
    let d = dc_output((m.old_x, m.old_y, m.old_e), s);
    let t = translated(m, s);
    assert forall|p: int|
        0 <= p < 4 * (s.len() / 4) && p % 4 == 0 implies #[trigger] t[p] as int == (if d[p]
        == i16::MIN {
        d[p] as int
    } else {
        -(d[p] as int)
    }) by {
        let x = d[p];
        assert((-x) as i16 as int == (if x == i16::MIN {
            x as int
        } else {
            -(x as int)
        })) by (bit_vector);
    }
    assert forall|p: int|
        0 <= p < 4 * (s.len() / 4) && p % 4 == 1 implies 2 * (#[trigger] t[p] as int) <= -(
    d[p] as int) <= 2 * (t[p] as int) + 1 by {
        let y = (-d[p]) as i32;
        lemma_halve(y);
    }
    assert forall|p: int|
        0 <= p < 4 * (s.len() / 4) && p % 4 == 3 implies 2 * (#[trigger] t[p] as int) <= d[p]
        as int <= 2 * (t[p] as int) + 1 by {
        let y = d[p] as i32;
        lemma_halve(y);
    }
}

} // verus!
