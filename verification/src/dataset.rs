//! Index arithmetic of the training-data tools: where the half-overlapping
//! windows of a recording start, the pseudo-random generator of the
//! synthetic data, and the row/column transposition of exported weights.
use vstd::prelude::*;
use crate::config::WINDOW_SIZE;

verus! {

/// Distance between the starts of consecutive training windows (half a
/// window, so neighbouring windows overlap by 50%).
pub const WINDOW_STEP: usize = WINDOW_SIZE / 2;

/// Number of windows cut from a recording of `n` samples: one per multiple
/// of `WINDOW_STEP` at which a whole window still fits.
pub open spec fn window_count(n: nat) -> nat {
    if n < WINDOW_SIZE {
        0
    } else {
        ((n - WINDOW_SIZE) / (WINDOW_STEP as int) + 1) as nat
    }
}

/// Start offsets of the training windows in a recording of `n_samples`
/// samples per axis: `0, WINDOW_STEP, 2 * WINDOW_STEP, ...`, as long as a
/// whole window fits (start + `WINDOW_SIZE` <= `n_samples`).
pub fn window_starts(n_samples: usize) -> (starts: Vec<usize>)
    ensures
        starts@.len() == window_count(n_samples as nat),
        forall|k: int| 0 <= k < starts@.len() ==> #[trigger] starts@[k] == k * WINDOW_STEP,
{
    let mut starts: Vec<usize> = Vec::new();
    if n_samples < WINDOW_SIZE {
        return starts;
    }
    let last = n_samples - WINDOW_SIZE;
    let mut i: usize = 0;
    while i <= last
        invariant
            last == n_samples - WINDOW_SIZE,
            i == starts@.len() * WINDOW_STEP,
            i <= last + WINDOW_STEP,
            forall|k: int| 0 <= k < starts@.len() ==> #[trigger] starts@[k] == k * WINDOW_STEP,
        decreases last + WINDOW_STEP - i,
    {
        proof {
            let c = starts@.len() as int;
            assert((c + 1) * WINDOW_STEP == c * WINDOW_STEP + WINDOW_STEP) by (nonlinear_arith);
        }
        starts.push(i);
        i = i + WINDOW_STEP;
    }
    assert(starts@.len() == window_count(n_samples as nat)) by {
        let c = starts@.len() as int;
        let e = last as int;
        assert(c == e / 64 + 1) by (nonlinear_arith)
            requires
                e >= 0,
                c * 64 > e,
                c * 64 <= e + 64,
        ;
    }
    starts
}

/// Every training window lies inside the recording (start + `WINDOW_SIZE`
/// <= `n`), consecutive windows start half a window apart (so they overlap
/// by half), and the window after the last one would not fit.
pub proof fn lemma_windows_in_bounds(n: nat)
    ensures
        forall|k: nat| k < window_count(n) ==> #[trigger] (k * WINDOW_STEP) + WINDOW_SIZE <= n,
        window_count(n) * WINDOW_STEP + WINDOW_SIZE > n,
{
    assert forall|k: nat| k < window_count(n) implies #[trigger] (k * WINDOW_STEP) + WINDOW_SIZE <= n by {
        let e = n - WINDOW_SIZE;
        assert(k * 64 <= e) by (nonlinear_arith)
            requires
                e >= 0,
                k < e / 64 + 1,
        ;
    }
    if n >= WINDOW_SIZE {
        let e = n - WINDOW_SIZE;
        let c = window_count(n);
        assert(c * 64 > e) by (nonlinear_arith)
            requires
                e >= 0,
                c == e / 64 + 1,
        ;
    }
}

/// Multiplier of the linear congruential generator.
pub const LCG_MUL: u64 = 6364136223846793005;

/// Increment of the linear congruential generator.
pub const LCG_INC: u64 = 1442695040888963407;

/// Seed of the synthetic training data.
pub const LCG_SEED: u64 = 12345;

/// One step of the generator: `state * LCG_MUL + LCG_INC` modulo 2^64.
pub open spec fn lcg_step(state: u64) -> u64 {
    ((state as nat * LCG_MUL as nat + LCG_INC as nat) % 0x1_0000_0000_0000_0000) as u64
}

/// A 64-bit linear congruential generator whose outputs are the 31 high
/// bits of each new state.
pub struct Lcg {
    pub state: u64,
}

impl Lcg {
    /// A generator starting from `seed`.
    pub fn new(seed: u64) -> (g: Lcg)
        ensures
            g.state == seed,
    {
        Lcg { state: seed }
    }

    /// Advances the state one step and returns its top 31 bits.
    pub fn next_raw(&mut self) -> (r: u32)
        ensures
            final(self).state == lcg_step(old(self).state),
            r == final(self).state / 0x2_0000_0000,
    {
        let s = self.state;
        let m = s.wrapping_mul(LCG_MUL);
        let next = m.wrapping_add(LCG_INC);
        proof {
            let p = s as nat * LCG_MUL as nat;
            let big: nat = 0x1_0000_0000_0000_0000;
            assert(m == p % big);
            vstd::arithmetic::div_mod::lemma_add_mod_noop(p as int, LCG_INC as int, big as int);
            assert((LCG_INC as int) % (big as int) == LCG_INC);
            assert(next == (m + LCG_INC) % (big as int));
            assert(next == lcg_step(s));
        }
        self.state = next;
        assert((next >> 33u64) == next / 0x2_0000_0000) by (bit_vector);
        (next >> 33u64) as u32
    }
}

/// Row-major position of entry (`row`, `col`) in a matrix with `width`
/// columns.
pub open spec fn row_major(row: int, col: int, width: int) -> int {
    row * width + col
}

/// `out` is the `cols x rows` transpose of the `rows x cols` row-major
/// matrix in the front of `data`, with `fill` in its remaining positions.
pub open spec fn is_transpose<T>(out: Seq<T>, data: Seq<T>, rows: int, cols: int, fill: T) -> bool {
    &&& out.len() == data.len()
    &&& forall|r: int, c: int|
        0 <= r < rows && 0 <= c < cols ==> #[trigger] out[row_major(c, r, rows)] == data[row_major(r, c, cols)]
    &&& forall|k: int| rows * cols <= k < data.len() ==> #[trigger] out[k] == fill
}

/// Transposing a full `rows x cols` matrix and then transposing the result
/// as a `cols x rows` matrix gives back the first matrix.
pub proof fn lemma_transpose_twice<T>(data: Seq<T>, once: Seq<T>, twice: Seq<T>, rows: int, cols: int, fill: T)
    requires
        rows >= 0,
        cols >= 0,
        data.len() == rows * cols,
        is_transpose(once, data, rows, cols, fill),
        is_transpose(twice, once, cols, rows, fill),
    ensures
        twice == data,
{
    assert forall|k: int| 0 <= k < data.len() implies twice[k] == data[k] by {
        let r = k / cols;
        let c = k % cols;
        assert(cols > 0) by (nonlinear_arith)
            requires 0 <= k < rows * cols, rows >= 0, cols >= 0;
        assert(k == r * cols + c) by (nonlinear_arith)
            requires cols > 0, r == k / cols, c == k % cols;
        assert(0 <= r < rows) by (nonlinear_arith)
            requires cols > 0, r == k / cols, 0 <= k < rows * cols;
        assert(0 <= c < cols);
        assert(twice[row_major(r, c, cols)] == once[row_major(c, r, rows)]);
        assert(once[row_major(c, r, rows)] == data[row_major(r, c, cols)]);
    }
    assert(twice =~= data);
}

/// Transposes a `rows x cols` row-major matrix held in the front of `data`
/// into a `cols x rows` one; positions of the result past `rows * cols`
/// hold `fill`.
pub fn transpose<T: Copy>(data: &[T], rows: usize, cols: usize, fill: T) -> (out: Vec<T>)
    requires
        rows * cols <= data@.len(),
    ensures
        is_transpose(out@, data@, rows as int, cols as int, fill),
{
    let n = data.len();
    let mut out: Vec<T> = Vec::new();
    let mut k: usize = 0;
    while k < n
        invariant
            k <= n,
            n == data@.len(),
            out@.len() == k,
            forall|j: int| 0 <= j < k ==> #[trigger] out@[j] == fill,
        decreases n - k,
    {
        out.push(fill);
        k = k + 1;
    }
    let mut r: usize = 0;
    while r < rows
        invariant
            r <= rows,
            rows * cols <= n,
            n == data@.len(),
            out@.len() == n,
            forall|rr: int, c: int|
                0 <= rr < r && 0 <= c < cols ==> #[trigger] out@[row_major(c, rr, rows as int)]
                    == data@[row_major(rr, c, cols as int)],
            forall|j: int| rows * cols <= j < n ==> #[trigger] out@[j] == fill,
        decreases rows - r,
    {
        let mut c: usize = 0;
        while c < cols
            invariant
                r < rows,
                c <= cols,
                rows * cols <= n,
                n == data@.len(),
                out@.len() == n,
                forall|rr: int, cc: int|
                    0 <= rr < r && 0 <= cc < cols ==> #[trigger] out@[row_major(cc, rr, rows as int)]
                        == data@[row_major(rr, cc, cols as int)],
                forall|cc: int|
                    0 <= cc < c ==> #[trigger] out@[row_major(cc, r as int, rows as int)]
                        == data@[row_major(r as int, cc, cols as int)],
                forall|j: int| rows * cols <= j < n ==> #[trigger] out@[j] == fill,
            decreases cols - c,
        {
            proof {
                lemma_index_in_range(r as int, c as int, rows as int, cols as int);
                lemma_index_in_range(c as int, r as int, cols as int, rows as int);
            }
            let dst = c * rows + r;
            let src = r * cols + c;
            let v = data[src];
            let ghost before = out@;
            out.set(dst, v);
            proof {
                assert forall|rr: int, cc: int|
                    0 <= rr < r && 0 <= cc < cols implies #[trigger] out@[row_major(cc, rr, rows as int)]
                        == data@[row_major(rr, cc, cols as int)] by {
                    lemma_index_in_range(cc, rr, cols as int, rows as int);
                    if row_major(cc, rr, rows as int) == dst {
                        lemma_index_injective(cc, rr, c as int, r as int, rows as int);
                    }
                    assert(out@[row_major(cc, rr, rows as int)] == before[row_major(cc, rr, rows as int)]);
                }
                assert forall|cc: int|
                    0 <= cc < c + 1 implies #[trigger] out@[row_major(cc, r as int, rows as int)]
                        == data@[row_major(r as int, cc, cols as int)] by {
                    if cc < c {
                        lemma_index_in_range(cc, r as int, cols as int, rows as int);
                        if row_major(cc, r as int, rows as int) == dst {
                            lemma_index_injective(cc, r as int, c as int, r as int, rows as int);
                        }
                        assert(out@[row_major(cc, r as int, rows as int)] == before[row_major(cc, r as int, rows as int)]);
                    }
                }
            }
            c = c + 1;
        }
        r = r + 1;
    }
    out
}

/// A row-major position `a * width + b` with `b < width` lies below
/// `height * width` when `a < height`.
proof fn lemma_index_in_range(a: int, b: int, height: int, width: int)
    requires
        0 <= a < height,
        0 <= b < width,
    ensures
        0 <= a * width + b < height * width,
        a * width + b < width * height,
{
    assert(a * width + b < height * width) by (nonlinear_arith)
        requires
            0 <= a < height,
            0 <= b < width,
    ;
    assert(height * width == width * height) by (nonlinear_arith);
    assert(0 <= a * width) by (nonlinear_arith)
        requires 0 <= a, 0 <= b, b < width;
}

/// Distinct (row, column) pairs have distinct row-major positions.
proof fn lemma_index_injective(a1: int, b1: int, a2: int, b2: int, width: int)
    requires
        0 <= b1 < width,
        0 <= b2 < width,
        a1 * width + b1 == a2 * width + b2,
    ensures
        a1 == a2,
        b1 == b2,
{
    assert(a1 == a2) by (nonlinear_arith)
        requires
            0 <= b1 < width,
            0 <= b2 < width,
            a1 * width + b1 == a2 * width + b2,
    ;
}

} // verus!
