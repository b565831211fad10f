//! Fixed-size three-axis sample buffer that reports when a window is full.
use vstd::prelude::*;
use crate::config::WINDOW_SIZE;

verus! {

/// Three parallel sample buffers filled in lock-step; `index` is the slot
/// that the next sample goes to.
pub struct SlidingWindow<T> {
    pub buf_x: [T; WINDOW_SIZE],
    pub buf_y: [T; WINDOW_SIZE],
    pub buf_z: [T; WINDOW_SIZE],
    pub index: usize,
}

/// Abstract state of a window: the three buffers and the write slot.
pub struct WindowView<T> {
    pub xs: Seq<T>,
    pub ys: Seq<T>,
    pub zs: Seq<T>,
    pub index: nat,
}

/// The slot that follows slot `i`, wrapping at the end of the window.
pub open spec fn next_slot(i: nat) -> nat {
    ((i + 1) % (WINDOW_SIZE as nat)) as nat
}

/// Writing slot `i` fills the window.
pub open spec fn completes(i: nat) -> bool {
    i + 1 == WINDOW_SIZE
}

impl<T> WindowView<T> {
    /// Three buffers of window length and a slot inside them.
    pub open spec fn wf(self) -> bool {
        &&& self.xs.len() == WINDOW_SIZE
        &&& self.ys.len() == WINDOW_SIZE
        &&& self.zs.len() == WINDOW_SIZE
        &&& self.index < WINDOW_SIZE
    }

    /// The state after storing one sample.
    pub open spec fn pushed(self, x: T, y: T, z: T) -> WindowView<T> {
        WindowView {
            xs: self.xs.update(self.index as int, x),
            ys: self.ys.update(self.index as int, y),
            zs: self.zs.update(self.index as int, z),
            index: next_slot(self.index),
        }
    }

    /// The state after storing the samples of `s` in order.
    pub open spec fn pushed_all(self, s: Seq<(T, T, T)>) -> WindowView<T>
        decreases s.len(),
    {
        if s.len() == 0 {
            self
        } else {
            let last = s.last();
            self.pushed_all(s.drop_last()).pushed(last.0, last.1, last.2)
        }
    }
}

impl<T> View for SlidingWindow<T> {
    type V = WindowView<T>;

    open spec fn view(&self) -> WindowView<T> {
        WindowView { xs: self.buf_x@, ys: self.buf_y@, zs: self.buf_z@, index: self.index as nat }
    }
}

impl<T: Copy> SlidingWindow<T> {
    /// The write position is inside the buffers.
    pub open spec fn wf(&self) -> bool {
        self.index < WINDOW_SIZE
    }

    /// A window whose three buffers hold `fill` everywhere, writing at slot 0.
    pub fn new(fill: T) -> (w: Self)
        ensures
            w.wf(),
            w@.index == 0,
            w@.xs == Seq::new(WINDOW_SIZE as nat, |i: int| fill),
            w@.ys == Seq::new(WINDOW_SIZE as nat, |i: int| fill),
            w@.zs == Seq::new(WINDOW_SIZE as nat, |i: int| fill),
    {
        let w = SlidingWindow {
            buf_x: [fill; WINDOW_SIZE],
            buf_y: [fill; WINDOW_SIZE],
            buf_z: [fill; WINDOW_SIZE],
            index: 0,
        };
        assert(w@.xs =~= Seq::new(WINDOW_SIZE as nat, |i: int| fill));
        assert(w@.ys =~= Seq::new(WINDOW_SIZE as nat, |i: int| fill));
        assert(w@.zs =~= Seq::new(WINDOW_SIZE as nat, |i: int| fill));
        w
    }

    /// Stores one sample at the write position and advances it; returns
    /// `true` when this sample completed the window (the position wraps to 0).
    pub fn push(&mut self, x: T, y: T, z: T) -> (full: bool)
        requires
            old(self).wf(),
        ensures
            final(self).wf(),
            final(self)@ == old(self)@.pushed(x, y, z),
            full == completes(old(self)@.index),
    {
        self.buf_x[self.index] = x;
        self.buf_y[self.index] = y;
        self.buf_z[self.index] = z;
        self.index += 1;
        if self.index >= WINDOW_SIZE {
            self.index = 0;
            true
        } else {
            false
        }
    }
}

/// Pushing samples from slot `v.index` advances the slot by their number,
/// modulo the window length; keeps the buffers at window length.
pub proof fn lemma_slot_advances<T>(v: WindowView<T>, s: Seq<(T, T, T)>)
    requires
        v.wf(),
    ensures
        v.pushed_all(s).wf(),
        v.pushed_all(s).index == (v.index + s.len()) % (WINDOW_SIZE as nat),
    decreases s.len(),
{
    if s.len() > 0 {
        lemma_slot_advances(v, s.drop_last());
        let k = v.index + s.len() - 1;
        assert(((k % 128) + 1) % 128 == (k + 1) % 128) by (nonlinear_arith)
            requires k >= 0;
    }
}

/// Counting pushes from a fresh slot 0, the `k`-th push (from 1) reports a
/// full window exactly when `k` is a multiple of the window length.
pub proof fn lemma_full_every_window<T>(v: WindowView<T>, s: Seq<(T, T, T)>)
    requires
        v.wf(),
        v.index == 0,
        s.len() > 0,
    ensures
        completes(v.pushed_all(s.drop_last()).index) <==> s.len() % (WINDOW_SIZE as nat) == 0,
{
    lemma_slot_advances(v, s.drop_last());
    let k = s.len() - 1;
    assert((k % 128 + 1 == 128) <==> ((k + 1) % 128 == 0)) by (nonlinear_arith)
        requires k >= 0;
}

/// Starting at slot 0, the buffers hold the pushed samples in order: after
/// at most a window's worth of pushes, slot `i` holds the `i`-th sample
/// (from 0) and slots not yet written are unchanged.
pub proof fn lemma_window_holds_samples<T>(v: WindowView<T>, s: Seq<(T, T, T)>)
    requires
        v.wf(),
        v.index == 0,
        s.len() <= WINDOW_SIZE,
    ensures
        forall|i: int| 0 <= i < s.len() ==> #[trigger] v.pushed_all(s).xs[i] == s[i].0,
        forall|i: int| 0 <= i < s.len() ==> #[trigger] v.pushed_all(s).ys[i] == s[i].1,
        forall|i: int| 0 <= i < s.len() ==> #[trigger] v.pushed_all(s).zs[i] == s[i].2,
        forall|i: int| s.len() <= i < WINDOW_SIZE ==> #[trigger] v.pushed_all(s).xs[i] == v.xs[i],
        forall|i: int| s.len() <= i < WINDOW_SIZE ==> #[trigger] v.pushed_all(s).ys[i] == v.ys[i],
        forall|i: int| s.len() <= i < WINDOW_SIZE ==> #[trigger] v.pushed_all(s).zs[i] == v.zs[i],
    decreases s.len(),
{
    if s.len() > 0 {
        let p = s.drop_last();
        lemma_window_holds_samples(v, p);
        lemma_slot_advances(v, p);
        assert(v.pushed_all(p).index == p.len());
        assert forall|i: int| 0 <= i < s.len() - 1 implies #[trigger] s[i] == p[i] by {}
    }
}

} // verus!
