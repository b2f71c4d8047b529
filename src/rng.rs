//! The session's seeded random stream. Every draw advances one linear
//! congruential state, so a seed and a sequence of calls fix every result.

use vstd::prelude::*;

verus! {

broadcast use {
    vstd::seq_lib::to_multiset_update,
    vstd::seq_lib::to_multiset_contains,
    vstd::multiset::group_multiset_axioms,
};

/// Multiplier of the congruential step.
pub const LCG_MUL: u64 = 6364136223846793005;

/// Increment of the congruential step.
pub const LCG_INC: u64 = 1442695040888963407;

/// The state that follows `s`.
pub open spec fn next_state(s: u64) -> u64 {
    ((s as int * LCG_MUL as int + LCG_INC as int) % 0x1_0000_0000_0000_0000int) as u64
}

/// The raw 31-bit draw made from state `s`: the high bits of the next state.
pub open spec fn raw_draw(s: u64) -> u32 {
    (next_state(s) / 0x2_0000_0000u64) as u32
}

/// The value `gen(lo, hi)` returns from state `s`: uniform-ish in `[lo, hi)`,
/// and `lo` itself when the range is empty.
pub open spec fn gen_value(s: u64, lo: i32, hi: i32) -> i32 {
    if lo < hi {
        (lo as int + (raw_draw(s) as int) % (hi as int - lo as int)) as i32
    } else {
        lo
    }
}

/// The index `pick` chooses from state `s` among `len > 0` items.
pub open spec fn pick_index(s: u64, len: nat) -> nat {
    (raw_draw(s) as nat) % len
}

/// The state after `n` draws from `s`.
pub open spec fn state_after(s: u64, n: nat) -> u64
    decreases n,
{
    if n == 0 {
        s
    } else {
        next_state(state_after(s, (n - 1) as nat))
    }
}

/// The values of successive `gen` calls with the given bounds, from state `s`.
pub open spec fn gen_sequence(s: u64, bounds: Seq<(i32, i32)>) -> Seq<i32>
    decreases bounds.len(),
{
    if bounds.len() == 0 {
        Seq::empty()
    } else {
        seq![gen_value(s, bounds[0].0, bounds[0].1)] + gen_sequence(
            next_state(s),
            bounds.subrange(1, bounds.len() as int),
        )
    }
}

/// Fisher-Yates from state `s` on the first `i` items of `v`: the item at
/// `i - 1` swaps with the one at a drawn index below `i`, then the first
/// `i - 1` items are shuffled. Gives the items and the final state.
pub open spec fn shuffle_from<T>(s: u64, v: Seq<T>, i: nat) -> (Seq<T>, u64)
    decreases i,
{
    if i <= 1 || i > v.len() {
        (v, s)
    } else {
        let j = (raw_draw(s) as nat % i) as int;
        let k = i - 1;
        shuffle_from(next_state(s), v.update(k, v[j]).update(j, v[k]), (i - 1) as nat)
    }
}

/// A seeded random stream.
pub struct Random {
    state: u64,
}

impl View for Random {
    type V = u64;

    /// The current state of the stream.
    closed spec fn view(&self) -> u64 {
        self.state
    }
}

impl Random {
    /// A stream that starts from `seed`.
    pub fn new(seed: u64) -> (r: Random)
        ensures
            r@ == seed,
    {
        Random { state: seed }
    }

    /// Advances the stream by one step and returns the raw 31-bit draw.
    pub fn next_raw(&mut self) -> (r: u32)
        ensures
            r == raw_draw(old(self)@),
            final(self)@ == next_state(old(self)@),
            r < 0x8000_0000,
    {
        assert((self.state as int) * (LCG_MUL as int) <= 0xffff_ffff_ffff_ffffint * (LCG_MUL as int))
            by (nonlinear_arith)
            requires
                self.state <= 0xffff_ffff_ffff_ffffu64,
        ;
        let wide: u128 = (self.state as u128) * (LCG_MUL as u128) + (LCG_INC as u128);
        let next: u64 = (wide % 0x1_0000_0000_0000_0000u128) as u64;
        self.state = next;
        (next / 0x2_0000_0000u64) as u32
    }

    /// A value in `[lo, hi)`; `lo` when the range is empty. One draw either way.
    pub fn gen(&mut self, lo: i32, hi: i32) -> (r: i32)
        ensures
            r == gen_value(old(self)@, lo, hi),
            final(self)@ == next_state(old(self)@),
            lo < hi ==> lo <= r < hi,
    {
        let d = self.next_raw();
        if lo < hi {
            let span: i64 = (hi as i64) - (lo as i64);
            let off: i64 = (d as i64) % span;
            ((lo as i64) + off) as i32
        } else {
            lo
        }
    }

    /// Two successive values, the first in `[x0, x1)`, the second in `[y0, y1)`.
    pub fn gen2d(&mut self, x0: i32, x1: i32, y0: i32, y1: i32) -> (r: (i32, i32))
        ensures
            r.0 == gen_value(old(self)@, x0, x1),
            r.1 == gen_value(next_state(old(self)@), y0, y1),
            final(self)@ == next_state(next_state(old(self)@)),
    {
        let x = self.gen(x0, x1);
        let y = self.gen(y0, y1);
        (x, y)
    }

    /// True with a chance of `p` in a hundred: a draw in `[0, 100)` below `p`.
    pub fn percent(&mut self, p: u32) -> (r: bool)
        ensures
            r == (gen_value(old(self)@, 0, 100) < p),
            final(self)@ == next_state(old(self)@),
    {
        let v = self.gen(0, 100);
        (v as u32) < p
    }

    /// One of `items`, chosen by one draw.
    pub fn pick<T: Copy>(&mut self, items: &[T]) -> (r: T)
        requires
            items@.len() > 0,
        ensures
            r == items@[pick_index(old(self)@, items@.len()) as int],
            final(self)@ == next_state(old(self)@),
    {
        let d = self.next_raw();
        let i: usize = (d as usize) % items.len();
        items[i]
    }

    /// Shuffles `v` by Fisher-Yates, drawing once for each position from the
    /// last down to the second; the result holds the same items.
    pub fn shuffle<T: Copy>(&mut self, v: Vec<T>) -> (r: Vec<T>)
        ensures
            (r@, final(self)@) == shuffle_from(old(self)@, v@, v@.len()),
            r@.to_multiset() == v@.to_multiset(),
            r@.len() == v@.len(),
    {
        let mut w = v;
        let mut i: usize = w.len();
        let ghost target = shuffle_from(self@, v@, v@.len());
        while i > 1
            invariant
                i <= w@.len(),
                w@.len() == v@.len(),
                w@.to_multiset() == v@.to_multiset(),
                shuffle_from(self@, w@, i as nat) == target,
            decreases i,
        {
            let d = self.next_raw();
            let j: usize = (d as usize) % i;
            let k: usize = i - 1;
            let a = w[k];
            let b = w[j];
            let ghost w0 = w@;
            w.set(k, b);
            let ghost w1 = w@;
            w.set(j, a);
            proof {
                assert(w1[j as int] == b);
                assert(w0.contains(a) && w0.contains(b)) by {
                    assert(w0[k as int] == a);
                    assert(w0[j as int] == b);
                }
                let m = w0.to_multiset();
                assert(m.count(a) > 0 && m.count(b) > 0);
                assert(w0.to_multiset().insert(b).remove(a).insert(a).remove(b) =~= w0.to_multiset());
            }
            i = k;
        }
        w
    }
}

/// Two streams in the same state give the same values for the same sequence
/// of bounds, and end in the same state: the stream is a function of its seed
/// and of the calls made on it.
pub proof fn lemma_stream_determined(s: u64, bounds: Seq<(i32, i32)>)
    ensures
        gen_sequence(s, bounds).len() == bounds.len(),
        forall|i: int|
            0 <= i < bounds.len() ==> #[trigger] gen_sequence(s, bounds)[i] == gen_value(
                state_after(s, i as nat),
                bounds[i].0,
                bounds[i].1,
            ),
    decreases bounds.len(),
{
    if bounds.len() > 0 {
        let rest = bounds.subrange(1, bounds.len() as int);
        lemma_stream_determined(next_state(s), rest);
        assert forall|i: int| 0 <= i < bounds.len() implies #[trigger] gen_sequence(s, bounds)[i]
            == gen_value(state_after(s, i as nat), bounds[i].0, bounds[i].1) by {
            if i > 0 {
                lemma_state_after_shift(s, (i - 1) as nat);
                assert(rest[i - 1] == bounds[i]);
            }
        }
    }
}

/// Stepping once then `n` times is stepping `n + 1` times.
pub proof fn lemma_state_after_shift(s: u64, n: nat)
    ensures
        state_after(next_state(s), n) == state_after(s, n + 1),
    decreases n,
{
    if n > 0 {
        lemma_state_after_shift(s, (n - 1) as nat);
        assert(state_after(next_state(s), n) == next_state(state_after(next_state(s), (n - 1) as nat)));
        assert(state_after(s, n + 1) == next_state(state_after(s, n)));
    } else {
        assert(state_after(s, 1) == next_state(state_after(s, 0)));
    }
}

} // verus!
