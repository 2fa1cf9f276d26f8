//! A streaming statistic over the most recent samples.

use vstd::prelude::*;
use vstd::arithmetic::div_mod::{
    lemma_add_mod_noop_right,
    lemma_mod_add_multiples_vanish,
    lemma_mod_bound,
    lemma_small_mod,
};
use crate::modular::{lemma_mod_shift_distinct, lemma_mod_step};

verus! {

/// What a streaming statistic holds: the slots of the ring and the slot that
/// the next sample goes to.
pub struct RingView {
    pub buffer: Seq<u64>,
    pub pos: usize,
}

impl RingView {
    pub open spec fn wf(self) -> bool {
        self.pos < self.buffer.len()
    }

    /// A ring of `size` zeros, written from slot 0.
    pub open spec fn fresh(size: nat) -> RingView {
        RingView { buffer: Seq::new(size, |i: int| 0u64), pos: 0 }
    }

    /// The ring after one more sample: it takes the slot under the cursor,
    /// and the cursor moves on, back to slot 0 after the last.
    pub open spec fn added(self, sample: u64) -> RingView {
        RingView {
            buffer: self.buffer.update(self.pos as int, sample),
            pos: if self.pos + 1 == self.buffer.len() {
                0
            } else {
                (self.pos + 1) as usize
            },
        }
    }

    /// The ring after each of `samples` in turn.
    pub open spec fn added_all(self, samples: Seq<u64>) -> RingView
        decreases samples.len(),
    {
        if samples.len() == 0 {
            self
        } else {
            self.added_all(samples.drop_last()).added(samples.last())
        }
    }
}

/// The `size` most recent of `samples`, oldest first, with zeros in front
/// while fewer than `size` have come.
pub open spec fn window(size: nat, samples: Seq<u64>) -> Seq<u64> {
    (Seq::new(size, |i: int| 0u64) + samples).skip(samples.len() as int)
}

/// A ring of fixed capacity that keeps the most recent samples. A sample is a
/// double-precision number, held by its 64-bit pattern; zero stands for the
/// number zero.
///
/// Summaries are taken over the whole ring, so until the ring has been filled
/// once they include the zeros it started with.
pub struct StreamingStat {
    buffer: Vec<u64>,
    pos: usize,
}

impl View for StreamingStat {
    type V = RingView;

    closed spec fn view(&self) -> RingView {
        RingView { buffer: self.buffer@, pos: self.pos }
    }
}

impl StreamingStat {
    pub open spec fn wf(&self) -> bool {
        self@.wf()
    }

    /// A ring of `size` zeros.
    pub fn with_capacity(size: usize) -> (stat: Self)
        requires
            size > 0,
        ensures
            stat.wf(),
            stat@ == RingView::fresh(size as nat),
    {
        let buffer: Vec<u64> = vec![0u64; size];
        assert(buffer@ =~= Seq::new(size as nat, |i: int| 0u64));
        StreamingStat { pos: 0, buffer }
    }

    /// Writes `sample` over the oldest slot.
    pub fn add(&mut self, sample: u64)
        requires
            old(self).wf(),
        ensures
            final(self).wf(),
            final(self)@ == old(self)@.added(sample),
    {
        let size = self.buffer.len();
        self.buffer.set(self.pos, sample);
        self.pos += 1;
        if self.pos == size {
            self.pos = 0;
        }
    }

    /// The number of slots.
    pub fn capacity(&self) -> (size: usize)
        requires
            self.wf(),
        ensures
            size == self@.buffer.len(),
            size > 0,
    {
        self.buffer.len()
    }

    /// The slots of the ring in their order: what a summary is taken over.
    pub fn samples(&self) -> (samples: &Vec<u64>)
        ensures
            samples@ == self@.buffer,
    {
        &self.buffer
    }
}

/// A ring of capacity `size` that has taken `samples` holds exactly the
/// `size` most recent of them, with zeros in front while fewer have come.
/// The cursor stands at the oldest, and the slots from there on, around the
/// ring, hold them from the oldest to the newest.
pub proof fn law_ring_holds_window(size: nat, samples: Seq<u64>)
    requires
        0 < size <= usize::MAX,
    ensures
        ({
            let ring = RingView::fresh(size).added_all(samples);
            &&& ring.wf()
            &&& ring.buffer.len() == size
            &&& ring.pos == samples.len() % size
            &&& forall|i: int|
                0 <= i < size ==> ring.buffer[(samples.len() + i) % (size as int)]
                    == #[trigger] window(size, samples)[i]
        }),
    decreases samples.len(),
{
    let n = size as int;
    let total = samples.len() as int;
    let ring = RingView::fresh(size).added_all(samples);
    if samples.len() == 0 {
        lemma_small_mod(0, size);
        assert forall|i: int| 0 <= i < size implies ring.buffer[(total + i) % n]
            == #[trigger] window(size, samples)[i] by {
            lemma_small_mod(i as nat, size);
        }
    } else {
        let earlier = samples.drop_last();
        let newest = samples.last();
        let before = RingView::fresh(size).added_all(earlier);
        law_ring_holds_window(size, earlier);
        assert(ring == before.added(newest));
        lemma_mod_step(total - 1, n);
        assert forall|i: int| 0 <= i < size implies ring.buffer[(total + i) % n]
            == #[trigger] window(size, samples)[i] by {
            let slot = (total + i) % n;
            lemma_mod_bound(total + i, n);
            if i == n - 1 {
                // the newest sample sits where the cursor stood
                lemma_mod_add_multiples_vanish(total - 1, n);
                assert(slot == before.pos);
                assert(window(size, samples)[i] == newest);
            } else {
                // every other slot keeps what it held
                lemma_mod_shift_distinct(total - 1, i + 1, n);
                assert(slot != before.pos);
                assert(window(size, earlier)[i + 1] == window(size, samples)[i]);
                assert(slot == ((total - 1) + (i + 1)) % n);
            }
        }
    }
}

/// What a summary is taken over: the ring holds the same samples as the
/// window of the most recent ones, each as often.
pub proof fn law_ring_same_samples(size: nat, samples: Seq<u64>)
    requires
        0 < size <= usize::MAX,
    ensures
        RingView::fresh(size).added_all(samples).buffer.to_multiset() == window(
            size,
            samples,
        ).to_multiset(),
{
    let n = size as int;
    let total = samples.len() as int;
    let ring = RingView::fresh(size).added_all(samples);
    let recent = window(size, samples);
    law_ring_holds_window(size, samples);
    let pos = ring.pos as int;
    let turn = n - pos;
    // the ring is the window, turned so that the oldest stands at the cursor
    assert(ring.buffer.skip(pos) =~= recent.take(turn)) by {
        assert forall|i: int| 0 <= i < turn implies ring.buffer[pos + i] == recent[i] by {
            lemma_add_mod_noop_right(i, total, n);
            lemma_small_mod((pos + i) as nat, size);
            assert(ring.buffer[(total + i) % n] == recent[i]);
        }
    }
    assert(ring.buffer.take(pos) =~= recent.skip(turn)) by {
        assert forall|j: int| 0 <= j < pos implies ring.buffer[j] == recent[turn + j] by {
            lemma_add_mod_noop_right(turn + j, total, n);
            lemma_mod_add_multiples_vanish(j, n);
            lemma_small_mod(j as nat, size);
            assert(ring.buffer[(total + (turn + j)) % n] == recent[turn + j]);
        }
    }
    assert(ring.buffer =~= ring.buffer.take(pos) + ring.buffer.skip(pos));
    assert(recent =~= recent.take(turn) + recent.skip(turn));
    vstd::seq_lib::lemma_multiset_commutative(recent.skip(turn), recent.take(turn));
    vstd::seq_lib::lemma_multiset_commutative(recent.take(turn), recent.skip(turn));
    assert(recent.skip(turn).to_multiset().add(recent.take(turn).to_multiset())
        =~= recent.take(turn).to_multiset().add(recent.skip(turn).to_multiset()));
}

} // verus!
