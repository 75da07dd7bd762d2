//! Sample-stream bookkeeping of the analysis pipeline: downsampling of the
//! captured stream, and the sliding temporal window the analysis reads.
//!
//! Both are generic over the sample type; they move samples, never compute
//! with them.

use vstd::prelude::*;

verus! {

// ---------------------------------------------------------------------------
// decimation
// ---------------------------------------------------------------------------

/// The samples of `block` kept by downsampling with `step` when the first kept
/// one sits at index `phase`: `block[phase]`, `block[phase + step]`, ...
pub open spec fn picked<T>(phase: nat, step: nat, block: Seq<T>) -> Seq<T>
    recommends
        step > 0,
    decreases block.len(),
{
    if block.len() <= phase {
        Seq::empty()
    } else {
        seq![block[phase as int]] + picked((step - 1) as nat, step, block.skip(phase as int + 1))
    }
}

/// The phase carried into the next block after downsampling `block` from
/// `phase` with `step`: how far into the next block the next kept sample is.
pub open spec fn next_phase<T>(phase: nat, step: nat, block: Seq<T>) -> nat
    recommends
        step > 0,
    decreases block.len(),
{
    if block.len() <= phase {
        (phase - block.len()) as nat
    } else {
        next_phase((step - 1) as nat, step, block.skip(phase as int + 1))
    }
}

/// Skipping `k` samples ahead of the first kept one is the same as starting
/// the block `k` samples later.
proof fn lemma_picked_skip<T>(phase: nat, step: nat, block: Seq<T>, k: nat)
    requires
        step > 0,
        k <= block.len(),
        k <= phase,
    ensures
        picked((phase - k) as nat, step, block.skip(k as int)) == picked(phase, step, block),
        next_phase((phase - k) as nat, step, block.skip(k as int)) == next_phase(phase, step, block),
    decreases block.len(),
{
    let p2 = (phase - k) as nat;
    let b2 = block.skip(k as int);
    if block.len() <= phase {
        assert(b2.len() <= p2);
    } else {
        assert(b2.len() > p2);
        assert(b2[p2 as int] == block[phase as int]);
        assert(b2.skip(p2 as int + 1) =~= block.skip(phase as int + 1));
    }
}

/// One kept sample, then the rest from `step` samples later.
proof fn lemma_picked_step<T>(phase: nat, step: nat, block: Seq<T>)
    requires
        step > 0,
        phase < block.len(),
    ensures
        picked(phase, step, block) == seq![block[phase as int]] + picked(phase + step, step, block),
        next_phase(phase, step, block) == next_phase(phase + step, step, block),
{
    let k = phase + 1;
    let later = phase + step;
    lemma_picked_skip(later, step, block, k);
    assert((later - k) as nat == (step - 1) as nat);
    assert(picked(phase, step, block) == seq![block[phase as int]] + picked((step - 1) as nat, step, block.skip(phase as int + 1)));
    assert(next_phase(phase, step, block) == next_phase((step - 1) as nat, step, block.skip(phase as int + 1)));
}

/// Downsampling two blocks in turn, carrying the phase, keeps exactly the
/// samples that downsampling them as one block would, and leaves the same
/// phase: the stream stays evenly sampled across block boundaries.
pub proof fn lemma_decimation_is_continuous<T>(phase: nat, step: nat, first: Seq<T>, second: Seq<T>)
    requires
        step > 0,
    ensures
        picked(phase, step, first) + picked(next_phase(phase, step, first), step, second)
            == picked(phase, step, first + second),
        next_phase(next_phase(phase, step, first), step, second) == next_phase(phase, step, first + second),
    decreases first.len(),
{
    let whole = first + second;
    if first.len() <= phase {
        let p2 = (phase - first.len()) as nat;
        lemma_picked_skip(phase, step, whole, first.len());
        assert(whole.skip(first.len() as int) =~= second);
        assert(picked(phase, step, first) =~= Seq::<T>::empty());
        assert(picked(phase, step, first) + picked(p2, step, second) =~= picked(p2, step, second));
    } else {
        let rest = first.skip(phase as int + 1);
        lemma_decimation_is_continuous((step - 1) as nat, step, rest, second);
        assert(rest + second =~= whole.skip(phase as int + 1));
        assert(whole[phase as int] == first[phase as int]);
        assert(picked(phase, step, first) + picked(next_phase(phase, step, first), step, second)
            =~= seq![first[phase as int]] + (picked((step - 1) as nat, step, rest) + picked(
            next_phase((step - 1) as nat, step, rest), step, second)));
    }
}

/// Downsampling of the captured stream by the oversampling factor. The phase
/// carries across blocks, so one `Decimator` must see the whole stream in
/// order.
pub struct Decimator {
    oversampling: usize,
    /// Index, in the next block, of the next sample to keep.
    phase: usize,
}

impl Decimator {
    /// The oversampling factor.
    pub closed spec fn step(&self) -> nat {
        self.oversampling as nat
    }

    /// Where, in the next block, the next kept sample is.
    pub closed spec fn phase_view(&self) -> nat {
        self.phase as nat
    }

    /// The phase stays below the step: the next kept sample is never more than
    /// one step away.
    pub open spec fn wf(&self) -> bool {
        self.step() > 1 ==> self.phase_view() < self.step()
    }

    pub fn new(oversampling: u32) -> (d: Self)
        ensures
            d.wf(),
            d.step() == oversampling as nat,
            d.phase_view() == 0,
    {
        Decimator { oversampling: oversampling as usize, phase: 0 }
    }

    /// Downsample one block. With an oversampling of 1 (or 0) it is a
    /// pass-through.
    pub fn process<T: Copy>(&mut self, block: &[T]) -> (out: Vec<T>)
        requires
            old(self).wf(),
        ensures
            final(self).wf(),
            final(self).step() == old(self).step(),
            old(self).step() <= 1 ==> out@ == block@ && final(self).phase_view() == old(self).phase_view(),
            old(self).step() > 1 ==> {
                &&& out@ == picked(old(self).phase_view(), old(self).step(), block@)
                &&& final(self).phase_view() == next_phase(old(self).phase_view(), old(self).step(), block@)
            },
    {
        if self.oversampling <= 1 {
            return copy_slice(block);
        }
        let step = self.oversampling;
        let len = block.len();
        let ghost phase0 = self.phase as nat;
        let mut out: Vec<T> = Vec::new();
        let mut i: usize = self.phase;
        // `i` walks the kept positions; the walk ends once the next one would
        // lie past the block, and how far past it is the next phase.
        let mut next: usize = 0;
        let mut walking = true;
        while walking
            invariant
                step > 1,
                phase0 < step,
                len == block@.len(),
                walking ==> picked(phase0, step as nat, block@) == out@ + picked(i as nat, step as nat, block@),
                walking ==> next_phase(phase0, step as nat, block@) == next_phase(i as nat, step as nat, block@),
                walking ==> i < len + step,
                !walking ==> picked(phase0, step as nat, block@) == out@,
                !walking ==> next_phase(phase0, step as nat, block@) == next as nat,
                !walking ==> next < step,
            decreases (if walking { len + step - i + 1 } else { 0 }),
        {
            if i >= len {
                proof {
                    assert(picked(i as nat, step as nat, block@) =~= Seq::<T>::empty());
                    assert(out@ + picked(i as nat, step as nat, block@) =~= out@);
                }
                next = i - len;
                walking = false;
            } else {
                proof {
                    lemma_picked_step(i as nat, step as nat, block@);
                }
                out.push(block[i]);
                proof {
                    assert(out@ + picked((i + step) as nat, step as nat, block@) =~= (out@.drop_last()
                        + seq![block@[i as int]]) + picked((i + step) as nat, step as nat, block@));
                }
                if len - i <= step {
                    proof {
                        assert(picked((i + step) as nat, step as nat, block@) =~= Seq::<T>::empty());
                        assert(out@ + picked((i + step) as nat, step as nat, block@) =~= out@);
                    }
                    next = step - (len - i);
                    walking = false;
                } else {
                    i = i + step;
                }
            }
        }
        self.phase = next;
        out
    }
}

fn copy_slice<T: Copy>(s: &[T]) -> (v: Vec<T>)
    ensures
        v@ == s@,
{
    let mut v: Vec<T> = Vec::new();
    for k in 0..s.len()
        invariant
            v@ == s@.take(k as int),
    {
        v.push(s[k]);
        proof {
            assert(s@.take(k + 1) =~= s@.take(k as int).push(s@[k as int]));
        }
    }
    proof {
        assert(s@.take(s@.len() as int) =~= s@);
    }
    v
}

// ---------------------------------------------------------------------------
// temporal window
// ---------------------------------------------------------------------------

/// The last `len` samples of `samples`.
pub open spec fn most_recent<T>(samples: Seq<T>, len: nat) -> Seq<T>
    recommends
        len <= samples.len(),
{
    samples.subrange(samples.len() - len, samples.len() as int)
}

/// A fixed-size window over the most recent samples of a stream: new samples
/// shift in at the end and the oldest fall off the front, like a queue.
pub struct TemporalBuffer<T> {
    samples: Vec<T>,
}

impl<T: Copy> TemporalBuffer<T> {
    /// The samples held, oldest first.
    pub closed spec fn view_samples(&self) -> Seq<T> {
        self.samples@
    }

    /// A window of `len` samples, all `fill`.
    pub fn new(len: usize, fill: T) -> (b: Self)
        ensures
            b.view_samples() == Seq::new(len as nat, |_k: int| fill),
    {
        let mut samples: Vec<T> = Vec::new();
        for k in 0..len
            invariant
                samples@ == Seq::new(k as nat, |_k: int| fill),
        {
            samples.push(fill);
            proof {
                assert(samples@ =~= Seq::new((k + 1) as nat, |_k: int| fill));
            }
        }
        TemporalBuffer { samples }
    }

    /// Number of samples the window holds.
    pub fn len(&self) -> (n: usize)
        ensures
            n == self.view_samples().len(),
    {
        self.samples.len()
    }

    /// The samples, oldest first.
    pub fn samples(&self) -> (s: &[T])
        ensures
            s@ == self.view_samples(),
    {
        self.samples.as_slice()
    }

    /// Append a block of samples: afterwards the window holds the most recent
    /// `len` samples of what it held followed by `block`.
    pub fn push_block(&mut self, block: &[T])
        ensures
            final(self).view_samples() == most_recent(
                old(self).view_samples() + block@,
                old(self).view_samples().len(),
            ),
    {
        let size = self.samples.len();
        let ghost before = self.samples@;
        if block.len() == 0 {
            proof {
                assert(most_recent(before + block@, size as nat) =~= before);
            }
            return;
        }
        if block.len() >= size {
            let skip = block.len() - size;
            for k in 0..size
                invariant
                    size == self.samples@.len(),
                    skip + size == block@.len(),
                    block@.len() == block.len(),
                    forall|m: int| 0 <= m < k ==> self.samples@[m] == block@[skip + m],
            {
                self.samples.set(k, block[skip + k]);
            }
            proof {
                assert(self.samples@ =~= most_recent(before + block@, size as nat));
            }
        } else {
            let shift = block.len();
            let keep = size - shift;
            for k in 0..keep
                invariant
                    size == self.samples@.len(),
                    size == before.len(),
                    keep + shift == size,
                    forall|m: int| 0 <= m < k ==> self.samples@[m] == before[shift + m],
                    forall|m: int| k <= m < size ==> self.samples@[m] == before[m],
            {
                let moved = self.samples[k + shift];
                self.samples.set(k, moved);
            }
            for k in 0..shift
                invariant
                    size == self.samples@.len(),
                    shift == block@.len(),
                    keep + shift == size,
                    forall|m: int| 0 <= m < keep ==> self.samples@[m] == before[shift + m],
                    forall|m: int| 0 <= m < k ==> self.samples@[keep + m] == block@[m],
            {
                self.samples.set(keep + k, block[k]);
            }
            proof {
                assert forall|m: int| 0 <= m < size implies self.samples@[m] == most_recent(
                    before + block@,
                    size as nat,
                )[m] by {
                    if m >= keep {
                        assert(self.samples@[keep + (m - keep)] == block@[m - keep]);
                    }
                }
                assert(self.samples@ =~= most_recent(before + block@, size as nat));
            }
        }
    }
}

/// Pushing two blocks in turn leaves the same window as pushing them as one
/// block.
pub proof fn lemma_push_blocks_compose<T>(window: Seq<T>, first: Seq<T>, second: Seq<T>)
    ensures
        most_recent(most_recent(window + first, window.len()) + second, window.len())
            == most_recent(window + (first + second), window.len()),
{
    let n = window.len();
    let a = most_recent(window + first, n);
    assert(most_recent(a + second, n) =~= most_recent(window + (first + second), n));
}

} // verus!
