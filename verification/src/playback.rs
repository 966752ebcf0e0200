//! The playback buffer: a FIFO of interleaved stereo sample words bridging
//! the background producer (which renders ahead of real time) and the
//! real-time consumer (the audio device's pull callback).
//!
//! Only the producer appends and only the consumer removes from the front.
//! A pull for more samples than are queued never blocks and never comes up
//! short: the missing tail is zero-filled (an underrun), since silence is the
//! only acceptable degradation inside a real-time audio callback.

use vstd::prelude::*;

verus! {

/// A sequence of `n` silent samples (`0u32` is the bit pattern of `0.0`).
pub open spec fn zeros(n: nat) -> Seq<u32> {
    Seq::new(n, |i: int| 0u32)
}

/// What a pull of `len` returns when the buffer holds `s`: the first `len`
/// queued samples, zero-extended whenever fewer than `len` are queued.
pub open spec fn spec_pull_front(s: Seq<u32>, len: nat) -> Seq<u32> {
    if len <= s.len() {
        s.take(len as int)
    } else {
        s + zeros((len - s.len()) as nat)
    }
}

/// What a pull of `len` leaves behind when the buffer holds `s`.
pub open spec fn spec_pull_rest(s: Seq<u32>, len: nat) -> Seq<u32> {
    if len <= s.len() {
        s.skip(len as int)
    } else {
        Seq::empty()
    }
}

/// Interleaved stereo samples (`[L0, R0, L1, R1, ...]` as IEEE-754 bit
/// patterns) queued between one producer and one consumer.
pub struct PlaybackBuffer {
    data: Vec<u32>,
}

impl View for PlaybackBuffer {
    type V = Seq<u32>;

    closed spec fn view(&self) -> Seq<u32> {
        self.data@
    }
}

impl PlaybackBuffer {
    /// An empty buffer, made when its stream starts.
    pub fn new() -> (r: Self)
        ensures
            r@ == Seq::<u32>::empty(),
    {
        PlaybackBuffer { data: Vec::new() }
    }

    /// Current occupancy in samples; the producer compares it against its
    /// refill watermark.
    pub fn len(&self) -> (r: usize)
        ensures
            r == self@.len(),
    {
        self.data.len()
    }

    /// Producer side: queue a freshly rendered chunk behind what is waiting.
    pub fn append(&mut self, chunk: Vec<u32>)
        ensures
            final(self)@ == old(self)@ + chunk@,
    {
        let mut chunk = chunk;
        self.data.append(&mut chunk);
    }

    /// Consumer side: remove and return exactly the first `len` samples,
    /// zero-filling whatever is missing. Returns the pulled samples and the
    /// number of zero-filled ones (nonzero means an underrun to report).
    /// The call never blocks and never returns fewer than `len` samples.
    pub fn pull(&mut self, len: usize) -> (r: (Vec<u32>, usize))
        ensures
            r.0@ == spec_pull_front(old(self)@, len as nat),
            final(self)@ == spec_pull_rest(old(self)@, len as nat),
            r.1 == if len <= old(self)@.len() {
                0int
            } else {
                len - old(self)@.len()
            },
    {
        let queued = self.data.len();
        let shortfall = if queued < len {
            len - queued
        } else {
            0
        };
        if queued < len {
            while self.data.len() < len
                invariant
                    old(self)@.len() <= self.data@.len() <= len,
                    self.data@ == old(self)@ + zeros((self.data@.len() - old(self)@.len()) as nat),
                decreases len - self.data@.len(),
            {
                self.data.push(0u32);
                assert(self.data@ =~= old(self)@ + zeros(
                    (self.data@.len() - old(self)@.len()) as nat,
                ));
            }
        }
        let mut front = self.data.split_off(len);
        core::mem::swap(&mut self.data, &mut front);
        proof {
            assert(front@ =~= spec_pull_front(old(self)@, len as nat));
            assert(self.data@ =~= spec_pull_rest(old(self)@, len as nat));
        }
        (front, shortfall)
    }
}

/// Law: a consumer sees the queued stream in order however it splits its
/// demand. Pulling `a` samples and then `b` samples yields the same samples,
/// zero-filling included, as one pull of `a + b`, and leaves the buffer in
/// the same state.
pub proof fn lemma_pull_split(s: Seq<u32>, a: nat, b: nat)
    ensures
        spec_pull_front(s, a) + spec_pull_front(spec_pull_rest(s, a), b) == spec_pull_front(
            s,
            a + b,
        ),
        spec_pull_rest(spec_pull_rest(s, a), b) == spec_pull_rest(s, a + b),
{
    assert(spec_pull_front(s, a) + spec_pull_front(spec_pull_rest(s, a), b) =~= spec_pull_front(
        s,
        a + b,
    ));
    assert(spec_pull_rest(spec_pull_rest(s, a), b) =~= spec_pull_rest(s, a + b));
}

/// Samples demanded by a whole run of consumer pulls.
pub open spec fn spec_total_demand(lens: Seq<nat>) -> nat
    decreases lens.len(),
{
    if lens.len() == 0 {
        0
    } else {
        spec_total_demand(lens.drop_last()) + lens.last()
    }
}

/// The buffer contents left after a run of pulls of these lengths against a
/// buffer holding `s`.
pub open spec fn spec_rest_after(s: Seq<u32>, lens: Seq<nat>) -> Seq<u32>
    decreases lens.len(),
{
    if lens.len() == 0 {
        s
    } else {
        spec_pull_rest(spec_rest_after(s, lens.drop_last()), lens.last())
    }
}

/// Everything a consumer hears over a run of pulls of these lengths against
/// a buffer holding `s`, in order.
pub open spec fn spec_consumed(s: Seq<u32>, lens: Seq<nat>) -> Seq<u32>
    decreases lens.len(),
{
    if lens.len() == 0 {
        Seq::empty()
    } else {
        spec_consumed(s, lens.drop_last()) + spec_pull_front(
            spec_rest_after(s, lens.drop_last()),
            lens.last(),
        )
    }
}

/// Law (live/batch agreement at the buffer): a live run of real-time pulls,
/// however its demand is divided, releases exactly what one non-real-time
/// pull of the whole demand releases — the queued stream in order,
/// zero-filled past its end — and leaves the buffer in the same state.  A
/// record sink mirroring the releases therefore matches the batch output of
/// equal length.
pub proof fn lemma_consumed_equals_batch(s: Seq<u32>, lens: Seq<nat>)
    ensures
        spec_consumed(s, lens) == spec_pull_front(s, spec_total_demand(lens)),
        spec_rest_after(s, lens) == spec_pull_rest(s, spec_total_demand(lens)),
    decreases lens.len(),
{
    if lens.len() == 0 {
        assert(spec_consumed(s, lens) =~= spec_pull_front(s, 0));
        assert(spec_rest_after(s, lens) =~= spec_pull_rest(s, 0));
    } else {
        lemma_consumed_equals_batch(s, lens.drop_last());
        lemma_pull_split(s, spec_total_demand(lens.drop_last()), lens.last());
    }
}

/// How many interleaved samples the producer renders when it wakes and finds
/// `occupancy` samples queued: below one second of audio (`2 * sample_rate`
/// interleaved stereo samples) it renders exactly one more second, a soft
/// watermark rather than a hard deadline; at or above it, nothing.
pub fn producer_refill_len(occupancy: usize, sample_rate: u32) -> (r: u32)
    requires
        2 * sample_rate <= u32::MAX,
    ensures
        r == if occupancy < 2 * sample_rate {
            2 * sample_rate
        } else {
            0int
        },
{
    if occupancy < 2 * (sample_rate as usize) {
        2 * sample_rate
    } else {
        0
    }
}

} // verus!
