//! The render director's bookkeeping: the monotonic frame cursor, the exact
//! layout of one batch compute dispatch, and the per-asset pull size.
//!
//! One render call computes `buffer_length` interleaved floats, one stereo
//! frame per two floats, dispatched as `buffer_length / 2` parallel
//! invocations; invocation `i` evaluates the synthesis function at frame
//! `base_frame + i` and writes output indices `2i` and `2i + 1`.  The cursor
//! advances by exactly `buffer_length / 2` per call and never decreases, so
//! successive calls cover contiguous, non-overlapping, strictly increasing
//! frame ranges; any gap or repeat would corrupt the audible timeline for
//! good.  The device layer around this crate owns the GPU objects; it
//! executes a [`RenderPlan`] verbatim.

use vstd::prelude::*;

verus! {

/// The four bytes of `x` in little-endian order.
pub open spec fn spec_le4(x: u32) -> Seq<u8> {
    seq![
        (x % 0x100) as u8,
        ((x / 0x100) % 0x100) as u8,
        ((x / 0x10000) % 0x100) as u8,
        ((x / 0x1000000) % 0x100) as u8,
    ]
}

/// Little-endian encoding of one `u32`, the unit of every uniform record the
/// compute program reads.
pub fn le_bytes_u32(x: u32) -> (r: Vec<u8>)
    ensures
        r@ == spec_le4(x),
{
    let mut r: Vec<u8> = Vec::new();
    r.push((x % 0x100) as u8);
    r.push(((x / 0x100) % 0x100) as u8);
    r.push(((x / 0x10000) % 0x100) as u8);
    r.push(((x / 0x1000000) % 0x100) as u8);
    proof {
        assert(r@ =~= spec_le4(x));
    }
    r
}

/// The per-asset uniform record, bit-exact: `(asset_sample_rate,
/// channel_count)` as two little-endian `u32` values.
pub fn asset_info_bytes(sample_rate: u32, channels: u16) -> (r: Vec<u8>)
    ensures
        r@ == spec_le4(sample_rate) + spec_le4(channels as u32),
{
    let mut r = le_bytes_u32(sample_rate);
    let mut tail = le_bytes_u32(channels as u32);
    r.append(&mut tail);
    r
}

/// Total frames covered by a sequence of render calls with these buffer
/// lengths: each call of length `b` renders `b / 2` stereo frames.
pub open spec fn frames_rendered(lens: Seq<u32>) -> int
    decreases lens.len(),
{
    if lens.len() == 0 {
        0
    } else {
        frames_rendered(lens.drop_last()) + lens.last() / 2
    }
}

/// Everything about one batch dispatch that is fixed before the GPU runs:
/// the frame the batch starts at, the device-info uniform bytes, the
/// invocation count, and the byte size of the output and staging buffers.
pub struct RenderPlan {
    /// Cursor value this batch renders from; invocation `i` covers frame
    /// `base_frame + i`.
    pub base_frame: u32,
    /// The device-info uniform, bit-exact: `(sample_rate, base_frame)` as two
    /// little-endian `u32` values.
    pub device_info: Vec<u8>,
    /// Parallel invocations to dispatch: one per stereo frame.
    pub workgroups: u32,
    /// Bytes of GPU output storage and of its host-readable staging copy:
    /// four per rendered float.
    pub output_bytes: u64,
}

/// The monotonic cursor into the synthesis timeline, owned exclusively by
/// the render director. It also carries the ghost history of every batch
/// length it was advanced by, which ties each exec cursor position to the
/// frame ranges already handed out.
pub struct FrameCursor {
    base_frame: u32,
    lengths: Ghost<Seq<u32>>,
}

impl FrameCursor {
    /// The next frame to be rendered.
    pub closed spec fn position(&self) -> int {
        self.base_frame as int
    }

    /// Buffer lengths of the render calls planned so far, oldest first.
    pub closed spec fn history(&self) -> Seq<u32> {
        self.lengths@
    }

    /// The cursor is exactly the frame count of its history: no frame was
    /// skipped and none was rendered twice.
    pub open spec fn wf(&self) -> bool {
        self.position() == frames_rendered(self.history())
    }

    /// A cursor at the start of the timeline.
    pub fn new() -> (r: Self)
        ensures
            r.position() == 0,
            r.history() == Seq::<u32>::empty(),
            r.wf(),
    {
        FrameCursor { base_frame: 0, lengths: Ghost(Seq::empty()) }
    }

    /// Current position, as the device-info uniform carries it.
    pub fn base_frame(&self) -> (r: u32)
        ensures
            r == self.position(),
    {
        self.base_frame
    }

    /// Plan one batch of `buffer_length` interleaved floats at `sample_rate`
    /// and advance the cursor past it. `buffer_length` is an even count; the
    /// cursor must not outgrow the `u32` the device-info record carries.
    pub fn begin_render(&mut self, sample_rate: u32, buffer_length: u32) -> (plan: RenderPlan)
        requires
            old(self).wf(),
            buffer_length % 2 == 0,
            old(self).position() + buffer_length / 2 <= u32::MAX,
        ensures
            final(self).wf(),
            plan.base_frame == old(self).position(),
            plan.device_info@ == spec_le4(sample_rate) + spec_le4(plan.base_frame),
            plan.workgroups == buffer_length / 2,
            plan.output_bytes == 4 * buffer_length,
            final(self).position() == old(self).position() + buffer_length / 2,
            final(self).history() == old(self).history().push(buffer_length),
    {
        let base_frame = self.base_frame;
        let mut device_info = le_bytes_u32(sample_rate);
        let mut frame_bytes = le_bytes_u32(base_frame);
        device_info.append(&mut frame_bytes);
        self.base_frame = self.base_frame + buffer_length / 2;
        proof {
            let pushed = self.lengths@.push(buffer_length);
            assert(pushed.drop_last() =~= self.lengths@);
            self.lengths@ = pushed;
        }
        RenderPlan {
            base_frame,
            device_info,
            workgroups: buffer_length / 2,
            output_bytes: 4 * buffer_length as u64,
        }
    }
}

/// Law (frame contiguity): for any sequence of render calls with buffer
/// lengths `lens`, call `k` covers the frame range
/// `[frames_rendered(lens.take(k)), frames_rendered(lens.take(k + 1)))`;
/// the ranges start at zero, tile the timeline with no gap and no overlap,
/// and their base offsets strictly increase whenever a call renders at
/// least one frame.
pub proof fn lemma_frame_contiguity(lens: Seq<u32>, k: int)
    requires
        0 <= k < lens.len(),
    ensures
        frames_rendered(lens.take(k + 1)) == frames_rendered(lens.take(k)) + lens[k] / 2,
        frames_rendered(lens.take(0)) == 0,
        frames_rendered(lens.take(k)) >= 0,
        lens[k] >= 2 ==> frames_rendered(lens.take(k + 1)) > frames_rendered(lens.take(k)),
{
    assert(lens.take(0) =~= Seq::<u32>::empty());
    assert(lens.take(k + 1).drop_last() =~= lens.take(k));
    assert(lens.take(k + 1).last() == lens[k]);
    lemma_frames_rendered_nonneg(lens.take(k));
}

/// Frame counts never go negative: the cursor never decreases.
pub proof fn lemma_frames_rendered_nonneg(lens: Seq<u32>)
    ensures
        frames_rendered(lens) >= 0,
    decreases lens.len(),
{
    if lens.len() > 0 {
        lemma_frames_rendered_nonneg(lens.drop_last());
    }
}

/// Law (no overlap): an earlier render call's range ends at or before a
/// later call's range begins — the cursor position after `j` calls never
/// exceeds the position after `k >= j` calls.
pub proof fn lemma_frame_ranges_ordered(lens: Seq<u32>, j: int, k: int)
    requires
        0 <= j <= k <= lens.len(),
    ensures
        frames_rendered(lens.take(j)) <= frames_rendered(lens.take(k)),
    decreases k - j,
{
    if j < k {
        lemma_frame_contiguity(lens, k - 1);
        lemma_frame_ranges_ordered(lens, j, k - 1);
    }
}

/// Round `num / den` to the nearest integer, halves away from zero: the
/// resampled frame count an asset contributes to one batch.
pub open spec fn spec_round_div(num: int, den: int) -> int {
    (2 * num + den) / (2 * den)
}

/// Frames pulled from an asset for one batch of `half_len` device frames:
/// `half_len` resampled to the asset's own rate,
/// `round(half_len * asset_rate / device_rate)`.
pub fn asset_pull_frames(half_len: u32, asset_rate: u32, device_rate: u32) -> (r: u64)
    requires
        device_rate > 0,
    ensures
        r == spec_round_div(half_len * asset_rate, device_rate as int),
{
    proof {
        lemma_round_div_fits(half_len as int, asset_rate as int, device_rate as int);
    }
    let prod: u128 = (half_len as u128) * (asset_rate as u128);
    let num: u128 = 2 * prod + (device_rate as u128);
    let den: u128 = 2 * (device_rate as u128);
    let q = num / den;
    q as u64
}

/// The rounded resampled frame count fits in 64 bits for any 32-bit rates
/// and batch size.
proof fn lemma_round_div_fits(half_len: int, asset_rate: int, device_rate: int)
    requires
        0 <= half_len <= u32::MAX,
        0 <= asset_rate <= u32::MAX,
        1 <= device_rate <= u32::MAX,
    ensures
        0 <= half_len * asset_rate <= u32::MAX * u32::MAX,
        0 <= (2 * (half_len * asset_rate) + device_rate) / (2 * device_rate) <= u64::MAX,
{
    vstd::arithmetic::mul::lemma_mul_upper_bound(half_len, u32::MAX as int, asset_rate, u32::MAX as int);
    vstd::arithmetic::mul::lemma_mul_nonnegative(half_len, asset_rate);
    let num = 2 * (half_len * asset_rate) + device_rate;
    vstd::arithmetic::div_mod::lemma_div_is_ordered_by_denominator(num, 2, 2 * device_rate);
    vstd::arithmetic::div_mod::lemma_div_pos_is_pos(num, 2 * device_rate);
    vstd::arithmetic::div_mod::lemma_div_is_ordered(
        num,
        2 * (u32::MAX * u32::MAX) + u32::MAX,
        2,
    );
}

/// Buffer length for a single non-real-time batch render of
/// `duration_millis` at `sample_rate`: two interleaved floats per frame.
pub fn batch_buffer_length(sample_rate: u32, duration_millis: u64) -> (r: u64)
    requires
        sample_rate * duration_millis <= u64::MAX,
    ensures
        r == 2 * ((sample_rate * duration_millis) / 1000),
{
    2 * ((sample_rate as u64 * duration_millis) / 1000)
}

} // verus!
