//! The audio asset streamer: turns one WAV file's bytes into a sliding,
//! normalized sample stream with an aligned short-time spectral view.
//!
//! `reserve` decodes further raw samples from the source into the decode
//! FIFO; once the source is exhausted it appends silence indefinitely, so an
//! asset is an infinite zero-padded tail and end-of-file is never an error.
//! A forward Fourier transform over each full analysis window (one tenth of
//! a second per channel) keeps the spectral buffer aligned, one bin per
//! frame, with the decode buffer's front; the transform itself is floating
//! point work done outside this crate, so the streamer says exactly which
//! channel-combined window feeds it and takes the bins back whole windows at
//! a time.  `next_buffer` removes decoded frames and their aligned bins from
//! the front, zero-filling bins the analysis has not reached.

use vstd::prelude::*;
use crate::wav::{
    spec_parse_header, spec_word_at, parse_header, decode_sample, WavHeader, WavSpec, WavError,
};

verus! {

/// One spectral bin `(re, im)`, both IEEE-754 bit patterns computed by the
/// outside transform.
#[derive(Clone, Copy, PartialEq, Eq, Structural, Debug)]
pub struct SpectralBin {
    pub re: u32,
    pub im: u32,
}

/// One texture point handed to the compute program: the stereo pair of a
/// frame and its spectral bin, four words as the per-asset storage buffer
/// carries them.
#[derive(Clone, Copy, PartialEq, Eq, Structural, Debug)]
pub struct TexturePoint {
    pub left: u32,
    pub right: u32,
    pub re: u32,
    pub im: u32,
}

/// What `len` more decoded samples look like when `read_pos` samples were
/// already taken from the source: the next source words while they last,
/// silence after.
pub open spec fn spec_reserve_tail(b: Seq<u8>, h: WavHeader, read_pos: int, len: int) -> Seq<u32> {
    Seq::new(
        len as nat,
        |j: int|
            if read_pos + j < h.num_samples {
                spec_word_at(b, h, read_pos + j)
            } else {
                0u32
            },
    )
}

/// A streaming view of one WAV asset.  Beside the live buffers it carries
/// the ghost history of every sample word already handed out at the front,
/// which ties any sequence of pulls to one straight decode of the source.
pub struct WavTextureMaker {
    bytes: Vec<u8>,
    header: WavHeader,
    read_pos: usize,
    buffer: Vec<u32>,
    spectral: Vec<SpectralBin>,
    handed: Ghost<Seq<u32>>,
}

impl WavTextureMaker {
    /// The parsed header of the source file.
    pub closed spec fn spec_header(&self) -> WavHeader {
        self.header
    }

    /// The source bytes.
    pub closed spec fn spec_bytes(&self) -> Seq<u8> {
        self.bytes@
    }

    /// Samples decoded from the source so far.
    pub closed spec fn spec_read_pos(&self) -> int {
        self.read_pos as int
    }

    /// The decode FIFO: normalized-sample words not yet handed out.
    pub closed spec fn spec_buffer(&self) -> Seq<u32> {
        self.buffer@
    }

    /// The spectral FIFO, aligned with the decode buffer's front: bin `j`
    /// belongs to frame `j` of the queued samples.
    pub closed spec fn spec_spectral(&self) -> Seq<SpectralBin> {
        self.spectral@
    }

    /// Every sample word removed from the decode buffer's front so far, in
    /// order.
    pub closed spec fn spec_handed(&self) -> Seq<u32> {
        self.handed@
    }

    /// Samples that ever entered the decode buffer: handed out plus queued.
    pub open spec fn spec_total(&self) -> int {
        self.spec_handed().len() as int + self.spec_buffer().len() as int
    }

    /// Samples per channel of one analysis window: a tenth of a second.
    pub open spec fn spec_window_len(&self) -> int {
        self.spec_header().spec.sample_rate as int / 10
    }

    /// The streamer's invariant: the header is what the bytes parse to, the
    /// asset is mono or stereo, the source position counts exactly the
    /// samples that ever entered the buffer (capped at the source's end),
    /// everything handed out or queued is the source's zero-padded decode
    /// stream in order, and the spectral view never outruns the queued
    /// frames — `len(spectral) <= floor(len(buffer) / channels)`.
    pub open spec fn wf(&self) -> bool {
        &&& spec_parse_header(self.spec_bytes()) == Ok::<WavHeader, WavError>(self.spec_header())
        &&& (self.spec_header().spec.channels == 1 || self.spec_header().spec.channels == 2)
        &&& self.spec_read_pos() == if self.spec_total() <= self.spec_header().num_samples {
            self.spec_total()
        } else {
            self.spec_header().num_samples as int
        }
        &&& self.spec_handed() + self.spec_buffer() == spec_reserve_tail(
            self.spec_bytes(),
            self.spec_header(),
            0,
            self.spec_total(),
        )
        &&& self.spec_spectral().len() <= self.spec_buffer().len() as int / (
        self.spec_header().spec.channels as int)
    }

    /// Open an asset from its file bytes. The header must parse and the
    /// channel count must be 1 or 2; buffers start empty at the source's
    /// beginning.
    pub fn try_new(bytes: Vec<u8>) -> (r: Result<Self, WavError>)
        ensures
            match spec_parse_header(bytes@) {
                Err(e) => r == Err::<WavTextureMaker, WavError>(e),
                Ok(h) => {
                    if h.spec.channels == 1 || h.spec.channels == 2 {
                        &&& r matches Ok(m)
                        &&& m.spec_header() == h
                        &&& m.spec_bytes() == bytes@
                        &&& m.spec_read_pos() == 0
                        &&& m.spec_buffer() == Seq::<u32>::empty()
                        &&& m.spec_spectral() == Seq::<SpectralBin>::empty()
                        &&& m.spec_handed() == Seq::<u32>::empty()
                        &&& m.wf()
                    } else {
                        r == Err::<WavTextureMaker, WavError>(WavError::UnsupportedChannels)
                    }
                },
            },
    {
        match parse_header(&bytes) {
            Err(e) => Err(e),
            Ok(header) => {
                if header.spec.channels == 1 || header.spec.channels == 2 {
                    let maker = WavTextureMaker {
                        bytes,
                        header,
                        read_pos: 0,
                        buffer: Vec::new(),
                        spectral: Vec::new(),
                        handed: Ghost(Seq::empty()),
                    };
                    proof {
                        assert(maker.spec_handed() + maker.spec_buffer() =~= spec_reserve_tail(
                            maker.spec_bytes(),
                            maker.spec_header(),
                            0,
                            0,
                        ));
                    }
                    Ok(maker)
                } else {
                    Err(WavError::UnsupportedChannels)
                }
            },
        }
    }

    /// The asset's spec, as its header states it.
    pub fn spec(&self) -> (r: WavSpec)
        ensures
            r == self.spec_header().spec,
    {
        self.header.spec
    }

    /// Queued samples not yet handed out.
    pub fn buffer_len(&self) -> (r: usize)
        ensures
            r == self.spec_buffer().len(),
    {
        self.buffer.len()
    }

    /// Decode up to `len` more raw samples from the source and append them
    /// to the decode buffer; once the source is exhausted, append silence
    /// instead, so exactly `len` samples always arrive.
    #[verifier::loop_isolation(false)]
    pub fn reserve(&mut self, len: usize)
        requires
            old(self).wf(),
            old(self).spec_buffer().len() + len <= usize::MAX,
        ensures
            final(self).wf(),
            final(self).spec_header() == old(self).spec_header(),
            final(self).spec_bytes() == old(self).spec_bytes(),
            final(self).spec_spectral() == old(self).spec_spectral(),
            final(self).spec_handed() == old(self).spec_handed(),
            final(self).spec_buffer() == old(self).spec_buffer() + spec_reserve_tail(
                old(self).spec_bytes(),
                old(self).spec_header(),
                old(self).spec_read_pos(),
                len as int,
            ),
            final(self).spec_read_pos() == if old(self).spec_read_pos() + len
                <= old(self).spec_header().num_samples {
                old(self).spec_read_pos() + len
            } else {
                old(self).spec_header().num_samples as int
            },
    {
        let ghost tail = spec_reserve_tail(
            old(self).spec_bytes(),
            old(self).spec_header(),
            old(self).spec_read_pos(),
            len as int,
        );
        let mut j: usize = 0;
        while j < len
            invariant
                old(self).wf(),
                j <= len,
                old(self).spec_buffer().len() + len <= usize::MAX,
                self.header == old(self).spec_header(),
                self.bytes@ == old(self).spec_bytes(),
                self.spectral@ == old(self).spec_spectral(),
                self.handed@ == old(self).spec_handed(),
                self.read_pos as int == if old(self).spec_read_pos() + j
                    <= old(self).spec_header().num_samples {
                    old(self).spec_read_pos() + j
                } else {
                    old(self).spec_header().num_samples as int
                },
                self.buffer@ == old(self).spec_buffer() + tail.take(j as int),
            decreases len - j,
        {
            if self.read_pos < self.header.num_samples {
                proof {
                    assert(self.read_pos as int == old(self).spec_read_pos() + j);
                }
                let w = decode_sample(&self.bytes, &self.header, self.read_pos);
                proof {
                    assert(tail[j as int] == w);
                }
                self.buffer.push(w);
                self.read_pos = self.read_pos + 1;
            } else {
                proof {
                    assert(tail[j as int] == 0u32);
                }
                self.buffer.push(0u32);
            }
            j = j + 1;
            proof {
                assert(self.buffer@ =~= old(self).spec_buffer() + tail.take(j as int));
            }
        }
        proof {
            assert(tail.take(len as int) =~= tail);
            vstd::arithmetic::div_mod::lemma_div_is_ordered(
                old(self).spec_buffer().len() as int,
                self.buffer@.len() as int,
                old(self).spec_header().spec.channels as int,
            );
            let b = self.spec_bytes();
            let h = self.spec_header();
            let t0 = old(self).spec_total();
            let lhs = self.spec_handed() + self.spec_buffer();
            let rhs = spec_reserve_tail(b, h, 0, t0 + len);
            let prior = spec_reserve_tail(b, h, 0, t0);
            assert forall|i: int| 0 <= i < t0 + len implies lhs[i] == rhs[i] by {
                if i < t0 {
                    assert(lhs[i] == (old(self).spec_handed() + old(self).spec_buffer())[i]);
                    assert((old(self).spec_handed() + old(self).spec_buffer())[i] == prior[i]);
                } else {
                    assert(lhs[i] == tail[i - t0]);
                }
            }
            assert(lhs =~= rhs);
        }
    }

    /// Samples per channel of one analysis window.
    pub fn window_len(&self) -> (r: usize)
        ensures
            r == self.spec_window_len(),
    {
        (self.header.spec.sample_rate / 10) as usize
    }

    /// How many channel-combined samples of spectral input are due: the
    /// queued frames the analysis has not covered yet, in whole windows,
    /// once at least one whole window is pending.
    pub open spec fn spec_spectral_due(&self) -> int {
        let unit = self.spec_window_len();
        let delta = self.spec_buffer().len() as int / (self.spec_header().spec.channels as int)
            - self.spec_spectral().len();
        if unit > 0 && delta >= unit {
            delta - delta % unit
        } else {
            0
        }
    }

    /// The channel-combined input of the frame `j` past the analysis
    /// boundary: a mono sample with a zero imaginary part, or a stereo frame
    /// as `(left, right)`.
    pub open spec fn spec_spectral_input_at(&self, j: int) -> SpectralBin {
        let f = self.spec_spectral().len() + j;
        if self.spec_header().spec.channels == 1 {
            SpectralBin { re: self.spec_buffer()[f], im: 0u32 }
        } else {
            SpectralBin { re: self.spec_buffer()[2 * f], im: self.spec_buffer()[2 * f + 1] }
        }
    }

    /// The due spectral input, ready for the outside forward transform:
    /// whole windows of channel-combined samples starting at the analysis
    /// boundary.
    #[verifier::loop_isolation(false)]
    pub fn spectral_input(&self) -> (r: Vec<SpectralBin>)
        requires
            self.wf(),
        ensures
            r@ == Seq::new(self.spec_spectral_due() as nat, |j: int| self.spec_spectral_input_at(j)),
    {
        let unit = self.window_len();
        let channels = self.header.spec.channels as usize;
        proof {
            lemma_frames_bound(self.spec_buffer().len() as int, channels as int);
        }
        let frames = self.buffer.len() / channels;
        let covered = self.spectral.len();
        let delta = frames - covered;
        let mut due: usize = 0;
        if unit > 0 && delta >= unit {
            proof {
                vstd::arithmetic::div_mod::lemma_mod_bound(delta as int, unit as int);
            }
            due = delta - delta % unit;
        }
        let mut r: Vec<SpectralBin> = Vec::new();
        let mut j: usize = 0;
        while j < due
            invariant
                self.wf(),
                j <= due,
                due == self.spec_spectral_due(),
                due + self.spec_spectral().len() <= self.spec_buffer().len() as int / (
                self.spec_header().spec.channels as int),
                r@ == Seq::new(j as nat, |i: int| self.spec_spectral_input_at(i)),
            decreases due - j,
        {
            proof {
                lemma_frames_bound(
                    self.spec_buffer().len() as int,
                    self.spec_header().spec.channels as int,
                );
            }
            let f = self.spectral.len() + j;
            if self.header.spec.channels == 1 {
                r.push(SpectralBin { re: self.buffer[f], im: 0u32 });
            } else {
                proof {
                    let half = self.spec_buffer().len() as int / 2;
                    assert(self.spec_header().spec.channels == 2);
                    assert(f + 1 <= half);
                    assert(2 * (f + 1) <= 2 * half) by (nonlinear_arith)
                        requires
                            f + 1 <= half,
                    ;
                }
                r.push(SpectralBin { re: self.buffer[2 * f], im: self.buffer[2 * f + 1] });
            }
            j = j + 1;
            proof {
                assert(r@ =~= Seq::new(j as nat, |i: int| self.spec_spectral_input_at(i)));
            }
        }
        r
    }

    /// The decode buffer as `next_buffer` sees it after its implicit
    /// `reserve`: topped up with source samples and then silence to at least
    /// `need` queued samples.
    pub open spec fn spec_topped_up(&self, need: int) -> Seq<u32> {
        if self.spec_buffer().len() >= need {
            self.spec_buffer()
        } else {
            self.spec_buffer() + spec_reserve_tail(
                self.spec_bytes(),
                self.spec_header(),
                self.spec_read_pos(),
                need - self.spec_buffer().len(),
            )
        }
    }

    /// The spectral bin handed out with outgoing frame `j`: the aligned bin
    /// while the analysis has one, a silent bin past its frontier.
    pub open spec fn spec_out_bin(&self, j: int) -> SpectralBin {
        if j < self.spec_spectral().len() {
            self.spec_spectral()[j]
        } else {
            SpectralBin { re: 0u32, im: 0u32 }
        }
    }

    /// Texture point `j` of a `next_buffer(len)` call: frame `j` of the
    /// topped-up decode buffer (a mono sample fills only the left slot,
    /// stereo fills both) together with its spectral bin.
    pub open spec fn spec_out_point(&self, len: int, j: int) -> TexturePoint {
        let ext = self.spec_topped_up(len * (self.spec_header().spec.channels as int));
        let bin = self.spec_out_bin(j);
        if self.spec_header().spec.channels == 1 {
            TexturePoint { left: ext[j], right: 0u32, re: bin.re, im: bin.im }
        } else {
            TexturePoint { left: ext[2 * j], right: ext[2 * j + 1], re: bin.re, im: bin.im }
        }
    }

    /// Remove and return the first `len` frames as texture points, each with
    /// its aligned spectral bin where the analysis has one and a silent bin
    /// where not; reserves first whenever fewer than `len` frames are queued,
    /// so the result is always whole — a shortfall of source samples becomes
    /// a zero-padded tail, never an error.
    #[verifier::loop_isolation(false)]
    pub fn next_buffer(&mut self, len: usize) -> (r: Vec<TexturePoint>)
        requires
            old(self).wf(),
            2 * len <= usize::MAX,
        ensures
            final(self).wf(),
            final(self).spec_header() == old(self).spec_header(),
            final(self).spec_bytes() == old(self).spec_bytes(),
            r@ == Seq::new(len as nat, |j: int| old(self).spec_out_point(len as int, j)),
            final(self).spec_buffer() == old(self).spec_topped_up(
                len * (old(self).spec_header().spec.channels as int),
            ).skip(len * (old(self).spec_header().spec.channels as int)),
            final(self).spec_handed() == old(self).spec_handed() + old(self).spec_topped_up(
                len * (old(self).spec_header().spec.channels as int),
            ).take(len * (old(self).spec_header().spec.channels as int)),
            final(self).spec_spectral() == old(self).spec_spectral().skip(
                if len <= old(self).spec_spectral().len() {
                    len as int
                } else {
                    old(self).spec_spectral().len() as int
                },
            ),
    {
        let channels = if self.header.spec.channels == 2 {
            2usize
        } else {
            1usize
        };
        let need = len * channels;
        proof {
            assert(need == len * (old(self).spec_header().spec.channels as int));
        }
        let blen = self.buffer.len();
        if blen < need {
            self.reserve(need - blen);
        }
        proof {
            assert(self.spec_buffer() =~= old(self).spec_topped_up(need as int));
        }
        let ghost ext = old(self).spec_topped_up(need as int);
        let mut front = self.buffer.split_off(need);
        core::mem::swap(&mut self.buffer, &mut front);
        proof {
            self.handed@ = self.handed@ + front@;
            assert(ext.take(need as int) =~= front@);
            assert(self.spec_handed() + self.spec_buffer() =~= old(self).spec_handed() + ext);
        }
        let sp_len = self.spectral.len();
        let take = if len < sp_len {
            len
        } else {
            sp_len
        };
        let mut sp_front = self.spectral.split_off(take);
        core::mem::swap(&mut self.spectral, &mut sp_front);
        let mut r: Vec<TexturePoint> = Vec::new();
        let mut j: usize = 0;
        while j < len
            invariant
                j <= len,
                r@ == Seq::new(j as nat, |i: int| old(self).spec_out_point(len as int, i)),
            decreases len - j,
        {
            let bin = if j < take {
                sp_front[j]
            } else {
                SpectralBin { re: 0u32, im: 0u32 }
            };
            if channels == 1 {
                r.push(TexturePoint { left: front[j], right: 0u32, re: bin.re, im: bin.im });
            } else {
                r.push(
                    TexturePoint {
                        left: front[2 * j],
                        right: front[2 * j + 1],
                        re: bin.re,
                        im: bin.im,
                    },
                );
            }
            j = j + 1;
            proof {
                assert(r@ =~= Seq::new(j as nat, |i: int| old(self).spec_out_point(len as int, i)));
            }
        }
        proof {
            let c = self.spec_header().spec.channels as int;
            assert(ext.len() == self.spec_buffer().len() + (len as int) * c);
            vstd::arithmetic::div_mod::lemma_hoist_over_denominator(
                self.spec_buffer().len() as int,
                len as int,
                c as nat,
            );
            vstd::arithmetic::div_mod::lemma_div_is_ordered(
                old(self).spec_buffer().len() as int,
                ext.len() as int,
                c,
            );
            lemma_frames_bound(self.spec_buffer().len() as int, c);
        }
        r
    }

    /// Take back the transformed bins and append them to the spectral view:
    /// whole windows only, and never past the queued frames.
    pub fn push_spectral(&mut self, bins: Vec<SpectralBin>)
        requires
            old(self).wf(),
            old(self).spec_spectral().len() + bins@.len() <= old(self).spec_buffer().len() as int / (
            old(self).spec_header().spec.channels as int),
            bins@.len() == 0 || (old(self).spec_window_len() > 0 && bins@.len() as int % old(
                self,
            ).spec_window_len() == 0),
        ensures
            final(self).wf(),
            final(self).spec_header() == old(self).spec_header(),
            final(self).spec_bytes() == old(self).spec_bytes(),
            final(self).spec_buffer() == old(self).spec_buffer(),
            final(self).spec_read_pos() == old(self).spec_read_pos(),
            final(self).spec_handed() == old(self).spec_handed(),
            final(self).spec_spectral() == old(self).spec_spectral() + bins@,
    {
        let mut bins = bins;
        self.spectral.append(&mut bins);
    }
}

/// Law (decode equivalence across calls): however the render director splits
/// its pulls, the samples a streamer has handed out are, in order, exactly
/// the source's decoded words from position zero, silence past the source's
/// end — the streamed decode equals one straight decode of the file.
pub proof fn lemma_handed_is_source_prefix(m: &WavTextureMaker)
    requires
        m.wf(),
    ensures
        m.spec_handed() == spec_reserve_tail(
            m.spec_bytes(),
            m.spec_header(),
            0,
            m.spec_handed().len() as int,
        ),
{
    let whole = spec_reserve_tail(m.spec_bytes(), m.spec_header(), 0, m.spec_total());
    let prefix = spec_reserve_tail(m.spec_bytes(), m.spec_header(), 0, m.spec_handed().len() as int);
    assert forall|i: int| 0 <= i < m.spec_handed().len() implies m.spec_handed()[i] == prefix[i] by {
        assert(m.spec_handed()[i] == (m.spec_handed() + m.spec_buffer())[i]);
        assert((m.spec_handed() + m.spec_buffer())[i] == whole[i]);
    }
    assert(m.spec_handed() =~= prefix);
}

/// For the mono and stereo channel counts, the frame count `b / c` stays
/// within the sample count `b`, and whole frames fit: `c * (b / c) <= b`.
proof fn lemma_frames_bound(b: int, c: int)
    requires
        b >= 0,
        c == 1 || c == 2,
    ensures
        0 <= b / c,
        c * (b / c) <= b,
        b / c <= b,
{
    vstd::arithmetic::div_mod::lemma_fundamental_div_mod(b, c);
    vstd::arithmetic::div_mod::lemma_mod_bound(b, c);
    if c == 1 {
        assert(c * (b / c) == b / c);
    } else {
        assert(c * (b / c) == 2 * (b / 2));
    }
}

/// How many samples the per-asset refill loop queues when it wakes and finds
/// `queued` samples: below two seconds' worth it tops the asset up to three
/// seconds (`unit_len` is one second of samples); otherwise nothing.
pub fn asset_refill_len(queued: usize, unit_len: usize) -> (r: usize)
    requires
        3 * unit_len <= usize::MAX,
    ensures
        r == if queued < 2 * unit_len {
            3 * unit_len - queued
        } else {
            0int
        },
{
    if queued < 2 * unit_len {
        3 * unit_len - queued
    } else {
        0
    }
}

} // verus!
