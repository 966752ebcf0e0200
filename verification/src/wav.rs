//! WAV container parsing, specified to the byte.
//!
//! An asset arrives as the raw bytes of a RIFF/WAVE file: a `RIFF` header,
//! then chunks, of which `fmt ` (which must come first) fixes the sample
//! encoding and `data` carries the samples.  Supported encodings are integer
//! PCM in 1-, 2-, 3- and 4-byte containers (8, 16, 24 and 32 significant
//! bits, plus 24-bit samples in 4-byte containers) and 32-bit IEEE float.
//!
//! A decoded sample is a `u32` word: for integer PCM the sign-extended
//! two's-complement sample value, for float the IEEE-754 bit pattern.  The
//! fixed normalization contract for integer PCM is division by
//! `2^(bits_per_sample - 1)`, applied by whoever turns a word into an
//! amplitude; the words themselves carry the undivided values, so every step
//! up to that division is exact.

use vstd::prelude::*;

verus! {

/// Whether samples are integer PCM or IEEE float.
#[derive(Clone, Copy, PartialEq, Eq, Structural, Debug)]
pub enum SampleFormat {
    Int,
    Float,
}

/// The decoding-relevant facts of a WAV file, as its `fmt ` chunk states
/// them.
#[derive(Clone, Copy, PartialEq, Eq, Structural, Debug)]
pub struct WavSpec {
    /// Interleaved channels per frame.
    pub channels: u16,
    /// Frames per second.
    pub sample_rate: u32,
    /// Significant bits per sample; the integer normalization divisor is
    /// `2^(bits_per_sample - 1)`.
    pub bits_per_sample: u16,
    /// Integer PCM or IEEE float.
    pub sample_format: SampleFormat,
}

/// Why a byte sequence is not a supported WAV file.
#[derive(Clone, Copy, PartialEq, Eq, Structural, Debug)]
pub enum WavError {
    /// No `RIFF`/`WAVE` header.
    NotRiff,
    /// A chunk runs past the end of the bytes, or no `data` chunk comes.
    MissingData,
    /// A `data` chunk comes before any `fmt ` chunk.
    MissingFmt,
    /// The `fmt ` chunk contradicts itself.
    BadFmt,
    /// The format, or its bit depth and container size, is not one this
    /// decoder supports.
    UnsupportedFormat,
    /// The `data` chunk length is not whole frames of whole samples.
    BadDataLen,
    /// The file is sound but has more channels than the mono and stereo
    /// assets this system supports: an explicitly rejected configuration.
    UnsupportedChannels,
}

/// The two bytes at `i`, little-endian.
pub open spec fn spec_le16(b: Seq<u8>, i: int) -> int {
    b[i] + 0x100 * b[i + 1]
}

/// The four bytes at `i`, little-endian.
pub open spec fn spec_le32(b: Seq<u8>, i: int) -> int {
    b[i] + 0x100 * b[i + 1] + 0x10000 * b[i + 2] + 0x1000000 * b[i + 3]
}

/// The bytes start `RIFF....WAVE`.
pub open spec fn spec_is_riff(b: Seq<u8>) -> bool {
    &&& b.len() >= 12
    &&& b[0] == 0x52 && b[1] == 0x49 && b[2] == 0x46 && b[3] == 0x46
    &&& b[8] == 0x57 && b[9] == 0x41 && b[10] == 0x56 && b[11] == 0x45
}

/// The chunk at `i` is tagged `fmt `.
pub open spec fn spec_is_fmt_tag(b: Seq<u8>, i: int) -> bool {
    b[i] == 0x66 && b[i + 1] == 0x6d && b[i + 2] == 0x74 && b[i + 3] == 0x20
}

/// The chunk at `i` is tagged `data`.
pub open spec fn spec_is_data_tag(b: Seq<u8>, i: int) -> bool {
    b[i] == 0x64 && b[i + 1] == 0x61 && b[i + 2] == 0x74 && b[i + 3] == 0x61
}

/// Offsets and lengths of the `fmt ` and `data` chunk bodies.
pub struct ChunkLoc {
    pub fmt_off: int,
    pub fmt_len: int,
    pub data_off: int,
    pub data_len: int,
}

/// Walk the chunks from `pos`: remember the last `fmt ` body seen, stop at
/// the first `data` chunk (which must follow a `fmt `), skip everything
/// else.  Every chunk, `data` included, must lie whole within the bytes.
pub open spec fn spec_find_chunks(b: Seq<u8>, pos: int, fmt: Option<(int, int)>) -> Result<
    ChunkLoc,
    WavError,
>
    decreases b.len() - pos,
{
    if pos < 0 || pos + 8 > b.len() {
        Err(WavError::MissingData)
    } else {
        let len = spec_le32(b, pos + 4);
        if pos + 8 + len > b.len() {
            Err(WavError::MissingData)
        } else if spec_is_data_tag(b, pos) {
            match fmt {
                Some((fmt_off, fmt_len)) => Ok(
                    ChunkLoc { fmt_off, fmt_len, data_off: pos + 8, data_len: len },
                ),
                None => Err(WavError::MissingFmt),
            }
        } else if spec_is_fmt_tag(b, pos) {
            spec_find_chunks(b, pos + 8 + len, Some((pos + 8, len)))
        } else {
            spec_find_chunks(b, pos + 8 + len, fmt)
        }
    }
}

/// The 16 bytes at `off` are the PCM subformat identifier of an extensible
/// header.
pub open spec fn spec_guid_pcm(b: Seq<u8>, off: int) -> bool {
    &&& b[off] == 0x01 && b[off + 1] == 0x00 && b[off + 2] == 0x00 && b[off + 3] == 0x00
    &&& b[off + 4] == 0x00 && b[off + 5] == 0x00 && b[off + 6] == 0x10 && b[off + 7] == 0x00
    &&& b[off + 8] == 0x80 && b[off + 9] == 0x00 && b[off + 10] == 0x00 && b[off + 11] == 0xaa
    &&& b[off + 12] == 0x00 && b[off + 13] == 0x38 && b[off + 14] == 0x9b && b[off + 15] == 0x71
}

/// The 16 bytes at `off` are the IEEE-float subformat identifier of an
/// extensible header.
pub open spec fn spec_guid_float(b: Seq<u8>, off: int) -> bool {
    &&& b[off] == 0x03 && b[off + 1] == 0x00 && b[off + 2] == 0x00 && b[off + 3] == 0x00
    &&& b[off + 4] == 0x00 && b[off + 5] == 0x00 && b[off + 6] == 0x10 && b[off + 7] == 0x00
    &&& b[off + 8] == 0x80 && b[off + 9] == 0x00 && b[off + 10] == 0x00 && b[off + 11] == 0xaa
    &&& b[off + 12] == 0x00 && b[off + 13] == 0x38 && b[off + 14] == 0x9b && b[off + 15] == 0x71
}

/// A container size and bit depth this decoder can turn into sample words.
pub open spec fn spec_combo_ok(bytes_per_sample: int, bits: int, fmt: SampleFormat) -> bool {
    match fmt {
        SampleFormat::Int => {
            ||| bytes_per_sample == 1 && bits == 8
            ||| bytes_per_sample == 2 && bits == 16
            ||| bytes_per_sample == 3 && bits == 24
            ||| bytes_per_sample == 4 && bits == 24
            ||| bytes_per_sample == 4 && bits == 32
        },
        SampleFormat::Float => bytes_per_sample == 4 && bits == 32,
    }
}

/// Read the `fmt ` chunk body at `off` of length `len`: the common fields,
/// then the format tag's own rules — plain PCM (tag 1), IEEE float (tag 3)
/// or the extensible form (tag 0xFFFE), whose subformat identifier and
/// valid-bits field override the common ones.  Yields the spec and the
/// container size in bytes.
pub open spec fn spec_parse_fmt(b: Seq<u8>, off: int, len: int) -> Result<
    (WavSpec, u16),
    WavError,
> {
    if len < 16 {
        Err(WavError::BadFmt)
    } else {
        let tag = spec_le16(b, off);
        let channels = spec_le16(b, off + 2);
        let sample_rate = spec_le32(b, off + 4);
        let byte_rate = spec_le32(b, off + 8);
        let block_align = spec_le16(b, off + 12);
        let bits = spec_le16(b, off + 14);
        if channels == 0 {
            Err(WavError::BadFmt)
        } else {
            let bytes_per_sample = block_align / channels;
            if bits > bytes_per_sample * 8 {
                Err(WavError::BadFmt)
            } else if byte_rate != block_align * sample_rate {
                Err(WavError::BadFmt)
            } else if bits % 8 != 0 || bits == 0 {
                Err(WavError::BadFmt)
            } else if tag == 1 {
                if len != 16 && len != 18 && len != 40 {
                    Err(WavError::BadFmt)
                } else if len != 16 && !(bits == 8 || bits == 16 || bits == 24) {
                    Err(WavError::BadFmt)
                } else if !spec_combo_ok(bytes_per_sample, bits, SampleFormat::Int) {
                    Err(WavError::UnsupportedFormat)
                } else {
                    Ok(
                        (
                            WavSpec {
                                channels: channels as u16,
                                sample_rate: sample_rate as u32,
                                bits_per_sample: bits as u16,
                                sample_format: SampleFormat::Int,
                            },
                            bytes_per_sample as u16,
                        ),
                    )
                }
            } else if tag == 3 {
                if len != 16 && len != 18 {
                    Err(WavError::BadFmt)
                } else if len == 18 && spec_le16(b, off + 16) != 0 {
                    Err(WavError::BadFmt)
                } else if bits != 32 {
                    Err(WavError::BadFmt)
                } else if !spec_combo_ok(bytes_per_sample, bits, SampleFormat::Float) {
                    Err(WavError::UnsupportedFormat)
                } else {
                    Ok(
                        (
                            WavSpec {
                                channels: channels as u16,
                                sample_rate: sample_rate as u32,
                                bits_per_sample: bits as u16,
                                sample_format: SampleFormat::Float,
                            },
                            bytes_per_sample as u16,
                        ),
                    )
                }
            } else if tag == 0xfffe {
                if len < 40 {
                    Err(WavError::BadFmt)
                } else if spec_le16(b, off + 16) != 22 {
                    Err(WavError::BadFmt)
                } else {
                    let valid_bits = spec_le16(b, off + 18);
                    let real_bits = if valid_bits > 0 {
                        valid_bits
                    } else {
                        bits
                    };
                    if spec_guid_pcm(b, off + 24) {
                        if !spec_combo_ok(bytes_per_sample, real_bits, SampleFormat::Int) {
                            Err(WavError::UnsupportedFormat)
                        } else {
                            Ok(
                                (
                                    WavSpec {
                                        channels: channels as u16,
                                        sample_rate: sample_rate as u32,
                                        bits_per_sample: real_bits as u16,
                                        sample_format: SampleFormat::Int,
                                    },
                                    bytes_per_sample as u16,
                                ),
                            )
                        }
                    } else if spec_guid_float(b, off + 24) {
                        if !spec_combo_ok(bytes_per_sample, real_bits, SampleFormat::Float) {
                            Err(WavError::UnsupportedFormat)
                        } else {
                            Ok(
                                (
                                    WavSpec {
                                        channels: channels as u16,
                                        sample_rate: sample_rate as u32,
                                        bits_per_sample: real_bits as u16,
                                        sample_format: SampleFormat::Float,
                                    },
                                    bytes_per_sample as u16,
                                ),
                            )
                        }
                    } else {
                        Err(WavError::UnsupportedFormat)
                    }
                }
            } else {
                Err(WavError::UnsupportedFormat)
            }
        }
    }
}

/// The parsed header of a supported WAV file: its spec, the sample container
/// size, and where its samples lie.
#[derive(Clone, Copy, PartialEq, Eq, Structural, Debug)]
pub struct WavHeader {
    pub spec: WavSpec,
    /// Bytes each sample occupies in the data chunk.
    pub bytes_per_sample: u16,
    /// First byte of sample data.
    pub data_off: usize,
    /// Samples in the data chunk, all channels together.
    pub num_samples: usize,
}

/// Parse a WAV file's header: the `RIFF`/`WAVE` magic, the chunk walk, the
/// `fmt ` chunk, and the `data` chunk's sample count, which must be whole
/// samples and whole frames.
pub open spec fn spec_parse_header(b: Seq<u8>) -> Result<WavHeader, WavError> {
    if !spec_is_riff(b) {
        Err(WavError::NotRiff)
    } else {
        match spec_find_chunks(b, 12, None) {
            Err(e) => Err(e),
            Ok(loc) => match spec_parse_fmt(b, loc.fmt_off, loc.fmt_len) {
                Err(e) => Err(e),
                Ok((spec, bytes_per_sample)) => {
                    let num_samples = loc.data_len / (bytes_per_sample as int);
                    if num_samples * (bytes_per_sample as int) != loc.data_len {
                        Err(WavError::BadDataLen)
                    } else if num_samples % (spec.channels as int) != 0 {
                        Err(WavError::BadDataLen)
                    } else {
                        Ok(
                            WavHeader {
                                spec,
                                bytes_per_sample,
                                data_off: loc.data_off as usize,
                                num_samples: num_samples as usize,
                            },
                        )
                    }
                },
            },
        }
    }
}

/// Sample `k` of the data chunk as a `u32` word: integer PCM sign-extended
/// to 32-bit two's complement (8-bit PCM is stored unsigned, offset by 128;
/// 24-bit samples in 4-byte containers take their sign from bit 23), float
/// as its bit pattern.
pub open spec fn spec_word_at(b: Seq<u8>, h: WavHeader, k: int) -> u32 {
    let off = h.data_off + k * (h.bytes_per_sample as int);
    if h.spec.sample_format == SampleFormat::Float {
        spec_le32(b, off) as u32
    } else if h.bytes_per_sample == 1 {
        let v = b[off] as int;
        if v >= 128 {
            (v - 128) as u32
        } else {
            (v + 0xffffff80) as u32
        }
    } else if h.bytes_per_sample == 2 {
        let raw = spec_le16(b, off);
        if raw < 0x8000 {
            raw as u32
        } else {
            (raw + 0xffff0000) as u32
        }
    } else if h.bytes_per_sample == 3 {
        let raw = b[off] + 0x100 * b[off + 1] + 0x10000 * b[off + 2];
        if raw < 0x800000 {
            raw as u32
        } else {
            (raw + 0xff000000) as u32
        }
    } else if h.spec.bits_per_sample == 24 {
        let low = spec_le32(b, off) % 0x1000000;
        if low < 0x800000 {
            low as u32
        } else {
            (low + 0xff000000) as u32
        }
    } else {
        spec_le32(b, off) as u32
    }
}

/// All sample words of the file, in order.
pub open spec fn spec_words(b: Seq<u8>, h: WavHeader) -> Seq<u32> {
    Seq::new(h.num_samples as nat, |k: int| spec_word_at(b, h, k))
}

/// A parsed header locates that many whole samples inside the bytes, in a
/// supported container.
pub proof fn lemma_header_bounds(b: Seq<u8>, h: WavHeader)
    requires
        b.len() <= usize::MAX,
        spec_parse_header(b) == Ok::<WavHeader, WavError>(h),
    ensures
        1 <= h.bytes_per_sample <= 4,
        h.data_off + h.num_samples * (h.bytes_per_sample as int) <= b.len(),
        h.spec.channels > 0,
        (h.num_samples as int) % (h.spec.channels as int) == 0,
        spec_combo_ok(h.bytes_per_sample as int, h.spec.bits_per_sample as int, h.spec.sample_format),
{
    let loc = spec_find_chunks(b, 12, None) ->Ok_0;
    lemma_find_chunks_bounds(b, 12, None);
    let bps = h.bytes_per_sample as int;
    let num = loc.data_len / bps;
    vstd::arithmetic::div_mod::lemma_div_pos_is_pos(loc.data_len, bps);
    assert(num <= num * bps) by (nonlinear_arith)
        requires
            num >= 0,
            bps >= 1,
    ;
    assert(h.num_samples == num);
    assert(h.num_samples * bps == loc.data_len);
}

/// Little-endian `u16` at `off`, widened.
fn read_le16(b: &Vec<u8>, off: usize) -> (r: u32)
    requires
        off + 2 <= b.len(),
    ensures
        r == spec_le16(b@, off as int),
        r <= 0xffff,
{
    b[off] as u32 + 0x100 * (b[off + 1] as u32)
}

/// Little-endian `u32` at `off`.
fn read_le32(b: &Vec<u8>, off: usize) -> (r: u32)
    requires
        off + 4 <= b.len(),
    ensures
        r == spec_le32(b@, off as int),
{
    b[off] as u32 + 0x100 * (b[off + 1] as u32) + 0x10000 * (b[off + 2] as u32) + 0x1000000 * (b[off
        + 3] as u32)
}

/// Does a supported decoder exist for this container size, bit depth and
/// format?
fn combo_ok(bytes_per_sample: u32, bits: u32, fmt: SampleFormat) -> (r: bool)
    ensures
        r == spec_combo_ok(bytes_per_sample as int, bits as int, fmt),
{
    match fmt {
        SampleFormat::Int => (bytes_per_sample == 1 && bits == 8) || (bytes_per_sample == 2 && bits
            == 16) || (bytes_per_sample == 3 && bits == 24) || (bytes_per_sample == 4 && bits == 24)
            || (bytes_per_sample == 4 && bits == 32),
        SampleFormat::Float => bytes_per_sample == 4 && bits == 32,
    }
}

/// The 16 bytes at `off` match the extensible subformat identifier whose
/// first byte is `first` (1 for PCM, 3 for IEEE float).
fn guid_matches(b: &Vec<u8>, off: usize, first: u8) -> (r: bool)
    requires
        off + 16 <= b.len(),
    ensures
        first == 1 ==> r == spec_guid_pcm(b@, off as int),
        first == 3 ==> r == spec_guid_float(b@, off as int),
{
    b[off] == first && b[off + 1] == 0x00 && b[off + 2] == 0x00 && b[off + 3] == 0x00 && b[off + 4]
        == 0x00 && b[off + 5] == 0x00 && b[off + 6] == 0x10 && b[off + 7] == 0x00 && b[off + 8]
        == 0x80 && b[off + 9] == 0x00 && b[off + 10] == 0x00 && b[off + 11] == 0xaa && b[off + 12]
        == 0x00 && b[off + 13] == 0x38 && b[off + 14] == 0x9b && b[off + 15] == 0x71
}

/// Parse a `fmt ` chunk body.
fn parse_fmt(b: &Vec<u8>, off: usize, len: usize) -> (r: Result<(WavSpec, u16), WavError>)
    requires
        off + len <= b.len(),
    ensures
        r == spec_parse_fmt(b@, off as int, len as int),
{
    if len < 16 {
        return Err(WavError::BadFmt);
    }
    let tag = read_le16(b, off);
    let channels = read_le16(b, off + 2);
    let sample_rate = read_le32(b, off + 4);
    let byte_rate = read_le32(b, off + 8);
    let block_align = read_le16(b, off + 12);
    let bits = read_le16(b, off + 14);
    if channels == 0 {
        return Err(WavError::BadFmt);
    }
    let bytes_per_sample = block_align / channels;
    if bits > bytes_per_sample * 8 {
        return Err(WavError::BadFmt);
    }
    proof {
        vstd::arithmetic::mul::lemma_mul_upper_bound(
            block_align as int,
            0xffff,
            sample_rate as int,
            u32::MAX as int,
        );
        vstd::arithmetic::mul::lemma_mul_nonnegative(block_align as int, sample_rate as int);
    }
    if (byte_rate as u64) != (block_align as u64) * (sample_rate as u64) {
        return Err(WavError::BadFmt);
    }
    if bits % 8 != 0 || bits == 0 {
        return Err(WavError::BadFmt);
    }
    if tag == 1 {
        if len != 16 && len != 18 && len != 40 {
            Err(WavError::BadFmt)
        } else if len != 16 && !(bits == 8 || bits == 16 || bits == 24) {
            Err(WavError::BadFmt)
        } else if !combo_ok(bytes_per_sample, bits, SampleFormat::Int) {
            Err(WavError::UnsupportedFormat)
        } else {
            Ok(
                (
                    WavSpec {
                        channels: channels as u16,
                        sample_rate,
                        bits_per_sample: bits as u16,
                        sample_format: SampleFormat::Int,
                    },
                    bytes_per_sample as u16,
                ),
            )
        }
    } else if tag == 3 {
        if len != 16 && len != 18 {
            Err(WavError::BadFmt)
        } else if len == 18 && read_le16(b, off + 16) != 0 {
            Err(WavError::BadFmt)
        } else if bits != 32 {
            Err(WavError::BadFmt)
        } else if !combo_ok(bytes_per_sample, bits, SampleFormat::Float) {
            Err(WavError::UnsupportedFormat)
        } else {
            Ok(
                (
                    WavSpec {
                        channels: channels as u16,
                        sample_rate,
                        bits_per_sample: bits as u16,
                        sample_format: SampleFormat::Float,
                    },
                    bytes_per_sample as u16,
                ),
            )
        }
    } else if tag == 0xfffe {
        if len < 40 {
            return Err(WavError::BadFmt);
        }
        if read_le16(b, off + 16) != 22 {
            return Err(WavError::BadFmt);
        }
        let valid_bits = read_le16(b, off + 18);
        let real_bits = if valid_bits > 0 {
            valid_bits
        } else {
            bits
        };
        if guid_matches(b, off + 24, 1) {
            if !combo_ok(bytes_per_sample, real_bits, SampleFormat::Int) {
                Err(WavError::UnsupportedFormat)
            } else {
                Ok(
                    (
                        WavSpec {
                            channels: channels as u16,
                            sample_rate,
                            bits_per_sample: real_bits as u16,
                            sample_format: SampleFormat::Int,
                        },
                        bytes_per_sample as u16,
                    ),
                )
            }
        } else if guid_matches(b, off + 24, 3) {
            if !combo_ok(bytes_per_sample, real_bits, SampleFormat::Float) {
                Err(WavError::UnsupportedFormat)
            } else {
                Ok(
                    (
                        WavSpec {
                            channels: channels as u16,
                            sample_rate,
                            bits_per_sample: real_bits as u16,
                            sample_format: SampleFormat::Float,
                        },
                        bytes_per_sample as u16,
                    ),
                )
            }
        } else {
            Err(WavError::UnsupportedFormat)
        }
    } else {
        Err(WavError::UnsupportedFormat)
    }
}

/// Parse the header of a WAV file given whole.
pub fn parse_header(bytes: &Vec<u8>) -> (r: Result<WavHeader, WavError>)
    ensures
        r == spec_parse_header(bytes@),
{
    let n = bytes.len();
    if n < 12 {
        return Err(WavError::NotRiff);
    }
    if !(bytes[0] == 0x52 && bytes[1] == 0x49 && bytes[2] == 0x46 && bytes[3] == 0x46 && bytes[8]
        == 0x57 && bytes[9] == 0x41 && bytes[10] == 0x56 && bytes[11] == 0x45) {
        return Err(WavError::NotRiff);
    }
    let mut pos: usize = 12;
    let mut has_fmt = false;
    let mut fmt_off: usize = 0;
    let mut fmt_len: usize = 0;
    loop
        invariant
            n == bytes@.len(),
            spec_is_riff(bytes@),
            12 <= pos <= n,
            has_fmt ==> fmt_off + fmt_len <= n,
            spec_find_chunks(bytes@, 12, None) == spec_find_chunks(
                bytes@,
                pos as int,
                if has_fmt {
                    Some((fmt_off as int, fmt_len as int))
                } else {
                    None::<(int, int)>
                },
            ),
        decreases n - pos,
    {
        if n - pos < 8 {
            return Err(WavError::MissingData);
        }
        let len32 = read_le32(bytes, pos + 4);
        let len = len32 as usize;
        if len > n - (pos + 8) {
            return Err(WavError::MissingData);
        }
        if bytes[pos] == 0x64 && bytes[pos + 1] == 0x61 && bytes[pos + 2] == 0x74 && bytes[pos + 3]
            == 0x61 {
            if !has_fmt {
                return Err(WavError::MissingFmt);
            }
            let data_off = pos + 8;
            let data_len = len;
            match parse_fmt(bytes, fmt_off, fmt_len) {
                Err(e) => {
                    return Err(e);
                },
                Ok((spec, bytes_per_sample)) => {
                    proof {
                        assert(spec_combo_ok(
                            bytes_per_sample as int,
                            spec.bits_per_sample as int,
                            spec.sample_format,
                        ) && spec.channels > 0);
                    }
                    let bps = bytes_per_sample as usize;
                    let num_samples = data_len / bps;
                    proof {
                        vstd::arithmetic::div_mod::lemma_fundamental_div_mod(
                            data_len as int,
                            bps as int,
                        );
                        vstd::arithmetic::div_mod::lemma_mod_bound(data_len as int, bps as int);
                    }
                    if num_samples * bps != data_len {
                        return Err(WavError::BadDataLen);
                    }
                    if num_samples % (spec.channels as usize) != 0 {
                        return Err(WavError::BadDataLen);
                    }
                    return Ok(WavHeader { spec, bytes_per_sample, data_off, num_samples });
                },
            }
        }
        let is_fmt = bytes[pos] == 0x66 && bytes[pos + 1] == 0x6d && bytes[pos + 2] == 0x74
            && bytes[pos + 3] == 0x20;
        if is_fmt {
            has_fmt = true;
            fmt_off = pos + 8;
            fmt_len = len;
        }
        pos = pos + 8 + len;
    }
}

/// Decode sample `k` of a parsed file to its `u32` word.
pub fn decode_sample(bytes: &Vec<u8>, h: &WavHeader, k: usize) -> (r: u32)
    requires
        spec_parse_header(bytes@) == Ok::<WavHeader, WavError>(*h),
        k < h.num_samples,
    ensures
        r == spec_word_at(bytes@, *h, k as int),
{
    let n = bytes.len();
    proof {
        lemma_header_bounds(bytes@, *h);
        vstd::arithmetic::mul::lemma_mul_inequality(
            k + 1,
            h.num_samples as int,
            h.bytes_per_sample as int,
        );
        vstd::arithmetic::mul::lemma_mul_is_distributive_add_other_way(
            h.bytes_per_sample as int,
            k as int,
            1,
        );
    }
    let bps = h.bytes_per_sample as usize;
    let off = h.data_off + k * bps;
    match h.spec.sample_format {
        SampleFormat::Float => read_le32(bytes, off),
        SampleFormat::Int => {
            if bps == 1 {
                let v = bytes[off] as u32;
                if v >= 128 {
                    v - 128
                } else {
                    v + 0xffffff80
                }
            } else if bps == 2 {
                let raw = read_le16(bytes, off);
                if raw < 0x8000 {
                    raw
                } else {
                    raw + 0xffff0000
                }
            } else if bps == 3 {
                let raw = bytes[off] as u32 + 0x100 * (bytes[off + 1] as u32) + 0x10000 * (bytes[off
                    + 2] as u32);
                if raw < 0x800000 {
                    raw
                } else {
                    raw + 0xff000000
                }
            } else if h.spec.bits_per_sample == 24 {
                let low = read_le32(bytes, off) % 0x1000000;
                if low < 0x800000 {
                    low
                } else {
                    low + 0xff000000
                }
            } else {
                read_le32(bytes, off)
            }
        },
    }
}

/// The chunk walk only ever yields chunks that lie whole within the bytes.
proof fn lemma_find_chunks_bounds(b: Seq<u8>, pos: int, fmt: Option<(int, int)>)
    requires
        spec_find_chunks(b, pos, fmt) is Ok,
    ensures
        ({
            let loc = spec_find_chunks(b, pos, fmt) ->Ok_0;
            &&& loc.data_off >= 0
            &&& loc.data_off + loc.data_len <= b.len()
            &&& loc.data_len >= 0
        }),
    decreases b.len() - pos,
{
    let len = spec_le32(b, pos + 4);
    if spec_is_data_tag(b, pos) {
    } else if spec_is_fmt_tag(b, pos) {
        lemma_find_chunks_bounds(b, pos + 8 + len, Some((pos + 8, len)));
    } else {
        lemma_find_chunks_bounds(b, pos + 8 + len, fmt);
    }
}

} // verus!
