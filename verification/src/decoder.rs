//! Sample decoding and waveform downsampling.
//!
//! A WAV container is parsed by the hound crate behind a trusted wrapper;
//! the samples come back tagged with their native encoding.  Integer
//! samples are widened into the crate's fixed-point amplitude scale by
//! verified code; floating-point samples are surfaced as raw IEEE-754 bit
//! patterns, since this crate carries no floating-point values, and a
//! caller converts them to fixed point before feeding the pipeline.
//! `compress_samples` then reduces an arbitrary-length fixed-point sample
//! sequence to a fixed number of bins by averaging.

use vstd::prelude::*;

use crate::utils::UNIT;

verus! {

/// Largest sample magnitude, in fixed-point steps, that the downsampler
/// accepts.  The bound keeps a whole-track sum inside `i128`.  Widened
/// 16-bit integer samples stay far below it.
pub const SAMPLE_LIMIT: i64 = 1099511627776;

/// Raw samples extracted from an audio container, tagged with the
/// container's declared encoding.  Floating-point samples are carried as
/// their IEEE-754 bit patterns.
#[derive(Debug)]
pub enum DecodedSamples {
    F32Bits(Vec<u32>),
    I16(Vec<i16>),
}

/// Why a container could not be decoded.
#[derive(Debug)]
pub enum DecodeError {
    /// The header is missing, malformed, or of an unsupported layout.
    Malformed,
    /// A sample frame could not be parsed.
    BadSample,
}

/// The layout a WAV byte stream declares, if its header parses:
/// whether samples are floating point, the declared bits per sample, the
/// offset of the first sample byte, and the number of sample values.  The
/// container format makes this a function of the bytes alone; it is given
/// a name here rather than a definition, and `wav_header` is trusted to
/// return it.
pub uninterp spec fn wav_layout(bytes: Seq<u8>) -> Option<(bool, int, int, int)>;

/// The integer samples a WAV byte stream holds, when every frame parses
/// as a 16-bit value; a function of the bytes alone, named rather than
/// defined, and `wav_int_samples` is trusted to return it.
pub uninterp spec fn wav_int_content(bytes: Seq<u8>) -> Option<Seq<i16>>;

/// Relies on hound's `WavReader::new`, which parses the WAV header from
/// the byte stream and fails on a malformed one, and on its accessors:
/// `spec()` for the declared sample format and bit depth, `len()` for the
/// number of sample values, and the position of the inner cursor for the
/// first sample byte.  All of it reads the bytes alone.
#[verifier::external_body]
fn wav_header(bytes: &[u8]) -> (r: Result<(bool, u16, u64, u32), DecodeError>)
    ensures
        match r {
            Ok((is_float, bits, off, n)) => wav_layout(bytes@) == Some(
                (is_float, bits as int, off as int, n as int),
            ),
            Err(_) => wav_layout(bytes@) is None,
        },
{
    let reader = match hound::WavReader::new(std::io::Cursor::new(bytes)) {
        Ok(r) => r,
        Err(_) => {
            return Err(DecodeError::Malformed);
        },
    };
    let is_float = matches!(reader.spec().sample_format, hound::SampleFormat::Float);
    let bits = reader.spec().bits_per_sample;
    let n = reader.len();
    let off = reader.into_inner().position();
    Ok((is_float, bits, off, n))
}

/// Relies on hound's sample iterator: `samples::<i16>()` yields every
/// sample of an integer-format stream in order and fails on a frame that
/// does not parse as a 16-bit value.  The outcome reads the bytes alone.
#[verifier::external_body]
fn wav_int_samples(bytes: &[u8]) -> (r: Result<Vec<i16>, DecodeError>)
    ensures
        match r {
            Ok(v) => wav_int_content(bytes@) == Some(v@),
            Err(_) => wav_int_content(bytes@) is None,
        },
{
    let mut reader = match hound::WavReader::new(std::io::Cursor::new(bytes)) {
        Ok(r) => r,
        Err(_) => {
            return Err(DecodeError::Malformed);
        },
    };
    let samples: Result<Vec<i16>, hound::Error> = reader.samples::<i16>().collect();
    match samples {
        Ok(v) => Ok(v),
        Err(_) => Err(DecodeError::BadSample),
    }
}

/// The little-endian 32-bit word starting at byte `p`.
pub open spec fn u32_le(bytes: Seq<u8>, p: int) -> int {
    bytes[p] + 0x100 * bytes[p + 1] + 0x10000 * bytes[p + 2] + 0x1000000 * bytes[p + 3]
}

/// What `decode_wav` returns for a given byte stream, phrased over the
/// named header layout and integer content.  Floating-point samples are
/// the consecutive 4-byte little-endian words of the data chunk, which is
/// how a 32-bit float stream packs them; a float stream of any other bit
/// depth does not decode.
pub open spec fn spec_decode(bytes: Seq<u8>, r: Result<DecodedSamples, DecodeError>) -> bool {
    match wav_layout(bytes) {
        None => r == Err::<DecodedSamples, DecodeError>(DecodeError::Malformed),
        Some((is_float, bits, off, n)) => {
            if !is_float {
                match wav_int_content(bytes) {
                    Some(s) => match r {
                        Ok(DecodedSamples::I16(v)) => v@ == s,
                        _ => false,
                    },
                    None => r == Err::<DecodedSamples, DecodeError>(DecodeError::BadSample),
                }
            } else {
                if bits == 32 && 0 <= off && 0 <= n && off + 4 * n <= bytes.len() {
                    match r {
                        Ok(DecodedSamples::F32Bits(w)) => w@.len() == n && (forall|k: int|
                            0 <= k < n ==> #[trigger] w@[k] == u32_le(bytes, off + 4 * k)),
                        _ => false,
                    }
                } else {
                    r == Err::<DecodedSamples, DecodeError>(DecodeError::BadSample)
                }
            }
        },
    }
}

/// Parses an audio container: reads its header and extracts the raw
/// samples tagged with the container's declared encoding.  Fails when the
/// header is malformed or any sample fails to parse; callers get no
/// partial result.  Multi-channel data stays flat and interleaved.
pub fn decode_wav(bytes: &[u8]) -> (r: Result<DecodedSamples, DecodeError>)
    ensures
        spec_decode(bytes@, r),
{
    let header = match wav_header(bytes) {
        Ok(h) => h,
        Err(_) => {
            return Err(DecodeError::Malformed);
        },
    };
    let (is_float, bits, off, n) = header;
    if !is_float {
        match wav_int_samples(bytes) {
            Ok(v) => Ok(DecodedSamples::I16(v)),
            Err(_) => Err(DecodeError::BadSample),
        }
    } else {
        if bits != 32 {
            return Err(DecodeError::BadSample);
        }
        let len: usize = bytes.len();
        if (off as u128) + 4 * (n as u128) > len as u128 {
            return Err(DecodeError::BadSample);
        }
        let base: usize = off as usize;
        let count: usize = n as usize;
        let mut words: Vec<u32> = Vec::new();
        let mut k: usize = 0;
        while k < count
            invariant
                0 <= k <= count,
                len == bytes@.len(),
                base + 4 * count <= len,
                words@.len() == k,
                forall|j: int|
                    0 <= j < k ==> #[trigger] words@[j] == u32_le(bytes@, base + 4 * j),
            decreases count - k,
        {
            let p: usize = base + 4 * k;
            let w: u32 = (bytes[p] as u32) + 0x100 * (bytes[p + 1] as u32) + 0x10000 * (bytes[p
                + 2] as u32) + 0x1000000 * (bytes[p + 3] as u32);
            words.push(w);
            k = k + 1;
        }
        Ok(DecodedSamples::F32Bits(words))
    }
}

/// Widens native 16-bit integer samples into fixed-point amplitude steps:
/// one source unit becomes `UNIT` steps.
pub fn fixed_from_i16(samples: &Vec<i16>) -> (r: Vec<i64>)
    ensures
        r@.len() == samples@.len(),
        forall|i: int|
            0 <= i < samples@.len() ==> #[trigger] r@[i] == samples@[i] * (UNIT as int),
        forall|i: int| 0 <= i < r@.len() ==> -SAMPLE_LIMIT <= #[trigger] r@[i] <= SAMPLE_LIMIT,
{
    let mut out: Vec<i64> = Vec::new();
    let mut i: usize = 0;
    while i < samples.len()
        invariant
            0 <= i <= samples@.len(),
            out@.len() == i,
            forall|k: int|
                0 <= k < i ==> #[trigger] out@[k] == samples@[k] * (UNIT as int),
            forall|k: int|
                0 <= k < i ==> -SAMPLE_LIMIT <= #[trigger] out@[k] <= SAMPLE_LIMIT,
        decreases samples@.len() - i,
    {
        out.push((samples[i] as i64) * UNIT);
        i = i + 1;
    }
    out
}

/// The sum of a fixed-point sample sequence.
pub open spec fn seq_sum(s: Seq<i64>) -> int
    decreases s.len(),
{
    if s.len() == 0 {
        0
    } else {
        seq_sum(s.drop_last()) + s.last()
    }
}

/// First sample index covered by bin `b` out of `target` bins over `n`
/// samples: the bin width `n / target` is real-valued and the boundary
/// rounds down.
pub open spec fn bin_start(n: int, target: int, b: int) -> int {
    b * n / target
}

/// One past the last sample index covered by bin `b`: the upper boundary
/// rounds up, so adjacent bins may overlap by one sample and together
/// cover every sample.
pub open spec fn bin_end(n: int, target: int, b: int) -> int {
    ((b + 1) * n + target - 1) / target
}

/// The value of bin `b`: the mean of the covered samples, rounded down,
/// or `0` for an empty bin.
pub open spec fn spec_bin_value(s: Seq<i64>, target: int, b: int) -> int {
    let lo = bin_start(s.len() as int, target, b);
    let hi = bin_end(s.len() as int, target, b);
    if lo < hi {
        seq_sum(s.subrange(lo, hi)) / (hi - lo)
    } else {
        0
    }
}

/// Bin boundaries are ordered and stay inside the sample sequence.
proof fn lemma_bin_ranges(n: int, target: int, b: int)
    requires
        n >= 0,
        0 <= b < target,
    ensures
        0 <= bin_start(n, target, b) <= bin_end(n, target, b) <= n,
{
    let lo = bin_start(n, target, b);
    let hi = bin_end(n, target, b);
    assert(0 <= b * n && b * n <= (b + 1) * n + target - 1 && (b + 1) * n <= target * n)
        by (nonlinear_arith)
        requires
            n >= 0,
            0 <= b < target,
    ;
    vstd::arithmetic::div_mod::lemma_div_pos_is_pos(b * n, target);
    vstd::arithmetic::div_mod::lemma_div_is_ordered(b * n, (b + 1) * n + target - 1, target);
    vstd::arithmetic::div_mod::lemma_div_is_ordered(
        (b + 1) * n + target - 1,
        target * n + target - 1,
        target,
    );
    vstd::arithmetic::div_mod::lemma_div_multiples_vanish_fancy(n, target - 1, target);
}

/// Coverage law for the rounded bin boundaries: the first bin starts at
/// the first sample, the last bin ends one past the last sample, and each
/// bin begins no later than its predecessor ends — the rounding leaves no
/// gap and lets adjacent bins overlap by at most one sample.
pub proof fn lemma_bins_cover_all_samples(n: int, target: int, b: int)
    requires
        n >= 0,
        target >= 1,
        0 <= b < target - 1,
    ensures
        bin_start(n, target, 0) == 0,
        bin_end(n, target, target - 1) == n,
        bin_start(n, target, b + 1) <= bin_end(n, target, b),
        bin_end(n, target, b) - bin_start(n, target, b + 1) <= 1,
{
    assert(0 * n == 0) by (nonlinear_arith);
    vstd::arithmetic::div_mod::lemma_div_of0(target);
    vstd::arithmetic::div_mod::lemma_div_multiples_vanish_fancy(n, target - 1, target);
    let x = (b + 1) * n;
    assert(x >= 0) by (nonlinear_arith)
        requires
            x == (b + 1) * n,
            b + 1 >= 0,
            n >= 0,
    ;
    vstd::arithmetic::div_mod::lemma_div_is_ordered(x, x + target - 1, target);
    // The rounded-up boundary exceeds the rounded-down one by at most 1:
    // write x as target * q + r and split on whether r is zero.
    vstd::arithmetic::div_mod::lemma_fundamental_div_mod(x, target);
    let q = x / target;
    let r = x % target;
    vstd::arithmetic::div_mod::lemma_mod_bound(x, target);
    if r == 0 {
        assert(x + target - 1 == target * q + (target - 1));
        vstd::arithmetic::div_mod::lemma_fundamental_div_mod_converse(
            x + target - 1,
            target,
            q,
            target - 1,
        );
    } else {
        assert(x + target - 1 == target * (q + 1) + (r - 1)) by {
            assert(target * (q + 1) == target * q + target) by (nonlinear_arith);
        }
        vstd::arithmetic::div_mod::lemma_fundamental_div_mod_converse(
            x + target - 1,
            target,
            q + 1,
            r - 1,
        );
    }
}

/// A sum of bounded samples is bounded by the length times the bound.
proof fn lemma_seq_sum_bound(s: Seq<i64>, bound: int)
    requires
        bound >= 0,
        forall|i: int| 0 <= i < s.len() ==> -bound <= #[trigger] s[i] <= bound,
    ensures
        -((s.len() as int) * bound) <= seq_sum(s) <= (s.len() as int) * bound,
    decreases s.len(),
{
    if s.len() == 0 {
    } else {
        assert(forall|i: int|
            0 <= i < s.len() - 1 ==> -bound <= #[trigger] s.drop_last()[i] <= bound);
        lemma_seq_sum_bound(s.drop_last(), bound);
        assert(((s.len() - 1) as int) * bound + bound == (s.len() as int) * bound)
            by (nonlinear_arith);
        assert(-bound <= s.last() <= bound);
    }
}

/// Splits `samples` into `target_length` contiguous bins and returns the
/// rounded-down mean of each; an empty bin yields `0`.
pub fn compress_samples(samples: &[i64], target_length: usize) -> (r: Vec<i64>)
    requires
        forall|i: int|
            0 <= i < samples@.len() ==> -SAMPLE_LIMIT <= #[trigger] samples@[i] <= SAMPLE_LIMIT,
    ensures
        r@.len() == target_length,
        forall|b: int|
            0 <= b < target_length ==> #[trigger] r@[b] == spec_bin_value(
                samples@,
                target_length as int,
                b,
            ),
{
    let n: usize = samples.len();
    let mut out: Vec<i64> = Vec::new();
    let mut b: usize = 0;
    while b < target_length
        invariant
            0 <= b <= target_length,
            n == samples@.len(),
            out@.len() == b,
            forall|i: int|
                0 <= i < samples@.len() ==> -SAMPLE_LIMIT <= #[trigger] samples@[i]
                    <= SAMPLE_LIMIT,
            forall|k: int|
                0 <= k < b ==> #[trigger] out@[k] == spec_bin_value(
                    samples@,
                    target_length as int,
                    k,
                ),
        decreases target_length - b,
    {
        proof {
            lemma_bin_ranges(n as int, target_length as int, b as int);
            assert((b as int) * (n as int) <= 0xffffffffffffffff * 0xffffffffffffffff && ((
            b + 1) as int) * (n as int) <= 0xffffffffffffffff * 0xffffffffffffffff)
                by (nonlinear_arith)
                requires
                    0 <= b as int <= 0xffffffffffffffff,
                    0 <= (b + 1) as int <= 0xffffffffffffffff,
                    0 <= n as int <= 0xffffffffffffffff,
            ;
        }
        let lo128: u128 = (b as u128) * (n as u128) / (target_length as u128);
        let hi128: u128 = ((b as u128) + 1) * (n as u128) + (target_length as u128) - 1;
        let hi128: u128 = hi128 / (target_length as u128);
        let lo: usize = lo128 as usize;
        let hi: usize = hi128 as usize;
        if lo < hi {
            let mut sum: i128 = 0;
            let mut i: usize = lo;
            while i < hi
                invariant
                    lo <= i <= hi,
                    hi <= n == samples@.len(),
                    forall|k: int|
                        0 <= k < samples@.len() ==> -SAMPLE_LIMIT <= #[trigger] samples@[k]
                            <= SAMPLE_LIMIT,
                    sum == seq_sum(samples@.subrange(lo as int, i as int)),
                    -((i - lo) as int) * (SAMPLE_LIMIT as int) <= sum <= ((i - lo) as int) * (
                    SAMPLE_LIMIT as int),
                decreases hi - i,
            {
                proof {
                    let pre = samples@.subrange(lo as int, i as int);
                    let ext = samples@.subrange(lo as int, i + 1);
                    assert(ext.drop_last() =~= pre);
                    assert(ext.last() == samples@[i as int]);
                    assert(((i - lo) as int) * (SAMPLE_LIMIT as int)
                        <= 0x100000000000000000000000000 && (((i + 1 - lo) as int)) * (
                    SAMPLE_LIMIT as int) == ((i - lo) as int) * (SAMPLE_LIMIT as int) + (
                    SAMPLE_LIMIT as int)) by (nonlinear_arith)
                        requires
                            0 <= (i - lo) as int <= 0xffffffffffffffff,
                            (SAMPLE_LIMIT as int) == 0x10000000000,
                    ;
                }
                sum = sum + (samples[i] as i128);
                i = i + 1;
            }
            let cnt: i128 = (hi - lo) as i128;
            proof {
                let c = cnt as int;
                let l = SAMPLE_LIMIT as int;
                assert(c * l <= 0x100000000000000000000000000 && (c * l) == (c * l) && c * (-l)
                    == -(c * l)) by (nonlinear_arith)
                    requires
                        0 < c <= 0xffffffffffffffff,
                        l == 0x10000000000,
                ;
                vstd::arithmetic::div_mod::lemma_div_is_ordered(sum as int, c * l, c);
                vstd::arithmetic::div_mod::lemma_div_is_ordered(c * (-l), sum as int, c);
                vstd::arithmetic::div_mod::lemma_div_multiples_vanish(l, c);
                vstd::arithmetic::div_mod::lemma_div_multiples_vanish(-l, c);
            }
            let q: i128 = crate::utils::div_floor(sum, cnt);
            out.push(q as i64);
        } else {
            out.push(0i64);
        }
        b = b + 1;
    }
    out
}

} // verus!
