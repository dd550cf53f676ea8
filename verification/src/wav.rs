use vstd::prelude::*;
use vstd::arithmetic::div_mod::lemma_div_denominator;
use vstd::arithmetic::div_mod::lemma_fundamental_div_mod;
use vstd::arithmetic::div_mod::lemma_fundamental_div_mod_converse;
use vstd::arithmetic::div_mod::lemma_small_mod;
use crate::errors::CaptureError;

verus! {

// The output container: linear PCM WAV, 16-bit signed little-endian samples.
// The byte layout is fixed here, down to each header byte; the encoder is
// proved to produce exactly that sequence, and the decoder recovers the
// sample values, the sample rate and the channel count from it.

pub open spec fn b0(v: int) -> u8 {
    (v % 256) as u8
}

pub open spec fn b1(v: int) -> u8 {
    (v / 256 % 256) as u8
}

pub open spec fn b2(v: int) -> u8 {
    (v / 65536 % 256) as u8
}

pub open spec fn b3(v: int) -> u8 {
    (v / 16777216 % 256) as u8
}

/// A sample's two's-complement value as an unsigned 16-bit number.
pub open spec fn sample_unsigned(s: i16) -> int {
    if s < 0 {
        s + 65536
    } else {
        s as int
    }
}

/// The data section: each sample as two little-endian bytes, in order.
pub open spec fn wav_data_bytes(samples: Seq<i16>) -> Seq<u8>
    decreases samples.len(),
{
    if samples.len() == 0 {
        Seq::<u8>::empty()
    } else {
        wav_data_bytes(samples.drop_last()) + seq![
            b0(sample_unsigned(samples.last())),
            b1(sample_unsigned(samples.last())),
        ]
    }
}

pub proof fn lemma_wav_data_len(samples: Seq<i16>)
    ensures
        wav_data_bytes(samples).len() == 2 * samples.len(),
    decreases samples.len(),
{
    if samples.len() > 0 {
        lemma_wav_data_len(samples.drop_last());
    }
}

/// The 44-byte container header: RIFF chunk, `fmt ` chunk for integer PCM
/// with 16 bits per sample, and the `data` chunk header.
pub open spec fn wav_header(dlen: int, rate: int, channels: int) -> Seq<u8> {
    let riff_len = 36 + dlen;
    let byte_rate = rate * channels * 2;
    let block_align = channels * 2;
    seq![
        82u8, 73u8, 70u8, 70u8,  // "RIFF"
        b0(riff_len), b1(riff_len), b2(riff_len), b3(riff_len),
        87u8, 65u8, 86u8, 69u8,  // "WAVE"
        102u8, 109u8, 116u8, 32u8,  // "fmt "
        16u8, 0u8, 0u8, 0u8,  // fmt chunk length
        1u8, 0u8,  // integer PCM
        b0(channels), b1(channels),
        b0(rate), b1(rate), b2(rate), b3(rate),
        b0(byte_rate), b1(byte_rate), b2(byte_rate), b3(byte_rate),
        b0(block_align), b1(block_align),
        16u8, 0u8,  // bits per sample
        100u8, 97u8, 116u8, 97u8,  // "data"
        b0(dlen), b1(dlen), b2(dlen), b3(dlen),
    ]
}

/// The whole container for the given samples and format.
pub open spec fn wav_bytes_spec(samples: Seq<i16>, rate: u32, channels: u16) -> Seq<u8> {
    wav_header(2 * samples.len() as int, rate as int, channels as int) + wav_data_bytes(samples)
}

/// The formats and sample counts the container can carry: at least one
/// channel, a nonzero rate, and field values that fit their header slots.
pub open spec fn wav_valid(sample_len: int, rate: u32, channels: u16) -> bool {
    &&& channels >= 1
    &&& rate >= 1
    &&& 2 * (channels as int) <= 0xFFFF
    &&& (rate as int) * (channels as int) * 2 <= 0xFFFFFFFF
    &&& 36 + 2 * sample_len <= 0xFFFFFFFF
}

pub proof fn lemma_wav_bytes_len(samples: Seq<i16>, rate: u32, channels: u16)
    ensures
        wav_bytes_spec(samples, rate, channels).len() == 44 + 2 * samples.len(),
{
    lemma_wav_data_len(samples);
}

fn push_u16_le(out: &mut Vec<u8>, v: u16)
    ensures
        final(out)@ == old(out)@ + seq![b0(v as int), b1(v as int)],
{
    out.push((v % 256) as u8);
    out.push((v / 256) as u8);
    proof {
        lemma_small_mod((v as int / 256) as nat, 256);
        assert(out@ =~= old(out)@ + seq![b0(v as int), b1(v as int)]);
    }
}

fn push_u32_le(out: &mut Vec<u8>, v: u32)
    ensures
        final(out)@ == old(out)@ + seq![b0(v as int), b1(v as int), b2(v as int), b3(v as int)],
{
    out.push((v % 256) as u8);
    out.push((v / 256 % 256) as u8);
    out.push((v / 65536 % 256) as u8);
    out.push((v / 16777216) as u8);
    proof {
        assert(v as int / 16777216 < 256);
        lemma_small_mod((v as int / 16777216) as nat, 256);
        assert(out@ =~= old(out)@ + seq![b0(v as int), b1(v as int), b2(v as int), b3(v as int)]);
    }
}

/// Serialize samples and format into the container byte stream.
///
/// Succeeds exactly on the formats the container can carry; a zero-length
/// sample sequence yields a valid 44-byte container with an empty data
/// section.
#[verifier::rlimit(100)]
#[verifier::spinoff_prover]
pub fn samples_to_wav(samples: &Vec<i16>, sample_rate: u32, channels: u16) -> (r: Result<
    Vec<u8>,
    CaptureError,
>)
    ensures
        r is Ok <==> wav_valid(samples@.len() as int, sample_rate, channels),
        r matches Ok(bytes) ==> bytes@ == wav_bytes_spec(samples@, sample_rate, channels),
        r matches Err(e) ==> e is EncodeError,
{
    let n_len = samples.len();
    if channels == 0 || sample_rate == 0 || channels > 32767 {
        return Err(
            CaptureError::EncodeError(
                String::from_str("Failed to create WAV writer: invalid stream format"),
            ),
        );
    }
    proof {
        assert((sample_rate as int) * (channels as int) * 2 < 0x2000000000000) by (nonlinear_arith)
            requires sample_rate as int <= 0xFFFFFFFF && channels as int <= 0xFFFF;
    }
    let byte_rate_wide: u64 = (sample_rate as u64) * (channels as u64) * 2;
    if byte_rate_wide > 0xFFFFFFFF {
        return Err(
            CaptureError::EncodeError(
                String::from_str("Failed to create WAV writer: invalid stream format"),
            ),
        );
    }
    if n_len > (0xFFFFFFFF - 36) / 2 {
        return Err(
            CaptureError::EncodeError(
                String::from_str("Failed to write WAV sample: data section too large"),
            ),
        );
    }
    let dlen: u32 = (n_len as u32) * 2;
    let ghost dlen_i = 2 * samples@.len() as int;
    let mut out: Vec<u8> = Vec::new();
    out.push(82);
    out.push(73);
    out.push(70);
    out.push(70);
    push_u32_le(&mut out, 36 + dlen);
    out.push(87);
    out.push(65);
    out.push(86);
    out.push(69);
    out.push(102);
    out.push(109);
    out.push(116);
    out.push(32);
    push_u32_le(&mut out, 16);
    push_u16_le(&mut out, 1);
    push_u16_le(&mut out, channels);
    push_u32_le(&mut out, sample_rate);
    push_u32_le(&mut out, byte_rate_wide as u32);
    push_u16_le(&mut out, channels * 2);
    push_u16_le(&mut out, 16);
    out.push(100);
    out.push(97);
    out.push(116);
    out.push(97);
    push_u32_le(&mut out, dlen);
    proof {
        assert(out@ =~= wav_header(dlen_i, sample_rate as int, channels as int));
    }
    let mut i: usize = 0;
    while i < n_len
        invariant
            n_len == samples@.len(),
            i <= n_len,
            out@ == wav_header(dlen_i, sample_rate as int, channels as int) + wav_data_bytes(
                samples@.take(i as int),
            ),
        decreases n_len - i,
    {
        let s = samples[i];
        let u: u16 = if s < 0 {
            ((s as i32) + 65536) as u16
        } else {
            s as u16
        };
        push_u16_le(&mut out, u);
        proof {
            assert(samples@.take(i + 1).drop_last() =~= samples@.take(i as int));
            assert(samples@.take(i + 1).last() == samples@[i as int]);
            assert(out@ =~= wav_header(dlen_i, sample_rate as int, channels as int)
                + wav_data_bytes(samples@.take(i + 1)));
        }
        i = i + 1;
    }
    proof {
        assert(samples@.take(samples@.len() as int) =~= samples@);
    }
    Ok(out)
}

fn read_u16_le(bytes: &[u8], at: usize) -> (r: u16)
    requires
        at + 2 <= bytes@.len(),
    ensures
        b0(r as int) == bytes@[at as int],
        b1(r as int) == bytes@[at + 1],
        r as int == bytes@[at as int] + 256 * bytes@[at + 1],
{
    let lo = bytes[at];
    let hi = bytes[at + 1];
    let r = (lo as u16) + 256 * (hi as u16);
    proof {
        lemma_fundamental_div_mod_converse(r as int, 256, hi as int, lo as int);
        lemma_small_mod(hi as nat, 256);
    }
    r
}

fn read_u32_le(bytes: &[u8], at: usize) -> (r: u32)
    requires
        at + 4 <= bytes@.len(),
    ensures
        b0(r as int) == bytes@[at as int],
        b1(r as int) == bytes@[at + 1],
        b2(r as int) == bytes@[at + 2],
        b3(r as int) == bytes@[at + 3],
        r as int == bytes@[at as int] + 256 * bytes@[at + 1] + 65536 * bytes@[at + 2] + 16777216
            * bytes@[at + 3],
{
    let a = bytes[at];
    let b = bytes[at + 1];
    let c = bytes[at + 2];
    let d = bytes[at + 3];
    let r = (a as u32) + 256 * (b as u32) + 65536 * (c as u32) + 16777216 * (d as u32);
    proof {
        lemma_le32_decompose(a as int, b as int, c as int, d as int);
    }
    r
}

proof fn lemma_le32_decompose(a: int, b: int, c: int, d: int)
    requires
        0 <= a < 256,
        0 <= b < 256,
        0 <= c < 256,
        0 <= d < 256,
    ensures
        b0(a + 256 * b + 65536 * c + 16777216 * d) == a,
        b1(a + 256 * b + 65536 * c + 16777216 * d) == b,
        b2(a + 256 * b + 65536 * c + 16777216 * d) == c,
        b3(a + 256 * b + 65536 * c + 16777216 * d) == d,
{
    let v = a + 256 * b + 65536 * c + 16777216 * d;
    let v1 = b + 256 * c + 65536 * d;
    let v2 = c + 256 * d;
    lemma_fundamental_div_mod_converse(v, 256, v1, a);
    lemma_fundamental_div_mod_converse(v1, 256, v2, b);
    lemma_fundamental_div_mod_converse(v2, 256, d, c);
    lemma_div_denominator(v, 256, 256);
    assert(v / 65536 == v2);
    lemma_div_denominator(v, 65536, 256);
    assert(v / 16777216 == d);
    lemma_small_mod(d as nat, 256);
}

/// Decode a container produced by `samples_to_wav`: recover the samples,
/// the sample rate and the channel count.
///
/// Whatever the decoder accepts is the encoding of exactly what it returns,
/// and it accepts every byte stream that is the encoding of a carriable
/// format, so encoding then decoding gives the inputs back.
#[verifier::rlimit(100)]
#[verifier::spinoff_prover]
pub fn wav_to_samples(bytes: &[u8]) -> (r: Option<(Vec<i16>, u32, u16)>)
    ensures
        r matches Some(t) ==> {
            &&& wav_valid(t.0@.len() as int, t.1, t.2)
            &&& bytes@ == wav_bytes_spec(t.0@, t.1, t.2)
        },
        forall|s: Seq<i16>, rate: u32, channels: u16|
            wav_valid(s.len() as int, rate, channels) && bytes@ == #[trigger] wav_bytes_spec(
                s,
                rate,
                channels,
            ) ==> r is Some,
{
    if bytes.len() < 44 {
        proof {
            assert forall|s: Seq<i16>, rate: u32, channels: u16|
                wav_valid(s.len() as int, rate, channels) && bytes@ == #[trigger] wav_bytes_spec(
                    s,
                    rate,
                    channels,
                ) implies false by {
                lemma_wav_bytes_len(s, rate, channels);
            }
        }
        return None;
    }
    let magic_ok = bytes[0] == 82 && bytes[1] == 73 && bytes[2] == 70 && bytes[3] == 70
        && bytes[8] == 87 && bytes[9] == 65 && bytes[10] == 86 && bytes[11] == 69 && bytes[12]
        == 102 && bytes[13] == 109 && bytes[14] == 116 && bytes[15] == 32 && bytes[16] == 16
        && bytes[17] == 0 && bytes[18] == 0 && bytes[19] == 0 && bytes[20] == 1 && bytes[21] == 0
        && bytes[34] == 16 && bytes[35] == 0 && bytes[36] == 100 && bytes[37] == 97 && bytes[38]
        == 116 && bytes[39] == 97;
    if !magic_ok {
        proof {
            assert forall|s: Seq<i16>, rate: u32, channels: u16|
                wav_valid(s.len() as int, rate, channels) && bytes@ == #[trigger] wav_bytes_spec(
                    s,
                    rate,
                    channels,
                ) implies false by {
                lemma_wav_bytes_len(s, rate, channels);
                let h = wav_header(2 * s.len() as int, rate as int, channels as int);
                assert(bytes@[0] == h[0] && bytes@[1] == h[1] && bytes@[2] == h[2] && bytes@[3]
                    == h[3] && bytes@[8] == h[8] && bytes@[9] == h[9] && bytes@[10] == h[10]
                    && bytes@[11] == h[11] && bytes@[12] == h[12] && bytes@[13] == h[13]
                    && bytes@[14] == h[14] && bytes@[15] == h[15] && bytes@[16] == h[16]
                    && bytes@[17] == h[17] && bytes@[18] == h[18] && bytes@[19] == h[19]
                    && bytes@[20] == h[20] && bytes@[21] == h[21] && bytes@[34] == h[34]
                    && bytes@[35] == h[35] && bytes@[36] == h[36] && bytes@[37] == h[37]
                    && bytes@[38] == h[38] && bytes@[39] == h[39]);
            }
        }
        return None;
    }
    let riff_len = read_u32_le(bytes, 4);
    let channels = read_u16_le(bytes, 22);
    let rate = read_u32_le(bytes, 24);
    let byte_rate = read_u32_le(bytes, 28);
    let block_align = read_u16_le(bytes, 32);
    let dlen = read_u32_le(bytes, 40);
    proof {
        assert((rate as int) * (channels as int) * 2 < 0x2000000000000) by (nonlinear_arith)
            requires rate as int <= 0xFFFFFFFF && channels as int <= 0xFFFF;
    }
    let wide_rate: u64 = (rate as u64) * (channels as u64) * 2;
    let fields_ok = channels >= 1 && rate >= 1 && dlen % 2 == 0 && (riff_len as u64) == 36 + (
    dlen as u64) && (bytes.len() as u64) == 44 + (dlen as u64) && wide_rate <= 0xFFFFFFFF && (
    byte_rate as u64) == wide_rate && (block_align as u32) == (channels as u32) * 2;
    if !fields_ok {
        proof {
            assert forall|s: Seq<i16>, rate_w: u32, channels_w: u16|
                wav_valid(s.len() as int, rate_w, channels_w) && bytes@ == #[trigger] wav_bytes_spec(
                    s,
                    rate_w,
                    channels_w,
                ) implies false by {
                lemma_wav_bytes_len(s, rate_w, channels_w);
                let h = wav_header(2 * s.len() as int, rate_w as int, channels_w as int);
                lemma_field_bytes(bytes@, s, rate_w, channels_w);
                assert(channels as int == channels_w as int);
                assert(rate as int == rate_w as int);
                assert(dlen as int == 2 * s.len());
                assert(riff_len as int == 36 + 2 * s.len());
                assert(byte_rate as int == (rate_w as int) * (channels_w as int) * 2);
                assert(block_align as int == 2 * (channels_w as int));
            }
        }
        return None;
    }
    let count = (dlen / 2) as usize;
    let blen = bytes.len();
    let mut samples: Vec<i16> = Vec::new();
    let mut i: usize = 0;
    while i < count
        invariant
            blen == bytes@.len(),
            44 + 2 * count == blen,
            i <= count,
            samples@.len() == i,
            wav_data_bytes(samples@) == bytes@.subrange(44, 44 + 2 * i),
        decreases count - i,
    {
        let u = read_u16_le(bytes, 44 + 2 * i);
        let s: i16 = if u < 32768 {
            u as i16
        } else {
            ((u as i32) - 65536) as i16
        };
        let ghost pre = samples@;
        samples.push(s);
        proof {
            assert(sample_unsigned(s) == u as int);
            assert(samples@.drop_last() =~= pre);
            assert(samples@.last() == s);
            assert(wav_data_bytes(samples@) =~= bytes@.subrange(44, 44 + 2 * (i + 1)));
        }
        i = i + 1;
    }
    proof {
        lemma_wav_data_len(samples@);
        assert(bytes@.subrange(44, 44 + 2 * count as int) =~= bytes@.skip(44));
        assert(bytes@ =~= wav_bytes_spec(samples@, rate, channels));
    }
    Some((samples, rate, channels))
}

/// In a spec-conforming container the numeric header fields written at
/// their fixed offsets recompose, little-endian, to the values they encode.
proof fn lemma_field_bytes(bytes: Seq<u8>, s: Seq<i16>, rate: u32, channels: u16)
    requires
        wav_valid(s.len() as int, rate, channels),
        bytes == wav_bytes_spec(s, rate, channels),
    ensures
        bytes.len() == 44 + 2 * s.len(),
        bytes[22] + 256 * bytes[23] == channels as int,
        bytes[24] + 256 * bytes[25] + 65536 * bytes[26] + 16777216 * bytes[27] == rate as int,
        bytes[28] + 256 * bytes[29] + 65536 * bytes[30] + 16777216 * bytes[31] == (rate as int)
            * (channels as int) * 2,
        bytes[32] + 256 * bytes[33] == 2 * (channels as int),
        bytes[40] + 256 * bytes[41] + 65536 * bytes[42] + 16777216 * bytes[43] == 2 * s.len(),
        bytes[4] + 256 * bytes[5] + 65536 * bytes[6] + 16777216 * bytes[7] == 36 + 2 * s.len(),
{
    lemma_wav_bytes_len(s, rate, channels);
    let h = wav_header(2 * s.len() as int, rate as int, channels as int);
    assert forall|k: int| 0 <= k < 44 implies bytes[k] == h[k] by {}
    lemma_le16_recompose(channels as int);
    lemma_le16_recompose(2 * (channels as int));
    lemma_le32_recompose(rate as int);
    lemma_le32_recompose((rate as int) * (channels as int) * 2);
    lemma_le32_recompose(2 * s.len() as int);
    lemma_le32_recompose(36 + 2 * s.len() as int);
}

proof fn lemma_le16_recompose(v: int)
    requires
        0 <= v <= 0xFFFF,
    ensures
        b0(v) + 256 * b1(v) == v,
{
    lemma_fundamental_div_mod(v, 256);
    lemma_small_mod((v / 256) as nat, 256);
}

proof fn lemma_le32_recompose(v: int)
    requires
        0 <= v <= 0xFFFFFFFF,
    ensures
        b0(v) + 256 * b1(v) + 65536 * b2(v) + 16777216 * b3(v) == v,
{
    lemma_fundamental_div_mod(v, 256);
    lemma_fundamental_div_mod(v / 256, 256);
    lemma_fundamental_div_mod(v / 65536, 256);
    lemma_div_denominator(v, 256, 256);
    assert(v / 256 / 256 == v / 65536);
    lemma_div_denominator(v, 65536, 256);
    assert(v / 65536 / 256 == v / 16777216);
    lemma_small_mod((v / 16777216) as nat, 256);
}

} // verus!
