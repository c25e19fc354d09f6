use vstd::prelude::*;

use crate::decoder::{
    dec_all_ok, ogg_headers_ok, open_source, read_packet, source_channels, source_sample_rate,
    vorbis_channel_count, vorbis_decodes_cleanly, vorbis_packets, vorbis_sample_rate,
};
use crate::errors::NormError;
use crate::pool_byte_array::PoolByteArray;

verus! {

/// The unsigned 16-bit two's-complement word that encodes a sample.
pub open spec fn sample_word(s: i16) -> int {
    if s >= 0 {
        s as int
    } else {
        s as int + 0x10000
    }
}

/// The two little-endian bytes of a 16-bit word.
pub open spec fn le16_of(w: int) -> Seq<u8> {
    seq![(w % 256) as u8, ((w / 256) % 256) as u8]
}

/// The four little-endian bytes of a 32-bit word.
pub open spec fn le32_of(w: int) -> Seq<u8> {
    seq![
        (w % 256) as u8,
        ((w / 256) % 256) as u8,
        ((w / 65536) % 256) as u8,
        ((w / 16777216) % 256) as u8,
    ]
}

/// The little-endian 16-bit PCM encoding of the samples, in order.
pub open spec fn pcm16_bytes(samples: Seq<i16>) -> Seq<u8>
    decreases samples.len(),
{
    if samples.len() == 0 {
        Seq::<u8>::empty()
    } else {
        le16_of(sample_word(samples.first())) + pcm16_bytes(samples.drop_first())
    }
}

/// Encoding one more sample at the end appends its two bytes.
pub proof fn lemma_pcm16_snoc(s: Seq<i16>)
    requires
        s.len() > 0,
    ensures
        pcm16_bytes(s) == pcm16_bytes(s.drop_last()) + le16_of(sample_word(s.last())),
    decreases s.len(),
{
    if s.len() == 1 {
        assert(s.drop_first() =~= Seq::<i16>::empty());
        assert(s.drop_last() =~= Seq::<i16>::empty());
        assert(pcm16_bytes(Seq::<i16>::empty()) =~= Seq::<u8>::empty());
        assert(pcm16_bytes(s) =~= le16_of(sample_word(s.first())) + Seq::<u8>::empty());
        assert(pcm16_bytes(s.drop_last()) + le16_of(sample_word(s.last())) =~= le16_of(
            sample_word(s.first()),
        ) + Seq::<u8>::empty());
    } else {
        lemma_pcm16_snoc(s.drop_first());
        assert(s.drop_first().last() == s.last());
        assert(s.drop_last().len() > 0);
        assert(s.drop_last().first() == s.first());
        assert(s.drop_last().drop_first() =~= s.drop_first().drop_last());
        assert(pcm16_bytes(s) =~= le16_of(sample_word(s.first())) + (pcm16_bytes(
            s.drop_first().drop_last(),
        ) + le16_of(sample_word(s.last()))));
        assert(pcm16_bytes(s.drop_last()) + le16_of(sample_word(s.last())) =~= le16_of(
            sample_word(s.first()),
        ) + (pcm16_bytes(s.drop_first().drop_last()) + le16_of(sample_word(s.last()))));
    }
}

/// The samples of the adjacent channel pair starting at channel `base`,
/// taken from every complete frame of `channels` interleaved samples.
pub open spec fn picked_pair(s: Seq<i16>, channels: nat, base: nat) -> Seq<i16>
    decreases s.len(),
{
    if channels == 0 || s.len() < channels {
        Seq::<i16>::empty()
    } else {
        seq![s[base as int], s[base as int + 1]] + picked_pair(s.skip(channels as int), channels, base)
    }
}

/// Picking from one more complete frame appends that frame's pair.
pub proof fn lemma_picked_pair_push_frame(s: Seq<i16>, frame: Seq<i16>, channels: nat, base: nat)
    requires
        channels > 0,
        s.len() as int % (channels as int) == 0,
        frame.len() == channels,
        base + 2 <= channels,
    ensures
        picked_pair(s + frame, channels, base) == picked_pair(s, channels, base) + seq![
            frame[base as int],
            frame[base as int + 1],
        ],
    decreases s.len(),
{
    let c = channels as int;
    let pair = seq![frame[base as int], frame[base as int + 1]];
    if s.len() == 0 {
        assert(s + frame =~= frame);
        assert(frame.skip(c) =~= Seq::<i16>::empty());
        assert(picked_pair(frame.skip(c), channels, base) =~= Seq::<i16>::empty());
        assert(picked_pair(frame, channels, base) =~= pair + Seq::<i16>::empty());
        assert(pair + Seq::<i16>::empty() =~= pair);
        assert(picked_pair(s, channels, base) + pair =~= pair);
    } else {
        assert(s.len() >= channels) by {
            assert(s.len() as int % c == 0);
            assert(0 < s.len() < c ==> s.len() as int % c == s.len() as int) by (nonlinear_arith);
        }
        let rest = s.skip(c);
        assert(rest.len() as int % c == 0) by {
            assert((s.len() as int - c) % c == s.len() as int % c) by (nonlinear_arith)
                requires
                    c > 0,
            ;
        }
        lemma_picked_pair_push_frame(rest, frame, channels, base);
        assert((s + frame)[base as int] == s[base as int]);
        assert((s + frame)[base as int + 1] == s[base as int + 1]);
        assert((s + frame).skip(c) =~= rest + frame);
        assert(picked_pair(s + frame, channels, base) =~= seq![s[base as int], s[base as int + 1]]
            + (picked_pair(rest, channels, base) + pair));
        assert(picked_pair(s, channels, base) + pair =~= seq![s[base as int], s[base as int + 1]]
            + (picked_pair(rest, channels, base) + pair));
    }
}

/// A picked pair sequence holds two samples for every complete frame.
pub proof fn lemma_picked_pair_len(s: Seq<i16>, channels: nat, base: nat)
    requires
        channels > 0,
    ensures
        picked_pair(s, channels, base).len() == 2 * (s.len() as int / channels as int),
    decreases s.len(),
{
    let c = channels as int;
    if s.len() < channels {
        assert(s.len() as int / c == 0) by (nonlinear_arith)
            requires
                0 <= s.len() < c,
        ;
    } else {
        lemma_picked_pair_len(s.skip(c), channels, base);
        assert(s.skip(c).len() as int / c == s.len() as int / c - 1) by (nonlinear_arith)
            requires
                c > 0,
                s.skip(c).len() == s.len() - c,
                s.len() >= c,
        ;
    }
}

/// Extracts the channel pair starting at channel `base` from every complete
/// frame of an interleaved stream.
fn extract_pair(samples: &Vec<i16>, channels: u8, base: u8) -> (r: Vec<i16>)
    requires
        base + 2 <= channels,
    ensures
        r@ == picked_pair(samples@, channels as nat, base as nat),
{
    let c: usize = channels as usize;
    let b: usize = base as usize;
    let total: usize = samples.len();
    let nframes: usize = total / c;
    let mut out: Vec<i16> = Vec::new();
    let mut i: usize = 0;
    proof {
        assert(samples@.subrange(0, 0) =~= Seq::<i16>::empty());
    }
    while i < nframes
        invariant
            c == channels as int,
            b == base as int,
            base + 2 <= channels,
            total == samples@.len(),
            nframes == samples@.len() as int / c as int,
            i <= nframes,
            out@ == picked_pair(
                samples@.subrange(0, i as int * c as int),
                channels as nat,
                base as nat,
            ),
        decreases nframes - i,
    {
        proof {
            assert(i as int * c as int + c as int <= total as int && i as int * c as int
                >= 0) by (nonlinear_arith)
                requires
                    c > 0,
                    0 <= i < nframes,
                    nframes == total as int / c as int,
            ;
        }
        let frame_base: usize = i * c;
        out.push(samples[frame_base + b]);
        out.push(samples[frame_base + b + 1]);
        proof {
            let prefix = samples@.subrange(0, i as int * c as int);
            let frame = samples@.subrange(i as int * c as int, i as int * c as int + c as int);
            assert(prefix.len() as int % (c as int) == 0) by (nonlinear_arith)
                requires
                    c > 0,
                    prefix.len() == i as int * c as int,
            ;
            lemma_picked_pair_push_frame(prefix, frame, channels as nat, base as nat);
            assert((i + 1) as int * c as int == i as int * c as int + c as int)
                by (nonlinear_arith);
            assert(prefix + frame =~= samples@.subrange(0, (i + 1) as int * c as int));
            assert(frame[base as int] == samples@[i as int * c as int + b as int]);
            assert(frame[base as int + 1] == samples@[i as int * c as int + b as int + 1]);
        }
        i = i + 1;
    }
    proof {
        lemma_picked_pair_prefix(samples@, channels as nat, base as nat, nframes as nat);
    }
    out
}

/// The picked pairs only depend on the complete frames: a trailing partial
/// frame contributes nothing.
proof fn lemma_picked_pair_prefix(s: Seq<i16>, channels: nat, base: nat, nframes: nat)
    requires
        channels > 0,
        base + 2 <= channels,
        nframes == s.len() as int / channels as int,
    ensures
        picked_pair(s, channels, base) == picked_pair(
            s.subrange(0, nframes as int * channels as int),
            channels,
            base,
        ),
    decreases s.len(),
{
    let c = channels as int;
    let len = s.len() as int;
    vstd::arithmetic::div_mod::lemma_fundamental_div_mod(len, c);
    vstd::arithmetic::div_mod::lemma_mod_bound(len, c);
    assert(nframes as int * c == c * (len / c)) by (nonlinear_arith)
        requires
            nframes == len / c,
    ;
    assert(0 <= nframes as int * c <= len);
    if s.len() < channels {
        assert(s.len() as int / c == 0) by (nonlinear_arith)
            requires
                0 <= s.len() < c,
        ;
        assert(s.subrange(0, 0) =~= Seq::<i16>::empty());
    } else {
        let rest = s.skip(c);
        let m = rest.len() as int / c;
        assert((nframes as int - 1) * c == c * (len / c) - c) by (nonlinear_arith)
            requires
                nframes == len / c,
        ;
        vstd::arithmetic::div_mod::lemma_fundamental_div_mod_converse_div(
            len - c,
            c,
            nframes as int - 1,
            len % c,
        );
        assert(m == nframes - 1);
        lemma_picked_pair_prefix(rest, channels, base, m as nat);
        assert(m as int * c == nframes as int * c - c) by (nonlinear_arith)
            requires
                m == nframes - 1,
        ;
        let cut = s.subrange(0, nframes as int * c);
        assert(cut[base as int] == s[base as int]);
        assert(cut[base as int + 1] == s[base as int + 1]);
        assert(cut.skip(c) =~= rest.subrange(0, m * c));
    }
}

/// A complete 16-bit stereo PCM WAV stream: RIFF/WAVE header, format chunk
/// for two channels of 16-bit samples at the given rate, and a data chunk
/// holding the interleaved samples.
pub open spec fn wav_stereo_bytes(samples: Seq<i16>, rate: u32) -> Seq<u8> {
    let data_len = 2 * samples.len() as int;
    seq![0x52u8, 0x49u8, 0x46u8, 0x46u8] + le32_of(36 + data_len) + seq![
        0x57u8,
        0x41u8,
        0x56u8,
        0x45u8,
    ] + seq![0x66u8, 0x6du8, 0x74u8, 0x20u8] + le32_of(16) + le16_of(1) + le16_of(2) + le32_of(
        rate as int,
    ) + le32_of(4 * rate as int) + le16_of(4) + le16_of(16) + seq![0x64u8, 0x61u8, 0x74u8, 0x61u8]
        + le32_of(data_len) + pcm16_bytes(samples)
}

/// Appends the two little-endian bytes of a 16-bit word.
fn push_le16(v: &mut Vec<u8>, x: u16)
    ensures
        final(v)@ == old(v)@ + le16_of(x as int),
{
    v.push((x % 256) as u8);
    v.push(((x / 256) % 256) as u8);
    proof {
        assert(v@ =~= old(v)@ + le16_of(x as int));
    }
}

/// Appends the four little-endian bytes of a 32-bit word.
fn push_le32(v: &mut Vec<u8>, x: u32)
    ensures
        final(v)@ == old(v)@ + le32_of(x as int),
{
    v.push((x % 256) as u8);
    v.push(((x / 256) % 256) as u8);
    v.push(((x / 65536) % 256) as u8);
    v.push(((x / 16777216) % 256) as u8);
    proof {
        assert(v@ =~= old(v)@ + le32_of(x as int));
    }
}

/// Appends a complete WAV stereo stream over the given interleaved stereo
/// samples to the buffer.
fn write_wav_stereo(dst: &mut PoolByteArray, samples: &Vec<i16>, rate: u32)
    requires
        old(dst).wf(),
        2 * samples@.len() + 36 <= 0xFFFF_FFFF,
        4 * (rate as int) <= 0xFFFF_FFFF,
    ensures
        final(dst).wf(),
        final(dst)@ == old(dst)@ + wav_stereo_bytes(samples@, rate),
        final(dst).pos() == old(dst).pos(),
{
    let data_len: u32 = 2 * (samples.len() as u32);
    let mut bytes: Vec<u8> = Vec::new();
    bytes.push(0x52);
    bytes.push(0x49);
    bytes.push(0x46);
    bytes.push(0x46);
    push_le32(&mut bytes, 36 + data_len);
    bytes.push(0x57);
    bytes.push(0x41);
    bytes.push(0x56);
    bytes.push(0x45);
    bytes.push(0x66);
    bytes.push(0x6d);
    bytes.push(0x74);
    bytes.push(0x20);
    push_le32(&mut bytes, 16);
    push_le16(&mut bytes, 1);
    push_le16(&mut bytes, 2);
    push_le32(&mut bytes, rate);
    push_le32(&mut bytes, 4 * rate);
    push_le16(&mut bytes, 4);
    push_le16(&mut bytes, 16);
    bytes.push(0x64);
    bytes.push(0x61);
    bytes.push(0x74);
    bytes.push(0x61);
    push_le32(&mut bytes, data_len);
    let ghost header = bytes@;
    proof {
        assert(samples@.take(0) =~= Seq::<i16>::empty());
        assert(pcm16_bytes(samples@.take(0)) =~= Seq::<u8>::empty());
        assert(header + Seq::<u8>::empty() =~= header);
    }
    let mut i: usize = 0;
    while i < samples.len()
        invariant
            i <= samples@.len(),
            bytes@ == header + pcm16_bytes(samples@.take(i as int)),
        decreases samples@.len() - i,
    {
        let s: i16 = samples[i];
        let wide: i32 = s as i32;
        let w: u32 = if wide >= 0 {
            wide as u32
        } else {
            (wide + 0x10000) as u32
        };
        proof {
            assert(w as int == sample_word(samples@[i as int]));
            assert(w < 65536);
        }
        push_le16(&mut bytes, w as u16);
        proof {
            let upto = samples@.take(i as int + 1);
            lemma_pcm16_snoc(upto);
            assert(upto.drop_last() =~= samples@.take(i as int));
            assert(upto.last() == samples@[i as int]);
            assert(bytes@ =~= header + pcm16_bytes(upto));
        }
        i = i + 1;
    }
    proof {
        assert(samples@.take(samples@.len() as int) =~= samples@);
        assert(bytes@ =~= wav_stereo_bytes(samples@, rate));
    }
    dst.write(bytes.as_slice());
}

/// The two output streams of a split: an instrumental stereo mix over
/// source channels 0 and 1, and a vocal stereo mix over channels 2 and 3.
pub struct SplitBuffers {
    /// Receives the stereo mix of source channels 0 and 1.
    pub instrumental: PoolByteArray,
    /// Receives the stereo mix of source channels 2 and 3.
    pub vocal: PoolByteArray,
}

impl SplitBuffers {
    /// Both buffers are well formed.
    pub open spec fn wf(&self) -> bool {
        &&& self.instrumental.wf()
        &&& self.vocal.wf()
    }

    /// Two fresh, empty buffers.
    pub fn new() -> (r: SplitBuffers)
        ensures
            r.wf(),
            r.instrumental@ == Seq::<u8>::empty(),
            r.vocal@ == Seq::<u8>::empty(),
    {
        SplitBuffers {
            instrumental: PoolByteArray::new(Vec::new()),
            vocal: PoolByteArray::new(Vec::new()),
        }
    }
}

/// De-interleaves a decoded stream of at least four channels into the two
/// stereo WAV streams: channels 0 and 1 become the instrumental mix and
/// channels 2 and 3 the vocal mix, both at the source sample rate.  Fewer
/// than four channels fail with `UnsupportedChannelLayout`; both output
/// buffers are overwritten in every case and left empty on failure.
pub fn split_frames(samples: &Vec<i16>, channels: u8, sample_rate: u32, out: &mut SplitBuffers) -> (r:
    Result<(), NormError>)
    requires
        old(out).wf(),
        channels >= 4 ==> samples@.len() + 44 <= 0xFFFF_FFFF,
        channels >= 4 ==> 4 * (sample_rate as int) <= 0xFFFF_FFFF,
    ensures
        final(out).wf(),
        final(out).instrumental.pos() == 0,
        final(out).vocal.pos() == 0,
        r is Ok <==> channels >= 4,
        channels < 4 ==> {
            &&& r == Err::<(), NormError>(NormError::UnsupportedChannelLayout)
            &&& final(out).instrumental@ == Seq::<u8>::empty()
            &&& final(out).vocal@ == Seq::<u8>::empty()
        },
        r is Ok ==> {
            &&& final(out).instrumental@ == wav_stereo_bytes(
                picked_pair(samples@, channels as nat, 0),
                sample_rate,
            )
            &&& final(out).vocal@ == wav_stereo_bytes(
                picked_pair(samples@, channels as nat, 2),
                sample_rate,
            )
        },
{
    out.instrumental.clear();
    out.vocal.clear();
    if channels < 4 {
        return Err(NormError::UnsupportedChannelLayout);
    }
    let inst = extract_pair(samples, channels, 0);
    let voc = extract_pair(samples, channels, 2);
    proof {
        lemma_picked_pair_len(samples@, channels as nat, 0);
        lemma_picked_pair_len(samples@, channels as nat, 2);
        let c = channels as int;
        let len = samples@.len() as int;
        let q = len / c;
        vstd::arithmetic::div_mod::lemma_fundamental_div_mod(len, c);
        vstd::arithmetic::div_mod::lemma_mod_bound(len, c);
        assert(q >= 0 && 4 * q <= len) by (nonlinear_arith)
            requires
                c >= 4,
                0 <= len,
                c * q <= len,
                len < c * q + c,
        ;
    }
    write_wav_stereo(&mut out.instrumental, &inst, sample_rate);
    write_wav_stereo(&mut out.vocal, &voc, sample_rate);
    Ok(())
}

/// Decodes a whole compressed source and splits it with `split_frames`.
/// The headers decide the first failures: malformed headers give
/// `DecodeError` and fewer than four channels give
/// `UnsupportedChannelLayout`, before any packet is decoded; a source that
/// decodes cleanly and fits the WAV size fields is owed success.  Both
/// output buffers are overwritten; after any failure both are empty.
pub fn split_source(stream: Vec<u8>, out: &mut SplitBuffers) -> (r: Result<(), NormError>)
    requires
        old(out).wf(),
    ensures
        final(out).wf(),
        final(out).instrumental.pos() == 0,
        final(out).vocal.pos() == 0,
        !ogg_headers_ok(stream@) ==> r == Err::<(), NormError>(NormError::DecodeError),
        ogg_headers_ok(stream@) && vorbis_channel_count(stream@) < 4 ==> r == Err::<(),
            NormError,
        >(NormError::UnsupportedChannelLayout),
        r is Err ==> {
            &&& final(out).instrumental@ == Seq::<u8>::empty()
            &&& final(out).vocal@ == Seq::<u8>::empty()
        },
        ogg_headers_ok(stream@) && vorbis_channel_count(stream@) >= 4 && vorbis_decodes_cleanly(
            stream@,
        ) && vorbis_sample_rate(stream@) <= 0x3FFF_FFFF && vorbis_packets(
            stream@,
        ).flatten().len() + 44 <= 0xFFFF_FFFF ==> r is Ok,
        r is Ok ==> {
            &&& vorbis_channel_count(stream@) >= 4
            &&& final(out).instrumental@ == wav_stereo_bytes(
                picked_pair(
                    vorbis_packets(stream@).flatten(),
                    vorbis_channel_count(stream@) as nat,
                    0,
                ),
                vorbis_sample_rate(stream@),
            )
            &&& final(out).vocal@ == wav_stereo_bytes(
                picked_pair(
                    vorbis_packets(stream@).flatten(),
                    vorbis_channel_count(stream@) as nat,
                    2,
                ),
                vorbis_sample_rate(stream@),
            )
        },
{
    out.instrumental.clear();
    out.vocal.clear();
    let ghost packets = vorbis_packets(stream@);
    let mut reader = match open_source(stream) {
        Ok(rd) => rd,
        Err(_) => {
            return Err(NormError::DecodeError);
        },
    };
    let channels = source_channels(&reader);
    let rate = source_sample_rate(&reader);
    if channels < 4 {
        return Err(NormError::UnsupportedChannelLayout);
    }
    if rate > 0x3FFF_FFFF {
        return Err(NormError::ConfigError);
    }
    let mut all: Vec<i16> = Vec::new();
    let mut done = false;
    proof {
        assert(all@ + crate::decoder::dec_pending(reader).flatten() =~= packets.flatten());
    }
    while !done
        invariant
            out.wf(),
            out.instrumental@ == Seq::<u8>::empty(),
            out.vocal@ == Seq::<u8>::empty(),
            out.instrumental.pos() == 0,
            out.vocal.pos() == 0,
            ogg_headers_ok(stream@),
            channels == vorbis_channel_count(stream@),
            channels >= 4,
            rate == vorbis_sample_rate(stream@),
            rate <= 0x3FFF_FFFF,
            packets == vorbis_packets(stream@),
            vorbis_decodes_cleanly(stream@) ==> dec_all_ok(reader),
            !done ==> all@ + crate::decoder::dec_pending(reader).flatten() == packets.flatten(),
            done ==> all@ == packets.flatten(),
        decreases crate::decoder::dec_pending(reader).len() + if done {
            0int
        } else {
            1int
        },
    {
        let ghost pending_entry = crate::decoder::dec_pending(reader);
        let ghost all_entry = all@;
        match read_packet(&mut reader) {
            Ok(Some(mut p)) => {
                all.append(&mut p);
                proof {
                    assert(pending_entry.flatten() =~= pending_entry.first()
                        + pending_entry.drop_first().flatten());
                    assert(all@ + crate::decoder::dec_pending(reader).flatten()
                        =~= packets.flatten());
                }
            },
            Ok(None) => {
                proof {
                    assert(crate::decoder::dec_pending(reader).flatten() =~= Seq::<i16>::empty());
                    assert(all@ + Seq::<i16>::empty() =~= all@);
                }
                done = true;
            },
            Err(_) => {
                return Err(NormError::DecodeError);
            },
        }
    }
    if all.len() > 0xFFFF_FFFF - 44 {
        out.instrumental.clear();
        out.vocal.clear();
        return Err(NormError::ConfigError);
    }
    split_frames(&all, channels, rate, out)
}

} // verus!
