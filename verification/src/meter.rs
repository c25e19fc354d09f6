use vstd::math::min;
use vstd::prelude::*;
use vstd::seq_lib::*;

use crate::errors::NormError;
use crate::remap::remapped;

verus! {

/// The lowest sample rate, in Hz, the loudness meter accepts.
pub const MIN_METER_RATE: u32 = 16;

/// The highest sample rate, in Hz, the loudness meter accepts.
pub const MAX_METER_RATE: u32 = 2822400;

#[verifier::external_type_specification]
#[verifier::external_body]
pub struct ExEbuR128(ebur128::EbuR128);

/// The interleaved samples a meter has been fed since its creation.
pub uninterp spec fn ebu_samples(e: ebur128::EbuR128) -> Seq<i16>;

/// The number of interleaved channels a meter was created with.
pub uninterp spec fn ebu_channels(e: ebur128::EbuR128) -> u32;

/// The sample rate, in Hz, a meter was created with.
pub uninterp spec fn ebu_rate(e: ebur128::EbuR128) -> u32;

/// Whether a meter measures integrated loudness over the canonical channel
/// map: one Center channel when it has one channel, Left/Right when two.
pub uninterp spec fn ebu_ready(e: ebur128::EbuR128) -> bool;

/// The IEEE-754 bit pattern of the integrated gated loudness, in LUFS, of
/// the given interleaved samples measured over the canonical channel map at
/// the given channel count and sample rate.  The measurement is a pure
/// function of these three arguments.
pub uninterp spec fn loudness_of(samples: Seq<i16>, channels: u32, rate: u32) -> u64;

/// Relies on `EbuR128::new` and `EbuR128::set_channel` from ebur128: `new`
/// succeeds exactly for a positive channel count of at most 64 and a rate
/// within `16..=2822400`, starting with no samples fed, and `set_channel`
/// accepts the Center role for channel 0 of a one-channel meter.
#[verifier::external_body]
fn ebu_new_mono(rate: u32) -> (r: Option<ebur128::EbuR128>)
    ensures
        r is Some <==> MIN_METER_RATE <= rate <= MAX_METER_RATE,
        r matches Some(e) ==> {
            &&& ebu_samples(e) == Seq::<i16>::empty()
            &&& ebu_channels(e) == 1u32
            &&& ebu_rate(e) == rate
            &&& ebu_ready(e)
        },
{
    let mut ebu = match ebur128::EbuR128::new(1, rate, ebur128::Mode::I) {
        Ok(e) => e,
        Err(_) => return None,
    };
    match ebu.set_channel(0, ebur128::Channel::Center) {
        Ok(()) => Some(ebu),
        Err(_) => None,
    }
}

/// Relies on `EbuR128::new` from ebur128: it succeeds exactly for a positive
/// channel count of at most 64 and a rate within `16..=2822400`, starting
/// with no samples fed; a fresh two-channel meter already carries the
/// default Left/Right channel map.
#[verifier::external_body]
fn ebu_new_stereo(rate: u32) -> (r: Option<ebur128::EbuR128>)
    ensures
        r is Some <==> MIN_METER_RATE <= rate <= MAX_METER_RATE,
        r matches Some(e) ==> {
            &&& ebu_samples(e) == Seq::<i16>::empty()
            &&& ebu_channels(e) == 2u32
            &&& ebu_rate(e) == rate
            &&& ebu_ready(e)
        },
{
    ebur128::EbuR128::new(2, rate, ebur128::Mode::I).ok()
}

/// Relies on `EbuR128::add_frames_i16` from ebur128: on a meter created in
/// integrated mode it accepts a slice exactly when its length is a multiple
/// of the meter's channel count, appends the accepted samples to the
/// meter's history, and rejects the slice untouched otherwise.  Samples are
/// appended only on success, and the meter's configuration never changes.
/// (Other modes can fail part-way through an aligned slice, so nothing
/// beyond that is claimed of them.)
#[verifier::external_body]
fn ebu_add_frames(e: &mut ebur128::EbuR128, frames: &Vec<i16>) -> (r: bool)
    ensures
        ebu_ready(*old(e)) ==> (r <==> frames@.len() as int % (ebu_channels(*old(e)) as int)
            == 0),
        r ==> ebu_samples(*final(e)) == ebu_samples(*old(e)) + frames@,
        ebu_ready(*old(e)) && !r ==> ebu_samples(*final(e)) == ebu_samples(*old(e)),
        ebu_channels(*final(e)) == ebu_channels(*old(e)),
        ebu_rate(*final(e)) == ebu_rate(*old(e)),
        ebu_ready(*final(e)) == ebu_ready(*old(e)),
{
    e.add_frames_i16(frames.as_slice()).is_ok()
}

/// Relies on `EbuR128::loudness_global` from ebur128: on a meter created in
/// integrated mode it returns the integrated gated loudness of everything
/// fed so far, a pure function of the fed samples, the channel count and
/// the sample rate.  The bits of that value are handed back unchanged.
#[verifier::external_body]
fn ebu_loudness_global(e: &ebur128::EbuR128) -> (r: Option<u64>)
    ensures
        ebu_ready(*e) ==> r == Some(loudness_of(ebu_samples(*e), ebu_channels(*e), ebu_rate(*e))),
{
    match e.loudness_global() {
        Ok(l) => Some(l.to_bits()),
        Err(_) => None,
    }
}

/// Incremental gated integrated-loudness measurement over one or two
/// canonical measurement channels.
///
/// Samples may arrive in chunks of any size; the measured result depends
/// only on the concatenation of everything fed, never on the chunking.
pub struct LoudnessAccumulator {
    ebu: ebur128::EbuR128,
    channels: u8,
    any_fed: bool,
}

impl LoudnessAccumulator {
    /// Everything fed so far, as one interleaved sequence.
    pub closed spec fn fed(&self) -> Seq<i16> {
        ebu_samples(self.ebu)
    }

    /// The number of measurement channels, one or two.
    pub closed spec fn width(&self) -> u32 {
        ebu_channels(self.ebu)
    }

    /// The sample rate, in Hz.
    pub closed spec fn rate(&self) -> u32 {
        ebu_rate(self.ebu)
    }

    /// The accumulator's meter is ready and its bookkeeping agrees with it.
    pub closed spec fn wf(&self) -> bool {
        &&& ebu_ready(self.ebu)
        &&& self.channels == ebu_channels(self.ebu)
        &&& (self.width() == 1 || self.width() == 2)
        &&& (self.any_fed <==> self.fed().len() > 0)
    }

    /// Creates a mono accumulator measuring one Center channel.
    pub fn new_mono(rate: u32) -> (r: Result<LoudnessAccumulator, NormError>)
        ensures
            r is Ok <==> MIN_METER_RATE <= rate <= MAX_METER_RATE,
            r matches Ok(a) ==> {
                &&& a.wf()
                &&& a.fed() == Seq::<i16>::empty()
                &&& a.width() == 1u32
                &&& a.rate() == rate
            },
            r matches Err(e) ==> e == NormError::ConfigError,
    {
        match ebu_new_mono(rate) {
            Some(ebu) => Ok(LoudnessAccumulator { ebu, channels: 1, any_fed: false }),
            None => Err(NormError::ConfigError),
        }
    }

    /// Creates a stereo accumulator measuring Left and Right channels.
    pub fn new_stereo(rate: u32) -> (r: Result<LoudnessAccumulator, NormError>)
        ensures
            r is Ok <==> MIN_METER_RATE <= rate <= MAX_METER_RATE,
            r matches Ok(a) ==> {
                &&& a.wf()
                &&& a.fed() == Seq::<i16>::empty()
                &&& a.width() == 2u32
                &&& a.rate() == rate
            },
            r matches Err(e) ==> e == NormError::ConfigError,
    {
        match ebu_new_stereo(rate) {
            Some(ebu) => Ok(LoudnessAccumulator { ebu, channels: 2, any_fed: false }),
            None => Err(NormError::ConfigError),
        }
    }

    /// The number of measurement channels, one or two.
    pub fn channel_width(&self) -> (r: u8)
        requires
            self.wf(),
        ensures
            r == self.width(),
    {
        self.channels
    }

    /// Appends one chunk of interleaved samples to the measurement.  A chunk
    /// whose length is not a multiple of the channel count is rejected whole.
    pub fn feed(&mut self, frames: &Vec<i16>) -> (r: Result<(), NormError>)
        requires
            old(self).wf(),
        ensures
            final(self).wf(),
            final(self).width() == old(self).width(),
            final(self).rate() == old(self).rate(),
            frames@.len() as int % (old(self).width() as int) == 0 ==> r is Ok,
            r is Ok ==> final(self).fed() == old(self).fed() + frames@,
            r matches Err(e) ==> {
                &&& e == NormError::ConfigError
                &&& final(self).fed() == old(self).fed()
                &&& frames@.len() as int % (old(self).width() as int) != 0
            },
    {
        let accepted = ebu_add_frames(&mut self.ebu, frames);
        if accepted {
            if frames.len() > 0 {
                self.any_fed = true;
            }
            proof {
                assert(self.fed().len() > 0 ==> old(self).fed().len() + frames@.len() > 0);
            }
            Ok(())
        } else {
            Err(NormError::ConfigError)
        }
    }

    /// The IEEE-754 bits of the integrated loudness of everything fed, or
    /// the given default bits when nothing at all has been fed — never the
    /// undefined loudness of an empty measurement.
    pub fn finalize(&self, default_loudness_bits: u64) -> (r: u64)
        requires
            self.wf(),
        ensures
            self.fed().len() == 0 ==> r == default_loudness_bits,
            self.fed().len() > 0 ==> r == loudness_of(self.fed(), self.width(), self.rate()),
    {
        if !self.any_fed {
            return default_loudness_bits;
        }
        match ebu_loudness_global(&self.ebu) {
            Some(bits) => bits,
            None => {
                proof {
                    assert(false);
                }
                default_loudness_bits
            },
        }
    }
}

/// The single sequence that results from feeding the given chunks one at a
/// time, in order, to an accumulator that starts empty.
pub open spec fn fed_in_chunks(chunks: Seq<Seq<i16>>) -> Seq<i16>
    decreases chunks.len(),
{
    if chunks.len() == 0 {
        Seq::<i16>::empty()
    } else {
        fed_in_chunks(chunks.drop_last()) + chunks.last()
    }
}

/// Splitting a sample stream into arbitrary chunks before feeding it
/// changes neither what ends up fed nor the measured integrated loudness:
/// chunked feeding is equivalent to feeding the whole stream at once.
pub proof fn lemma_chunked_feeding_equivalent(chunks: Seq<Seq<i16>>, channels: u32, rate: u32)
    ensures
        fed_in_chunks(chunks) == chunks.flatten(),
        loudness_of(fed_in_chunks(chunks), channels, rate) == loudness_of(
            chunks.flatten(),
            channels,
            rate,
        ),
    decreases chunks.len(),
{
    if chunks.len() == 0 {
        assert(fed_in_chunks(chunks) =~= chunks.flatten());
    } else {
        lemma_chunked_feeding_equivalent(chunks.drop_last(), channels, rate);
        chunks.lemma_flatten_and_flatten_alt_are_equivalent();
        chunks.drop_last().lemma_flatten_and_flatten_alt_are_equivalent();
        assert(fed_in_chunks(chunks) =~= chunks.flatten_alt());
    }
}

/// Frame `i` of the wide stream and frame `i` of the stereo stream agree
/// on their first two samples.
pub open spec fn frame_pair_matches(wide: Seq<i16>, stereo: Seq<i16>, channels: nat, i: int) -> bool {
    &&& wide[i * channels as int] == stereo[2 * i]
    &&& wide[i * channels as int + 1] == stereo[2 * i + 1]
}

/// Measuring a source of more than two channels through the fallback
/// mapping gives exactly the measurement of a two-channel source that
/// shares the first two channels' samples frame for frame: the two remap
/// to the same sample stream, so the integrated loudness is the same.
pub proof fn lemma_fallback_matches_stereo(
    wide: Seq<i16>,
    stereo: Seq<i16>,
    channels: nat,
    rate: u32,
)
    requires
        channels > 2,
        stereo.len() == 2 * (wide.len() as int / channels as int),
        forall|i: int|
            0 <= i < wide.len() as int / channels as int ==> #[trigger] frame_pair_matches(
                wide,
                stereo,
                channels,
                i,
            ),
    ensures
        remapped(wide, channels, 2) == remapped(stereo, 2, 2),
        loudness_of(remapped(wide, channels, 2), 2, rate) == loudness_of(
            remapped(stereo, 2, 2),
            2,
            rate,
        ),
    decreases wide.len(),
{
    let c = channels as int;
    let len = wide.len() as int;
    let q = len / c;
    if wide.len() < channels {
        assert(q == 0) by (nonlinear_arith)
            requires
                0 <= len < c,
                q == len / c,
        ;
        assert(stereo.len() == 0);
        assert(remapped(wide, channels, 2) =~= Seq::<i16>::empty());
        assert(remapped(stereo, 2, 2) =~= Seq::<i16>::empty());
    } else {
        vstd::arithmetic::div_mod::lemma_fundamental_div_mod(len, c);
        vstd::arithmetic::div_mod::lemma_mod_bound(len, c);
        assert(q >= 1) by (nonlinear_arith)
            requires
                c > 0,
                c * q + (len % c) == len,
                0 <= len % c < c,
                len >= c,
        ;
        let wide2 = wide.skip(c);
        let stereo2 = stereo.skip(2);
        let q2 = wide2.len() as int / c;
        assert((q - 1) * c == c * q - c) by (nonlinear_arith);
        vstd::arithmetic::div_mod::lemma_fundamental_div_mod_converse_div(
            len - c,
            c,
            q - 1,
            len % c,
        );
        assert(q2 == q - 1);
        assert(stereo2.len() == 2 * q2);
        assert forall|i: int| 0 <= i < q2 implies #[trigger] frame_pair_matches(
            wide2,
            stereo2,
            channels,
            i,
        ) by {
            assert(frame_pair_matches(wide, stereo, channels, i + 1));
            assert((i + 1) * c == i * c + c) by (nonlinear_arith);
            assert(i * c + 2 <= wide2.len()) by (nonlinear_arith)
                requires
                    0 <= i < q2,
                    c > 2,
                    q2 == q - 1,
                    c * q + (len % c) == len,
                    0 <= len % c,
                    wide2.len() == len - c,
            ;
            assert(wide2[i * c] == wide[(i + 1) * c]);
            assert(wide2[i * c + 1] == wide[(i + 1) * c + 1]);
            assert(2 * (i + 1) == 2 * i + 2);
            assert(stereo2[2 * i] == stereo[2 * (i + 1)]);
            assert(stereo2[2 * i + 1] == stereo[2 * (i + 1) + 1]);
        }
        lemma_fallback_matches_stereo(wide2, stereo2, channels, rate);
        assert(min(2int, c) == 2);
        assert(frame_pair_matches(wide, stereo, channels, 0));
        assert(wide[0] == stereo[0] && wide[1] == stereo[1]) by {
            assert(0 * c == 0) by (nonlinear_arith);
            assert(2 * 0 == 0);
        }
        assert(wide.take(2) =~= stereo.take(2));
        assert(remapped(wide, channels, 2) =~= wide.take(2) + remapped(wide2, channels, 2));
        assert(remapped(stereo, 2, 2) =~= stereo.take(2) + remapped(stereo2, 2, 2));
        assert(remapped(wide, channels, 2) =~= remapped(stereo, 2, 2));
    }
}

} // verus!
