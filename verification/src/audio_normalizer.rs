use vstd::prelude::*;

use crate::decoder::{
    dec_next_ok, dec_pending, ogg_headers_ok, open_source, read_packet, source_channels,
    source_sample_rate, vorbis_channel_count, vorbis_packets, vorbis_sample_rate, SourceReader,
};
use crate::errors::NormError;
use crate::meter::{loudness_of, LoudnessAccumulator, MAX_METER_RATE, MIN_METER_RATE};
use crate::remap::{remap_frames, remapped, RemapPlan};

verus! {

/// The IEEE-754 bit pattern of the default target loudness, -24.0 LUFS.
pub const DEFAULT_TARGET_LOUDNESS_BITS: u64 = 0xC038_0000_0000_0000;

/// Clamps `val` into the inclusive range `min..=max`.
pub fn clamp(val: u8, min: u8, max: u8) -> (r: u8)
    requires
        min <= max,
    ensures
        r == if val < min {
            min
        } else if val > max {
            max
        } else {
            val
        },
        min <= r <= max,
{
    if val < min {
        min
    } else if val > max {
        max
    } else {
        val
    }
}

/// Where a measurement session stands.
#[derive(Clone, Copy, Debug, PartialEq, Eq, Structural)]
pub enum SessionPhase {
    /// No source is configured.
    Idle,
    /// A source is open and nothing has been decoded yet.
    Configured,
    /// Decoding has started and the end of the stream is not yet reached.
    Running,
    /// The whole stream was measured and the result is cached.
    Finished,
}

/// An incremental loudness-measurement session: it owns a decoder, a remap
/// plan and a loudness accumulator, and advances through one decoded packet
/// per `work_on_normalization` call, so a host can interleave the work with
/// its own scheduling.
pub struct AudioNormalizer {
    target_loudness_bits: u64,
    phase: SessionPhase,
    reader: Option<SourceReader>,
    meter: Option<LoudnessAccumulator>,
    plan: RemapPlan,
    normalization_result: Option<u64>,
}

impl AudioNormalizer {
    /// Where the session stands.
    pub closed spec fn session_phase(&self) -> SessionPhase {
        self.phase
    }

    /// The IEEE-754 bits of the configured target loudness.
    pub closed spec fn target_bits(&self) -> u64 {
        self.target_loudness_bits
    }

    /// The cached measurement, present exactly once the session finished.
    pub closed spec fn result_bits(&self) -> Option<u64> {
        self.normalization_result
    }

    /// The remap plan chosen for the configured source.
    pub closed spec fn plan(&self) -> RemapPlan {
        self.plan
    }

    /// Everything fed to the loudness accumulator so far.
    pub closed spec fn fed(&self) -> Seq<i16> {
        match self.meter {
            Some(m) => m.fed(),
            None => Seq::<i16>::empty(),
        }
    }

    /// The decoded packets the source has still to yield.
    pub closed spec fn pending(&self) -> Seq<Seq<i16>> {
        match self.reader {
            Some(r) => dec_pending(r),
            None => Seq::<Seq<i16>>::empty(),
        }
    }

    /// The configured source's sample rate, in Hz.
    pub closed spec fn source_rate(&self) -> u32 {
        match self.meter {
            Some(m) => m.rate(),
            None => 0u32,
        }
    }

    /// Whether the next decode pull on the configured source succeeds.
    pub closed spec fn decode_ok(&self) -> bool {
        match self.reader {
            Some(r) => dec_next_ok(r),
            None => true,
        }
    }

    /// The session's invariant: whenever a source is configured, decoder,
    /// plan and accumulator exist and agree, and the cached result exists
    /// exactly in the finished phase.
    pub closed spec fn wf(&self) -> bool {
        &&& match self.phase {
            SessionPhase::Idle => {
                &&& self.reader is None
                &&& self.meter is None
                &&& self.normalization_result is None
            },
            SessionPhase::Configured => {
                &&& self.configured_wf()
                &&& self.fed() == Seq::<i16>::empty()
                &&& self.normalization_result is None
            },
            SessionPhase::Running => {
                &&& self.configured_wf()
                &&& self.normalization_result is None
            },
            SessionPhase::Finished => {
                &&& self.configured_wf()
                &&& self.pending().len() == 0
                &&& self.decode_ok()
                &&& self.normalization_result is Some
            },
        }
    }

    /// The decode pipeline exists and its pieces agree.
    closed spec fn configured_wf(&self) -> bool {
        &&& self.reader is Some
        &&& self.meter is Some
        &&& self.meter matches Some(m) ==> {
            &&& m.wf()
            &&& m.width() == self.plan.target_channels as u32
        }
        &&& self.plan.wf()
    }

    /// A fresh, idle session with the default target loudness and no remap
    /// plan chosen yet.
    pub fn new() -> (r: AudioNormalizer)
        ensures
            r.wf(),
            r.session_phase() is Idle,
            r.target_bits() == DEFAULT_TARGET_LOUDNESS_BITS,
            r.result_bits() is None,
            r.plan() == (RemapPlan { source_channels: 0, target_channels: 0, fallback: false }),
    {
        AudioNormalizer {
            target_loudness_bits: DEFAULT_TARGET_LOUDNESS_BITS,
            phase: SessionPhase::Idle,
            reader: None,
            meter: None,
            plan: RemapPlan { source_channels: 0, target_channels: 0, fallback: false },
            normalization_result: None,
        }
    }

    /// Sets the target loudness, given as IEEE-754 bits of a LUFS value;
    /// everything else about the session is untouched.
    pub fn set_target_loudness(&mut self, target_loudness_bits: u64)
        requires
            old(self).wf(),
        ensures
            final(self).wf(),
            final(self).target_bits() == target_loudness_bits,
            final(self).session_phase() == old(self).session_phase(),
            final(self).result_bits() == old(self).result_bits(),
            final(self).fed() == old(self).fed(),
            final(self).pending() == old(self).pending(),
            final(self).plan() == old(self).plan(),
            final(self).source_rate() == old(self).source_rate(),
    {
        self.target_loudness_bits = target_loudness_bits;
    }

    /// Opens a compressed source and prepares a fresh measurement over it,
    /// discarding any prior progress or result.  Malformed headers fail
    /// with `DecodeError`; headers that declare a sample rate the meter
    /// cannot run at fail with `ConfigError`.  Either way the session is
    /// left idle.
    pub fn set_target_ogg(&mut self, stream: Vec<u8>) -> (r: Result<(), NormError>)
        requires
            old(self).wf(),
        ensures
            final(self).wf(),
            final(self).target_bits() == old(self).target_bits(),
            r is Ok <==> ogg_headers_ok(stream@) && MIN_METER_RATE <= vorbis_sample_rate(stream@)
                <= MAX_METER_RATE,
            !ogg_headers_ok(stream@) ==> r == Err::<(), NormError>(NormError::DecodeError),
            ogg_headers_ok(stream@) && !(MIN_METER_RATE <= vorbis_sample_rate(stream@)
                <= MAX_METER_RATE) ==> r == Err::<(), NormError>(NormError::ConfigError),
            r is Ok ==> {
                &&& final(self).session_phase() is Configured
                &&& final(self).fed() == Seq::<i16>::empty()
                &&& final(self).pending() == vorbis_packets(stream@)
                &&& final(self).plan().wf()
                &&& final(self).plan().source_channels == vorbis_channel_count(stream@)
                &&& final(self).source_rate() == vorbis_sample_rate(stream@)
                &&& final(self).result_bits() is None
            },
            r is Err ==> {
                &&& final(self).session_phase() is Idle
                &&& final(self).result_bits() is None
            },
    {
        self.phase = SessionPhase::Idle;
        self.reader = None;
        self.meter = None;
        self.normalization_result = None;
        let reader = match open_source(stream) {
            Ok(rd) => rd,
            Err(_) => {
                return Err(NormError::DecodeError);
            },
        };
        let channels = source_channels(&reader);
        let rate = source_sample_rate(&reader);
        let plan = RemapPlan::select(channels);
        let meter_new = if plan.target_channels == 1 {
            LoudnessAccumulator::new_mono(rate)
        } else {
            LoudnessAccumulator::new_stereo(rate)
        };
        let meter = match meter_new {
            Ok(m) => m,
            Err(e) => {
                return Err(e);
            },
        };
        self.reader = Some(reader);
        self.meter = Some(meter);
        self.plan = plan;
        self.phase = SessionPhase::Configured;
        Ok(())
    }

    /// Performs one bounded step of the measurement: decodes exactly one
    /// packet, remaps it and feeds it to the accumulator, returning
    /// `Ok(false)`; or, at the end of the stream, finalizes the measurement,
    /// caches the result and returns `Ok(true)`.  A step on a finished
    /// session returns `Ok(true)` again and changes nothing.  The one
    /// failure is a decode error — owed never to happen while the next
    /// packet decodes cleanly — which surfaces as `DecodeError` and
    /// discards the in-flight state.
    pub fn work_on_normalization(&mut self) -> (r: Result<bool, NormError>)
        requires
            old(self).wf(),
            !(old(self).session_phase() is Idle),
        ensures
            final(self).wf(),
            final(self).target_bits() == old(self).target_bits(),
            r is Err <==> !old(self).decode_ok(),
            old(self).session_phase() is Finished ==> r == Ok::<bool, NormError>(true)
                && *final(self) == *old(self),
            r is Ok ==> (r == Ok::<bool, NormError>(true) <==> old(self).pending().len() == 0),
            r == Ok::<bool, NormError>(false) ==> {
                &&& old(self).pending().len() > 0
                &&& final(self).session_phase() is Running
                &&& final(self).fed() == old(self).fed() + remapped(
                    old(self).pending().first(),
                    old(self).plan().source_channels as nat,
                    old(self).plan().target_channels as nat,
                )
                &&& final(self).pending() == old(self).pending().drop_first()
                &&& final(self).plan() == old(self).plan()
                &&& final(self).source_rate() == old(self).source_rate()
                &&& final(self).result_bits() is None
            },
            !(old(self).session_phase() is Finished) && r == Ok::<bool, NormError>(true) ==> {
                &&& final(self).session_phase() is Finished
                &&& final(self).result_bits() == Some(
                    if old(self).fed().len() == 0 {
                        old(self).target_bits()
                    } else {
                        loudness_of(
                            old(self).fed(),
                            old(self).plan().target_channels as u32,
                            old(self).source_rate(),
                        )
                    },
                )
            },
            r matches Err(e) ==> {
                &&& e == NormError::DecodeError
                &&& final(self).session_phase() is Idle
            },
    {
        if self.phase == SessionPhase::Finished {
            return Ok(true);
        }
        let packet = match &mut self.reader {
            Some(rd) => read_packet(rd),
            None => {
                proof {
                    assert(false);
                }
                return Err(NormError::DecodeError);
            },
        };
        match packet {
            Ok(Some(samples)) => {
                let remapped_samples = remap_frames(&samples, &self.plan);
                proof {
                    let c = self.plan.source_channels as int;
                    let t = self.plan.target_channels as int;
                    assert(self.plan == old(self).plan());
                    assert(old(self).plan().wf());
                    assert(t == 1 || t == 2);
                    if c > 0 {
                        crate::remap::lemma_remapped_len(
                            samples@,
                            self.plan.source_channels as nat,
                            self.plan.target_channels as nat,
                        );
                        assert(vstd::math::min(t, c) == t);
                        vstd::arithmetic::div_mod::lemma_mod_multiples_basic(
                            samples@.len() as int / c,
                            t,
                        );
                    } else {
                        assert(remapped_samples@.len() == 0);
                    }
                    assert(remapped_samples@.len() as int % t == 0);
                }
                let fed_ok = match &mut self.meter {
                    Some(m) => m.feed(&remapped_samples),
                    None => {
                        proof {
                            assert(false);
                        }
                        return Err(NormError::DecodeError);
                    },
                };
                match fed_ok {
                    Ok(()) => {},
                    Err(_) => {
                        proof {
                            assert(false);
                        }
                        return Err(NormError::DecodeError);
                    },
                }
                self.phase = SessionPhase::Running;
                Ok(false)
            },
            Ok(None) => {
                let bits = match &self.meter {
                    Some(m) => m.finalize(self.target_loudness_bits),
                    None => {
                        proof {
                            assert(false);
                        }
                        return Err(NormError::DecodeError);
                    },
                };
                self.normalization_result = Some(bits);
                self.phase = SessionPhase::Finished;
                Ok(true)
            },
            Err(_) => {
                self.reader = None;
                self.meter = None;
                self.normalization_result = None;
                self.phase = SessionPhase::Idle;
                Err(NormError::DecodeError)
            },
        }
    }

    /// The cached measurement as IEEE-754 bits, or `0` — the bits of `0.0`
    /// — while no measurement has finished.  Callers distinguish "measured
    /// as zero" from "not measured" through the session phase, never
    /// through this sentinel.
    pub fn get_normalization_result(&self) -> (r: u64)
        requires
            self.wf(),
        ensures
            self.session_phase() is Finished ==> Some(r) == self.result_bits(),
            !(self.session_phase() is Finished) ==> r == 0u64,
    {
        match &self.normalization_result {
            Some(bits) => *bits,
            None => 0,
        }
    }

    /// Where the session stands.
    pub fn phase(&self) -> (r: SessionPhase)
        ensures
            r == self.session_phase(),
    {
        self.phase
    }

    /// The configured target loudness, as IEEE-754 bits of a LUFS value.
    pub fn target_loudness(&self) -> (r: u64)
        ensures
            r == self.target_bits(),
    {
        self.target_loudness_bits
    }

    /// The number of measurement channels chosen for the configured source.
    pub fn remapped_size(&self) -> (r: u8)
        ensures
            r == self.plan().target_channels,
    {
        self.plan.target_channels
    }

    /// Whether the configured source needed the fallback mapping — a host
    /// may surface this as a diagnostic.
    pub fn used_fallback(&self) -> (r: bool)
        ensures
            r == self.plan().fallback,
    {
        self.plan.fallback
    }
}

} // verus!
