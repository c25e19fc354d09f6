use vstd::math::min;
use vstd::prelude::*;

verus! {

/// The shape of a source's channel layout.
#[derive(Clone, Copy, Debug, PartialEq, Eq, Structural)]
pub enum ChannelLayout {
    /// Exactly one channel.
    Mono,
    /// Exactly two channels.
    Stereo,
    /// Any other channel count, including zero.
    Multi(u8),
}

/// The layout a given source channel count falls under.
pub open spec fn layout_of(channels: u8) -> ChannelLayout {
    if channels == 1 {
        ChannelLayout::Mono
    } else if channels == 2 {
        ChannelLayout::Stereo
    } else {
        ChannelLayout::Multi(channels)
    }
}

/// The layout a given source channel count falls under.
pub fn channel_layout(channels: u8) -> (r: ChannelLayout)
    ensures
        r == layout_of(channels),
{
    if channels == 1 {
        ChannelLayout::Mono
    } else if channels == 2 {
        ChannelLayout::Stereo
    } else {
        ChannelLayout::Multi(channels)
    }
}

/// How many measurement channels a source with `channels` channels is
/// reduced to: one for mono, two for everything else.
pub open spec fn measurement_width(channels: u8) -> u8 {
    if channels == 1 {
        1u8
    } else {
        2u8
    }
}

/// Whether reducing `channels` channels needs the fallback mapping, which
/// measures only the first two channels and deserves a diagnostic.
pub open spec fn needs_fallback(channels: u8) -> bool {
    channels == 0 || channels > 2
}

/// How a source layout is reduced to the canonical measurement layout.
#[derive(Clone, Copy, Debug, PartialEq, Eq, Structural)]
pub struct RemapPlan {
    /// The source's channel count.
    pub source_channels: u8,
    /// The number of leading channels kept for measurement, one or two.
    pub target_channels: u8,
    /// Whether the fallback mapping was chosen rather than an exact one.
    pub fallback: bool,
}

impl RemapPlan {
    /// A plan is faithful to its source channel count.
    pub open spec fn wf(&self) -> bool {
        &&& self.target_channels == measurement_width(self.source_channels)
        &&& self.fallback == needs_fallback(self.source_channels)
    }

    /// Chooses the measurement layout for a source channel count: one Center
    /// channel for mono, Left/Right for stereo, and the Left/Right fallback
    /// over the first two channels for any other count.
    pub fn select(channels: u8) -> (r: RemapPlan)
        ensures
            r.wf(),
            r.source_channels == channels,
    {
        if channels == 1 {
            RemapPlan { source_channels: channels, target_channels: 1, fallback: false }
        } else if channels == 2 {
            RemapPlan { source_channels: channels, target_channels: 2, fallback: false }
        } else {
            RemapPlan { source_channels: channels, target_channels: 2, fallback: true }
        }
    }
}

/// The samples kept when each complete frame of `channels` interleaved
/// samples is reduced to its leading `target` samples.  A trailing partial
/// frame is dropped; a zero-channel source yields nothing.
pub open spec fn remapped(s: Seq<i16>, channels: nat, target: nat) -> Seq<i16>
    decreases s.len(),
{
    if channels == 0 || s.len() < channels {
        Seq::<i16>::empty()
    } else {
        s.take(min(target as int, channels as int)) + remapped(
            s.skip(channels as int),
            channels,
            target,
        )
    }
}

/// Reducing one more complete frame extends the remapped sequence by that
/// frame's leading samples.
pub proof fn lemma_remapped_push_frame(s: Seq<i16>, frame: Seq<i16>, channels: nat, target: nat)
    requires
        channels > 0,
        s.len() as int % (channels as int) == 0,
        frame.len() == channels,
    ensures
        remapped(s + frame, channels, target) == remapped(s, channels, target) + frame.take(
            min(target as int, channels as int),
        ),
    decreases s.len(),
{
    let c = channels as int;
    let t = min(target as int, c);
    if s.len() == 0 {
        assert(s + frame =~= frame);
        assert(frame.skip(c) =~= Seq::<i16>::empty());
        assert(remapped(frame.skip(c), channels, target) =~= Seq::<i16>::empty());
        assert(remapped(frame, channels, target) =~= frame.take(t) + Seq::<i16>::empty());
        assert(frame.take(t) + Seq::<i16>::empty() =~= frame.take(t));
        assert(remapped(s, channels, target) + frame.take(t) =~= frame.take(t));
    } else {
        assert(s.len() >= channels) by {
            assert(s.len() as int % c == 0);
            assert(0 < s.len() < c ==> s.len() as int % c == s.len() as int) by (nonlinear_arith);
        }
        let rest = s.skip(c);
        assert(rest.len() as int % c == 0) by {
            assert((s.len() as int - c) % c == s.len() as int % c) by (nonlinear_arith)
                requires
                    c > 0,
            ;
        }
        lemma_remapped_push_frame(rest, frame, channels, target);
        assert((s + frame).take(t) =~= s.take(t));
        assert((s + frame).skip(c) =~= rest + frame);
        assert(remapped(s + frame, channels, target) =~= s.take(t) + (remapped(
            rest,
            channels,
            target,
        ) + frame.take(t)));
        assert(remapped(s, channels, target) + frame.take(t) =~= s.take(t) + (remapped(
            rest,
            channels,
            target,
        ) + frame.take(t)));
    }
}

/// The remapped sequence of a whole-frame sequence holds `target` samples
/// per frame (all of them, if a frame is narrower).
pub proof fn lemma_remapped_len(s: Seq<i16>, channels: nat, target: nat)
    requires
        channels > 0,
    ensures
        remapped(s, channels, target).len() == (s.len() as int / (channels as int)) * min(
            target as int,
            channels as int,
        ),
    decreases s.len(),
{
    let c = channels as int;
    let t = min(target as int, c);
    if s.len() < channels {
        assert(s.len() as int / c == 0) by (nonlinear_arith)
            requires
                0 <= s.len() < c,
        ;
    } else {
        lemma_remapped_len(s.skip(c), channels, target);
        assert(s.skip(c).len() as int / c == s.len() as int / c - 1) by (nonlinear_arith)
            requires
                c > 0,
                s.skip(c).len() == s.len() - c,
                s.len() >= c,
        ;
        assert((s.len() as int / c - 1) * t + t == (s.len() as int / c) * t) by (nonlinear_arith);
    }
}

/// Extracts the leading `plan.target_channels` samples of every complete
/// frame of an interleaved packet, in frame order, discarding the rest.
pub fn remap_frames(samples: &Vec<i16>, plan: &RemapPlan) -> (r: Vec<i16>)
    ensures
        r@ == remapped(samples@, plan.source_channels as nat, plan.target_channels as nat),
{
    let c: usize = plan.source_channels as usize;
    let t_full: usize = plan.target_channels as usize;
    if c == 0 {
        let out: Vec<i16> = Vec::new();
        return out;
    }
    let t: usize = if t_full < c {
        t_full
    } else {
        c
    };
    let total: usize = samples.len();
    let nframes: usize = total / c;
    let mut out: Vec<i16> = Vec::new();
    let mut i: usize = 0;
    proof {
        assert(samples@.subrange(0, 0) =~= Seq::<i16>::empty());
    }
    while i < nframes
        invariant
            c > 0,
            c == plan.source_channels as int,
            t == min(plan.target_channels as int, c as int),
            total == samples@.len(),
            nframes == samples@.len() as int / c as int,
            i <= nframes,
            out@ == remapped(
                samples@.subrange(0, i as int * c as int),
                plan.source_channels as nat,
                plan.target_channels as nat,
            ),
        decreases nframes - i,
    {
        proof {
            assert(i as int * c as int + c as int <= total as int
                && i as int * c as int >= 0) by (nonlinear_arith)
                requires
                    c > 0,
                    0 <= i < nframes,
                    nframes == total as int / c as int,
            ;
        }
        let base: usize = i * c;
        let mut j: usize = 0;
        while j < t
            invariant
                c > 0,
                j <= t,
                t <= c,
                base == i as int * c as int,
                total == samples@.len(),
                base + c <= total,
                out@ == remapped(
                    samples@.subrange(0, i as int * c as int),
                    plan.source_channels as nat,
                    plan.target_channels as nat,
                ) + samples@.subrange(i as int * c as int, i as int * c as int + j as int),
            decreases t - j,
        {
            out.push(samples[base + j]);
            j = j + 1;
        }
        proof {
            let prefix = samples@.subrange(0, i as int * c as int);
            let frame = samples@.subrange(i as int * c as int, i as int * c as int + c as int);
            assert(prefix.len() as int % (c as int) == 0) by (nonlinear_arith)
                requires
                    c > 0,
                    prefix.len() == i as int * c as int,
            ;
            lemma_remapped_push_frame(
                prefix,
                frame,
                plan.source_channels as nat,
                plan.target_channels as nat,
            );
            assert((i + 1) as int * c as int == i as int * c as int + c as int)
                by (nonlinear_arith);
            assert(prefix + frame =~= samples@.subrange(0, (i + 1) as int * c as int));
            assert(frame.take(t as int) =~= samples@.subrange(
                i as int * c as int,
                i as int * c as int + t as int,
            ));
        }
        i = i + 1;
    }
    proof {
        lemma_remapped_prefix(
            samples@,
            plan.source_channels as nat,
            plan.target_channels as nat,
            nframes as nat,
        );
    }
    out
}

/// The remapped sequence only depends on the complete frames: the trailing
/// partial frame contributes nothing.
proof fn lemma_remapped_prefix(s: Seq<i16>, channels: nat, target: nat, nframes: nat)
    requires
        channels > 0,
        nframes == s.len() as int / channels as int,
    ensures
        remapped(s, channels, target) == remapped(
            s.subrange(0, nframes as int * channels as int),
            channels,
            target,
        ),
    decreases s.len(),
{
    let c = channels as int;
    let len = s.len() as int;
    vstd::arithmetic::div_mod::lemma_fundamental_div_mod(len, c);
    vstd::arithmetic::div_mod::lemma_mod_bound(len, c);
    assert(nframes as int * c == c * (len / c)) by (nonlinear_arith)
        requires
            nframes == len / c,
    ;
    assert(0 <= nframes as int * c <= len);
    if s.len() < channels {
        assert(s.len() as int / c == 0) by (nonlinear_arith)
            requires
                0 <= s.len() < c,
        ;
        assert(s.subrange(0, 0) =~= Seq::<i16>::empty());
    } else {
        let rest = s.skip(c);
        let m = rest.len() as int / c;
        assert((nframes as int - 1) * c == c * (len / c) - c) by (nonlinear_arith)
            requires
                nframes == len / c,
        ;
        vstd::arithmetic::div_mod::lemma_fundamental_div_mod_converse_div(
            len - c,
            c,
            nframes as int - 1,
            len % c,
        );
        assert(m == nframes - 1);
        lemma_remapped_prefix(rest, channels, target, m as nat);
        assert(m as int * c == nframes as int * c - c) by (nonlinear_arith)
            requires
                m == nframes - 1,
        ;
        let cut = s.subrange(0, nframes as int * c);
        assert(cut.take(min(target as int, c)) =~= s.take(min(target as int, c)));
        assert(cut.skip(c) =~= rest.subrange(0, m * c));
    }
}

} // verus!
