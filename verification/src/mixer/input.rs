//! One source's audio on its way into the mix.
use super::{
    count, counted, frames_in, frames_of, least, less, most, Backpressure, MixerCounters, Supply,
    LEAD, LIVE_BUDGET, RATE, STALE_AFTER,
};
use crate::span::Span;
use std::collections::VecDeque;
use vstd::prelude::*;

verus! {

/// What an input holds and has done.
#[verifier::ext_equal]
pub struct InputState<S> {
    /// What this input does when the mix has no room.
    pub backpressure: Backpressure,
    /// When it was last fed, if ever.
    pub last_fed: Option<Span>,
    /// Interleaved stereo waiting to be mixed, oldest first.
    pub samples: Seq<S>,
    /// Whether its writer has gone.
    pub closed: bool,
    /// Blocks given up on because the mixer was not draining; it wraps around.
    pub dropped: u64,
    /// Frames of its own audio let go; it wraps around.
    pub shed: u64,
    /// The shape of what is being written.
    pub shape: Option<(u32, u16)>,
}

/// What became of a block.
#[derive(Debug, Clone, Copy, PartialEq, Eq, Structural)]
pub enum Offered {
    /// It is in the ring.
    Taken,
    /// There is no room yet for more than the first `taken` samples of it, which are in the
    /// ring. Ask again with the rest once the mixer has drained something, or once the
    /// deadline has passed.
    Wait {
        /// How many samples were taken.
        taken: usize,
    },
    /// The deadline passed first: what there was no room for is lost.
    Dropped,
}

/// What one input puts into one pass.
#[verifier::ext_equal]
pub struct PulledState<S> {
    /// The input's samples and where in the pass they begin, unless it puts nothing in.
    pub part: Option<(nat, Seq<S>)>,
    /// The input afterwards.
    pub after: InputState<S>,
    /// Frames taken out of its ring.
    pub drained: nat,
    /// Frames it owed and did not have.
    pub starved: nat,
    /// Frames it had no reason to have.
    pub idle: nat,
}

impl<S> InputState<S> {
    /// Whole frames waiting.
    pub open spec fn queued(self) -> nat {
        self.samples.len() / 2
    }

    /// What it can put into a pass at `now`.
    pub open spec fn supply(self, now: Span) -> Supply {
        if self.closed {
            Supply::Tail { frames: self.queued() as u64 }
        } else {
            match self.last_fed {
                None => Supply::Surface,
                Some(at) => if self.queued() == 0 && less(now@, at@) >= STALE_AFTER {
                    Supply::Quiescent
                } else {
                    Supply::Flowing { frames: self.queued() as u64 }
                },
            }
        }
    }

    /// Whether it still has a place in the mix: it is open, or it has whole frames to play
    /// out.
    pub open spec fn is_live(self) -> bool {
        !self.closed || self.queued() > 0
    }

    /// How many samples the budget leaves for the ring, the device's share of it counted.
    pub open spec fn room(self, device: nat) -> nat {
        less(self.backpressure.budget(), device) * 2
    }

    /// How many of the oldest samples have to go for the ring and a block of `len` to fit
    /// inside the budget.
    pub open spec fn over(self, len: nat, device: nat) -> nat {
        less(self.samples.len() + len, self.room(device))
    }

    /// How many samples of a block of `len` fit inside the budget, the device's share of it
    /// counted: all of them, or as many whole frames as there is room for.
    pub open spec fn fits(self, len: nat, device: nat) -> nat {
        let room = less(self.room(device), self.samples.len());
        if len <= room {
            len
        } else {
            room / 2 * 2
        }
    }

    /// What offering a block makes of the input, the mixer's counters and the block.
    pub open spec fn offered(
        self,
        stereo: Seq<S>,
        device: nat,
        now: Span,
        expired: bool,
        counters: MixerCounters,
    ) -> (InputState<S>, MixerCounters, Offered) {
        let incoming = stereo.len() / 2;
        if self.closed {
            (
                InputState { samples: self.samples + stereo, last_fed: Some(now), ..self },
                MixerCounters { written: counted(counters.written, incoming), ..counters },
                Offered::Taken,
            )
        } else if self.backpressure == Backpressure::Live {
            let over = self.over(stereo.len(), device);
            let shed = over / 2;
            (
                InputState {
                    samples: (self.samples + stereo).skip(over as int),
                    last_fed: Some(now),
                    shed: counted(self.shed, shed),
                    ..self
                },
                MixerCounters {
                    written: counted(counters.written, incoming),
                    shed: counted(counters.shed, shed),
                    ..counters
                },
                Offered::Taken,
            )
        } else {
            let many = self.fits(stereo.len(), device);
            let fed = InputState {
                samples: self.samples + stereo.take(many as int),
                last_fed: if many > 0 || stereo.len() == 0 {
                    Some(now)
                } else {
                    self.last_fed
                },
                ..self
            };
            let totals = MixerCounters { written: counted(counters.written, many / 2), ..counters };
            if many == stereo.len() {
                (fed, totals, Offered::Taken)
            } else if expired {
                (InputState { dropped: counted(self.dropped, 1), ..fed }, totals, Offered::Dropped)
            } else {
                (fed, totals, Offered::Wait { taken: many as usize })
            }
        }
    }

    /// What throwing away everything queued makes of the input and the mixer's counters: the
    /// frames are counted among those let go.
    pub open spec fn flushed(self, counters: MixerCounters) -> (InputState<S>, MixerCounters) {
        (
            InputState { samples: Seq::empty(), ..self },
            MixerCounters { shed: counted(counters.shed, self.queued()), ..counters },
        )
    }

    /// What the input puts into a pass of `frames` at `now`.
    ///
    /// The shortfall leads and the audio trails: deferral, not a hole.
    pub open spec fn pulled(self, frames: nat, now: Span) -> PulledState<S> {
        let nothing = PulledState { part: None, after: self, drained: 0, starved: 0, idle: 0 };
        match self.supply(now) {
            Supply::Surface => nothing,
            Supply::Quiescent => PulledState { idle: frames, ..nothing },
            Supply::Flowing { .. } | Supply::Tail { .. } => {
                let take = least(self.queued(), frames);
                let short = (frames - take) as nat;
                PulledState {
                    part: Some((short * 2, self.samples.take((take * 2) as int))),
                    after: InputState { samples: self.samples.skip((take * 2) as int), ..self },
                    drained: take,
                    starved: if self.closed {
                        0
                    } else {
                        short
                    },
                    idle: if self.closed {
                        short
                    } else {
                        0
                    },
                }
            },
        }
    }
}

/// What one input puts into one pass.
#[derive(Debug, Clone)]
pub struct Part<S> {
    /// The sample of the pass that its own first sample is summed into. Those before it are
    /// the front padding.
    pub offset: usize,
    /// Its samples, to the end of the pass.
    pub samples: Vec<S>,
}

impl<S> Part<S> {
    /// The part as a spec value.
    pub open spec fn view(self) -> (nat, Seq<S>) {
        (self.offset as nat, self.samples@)
    }
}

/// What the conversion of a source's blocks to the mix's own shape takes.
#[derive(Debug, Clone, Copy, PartialEq, Eq, Structural)]
pub struct Convert {
    /// The channels of a block.
    pub channels: u16,
    /// The rate to resample from. Absent when the source is already at [`RATE`].
    pub resample: Option<u32>,
}

impl Convert {
    /// The conversion that blocks of a rate and channel count take.
    pub open spec fn of(sample_rate: u32, channels: u16) -> Convert {
        Convert {
            channels: if channels == 0 {
                1
            } else {
                channels
            },
            resample: if sample_rate == RATE {
                None
            } else {
                Some(sample_rate)
            },
        }
    }

    /// The conversion that blocks of a rate and channel count take.
    pub fn open(sample_rate: u32, channels: u16) -> (convert: Convert)
        ensures
            convert == Convert::of(sample_rate, channels),
    {
        Convert {
            channels: if channels == 0 {
                1
            } else {
                channels
            },
            resample: if sample_rate == RATE {
                None
            } else {
                Some(sample_rate)
            },
        }
    }
}

/// Interleaved audio of so many channels as interleaved stereo.
pub open spec fn stereo_of<S>(samples: Seq<S>, channels: nat) -> Seq<S> {
    if channels == 2 {
        samples
    } else if channels <= 1 {
        Seq::new(samples.len() * 2, |i: int| samples[i / 2])
    } else {
        Seq::new(
            samples.len() / channels * 2,
            |i: int| samples[(i / 2) * channels + i % 2],
        )
    }
}

/// Interleaved `channels`-channel audio as interleaved stereo.
///
/// Mono is duplicated. Anything wider than stereo keeps its first two channels, which in
/// every standard layout are front left and front right.
pub fn to_stereo<S: Copy>(samples: &[S], channels: u16) -> (stereo: Vec<S>)
    requires
        channels <= 1 ==> samples@.len() * 2 <= usize::MAX,
    ensures
        stereo@ == stereo_of(samples@, channels as nat),
{
    let len: usize = samples.len();
    let mut stereo: Vec<S> = Vec::new();
    if channels == 2 {
        let mut i: usize = 0;
        while i < len
            invariant
                i <= len == samples@.len(),
                stereo@ == samples@.take(i as int),
            decreases len - i,
        {
            stereo.push(samples[i]);
            i += 1;
            proof {
                assert(samples@.take(i as int) =~= samples@.take(i - 1).push(samples@[i - 1]));
            }
        }
        proof {
            assert(samples@.take(len as int) =~= samples@);
        }
        return stereo;
    }
    if channels <= 1 {
        let mut i: usize = 0;
        while i < len
            invariant
                i <= len == samples@.len(),
                channels <= 1,
                stereo@.len() == i * 2,
                forall|k: int| 0 <= k < i * 2 ==> #[trigger] stereo@[k] == samples@[k / 2],
            decreases len - i,
        {
            stereo.push(samples[i]);
            stereo.push(samples[i]);
            i += 1;
        }
        proof {
            assert(stereo@ =~= stereo_of(samples@, channels as nat));
        }
        return stereo;
    }
    let wide: usize = channels as usize;
    let chunks: usize = len / wide;
    let mut i: usize = 0;
    while i < chunks
        invariant
            i <= chunks,
            chunks == samples@.len() / wide as nat,
            wide == channels,
            wide > 2,
            len == samples@.len(),
            stereo@.len() == i * 2,
            forall|k: int|
                0 <= k < i * 2 ==> #[trigger] stereo@[k] == samples@[(k / 2) * wide + k % 2],
        decreases chunks - i,
    {
        proof {
            assert(i * wide + wide <= len) by (nonlinear_arith)
                requires
                    i < chunks,
                    chunks == len / wide,
                    wide > 2,
            ;
        }
        stereo.push(samples[i * wide]);
        stereo.push(samples[i * wide + 1]);
        i += 1;
    }
    proof {
        assert(stereo@ =~= stereo_of(samples@, channels as nat));
    }
    stereo
}

/// One source's entrance to the mix.
pub struct MixInput<S> {
    backpressure: Backpressure,
    last_fed: Option<Span>,
    samples: VecDeque<S>,
    closed: bool,
    dropped: u64,
    shed: u64,
    shape: Option<(u32, u16)>,
}

impl<S> View for MixInput<S> {
    type V = InputState<S>;

    closed spec fn view(&self) -> InputState<S> {
        InputState {
            backpressure: self.backpressure,
            last_fed: self.last_fed,
            samples: self.samples@,
            closed: self.closed,
            dropped: self.dropped,
            shed: self.shed,
            shape: self.shape,
        }
    }
}

impl<S: Copy> MixInput<S> {
    /// An input that nothing has been written to.
    pub fn new(backpressure: Backpressure) -> (input: MixInput<S>)
        ensures
            input@ == (InputState {
                backpressure,
                last_fed: None,
                samples: Seq::<S>::empty(),
                closed: false,
                dropped: 0,
                shed: 0,
                shape: None,
            }),
    {
        MixInput {
            backpressure,
            last_fed: None,
            samples: VecDeque::new(),
            closed: false,
            dropped: 0,
            shed: 0,
            shape: None,
        }
    }

    /// Whole frames waiting.
    pub fn queued_frames(&self) -> (frames: u64)
        ensures
            frames == self@.queued(),
    {
        self.samples.len() as u64 / 2
    }

    /// Blocks given up on because the mixer was not draining.
    pub fn dropped(&self) -> (blocks: u64)
        ensures
            blocks == self@.dropped,
    {
        self.dropped
    }

    /// Frames of this input's own audio that were let go.
    pub fn shed(&self) -> (frames: u64)
        ensures
            frames == self@.shed,
    {
        self.shed
    }

    /// What this input can put into a pass, decided fresh each pass.
    pub fn supply(&self, now: Span) -> (supply: Supply)
        ensures
            supply == self@.supply(now),
    {
        let frames: u64 = self.queued_frames();
        if self.closed {
            return Supply::Tail { frames };
        }
        match self.last_fed {
            None => Supply::Surface,
            Some(at) => {
                if frames == 0 && now.saturating_sub(&at).nanos >= STALE_AFTER {
                    Supply::Quiescent
                } else {
                    Supply::Flowing { frames }
                }
            },
        }
    }

    /// Whether this input is open, or still has audio to play out.
    pub fn live(&self) -> (live: bool)
        ensures
            live == self@.is_live(),
    {
        !self.closed || self.queued_frames() > 0
    }

    /// Declare the shape of what follows: the conversion to build for it, or nothing where
    /// the shape is the one at hand.
    pub fn format(&self, sample_rate: u32, channels: u16) -> (convert: Option<Convert>)
        ensures
            convert == if self@.shape == Some((sample_rate, channels)) {
                None
            } else {
                Some(Convert::of(sample_rate, channels))
            },
    {
        if let Some((rate, count)) = self.shape {
            if rate == sample_rate && count == channels {
                return None;
            }
        }
        Some(Convert::open(sample_rate, channels))
    }

    /// The conversion for a shape is built: what is written from here on has that shape.
    pub fn formatted(&mut self, sample_rate: u32, channels: u16)
        ensures
            final(self)@ == (InputState { shape: Some((sample_rate, channels)), ..old(self)@ }),
    {
        self.shape = Some((sample_rate, channels));
    }

    /// The writer has gone. What is queued still plays out.
    pub fn close(&mut self)
        ensures
            final(self)@ == (InputState { closed: true, ..old(self)@ }),
    {
        self.closed = true;
    }

    /// Throw away everything queued but not yet mixed, which is what a seek does: the queued
    /// audio is from before it.
    ///
    /// What is thrown away is counted with what was shed, so that the totals still balance.
    /// Hands back the conversion to rebuild, where one resamples: its delay line holds
    /// samples from before the seek too.
    pub fn flush(&mut self, counters: &mut MixerCounters) -> (rebuild: Option<Convert>)
        ensures
            (final(self)@, *final(counters)) == old(self)@.flushed(*old(counters)),
            rebuild == match old(self)@.shape {
                Some(shape) => if shape.0 != RATE {
                    Some(Convert::of(shape.0, shape.1))
                } else {
                    None
                },
                None => None,
            },
    {
        counters.shed = count(counters.shed, self.queued_frames());
        self.samples.clear();
        match self.shape {
            Some((rate, channels)) => if rate != RATE {
                Some(Convert::open(rate, channels))
            } else {
                None
            },
            None => None,
        }
    }

    /// Make room for `stereo` inside this input's budget, then append.
    ///
    /// How the room is made is [`Backpressure`]'s whole subject: a pull source puts in what
    /// fits and waits with the rest until the mixer has drained — `expired` says that its
    /// deadline has passed — and a live one sheds its oldest audio and carries on.
    pub fn offer(
        &mut self,
        stereo: &[S],
        device_inflight: u64,
        now: Span,
        expired: bool,
        counters: &mut MixerCounters,
    ) -> (offered: Offered)
        requires
            old(self)@.samples.len() + stereo@.len() <= usize::MAX,
        ensures
            (final(self)@, *final(counters), offered) == old(self)@.offered(
                stereo@,
                device_inflight as nat,
                now,
                expired,
                *old(counters),
            ),
    {
        let budget: u64 = match self.backpressure {
            Backpressure::Pull => frames_in(Span { nanos: LEAD }),
            Backpressure::Live => frames_in(Span { nanos: LIVE_BUDGET }),
        };
        let len: usize = stereo.len();
        let held: usize = self.samples.len();
        let room: u64 = budget.saturating_sub(device_inflight);
        proof {
            assert(stereo@.take(len as int) =~= stereo@);
            assert(self.samples@.len() == held);
        }
        if self.closed {
            self.append(stereo, len, now, counters);
            return Offered::Taken;
        }
        if self.backpressure == Backpressure::Live {
            let over: usize = (held + len).saturating_sub(room as usize * 2);
            self.append(stereo, len, now, counters);
            self.drop_front(over);
            let frames: u64 = over as u64 / 2;
            self.shed = count(self.shed, frames);
            counters.shed = count(counters.shed, frames);
            return Offered::Taken;
        }
        let free: u64 = (room * 2).saturating_sub(held as u64);
        if len as u64 <= free {
            self.append(stereo, len, now, counters);
            return Offered::Taken;
        }
        let many: usize = (free / 2) as usize * 2;
        if many > 0 {
            self.append(stereo, many, now, counters);
        } else {
            proof {
                assert(self@.samples + stereo@.take(0) =~= self@.samples);
                assert(counted(old(counters).written, 0) == old(counters).written);
            }
        }
        if expired {
            self.dropped = count(self.dropped, 1);
            return Offered::Dropped;
        }
        Offered::Wait { taken: many }
    }

    /// Let the oldest samples go.
    fn drop_front(&mut self, many: usize)
        requires
            many <= old(self)@.samples.len(),
        ensures
            final(self)@ == (InputState {
                samples: old(self)@.samples.skip(many as int),
                ..old(self)@
            }),
    {
        let ghost before = self@;
        let mut i: usize = 0;
        while i < many
            invariant
                i <= many <= before.samples.len(),
                self@ == (InputState { samples: before.samples.skip(i as int), ..before }),
            decreases many - i,
        {
            let _ = self.samples.pop_front();
            i += 1;
            proof {
                assert(before.samples.skip(i as int) =~= before.samples.skip(
                    i - 1,
                ).drop_first());
                assert(self@.samples =~= before.samples.skip(i as int));
            }
        }
    }

    /// Put the first `many` samples of a block behind what is queued.
    fn append(&mut self, stereo: &[S], many: usize, now: Span, counters: &mut MixerCounters)
        requires
            many <= stereo@.len(),
            old(self)@.samples.len() + stereo@.len() <= usize::MAX,
        ensures
            final(self)@ == (InputState {
                samples: old(self)@.samples + stereo@.take(many as int),
                last_fed: Some(now),
                ..old(self)@
            }),
            *final(counters) == (MixerCounters {
                written: counted(old(counters).written, many as nat / 2),
                ..*old(counters)
            }),
    {
        let ghost before = self@;
        let mut i: usize = 0;
        proof {
            assert(self@.samples =~= before.samples + stereo@.take(0));
        }
        while i < many
            invariant
                i <= many <= stereo@.len(),
                self@ == (InputState {
                    samples: before.samples + stereo@.take(i as int),
                    ..before
                }),
            decreases many - i,
        {
            self.samples.push_back(stereo[i]);
            i += 1;
            proof {
                assert(self@.samples =~= before.samples + stereo@.take(i as int));
            }
        }
        self.last_fed = Some(now);
        counters.written = count(counters.written, many as u64 / 2);
    }

    /// Pull up to `frames` out of the ring for one pass.
    ///
    /// Whole frames only: taking an odd number of samples would swap this input's channels
    /// for the rest of the session. A shortfall is padded at the *front* of this input's
    /// part, so a source that is behind is deferred rather than perforated.
    pub fn pull(&mut self, frames: u64, now: Span, counters: &mut MixerCounters) -> (part: Option<
        Part<S>,
    >)
        requires
            frames * 2 <= usize::MAX,
        ensures
            ({
                let pulled = old(self)@.pulled(frames as nat, now);
                &&& final(self)@ == pulled.after
                &&& match part {
                    Some(part) => pulled.part == Some(part.view()),
                    None => pulled.part is None,
                }
                &&& *final(counters) == (MixerCounters {
                    drained: counted(old(counters).drained, pulled.drained),
                    starved: counted(old(counters).starved, pulled.starved),
                    idle: counted(old(counters).idle, pulled.idle),
                    ..*old(counters)
                })
            }),
    {
        let ghost before = self@;
        let supply = self.supply(now);
        proof {
            assert(self.samples@.len() == self.samples.len());
            assert(counted(counters.drained, 0) == counters.drained);
            assert(counted(counters.starved, 0) == counters.starved);
            assert(counted(counters.idle, 0) == counters.idle);
        }
        let available: u64 = match supply {
            Supply::Surface => {
                return None;
            },
            Supply::Quiescent => {
                counters.idle = count(counters.idle, frames);
                return None;
            },
            Supply::Flowing { frames } => frames,
            Supply::Tail { frames } => frames,
        };
        let take: u64 = if available <= frames {
            available
        } else {
            frames
        };
        let many: usize = take as usize * 2;
        let mut samples: Vec<S> = Vec::new();
        let mut i: usize = 0;
        while i < many
            invariant
                i <= many <= before.samples.len(),
                samples@ == before.samples.take(i as int),
                self@ == (InputState { samples: before.samples.skip(i as int), ..before }),
            decreases many - i,
        {
            if let Some(sample) = self.samples.pop_front() {
                samples.push(sample);
            }
            i += 1;
            proof {
                assert(self@.samples =~= before.samples.skip(i as int));
                assert(samples@ =~= before.samples.take(i as int));
            }
        }
        counters.drained = count(counters.drained, take);
        let short: u64 = frames - take;
        match supply {
            Supply::Flowing { .. } => {
                counters.starved = count(counters.starved, short);
            },
            Supply::Tail { .. } => {
                counters.idle = count(counters.idle, short);
            },
            Supply::Surface | Supply::Quiescent => {},
        }
        Some(Part { offset: short as usize * 2, samples })
    }
}

/// **What is invented and what is taken is what was asked for.** An input that was ever fed
/// answers a pass in full: taken, starved and idle frames add up to the pass; and a part ends
/// exactly where the pass does.
pub proof fn a_pass_is_accounted_for<S>(input: InputState<S>, frames: nat, now: Span)
    ensures
        input.supply(now) != Supply::Surface ==> {
            let pulled = input.pulled(frames, now);
            pulled.drained + pulled.starved + pulled.idle == frames
        },
        input.supply(now) == Supply::Surface ==> {
            let pulled = input.pulled(frames, now);
            pulled.drained + pulled.starved + pulled.idle == 0
        },
        input.pulled(frames, now).part matches Some(part) ==> part.0 + part.1.len() == frames * 2,
{
}

/// **What leaves the ring is what was drained, oldest first.** A pull hands out the front of
/// the ring and leaves the rest as it was.
pub proof fn a_pull_takes_the_front<S>(input: InputState<S>, frames: nat, now: Span)
    ensures
        ({
            let pulled = input.pulled(frames, now);
            let taken = match pulled.part {
                Some(part) => part.1,
                None => Seq::<S>::empty(),
            };
            &&& taken + pulled.after.samples == input.samples
            &&& taken.len() == pulled.drained * 2
            &&& pulled.after.queued() + pulled.drained == input.queued()
        }),
{
    let pulled = input.pulled(frames, now);
    let taken = match pulled.part {
        Some(part) => part.1,
        None => Seq::<S>::empty(),
    };
    assert(taken + pulled.after.samples =~= input.samples);
}

/// **A take pads nothing.** Where a flowing or closing input has what the pass asks for, it
/// is neither starved nor idle, and its audio begins at the start of the pass.
pub proof fn a_supplied_pass_has_no_silence<S>(input: InputState<S>, frames: nat, now: Span)
    requires
        super::limit_of(input.supply(now)) is Some,
        frames <= super::limit_of(input.supply(now))->0,
        input.samples.len() <= usize::MAX,
    ensures
        input.pulled(frames, now).starved == 0,
        input.pulled(frames, now).idle == 0,
        input.pulled(frames, now).drained == frames,
        input.pulled(frames, now).part matches Some(part) && part.0 == 0,
{
}

/// How many samples of a block an offer took.
pub open spec fn taken_of(offered: Offered, input: nat, after: nat, len: nat) -> nat {
    match offered {
        Offered::Taken => len,
        Offered::Wait { taken } => taken as nat,
        Offered::Dropped => (after - input) as nat,
    }
}

/// **What was written is what was drained plus what was shed plus what is left.** Whatever
/// is done to an input of whole frames — a block of whole frames offered, a pass pulled, the
/// ring flushed — the frames left in its ring grow by what is added to the total written, less
/// what is added to the totals drained and shed.
pub proof fn every_frame_is_accounted_for<S>(
    input: InputState<S>,
    stereo: Seq<S>,
    device: nat,
    frames: nat,
    now: Span,
    expired: bool,
    counters: MixerCounters,
)
    requires
        input.samples.len() % 2 == 0,
        stereo.len() % 2 == 0,
        stereo.len() <= usize::MAX,
        counters.written + stereo.len() / 2 <= u64::MAX,
        counters.shed + (input.samples.len() + stereo.len()) / 2 <= u64::MAX,
    ensures
        ({
            let (after, totals, offered) = input.offered(stereo, device, now, expired, counters);
            &&& after.samples.len() % 2 == 0
            &&& after.queued() + (totals.shed - counters.shed) == input.queued() + (totals.written
                - counters.written)
            &&& totals.drained == counters.drained
            &&& totals.written == counters.written + taken_of(
                offered,
                input.samples.len(),
                after.samples.len(),
                stereo.len(),
            ) / 2
        }),
        ({
            let pulled = input.pulled(frames, now);
            &&& pulled.after.samples.len() % 2 == 0
            &&& pulled.after.queued() + pulled.drained == input.queued()
        }),
        ({
            let (after, totals) = input.flushed(counters);
            &&& after.samples.len() % 2 == 0
            &&& after.queued() + (totals.shed - counters.shed) == input.queued()
            &&& totals.written == counters.written
            &&& totals.drained == counters.drained
        }),
{
    an_offer_is_accounted_for(input, stereo, device, now, expired, counters);
    a_pull_takes_the_front(input, frames, now);
}

proof fn an_offer_is_accounted_for<S>(
    input: InputState<S>,
    stereo: Seq<S>,
    device: nat,
    now: Span,
    expired: bool,
    counters: MixerCounters,
)
    requires
        input.samples.len() % 2 == 0,
        stereo.len() % 2 == 0,
        stereo.len() <= usize::MAX,
        counters.written + stereo.len() / 2 <= u64::MAX,
        counters.shed + (input.samples.len() + stereo.len()) / 2 <= u64::MAX,
    ensures
        ({
            let (after, totals, offered) = input.offered(stereo, device, now, expired, counters);
            &&& after.samples.len() % 2 == 0
            &&& after.queued() + (totals.shed - counters.shed) == input.queued() + (totals.written
                - counters.written)
            &&& totals.drained == counters.drained
            &&& totals.written == counters.written + taken_of(
                offered,
                input.samples.len(),
                after.samples.len(),
                stereo.len(),
            ) / 2
        }),
{
    let (after, totals, offered) = input.offered(stereo, device, now, expired, counters);
    if input.closed {
        a_total_that_fits_is_a_sum(counters.written, stereo.len() / 2);
    } else if input.backpressure == Backpressure::Live {
        let over = input.over(stereo.len(), device);
        assert(over % 2 == 0);
        a_total_that_fits_is_a_sum(counters.written, stereo.len() / 2);
        a_total_that_fits_is_a_sum(counters.shed, over / 2);
        assert(after.samples.len() == input.samples.len() + stereo.len() - over);
    } else {
        let many = input.fits(stereo.len(), device);
        assert(many % 2 == 0 && many <= stereo.len());
        a_total_that_fits_is_a_sum(counters.written, many / 2);
        assert(after.samples.len() == input.samples.len() + many);
    }
}

/// A running total that does not wrap is the sum.
proof fn a_total_that_fits_is_a_sum(total: u64, by: nat)
    requires
        total + by <= u64::MAX,
    ensures
        counted(total, by) == total + by,
{
    vstd::arithmetic::div_mod::lemma_small_mod((total + by) as nat, 0x1_0000_0000_0000_0000);
}

/// **A source runs no further ahead than its lead.** Once an open pull source has put anything
/// in, its ring and the device together hold the lead at most, and no more; and whatever it
/// offers, it never adds to what is already past that.
pub proof fn a_pull_source_is_held_to_its_lead<S>(
    input: InputState<S>,
    stereo: Seq<S>,
    device: nat,
    now: Span,
    expired: bool,
    counters: MixerCounters,
)
    requires
        input.backpressure == Backpressure::Pull,
        !input.closed,
    ensures
        ({
            let after = input.offered(stereo, device, now, expired, counters).0;
            &&& after.samples.len() > input.samples.len() ==> after.queued() + device <= frames_of(
                LEAD as nat,
            )
            &&& after.queued() + device <= most(frames_of(LEAD as nat), input.queued() + device)
        }),
{
}

/// **No block is cut in the wrong place.** What an open pull source puts in of a block is its
/// beginning, in whole frames where it is not all of it, and what waits is the rest; with room
/// for a frame at least, some of it goes in.
pub proof fn a_block_goes_in_from_the_front<S>(
    input: InputState<S>,
    stereo: Seq<S>,
    device: nat,
    now: Span,
    expired: bool,
    counters: MixerCounters,
)
    requires
        input.backpressure == Backpressure::Pull,
        !input.closed,
        stereo.len() <= usize::MAX,
    ensures
        ({
            let (after, _, offered) = input.offered(stereo, device, now, expired, counters);
            let many = after.samples.len() - input.samples.len();
            &&& 0 <= many <= stereo.len()
            &&& after.samples == input.samples + stereo.take(many)
            &&& (offered == Offered::Taken) == (many == stereo.len())
            &&& offered matches Offered::Wait { taken } ==> taken == many
            &&& many < stereo.len() ==> many % 2 == 0
            &&& input.samples.len() + 2 <= less(frames_of(LEAD as nat), device) * 2 && stereo.len()
                >= 2 ==> many > 0
        }),
{
}

/// **A live source is never made to wait, and loses its oldest audio first.** The block is
/// always taken; what the ring holds afterwards is the newest of what it held and the block;
/// and where the budget leaves room for the block, all of it is at the back of the ring.
pub proof fn a_live_source_never_waits<S>(
    input: InputState<S>,
    stereo: Seq<S>,
    device: nat,
    now: Span,
    expired: bool,
    counters: MixerCounters,
)
    requires
        input.backpressure == Backpressure::Live,
    ensures
        ({
            let (after, _, offered) = input.offered(stereo, device, now, expired, counters);
            let all = input.samples + stereo;
            &&& offered == Offered::Taken
            &&& after.samples.len() <= all.len()
            &&& after.samples == all.skip(all.len() - after.samples.len())
            &&& stereo.len() <= input.room(device) ==> {
                &&& after.samples.len() >= stereo.len()
                &&& after.samples.skip(after.samples.len() - stereo.len()) == stereo
            }
        }),
{
    let after = input.offered(stereo, device, now, expired, counters).0;
    let all = input.samples + stereo;
    assert(after.samples =~= all.skip(all.len() - after.samples.len()));
    if stereo.len() <= input.room(device) {
        assert(after.samples.skip(after.samples.len() - stereo.len()) =~= stereo);
    }
}

/// **A live source stays inside its budget, and is shed no further than that.** After every
/// block, what an open live source holds and what the device holds come to the budget at most;
/// and it holds all that fits.
pub proof fn a_live_source_stays_in_its_budget<S>(
    input: InputState<S>,
    stereo: Seq<S>,
    device: nat,
    now: Span,
    expired: bool,
    counters: MixerCounters,
)
    requires
        input.backpressure == Backpressure::Live,
        !input.closed,
    ensures
        ({
            let after = input.offered(stereo, device, now, expired, counters).0;
            &&& device <= frames_of(LIVE_BUDGET as nat) ==> after.queued() + device <= frames_of(
                LIVE_BUDGET as nat,
            )
            &&& after.samples.len() == least(
                input.samples.len() + stereo.len(),
                less(frames_of(LIVE_BUDGET as nat), device) * 2,
            )
        }),
{
}

/// **A closed input plays out before it goes, and then it goes.** Closing leaves the queued
/// audio in place, and the input stays in the mix until the last frame of it has been taken,
/// and no longer.
pub proof fn a_closed_input_plays_out<S>(input: InputState<S>, frames: nat, now: Span)
    requires
        input.closed,
        input.samples.len() <= usize::MAX,
    ensures
        input.is_live() <==> input.queued() > 0,
        frames >= input.queued() ==> !input.pulled(frames, now).after.is_live(),
        input.supply(now) == (Supply::Tail { frames: input.queued() as u64 }),
        input.pulled(frames, now).starved == 0,
{
}

/// **An input is what its ring says it is.** One whose writer has gone is a tail, with whatever
/// it holds. One that was never fed is a surface. One that was fed, holds no whole frame and has
/// heard nothing for as long as makes it stale is quiet. Any other flows, with what it holds.
pub proof fn an_input_is_what_its_ring_says<S>(input: InputState<S>, now: Span)
    requires
        input.samples.len() <= usize::MAX,
    ensures
        ({
            let supply = input.supply(now);
            let frames = (input.samples.len() / 2) as u64;
            let fresh = input.last_fed matches Some(at) ==> now@ < at@ + STALE_AFTER;
            &&& supply is Tail <==> input.closed
            &&& supply is Surface <==> !input.closed && input.last_fed is None
            &&& supply is Quiescent <==> !input.closed && input.last_fed is Some && frames == 0
                && !fresh
            &&& supply matches Supply::Tail { frames: left } ==> left == frames
            &&& supply matches Supply::Flowing { frames: left } ==> left == frames
        }),
{
}

/// **An offer touches what it is about and nothing else.** What an input is, whether it is
/// closed and its shape stay; a block that goes in marks the input as fed now; a pull source's
/// block is given up on only once its deadline has passed, and is then counted as dropped; and
/// of the totals only the written and the shed can move.
pub proof fn an_offer_touches_nothing_else<S>(
    input: InputState<S>,
    stereo: Seq<S>,
    device: nat,
    now: Span,
    expired: bool,
    counters: MixerCounters,
)
    requires
        input.samples.len() + stereo.len() <= usize::MAX,
    ensures
        ({
            let (after, totals, offered) = input.offered(stereo, device, now, expired, counters);
            &&& after.backpressure == input.backpressure
            &&& after.closed == input.closed
            &&& after.shape == input.shape
            &&& offered == Offered::Taken ==> after.last_fed == Some(now)
            &&& after.samples.len() > input.samples.len() ==> after.last_fed == Some(now)
            &&& after.samples == input.samples && stereo.len() > 0 && offered != Offered::Taken
                ==> after.last_fed == input.last_fed
            &&& offered is Dropped ==> expired && after.dropped == counted(input.dropped, 1)
            &&& offered !is Dropped ==> after.dropped == input.dropped
            &&& offered is Wait ==> !expired
            &&& input.backpressure == Backpressure::Live && stereo.len() <= input.room(device)
                && input.samples.len() + stereo.len() <= input.room(device) ==> totals.shed
                == counters.shed
            &&& input.backpressure == Backpressure::Pull ==> totals.shed == counters.shed
            &&& totals.drained == counters.drained
            &&& totals.starved == counters.starved
            &&& totals.idle == counters.idle
            &&& totals.emitted == counters.emitted
            &&& input.closed ==> after.samples == input.samples + stereo && offered
                == Offered::Taken
        }),
{
    vstd::arithmetic::div_mod::lemma_small_mod(counters.shed as nat, 0x1_0000_0000_0000_0000);
}

/// **Stereo is the front pair.** Stereo comes out as it is; of mono, every sample comes out
/// twice; of anything wider, every frame's first two come out and no other, and what is left of
/// a broken frame does not.
pub proof fn stereo_is_the_front_pair<S>(samples: Seq<S>, channels: nat, frame: int)
    ensures
        ({
            let stereo = stereo_of(samples, channels);
            &&& channels == 2 ==> stereo == samples
            &&& channels <= 1 ==> stereo.len() == 2 * samples.len()
            &&& channels <= 1 && 0 <= frame < samples.len() ==> stereo[2 * frame]
                == samples[frame] && stereo[2 * frame + 1] == samples[frame]
            &&& channels > 2 ==> stereo.len() == 2 * (samples.len() / channels)
            &&& channels > 2 && 0 <= frame < samples.len() / channels ==> stereo[2 * frame]
                == samples[frame * channels] && stereo[2 * frame + 1] == samples[frame * channels
                + 1]
        }),
{
}

/// **What is resampled is what is not at the mix's rate.** A conversion has at least a channel,
/// keeps the channels there are, and resamples from the source's rate exactly where that is not
/// the mix's.
pub proof fn only_another_rate_is_resampled(sample_rate: u32, channels: u16)
    ensures
        ({
            let convert = Convert::of(sample_rate, channels);
            &&& convert.channels >= 1
            &&& channels >= 1 ==> convert.channels == channels
            &&& convert.resample is Some <==> sample_rate != RATE
            &&& convert.resample matches Some(rate) ==> rate == sample_rate
        }),
{
}

} // verus!
