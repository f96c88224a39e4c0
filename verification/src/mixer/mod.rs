//! The panel's one audio output: what goes into the mix, when, and how much of it.
//!
//! Every source writes into an [`input::MixInput`]; the mixer takes what they have, in
//! passes, and the sum of a pass goes to the one device. Samples are whatever type the
//! caller sums — this is about frames, and a frame of silence weighs what a frame of music
//! does.
//!
//! **The in-flight budget is the pacing.** A source is held to a lead of audio in flight,
//! counted over its own ring and the device's queue together, because the media clock
//! subtracts exactly that lead to turn what was submitted into what was heard.
//!
//! **Silence is invented in exactly one place.** A pass either takes what every
//! contributing input can actually supply, or — only when the device is within its floor
//! of running dry — pads the shortfall, at the *front*, so that a source that is behind is
//! deferred rather than perforated.
use crate::span::Span;
use vstd::prelude::*;

pub mod input;
pub mod run;

pub use input::{to_stereo, MixInput};
pub use run::AudioMixer;

verus! {

/// The rate the mix runs at, in frames a second.
pub const RATE: u32 = 48_000;

/// Stereo. The panel is a display with a pair of speakers.
pub const CHANNELS: u16 = 2;

/// How far ahead of the speakers a source may run, in nanoseconds.
///
/// The media clock subtracts exactly this to turn what has been submitted into what has
/// been heard.
pub const LEAD: u128 = 250_000_000;

/// The most audio the mixer keeps queued at the device, in nanoseconds.
pub const DEVICE_LEAD: u128 = 100_000_000;

/// The least audio the mixer lets the device hold while anything might play, in
/// nanoseconds.
///
/// This is the deadline, and defending it is the *only* thing that may put silence into the
/// mix.
pub const DEVICE_FLOOR: u128 = 50_000_000;

/// The most audio one mixer pass will produce, in nanoseconds.
pub const QUANTUM: u128 = 10_000_000;

/// How long the mixer sleeps when there is nothing to take and no floor to defend, in
/// nanoseconds.
pub const IDLE_POLL: u128 = 5_000_000;

/// How long the device stays open with no inputs, in nanoseconds.
///
/// Long enough that skipping between tracks does not close and reopen the device.
pub const IDLE_CLOSE: u128 = 5_000_000_000;

/// How often the mixer retries a device it could not open, or that failed, in nanoseconds.
pub const REOPEN_AFTER: u128 = 1_000_000_000;

/// How much audio a live input may hold, in nanoseconds.
///
/// What it has to hold is the sender's burst: a phone sends ahead, in lumps. This is a
/// ceiling and not a target.
pub const LIVE_BUDGET: u128 = 2_000_000_000;

/// How long an empty input is still treated as between packets, in nanoseconds.
pub const STALE_AFTER: u128 = 250_000_000;

/// How often the mixer says what the speakers did not get, in nanoseconds.
pub const REPORT_EVERY: u128 = 5_000_000_000;

/// How long a writer waits for room before giving up on a block, in nanoseconds.
///
/// Reaching this means the mixer is not draining. A dropped block is audible; a thread that
/// never checks whether it should exit is worse.
pub const WRITE_DEADLINE: u128 = 2_000_000_000;

/// How many whole frames of mix audio fit in a span of so many nanoseconds.
pub open spec fn frames_of(nanos: nat) -> nat {
    let frames = nanos * 48_000 / 1_000_000_000;
    if frames <= u64::MAX {
        frames
    } else {
        u64::MAX as nat
    }
}

/// How many frames of mix audio fit in `d`.
pub fn frames_in(d: Span) -> (frames: u64)
    ensures
        frames as nat == frames_of(d@),
{
    let secs: u128 = d.nanos / 1_000_000_000;
    let rest: u128 = d.nanos % 1_000_000_000;
    let frames: u128 = secs * 48_000 + rest * 48_000 / 1_000_000_000;
    proof {
        assert(d.nanos == secs * 1_000_000_000 + rest);
        assert(d.nanos * 48_000 == secs * 48_000 * 1_000_000_000 + rest * 48_000);
        assert((secs * 48_000 * 1_000_000_000 + rest * 48_000) / 1_000_000_000 == secs * 48_000
            + rest * 48_000 / 1_000_000_000) by (nonlinear_arith);
    }
    if frames <= u64::MAX as u128 {
        frames as u64
    } else {
        u64::MAX
    }
}

/// What one input can put into a pass, decided fresh each pass.
#[derive(Debug, Clone, Copy, PartialEq, Eq, Structural)]
pub enum Supply {
    /// Never fed. A surface that might make a sound, not a source failing to.
    Surface,
    /// Fed, and live in the ordinary sense: has audio, or went empty recently enough that
    /// the next packet is presumed in flight. What it has bounds the pass.
    Flowing {
        /// Whole frames available right now. Zero between packets.
        frames: u64,
    },
    /// Fed once, empty, and quiet past [`STALE_AFTER`]: paused, muted, or done sending.
    /// Genuinely silent — mixed as silence, constraining nothing, starving nothing.
    Quiescent,
    /// Closed. What remains is all there will ever be, and the end of it is the end of a
    /// session rather than a shortfall.
    Tail {
        /// Whole frames left to play out.
        frames: u64,
    },
}

/// What one iteration of the drain loop should do.
#[derive(Debug, Clone, Copy, PartialEq, Eq, Structural)]
pub enum Pass {
    /// Nothing to take, no floor to defend. Sleep briefly.
    Sleep,
    /// Take exactly this many frames, which every constraining input has. No silence is in
    /// a `Take` by construction.
    Take {
        /// Whole frames, at most a quantum.
        frames: u64,
    },
    /// The device is at the floor: emit a quantum, padding at the front whatever any input
    /// cannot supply. The only pass that invents silence.
    Backstop,
}

/// What an input holds a pass to, if it does.
pub open spec fn limit_of(supply: Supply) -> Option<nat> {
    match supply {
        Supply::Flowing { frames } => Some(frames as nat),
        Supply::Tail { frames } => Some(frames as nat),
        Supply::Surface => None,
        Supply::Quiescent => None,
    }
}

/// The least that any constraining input has, if there is one.
pub open spec fn scarcest(supplies: Seq<Supply>) -> Option<nat>
    decreases supplies.len(),
{
    if supplies.len() == 0 {
        None
    } else {
        let before = scarcest(supplies.drop_last());
        match (before, limit_of(supplies.last())) {
            (Some(a), Some(b)) => Some(
                if b < a {
                    b
                } else {
                    a
                },
            ),
            (Some(a), None) => Some(a),
            (None, limit) => limit,
        }
    }
}

/// The smaller of two counts.
pub open spec fn least(a: nat, b: nat) -> nat {
    if a <= b {
        a
    } else {
        b
    }
}

/// The larger of two counts.
pub open spec fn most(a: nat, b: nat) -> nat {
    if a >= b {
        a
    } else {
        b
    }
}

/// `a` less `b`, stopping at zero.
pub open spec fn less(a: nat, b: nat) -> nat {
    if a >= b {
        (a - b) as nat
    } else {
        0
    }
}

/// How many frames every constraining input, the device's headroom and the quantum allow.
pub open spec fn takeable(supplies: Seq<Supply>, inflight: nat) -> nat {
    let offered = match scarcest(supplies) {
        Some(frames) => frames,
        None => 0,
    };
    least(least(offered, less(frames_of(DEVICE_LEAD as nat), inflight)), frames_of(QUANTUM as nat))
}

/// The next pass: take what can be taken; where that is nothing, defend the floor; else
/// let the device's queue carry the gap.
pub open spec fn planned(supplies: Seq<Supply>, inflight: nat) -> Pass {
    if takeable(supplies, inflight) > 0 {
        Pass::Take { frames: takeable(supplies, inflight) as u64 }
    } else if inflight <= frames_of(DEVICE_FLOOR as nat) {
        Pass::Backstop
    } else {
        Pass::Sleep
    }
}

/// Decide the next pass.
///
/// A pass may take the *least* any flowing or closing input can supply — never more, so a
/// take cannot pad — bounded by the device's headroom and the quantum.
pub fn plan(supplies: &[Supply], inflight: u64) -> (pass: Pass)
    ensures
        pass == planned(supplies@, inflight as nat),
{
    let len: usize = supplies.len();
    let mut constraint: Option<u64> = None;
    let mut i: usize = 0;
    while i < len
        invariant
            i <= len == supplies@.len(),
            match constraint {
                Some(frames) => scarcest(supplies@.take(i as int)) == Some(frames as nat),
                None => scarcest(supplies@.take(i as int)) is None,
            },
        decreases supplies@.len() - i,
    {
        proof {
            assert(supplies@.take(i + 1).drop_last() =~= supplies@.take(i as int));
            assert(supplies@.take(i + 1).last() == supplies@[i as int]);
        }
        match supplies[i] {
            Supply::Flowing { frames } | Supply::Tail { frames } => {
                constraint =
                match constraint {
                    Some(least) => if frames < least {
                        Some(frames)
                    } else {
                        Some(least)
                    },
                    None => Some(frames),
                };
            },
            Supply::Surface | Supply::Quiescent => {},
        }
        i += 1;
    }
    proof {
        assert(supplies@.take(supplies@.len() as int) =~= supplies@);
    }
    let offered: u64 = match constraint {
        Some(frames) => frames,
        None => 0,
    };
    let headroom: u64 = frames_in(Span { nanos: DEVICE_LEAD }).saturating_sub(inflight);
    let room: u64 = if offered <= headroom {
        offered
    } else {
        headroom
    };
    let quantum: u64 = frames_in(Span { nanos: QUANTUM });
    let frames: u64 = if room <= quantum {
        room
    } else {
        quantum
    };
    if frames > 0 {
        return Pass::Take { frames };
    }
    if inflight <= frames_in(Span { nanos: DEVICE_FLOOR }) {
        return Pass::Backstop;
    }
    Pass::Sleep
}

/// What a source does when the mix has no room for it.
///
/// Not a tuning knob — it is the answer to "can anything upstream be told to wait".
#[derive(Debug, Clone, Copy, PartialEq, Eq, Structural)]
pub enum Backpressure {
    /// Park until there is room.
    ///
    /// Correct only when something upstream will wait: a file or an HTTP body being pulled
    /// from, where not reading is the flow control.
    Pull,
    /// Take the newest audio and let the oldest go.
    ///
    /// The only honest answer for a sender that is its own clock. Nothing here can slow it
    /// down, so audio in excess of its budget is going to be lost; all this decides is
    /// *where*.
    Live,
}

impl Backpressure {
    /// How many frames a source of this kind may have in flight.
    pub open spec fn budget(self) -> nat {
        match self {
            Backpressure::Pull => frames_of(LEAD as nat),
            Backpressure::Live => frames_of(LIVE_BUDGET as nat),
        }
    }
}

/// What the mixer has done since it started, in frames.
///
/// Every field is a running total; a *window* is the difference of two readings.
#[derive(Debug, Clone, Copy, PartialEq, Eq, Structural)]
pub struct MixerCounters {
    /// Frames of silence a backstop pass invented for an input that was mid-stream and had
    /// nothing to give. The one defect counter.
    pub starved: u64,
    /// Frames an input with nothing to say sat out, plus a closed input's runout past its
    /// tail.
    pub idle: u64,
    /// Frames the writers handed in.
    pub written: u64,
    /// Frames the mixer took out of the rings, summed across inputs.
    pub drained: u64,
    /// Frames dropped from a live input that had run ahead of its budget, and frames thrown
    /// away by a flush.
    pub shed: u64,
    /// Frames the mixer emitted to the device, of any kind.
    pub emitted: u64,
}

impl Default for MixerCounters {
    fn default() -> (counters: MixerCounters)
        ensures
            counters == (MixerCounters {
                starved: 0,
                idle: 0,
                written: 0,
                drained: 0,
                shed: 0,
                emitted: 0,
            }),
    {
        MixerCounters { starved: 0, idle: 0, written: 0, drained: 0, shed: 0, emitted: 0 }
    }
}

/// What one total moved by since an earlier reading, stopping at zero.
pub open spec fn moved(later: u64, earlier: u64) -> u64 {
    if later >= earlier {
        (later - earlier) as u64
    } else {
        0
    }
}

impl MixerCounters {
    /// What happened between `earlier` and this reading.
    pub open spec fn window(self, earlier: MixerCounters) -> MixerCounters {
        MixerCounters {
            starved: moved(self.starved, earlier.starved),
            idle: moved(self.idle, earlier.idle),
            written: moved(self.written, earlier.written),
            drained: moved(self.drained, earlier.drained),
            shed: moved(self.shed, earlier.shed),
            emitted: moved(self.emitted, earlier.emitted),
        }
    }

    /// What happened between `earlier` and this reading.
    ///
    /// Saturating, so a snapshot racing an increment reads as no progress rather than as
    /// most of a counter.
    #[must_use]
    pub fn since(&self, earlier: &MixerCounters) -> (window: MixerCounters)
        ensures
            window == self.window(*earlier),
    {
        MixerCounters {
            starved: self.starved.saturating_sub(earlier.starved),
            idle: self.idle.saturating_sub(earlier.idle),
            written: self.written.saturating_sub(earlier.written),
            drained: self.drained.saturating_sub(earlier.drained),
            shed: self.shed.saturating_sub(earlier.shed),
            emitted: self.emitted.saturating_sub(earlier.emitted),
        }
    }
}

impl MixerCounters {
    /// How much of everything the device was given was invented, as a fraction: the starved
    /// frames over the emitted ones. `None` where nothing was emitted — a mixer that never ran
    /// has not starved.
    #[must_use]
    pub fn invented(&self) -> (fraction: Option<(u64, u64)>)
        ensures
            fraction == if self.emitted == 0 {
                None
            } else {
                Some((self.starved, self.emitted))
            },
    {
        if self.emitted == 0 {
            None
        } else {
            Some((self.starved, self.emitted))
        }
    }
}

/// A running total moved on by so many frames; it wraps around.
pub open spec fn counted(total: u64, by: nat) -> u64 {
    ((total + by) % 0x1_0000_0000_0000_0000) as u64
}

/// A running total moved on by so many frames.
pub(crate) fn count(total: u64, by: u64) -> (after: u64)
    ensures
        after == counted(total, by as nat),
{
    total.wrapping_add(by)
}

/// Moving a total on twice is moving it on by the sum.
pub proof fn counting_adds_up(total: u64, a: nat, b: nat)
    ensures
        counted(counted(total, a), b) == counted(total, a + b),
{
    let m = 0x1_0000_0000_0000_0000int;
    vstd::arithmetic::div_mod::lemma_add_mod_noop(total + a, b as int, m);
    vstd::arithmetic::div_mod::lemma_add_mod_noop((total + a) % m, b as int, m);
    vstd::arithmetic::div_mod::lemma_mod_twice(total + a, m);
}

/// Output gain: the amplitude every sample is multiplied by, as the bits of a 32-bit
/// float, and a mute that does not disturb it.
///
/// The panel has one pair of speakers, so it has one volume, applied once to the sum.
#[derive(Debug, Clone, Copy, PartialEq, Eq, Structural)]
pub struct Gain {
    level: u32,
    muted: bool,
}

/// The bits of a 32-bit float that is one.
pub const UNITY_BITS: u32 = 0x3f80_0000;

impl Gain {
    /// The level's bits.
    pub closed spec fn bits(self) -> u32 {
        self.level
    }

    /// Whether output is muted.
    pub closed spec fn is_muted(self) -> bool {
        self.muted
    }

    /// Set the level, by the bits of its amplitude.
    pub fn set_bits(&mut self, bits: u32)
        ensures
            final(self).bits() == bits,
            final(self).is_muted() == old(self).is_muted(),
    {
        self.level = bits;
    }

    /// The bits of the amplitude that was set.
    #[must_use]
    pub fn level_bits(&self) -> (bits: u32)
        ensures
            bits == self.bits(),
    {
        self.level
    }

    /// Mute or unmute without disturbing the level.
    pub fn set_muted(&mut self, muted: bool)
        ensures
            final(self).is_muted() == muted,
            final(self).bits() == old(self).bits(),
    {
        self.muted = muted;
    }

    /// Whether output is muted.
    #[must_use]
    pub fn muted(&self) -> (muted: bool)
        ensures
            muted == self.is_muted(),
    {
        self.muted
    }

    /// The bits of what every sample should be multiplied by right now: zero while muted.
    pub fn factor_bits(&self) -> (bits: u32)
        ensures
            bits == if self.is_muted() {
                0
            } else {
                self.bits()
            },
    {
        if self.muted {
            0
        } else {
            self.level
        }
    }
}

impl Default for Gain {
    fn default() -> (gain: Gain)
        ensures
            gain.bits() == UNITY_BITS,
            !gain.is_muted(),
    {
        Gain { level: UNITY_BITS, muted: false }
    }
}

/// **A pass never asks for more than the scarcest input has.** What a take takes, every
/// flowing or closing input can supply in full.
pub proof fn a_take_is_within_every_supply(supplies: Seq<Supply>, inflight: nat, i: int)
    requires
        planned(supplies, inflight) is Take,
        0 <= i < supplies.len(),
        limit_of(supplies[i]) is Some,
    ensures
        planned(supplies, inflight)->frames as nat <= limit_of(supplies[i])->0,
{
    scarcest_is_least(supplies, i);
}

proof fn scarcest_is_least(supplies: Seq<Supply>, i: int)
    requires
        0 <= i < supplies.len(),
        limit_of(supplies[i]) is Some,
    ensures
        scarcest(supplies) is Some,
        scarcest(supplies)->0 <= limit_of(supplies[i])->0,
    decreases supplies.len(),
{
    if i < supplies.len() - 1 {
        scarcest_is_least(supplies.drop_last(), i);
    }
}

/// **Surfaces and quiet inputs constrain nothing.** A mix plans the same with one more of
/// them as without.
pub proof fn silent_inputs_constrain_nothing(supplies: Seq<Supply>, silent: Supply, inflight: nat)
    requires
        silent == Supply::Surface || silent == Supply::Quiescent,
    ensures
        planned(supplies.push(silent), inflight) == planned(supplies, inflight),
{
    assert(supplies.push(silent).drop_last() =~= supplies);
}

/// **Silence is invented only at the floor.** A backstop runs only where the device holds
/// no more than its floor.
pub proof fn silence_is_invented_only_at_the_floor(supplies: Seq<Supply>, inflight: nat)
    requires
        planned(supplies, inflight) == Pass::Backstop,
    ensures
        inflight <= frames_of(DEVICE_FLOOR as nat),
        takeable(supplies, inflight) == 0,
{
}

/// **The device's ceiling caps the take.** A take fits in the device's headroom and in a
/// quantum, so the device never holds more than its lead because of one.
pub proof fn a_take_fits_the_device(supplies: Seq<Supply>, inflight: nat)
    requires
        planned(supplies, inflight) is Take,
    ensures
        inflight + planned(supplies, inflight)->frames <= frames_of(DEVICE_LEAD as nat),
        0 < planned(supplies, inflight)->frames <= frames_of(QUANTUM as nat),
{
}

/// **A second is as many frames as the rate.** So many whole seconds are so many times the
/// rate, longer spans are never fewer frames, and a span holds no frame that it is too short for.
pub proof fn a_second_is_the_rate(seconds: nat, shorter: nat, longer: nat)
    requires
        seconds * RATE <= u64::MAX,
        shorter <= longer,
    ensures
        frames_of(seconds * 1_000_000_000) == seconds * RATE,
        frames_of(shorter) <= frames_of(longer),
        frames_of(longer) * 1_000_000_000 <= longer * RATE,
        frames_of(longer) < u64::MAX ==> longer * RATE < (frames_of(longer) + 1) * 1_000_000_000,
{
    assert(seconds * 1_000_000_000 * 48_000 / 1_000_000_000 == seconds * 48_000)
        by (nonlinear_arith);
    assert(shorter * 48_000 / 1_000_000_000 <= longer * 48_000 / 1_000_000_000)
        by (nonlinear_arith)
        requires
            shorter <= longer,
    ;
}

/// **A take takes as much as it may.** It is what the scarcest input has, what the device has
/// room for, or a quantum, whichever is least; and where all three are something, it is not put
/// off.
pub proof fn a_take_takes_what_it_may(supplies: Seq<Supply>, inflight: nat)
    ensures
        ({
            let room = less(frames_of(DEVICE_LEAD as nat), inflight);
            let may = scarcest(supplies) matches Some(frames) && frames > 0 && room > 0;
            &&& planned(supplies, inflight) is Take <==> may
            &&& planned(supplies, inflight) matches Pass::Take { frames } ==> frames
                == scarcest(supplies)->0 || frames == room || frames == frames_of(QUANTUM as nat)
            &&& !may ==> (planned(supplies, inflight) == Pass::Backstop <==> inflight <= frames_of(
                DEVICE_FLOOR as nat,
            ))
        }),
{
}

/// **The scarcest input is one of them.** What holds a pass back is what some flowing or
/// closing input has; without one, nothing does.
pub proof fn the_scarcest_is_one_of_them(supplies: Seq<Supply>)
    ensures
        scarcest(supplies) matches Some(frames) ==> exists|i: int|
            0 <= i < supplies.len() && limit_of(#[trigger] supplies[i]) == Some(frames),
        scarcest(supplies) is None ==> forall|i: int|
            0 <= i < supplies.len() ==> limit_of(#[trigger] supplies[i]) is None,
    decreases supplies.len(),
{
    if supplies.len() > 0 {
        let fewer = supplies.drop_last();
        the_scarcest_is_one_of_them(fewer);
        let last = supplies.len() - 1;
        if scarcest(fewer) is Some {
            let i = choose|i: int|
                0 <= i < fewer.len() && limit_of(#[trigger] fewer[i]) == Some(scarcest(fewer)->0);
            assert(supplies[i] == fewer[i]);
        }
        assert(supplies[last] == supplies.last());
        assert forall|i: int| scarcest(supplies) is None && 0 <= i < supplies.len() implies
            limit_of(#[trigger] supplies[i]) is None by {
            if i < last {
                assert(fewer[i] == supplies[i]);
            }
        }
    }
}

/// **A window is what moved.** What a counter had before and what moved in the window is what it
/// has now; and one that reads lower than before has not moved.
pub proof fn a_window_is_what_moved(later: MixerCounters, earlier: MixerCounters, total: u64, by: nat)
    ensures
        ({
            let window = later.window(earlier);
            &&& later.starved >= earlier.starved ==> earlier.starved + window.starved
                == later.starved
            &&& later.idle >= earlier.idle ==> earlier.idle + window.idle == later.idle
            &&& later.written >= earlier.written ==> earlier.written + window.written
                == later.written
            &&& later.drained >= earlier.drained ==> earlier.drained + window.drained
                == later.drained
            &&& later.shed >= earlier.shed ==> earlier.shed + window.shed == later.shed
            &&& later.emitted >= earlier.emitted ==> earlier.emitted + window.emitted
                == later.emitted
            &&& later.window(later) == (MixerCounters {
                starved: 0,
                idle: 0,
                written: 0,
                drained: 0,
                shed: 0,
                emitted: 0,
            })
        }),
        later.starved < earlier.starved ==> moved(later.starved, earlier.starved) == 0,
        total + by <= u64::MAX ==> counted(total, by) == total + by,
        u64::MAX < total + by <= 2 * u64::MAX ==> counted(total, by) == total + by
            - 0x1_0000_0000_0000_0000,
{
}

/// **The smaller, the larger and the rest are what they say.**
pub proof fn smaller_larger_and_rest(a: nat, b: nat)
    ensures
        least(a, b) <= a && least(a, b) <= b && (least(a, b) == a || least(a, b) == b),
        most(a, b) >= a && most(a, b) >= b && (most(a, b) == a || most(a, b) == b),
        less(a, b) + least(a, b) == a,
        less(a + b, b) == a,
{
}

/// **A mute is silence and nothing more.** While muted every sample is multiplied by nothing,
/// otherwise by the level that was set; and how much was invented is told only where anything was
/// emitted, of everything that was.
pub proof fn a_mute_is_silence_and_nothing_more(
    gain: &Gain,
    bits: u32,
    counters: &MixerCounters,
    fraction: Option<(u64, u64)>,
)
    requires
        call_ensures(Gain::factor_bits, (gain,), bits),
        call_ensures(MixerCounters::invented, (counters,), fraction),
    ensures
        gain.is_muted() ==> bits == 0,
        !gain.is_muted() ==> bits == gain.bits(),
        fraction is None <==> counters.emitted == 0,
        fraction matches Some((starved, emitted)) ==> starved == counters.starved && emitted
            == counters.emitted,
{
}

} // verus!
