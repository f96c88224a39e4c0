//! The mixer's own loop: which inputs are in the mix, when the device is opened and let go,
//! what each pass takes, and what is said of it.
//!
//! Opening, writing and sleeping are the caller's. Each step says which of them is next and
//! takes back what came of it.
use super::input::{InputState, MixInput, Offered, Part};
use super::{
    count, counted, counting_adds_up, frames_in, frames_of, less, moved, plan, planned,
    Backpressure, MixerCounters, Pass, Supply, IDLE_CLOSE, QUANTUM, REOPEN_AFTER, REPORT_EVERY,
};
use crate::span::Span;
use vstd::prelude::*;

verus! {

/// Where the mix is going, and what has been given to it.
///
/// There is always one, even when the box has no sound card and even when the device has
/// just vanished: then it is one that plays nothing and accounts for everything, so the
/// inputs keep draining in real time and nothing behind them stalls.
#[derive(Debug, Clone, Copy, PartialEq, Eq, Structural)]
pub struct Sink {
    /// Whether this is a real device. False says there is something to retry.
    pub real: bool,
    /// Frames handed to it since it was opened.
    pub submitted: u64,
    /// When it was opened, for a sink that cannot count.
    pub started: Span,
}

impl Sink {
    /// Frames this sink has played: by its own clock where it has one, by the wall where it
    /// does not.
    pub open spec fn has_played(self, now: Span, counted: Option<u64>) -> nat {
        match counted {
            Some(frames) => frames as nat,
            None => frames_of(less(now@, self.started@)),
        }
    }

    /// Frames believed to be queued at this sink.
    pub open spec fn holds(self, now: Span, counted: Option<u64>) -> u64 {
        less(self.submitted as nat, self.has_played(now, counted)) as u64
    }

    /// Frames this sink has played.
    pub fn played(&self, now: Span, counted: Option<u64>) -> (frames: u64)
        ensures
            frames as nat == self.has_played(now, counted),
    {
        match counted {
            Some(frames) => frames,
            None => frames_in(now.saturating_sub(&self.started)),
        }
    }

    /// Frames believed to be queued at this sink.
    pub fn inflight(&self, now: Span, counted: Option<u64>) -> (frames: u64)
        ensures
            frames == self.holds(now, counted),
    {
        self.submitted.saturating_sub(self.played(now, counted))
    }
}

/// What an input is known by.
#[verifier::ext_equal]
pub struct SlotState<S> {
    /// Its name.
    pub id: u64,
    /// The input itself.
    pub input: InputState<S>,
}

/// Where the loop is.
#[derive(Debug, Clone, Copy, PartialEq, Eq, Structural)]
pub enum RunPhase {
    /// Between passes.
    Idle,
    /// Waiting to hear whether a device opened, in the pass that began at `now`.
    Opening {
        /// When the pass began.
        now: Span,
    },
    /// Waiting to hear whether the device took the mix, in the pass that began at `now`.
    Writing {
        /// When the pass began.
        now: Span,
        /// The frames of the pass.
        frames: u64,
    },
}

/// What the mixer holds.
#[verifier::ext_equal]
pub struct MixerState<S> {
    /// The inputs, in the order they came.
    pub slots: Seq<SlotState<S>>,
    /// What the next input is known by.
    pub next_id: u64,
    /// The running totals.
    pub counters: MixerCounters,
    /// The device's share of every writer's budget.
    pub device_inflight: u64,
    /// The loudest sample since the last report, as the bits of its magnitude.
    pub peak: u32,
    /// Where the mix goes.
    pub sink: Sink,
    /// Since when there have been no inputs.
    pub empty_since: Option<Span>,
    /// When a device may next be tried, after one failed.
    pub retry_at: Option<Span>,
    /// When the last report was due.
    pub reported_at: Span,
    /// What the totals were then.
    pub reported: MixerCounters,
    /// What the device's count of dry callbacks was then.
    pub reported_underruns: u64,
    /// Where the loop is.
    pub phase: RunPhase,
}

/// What a pass hands out, as a spec value.
#[verifier::ext_equal]
pub enum ActionState<S> {
    /// Wait for an input, first letting the device go where `release` says so.
    Park {
        /// Whether the device has been idle long enough.
        release: bool,
    },
    /// Open a device.
    OpenDevice,
    /// Sleep briefly.
    Sleep,
    /// Sum the parts into a pass of so many frames and write it.
    Write {
        /// The frames of the pass.
        frames: nat,
        /// What the inputs put in.
        parts: Seq<(nat, Seq<S>)>,
    },
}

/// What to do next.
#[derive(Debug, Clone)]
pub enum Action<S> {
    /// Wait for an input. Where `release` is set, first close the device and go on in
    /// silence.
    Park {
        /// Whether the device has been idle long enough to be let go.
        release: bool,
    },
    /// Open a device, and say what came of it.
    OpenDevice,
    /// Nothing to take and no floor to defend: sleep for the idle poll.
    Sleep,
    /// Sum the parts into a pass, apply the gain, write it, and say what came of it.
    Write {
        /// The frames of the pass.
        frames: u64,
        /// What the inputs put in.
        parts: Vec<Part<S>>,
    },
}

/// What the parts of a pass are.
pub open spec fn parts_view<S>(parts: Seq<Part<S>>) -> Seq<(nat, Seq<S>)> {
    parts.map_values(|part: Part<S>| part.view())
}

impl<S> Action<S> {
    /// The action as a spec value.
    pub open spec fn view(self) -> ActionState<S> {
        match self {
            Action::Park { release } => ActionState::Park { release },
            Action::OpenDevice => ActionState::OpenDevice,
            Action::Sleep => ActionState::Sleep,
            Action::Write { frames, parts } => ActionState::Write {
                frames: frames as nat,
                parts: parts_view(parts@),
            },
        }
    }
}

/// What the speakers did not get over a window.
#[derive(Debug, Clone, Copy, PartialEq, Eq, Structural)]
pub struct Report {
    /// How long the window was.
    pub window: Span,
    /// What happened in it.
    pub counters: MixerCounters,
    /// How often the device itself ran dry.
    pub dry: u64,
    /// How many inputs there were at its end.
    pub inputs: usize,
    /// The loudest sample in it, as the bits of its magnitude.
    pub peak: u32,
}

/// The inputs after a pass.
pub open spec fn slots_after<S>(slots: Seq<SlotState<S>>, frames: nat, now: Span) -> Seq<
    SlotState<S>,
> {
    slots.map_values(
        |slot: SlotState<S>|
            SlotState { id: slot.id, input: slot.input.pulled(frames, now).after },
    )
}

/// What the inputs put into a pass, in the order they came.
pub open spec fn parts_of<S>(slots: Seq<SlotState<S>>, frames: nat, now: Span) -> Seq<
    (nat, Seq<S>),
>
    decreases slots.len(),
{
    if slots.len() == 0 {
        Seq::empty()
    } else {
        let before = parts_of(slots.drop_last(), frames, now);
        match slots.last().input.pulled(frames, now).part {
            Some(part) => before.push(part),
            None => before,
        }
    }
}

/// The frames that a pass takes, starves and idles, over all inputs.
pub open spec fn tally<S>(slots: Seq<SlotState<S>>, frames: nat, now: Span) -> (nat, nat, nat)
    decreases slots.len(),
{
    if slots.len() == 0 {
        (0, 0, 0)
    } else {
        let before = tally(slots.drop_last(), frames, now);
        let pulled = slots.last().input.pulled(frames, now);
        (before.0 + pulled.drained, before.1 + pulled.starved, before.2 + pulled.idle)
    }
}

/// The totals after a pass.
pub open spec fn counters_after<S>(
    counters: MixerCounters,
    slots: Seq<SlotState<S>>,
    frames: nat,
    now: Span,
) -> MixerCounters {
    let (drained, starved, idle) = tally(slots, frames, now);
    MixerCounters {
        drained: counted(counters.drained, drained),
        starved: counted(counters.starved, starved),
        idle: counted(counters.idle, idle),
        ..counters
    }
}

/// What the inputs can supply at `now`.
pub open spec fn supplies_of<S>(slots: Seq<SlotState<S>>, now: Span) -> Seq<Supply> {
    slots.map_values(|slot: SlotState<S>| slot.input.supply(now))
}

/// The inputs still worth pulling from.
pub open spec fn live_of<S>(slots: Seq<SlotState<S>>) -> Seq<SlotState<S>> {
    slots.filter(|slot: SlotState<S>| slot.input.is_live())
}

/// Where in `slots` an input is, if it still is.
pub open spec fn place_of<S>(slots: Seq<SlotState<S>>, id: u64) -> Option<int>
    decreases slots.len(),
{
    if slots.len() == 0 {
        None
    } else {
        match place_of(slots.drop_last(), id) {
            Some(at) => Some(at),
            None => if slots.last().id == id {
                Some(slots.len() - 1)
            } else {
                None
            },
        }
    }
}

impl<S> MixerState<S> {
    /// A mixer with no inputs that plays into silence.
    pub open spec fn fresh(now: Span) -> MixerState<S> {
        let none = MixerCounters { starved: 0, idle: 0, written: 0, drained: 0, shed: 0, emitted: 0 };
        MixerState {
            slots: Seq::empty(),
            next_id: 0,
            counters: none,
            device_inflight: 0,
            peak: 0,
            sink: Sink { real: false, submitted: 0, started: now },
            empty_since: None,
            retry_at: None,
            reported_at: now,
            reported: none,
            reported_underruns: 0,
            phase: RunPhase::Idle,
        }
    }

    /// The mixer with the closed and drained inputs retired.
    pub open spec fn retired(self) -> MixerState<S> {
        MixerState { slots: live_of(self.slots), ..self }
    }

    /// What a report says at `now`, and the mixer after it.
    ///
    /// A window is read whether or not it is worth a line, or one the log skipped would fold
    /// its figures into the next.
    pub open spec fn report(self, now: Span, underruns: u64) -> (MixerState<S>, Option<Report>) {
        let window = Span::less(now, self.reported_at);
        if window@ < REPORT_EVERY {
            (self, None)
        } else {
            let moves = self.counters.window(self.reported);
            let after = MixerState {
                reported_at: now,
                reported: self.counters,
                reported_underruns: underruns,
                peak: 0,
                ..self
            };
            if moves.starved == 0 && moves.shed == 0 && moves.written == 0 && moves.drained == 0 {
                (after, None)
            } else {
                (
                    after,
                    Some(
                        Report {
                            window,
                            counters: moves,
                            dry: moved(underruns, self.reported_underruns),
                            inputs: self.slots.len() as usize,
                            peak: self.peak,
                        },
                    ),
                )
            }
        }
    }

    /// The rest of a pass that began at `now`, once the sink's own count is known.
    pub open spec fn passes(self, now: Span, played: Option<u64>) -> (
        MixerState<S>,
        ActionState<S>,
    ) {
        let inflight = self.sink.holds(now, played);
        let counted_in = MixerState {
            device_inflight: inflight,
            phase: RunPhase::Idle,
            ..self
        };
        match planned(supplies_of(self.slots, now), inflight as nat) {
            Pass::Sleep => (counted_in, ActionState::Sleep),
            Pass::Take { frames } => counted_in.mixes(now, frames),
            Pass::Backstop => counted_in.mixes(now, frames_of(QUANTUM as nat) as u64),
        }
    }

    /// A pass of `frames`, taken.
    pub open spec fn mixes(self, now: Span, frames: u64) -> (MixerState<S>, ActionState<S>) {
        let totals = counters_after(self.counters, self.slots, frames as nat, now);
        (
            MixerState {
                slots: slots_after(self.slots, frames as nat, now),
                counters: MixerCounters {
                    emitted: counted(totals.emitted, frames as nat),
                    ..totals
                },
                phase: RunPhase::Writing { now, frames },
                ..self
            },
            ActionState::Write {
                frames: frames as nat,
                parts: parts_of(self.slots, frames as nat, now),
            },
        )
    }

    /// Whether the pass that begins at `now` tries for a device first.
    pub open spec fn tries_device(self, now: Span) -> bool {
        &&& !self.sink.real
        &&& match self.retry_at {
            Some(at) => now@ >= at@,
            None => true,
        }
    }

    /// The beginning of a pass at `now`.
    pub open spec fn wakes(self, now: Span, played: Option<u64>) -> (
        MixerState<S>,
        ActionState<S>,
    ) {
        if self.slots.len() == 0 {
            let since = match self.empty_since {
                Some(since) => since,
                None => now,
            };
            let release = self.sink.real && less(now@, since@) >= IDLE_CLOSE;
            (
                MixerState {
                    device_inflight: 0,
                    empty_since: Some(since),
                    sink: if release {
                        Sink { real: false, submitted: 0, started: now }
                    } else {
                        self.sink
                    },
                    retry_at: if release {
                        None
                    } else {
                        self.retry_at
                    },
                    ..self
                },
                ActionState::Park { release },
            )
        } else {
            let busy = MixerState { empty_since: None, ..self };
            if self.tries_device(now) {
                (
                    MixerState { phase: RunPhase::Opening { now }, ..busy },
                    ActionState::OpenDevice,
                )
            } else {
                busy.passes(now, played)
            }
        }
    }

    /// What an attempt to open a device makes of the pass: `started` says when it opened,
    /// where it did.
    pub open spec fn opens(self, started: Option<Span>, played: Option<u64>) -> (
        MixerState<S>,
        ActionState<S>,
    ) {
        let now = self.phase->Opening_now;
        match started {
            Some(started) => (MixerState {
                sink: Sink { real: true, submitted: 0, started },
                retry_at: None,
                ..self
            }).passes(now, played),
            None => (MixerState {
                retry_at: Some(Span::plus(now, Span::of(REOPEN_AFTER as nat))),
                ..self
            }).passes(now, played),
        }
    }

    /// What a write makes of the mixer: whether the device took it, the time since, and
    /// what the sink now in place has played.
    pub open spec fn writes(self, taken: bool, at: Span, played: Option<u64>) -> MixerState<S> {
        let now = self.phase->Writing_now;
        let sink = if taken {
            Sink {
                submitted: counted(self.sink.submitted, self.phase->frames as nat),
                ..self.sink
            }
        } else {
            Sink { real: false, submitted: 0, started: at }
        };
        MixerState {
            sink,
            retry_at: if taken {
                self.retry_at
            } else {
                Some(Span::plus(now, Span::of(REOPEN_AFTER as nat)))
            },
            device_inflight: sink.holds(at, played),
            phase: RunPhase::Idle,
            ..self
        }
    }

    /// Whether every input goes by a name of its own, and none by one yet to be given.
    pub open spec fn well_formed(self) -> bool {
        &&& forall|i: int| 0 <= i < self.slots.len() ==> (#[trigger] self.slots[i]).id < self.next_id
        &&& forall|i: int, j: int|
            0 <= i < j < self.slots.len() ==> (#[trigger] self.slots[i]).id != (
            #[trigger] self.slots[j]).id
    }
}

/// One input and what it is known by.
pub struct Slot<S> {
    id: u64,
    input: MixInput<S>,
}

impl<S> Slot<S> {
    /// The slot as a spec value.
    pub closed spec fn view(self) -> SlotState<S> {
        SlotState { id: self.id, input: self.input@ }
    }
}

/// The inputs as spec values.
pub open spec fn slots_view<S>(slots: Seq<Slot<S>>) -> Seq<SlotState<S>> {
    slots.map_values(|slot: Slot<S>| slot.view())
}

/// Execute a pass: pull up to `frames` from every input.
///
/// Each input is classified again, and contributes what it has, up to `frames`.
pub fn mix_pass<S: Copy>(
    slots: &mut Vec<Slot<S>>,
    frames: u64,
    now: Span,
    counters: &mut MixerCounters,
) -> (parts: Vec<Part<S>>)
    requires
        frames * 2 <= usize::MAX,
    ensures
        slots_view(final(slots)@) == slots_after(slots_view(old(slots)@), frames as nat, now),
        parts_view(parts@) == parts_of(slots_view(old(slots)@), frames as nat, now),
        *final(counters) == counters_after(
            *old(counters),
            slots_view(old(slots)@),
            frames as nat,
            now,
        ),
{
    let ghost before = slots_view(slots@);
    let ghost totals = *counters;
    let mut parts: Vec<Part<S>> = Vec::new();
    let many: usize = slots.len();
    let mut i: usize = 0;
    proof {
        assert(before.take(0) =~= Seq::empty());
        assert(counters_after(totals, before.take(0), frames as nat, now) == totals);
    }
    while i < many
        invariant
            i <= many == slots@.len() == before.len(),
            frames * 2 <= usize::MAX,
            forall|k: int|
                0 <= k < i ==> (#[trigger] slots@[k]).view() == slots_after(
                    before,
                    frames as nat,
                    now,
                )[k],
            forall|k: int| i <= k < many ==> (#[trigger] slots@[k]).view() == before[k],
            parts_view(parts@) == parts_of(before.take(i as int), frames as nat, now),
            *counters == counters_after(totals, before.take(i as int), frames as nat, now),
        decreases many - i,
    {
        let ghost so_far = tally(before.take(i as int), frames as nat, now);
        let ghost held = parts_view(parts@);
        let ghost here = slots@[i as int].view();
        let part = slots[i].input.pull(frames, now, counters);
        i += 1;
        proof {
            let pulled = before[i - 1].input.pulled(frames as nat, now);
            assert(here == before[i - 1]);
            assert(before.take(i as int).drop_last() =~= before.take(i - 1));
            assert(before.take(i as int).last() == before[i - 1]);
            counting_adds_up(totals.drained, so_far.0, pulled.drained);
            counting_adds_up(totals.starved, so_far.1, pulled.starved);
            counting_adds_up(totals.idle, so_far.2, pulled.idle);
        }
        if let Some(part) = part {
            parts.push(part);
            proof {
                assert(parts_view(parts@) =~= held.push(part.view()));
            }
        }
    }
    proof {
        assert(before.take(many as int) =~= before);
        assert(slots_view(slots@) =~= slots_after(before, frames as nat, now));
    }
    parts
}

/// The panel's one audio output.
pub struct AudioMixer<S> {
    slots: Vec<Slot<S>>,
    next_id: u64,
    counters: MixerCounters,
    device_inflight: u64,
    peak: u32,
    sink: Sink,
    empty_since: Option<Span>,
    retry_at: Option<Span>,
    reported_at: Span,
    reported: MixerCounters,
    reported_underruns: u64,
    phase: RunPhase,
}

impl<S> View for AudioMixer<S> {
    type V = MixerState<S>;

    closed spec fn view(&self) -> MixerState<S> {
        MixerState {
            slots: slots_view(self.slots@),
            next_id: self.next_id,
            counters: self.counters,
            device_inflight: self.device_inflight,
            peak: self.peak,
            sink: self.sink,
            empty_since: self.empty_since,
            retry_at: self.retry_at,
            reported_at: self.reported_at,
            reported: self.reported,
            reported_underruns: self.reported_underruns,
            phase: self.phase,
        }
    }
}

impl<S: Copy> AudioMixer<S> {
    /// A mixer with no inputs, playing into silence until a device will have it.
    pub fn new(now: Span) -> (mixer: AudioMixer<S>)
        ensures
            mixer@ == MixerState::<S>::fresh(now),
    {
        let mixer = AudioMixer {
            slots: Vec::new(),
            next_id: 0,
            counters: MixerCounters::default(),
            device_inflight: 0,
            peak: 0,
            sink: Sink { real: false, submitted: 0, started: now },
            empty_since: None,
            retry_at: None,
            reported_at: now,
            reported: MixerCounters::default(),
            reported_underruns: 0,
            phase: RunPhase::Idle,
        };
        proof {
            assert(slots_view(mixer.slots@) =~= Seq::empty());
        }
        mixer
    }

    /// A new input to the mix, by the name it goes by. There is none once the names are
    /// used up.
    pub fn input(&mut self, backpressure: Backpressure) -> (id: Option<u64>)
        ensures
            match id {
                Some(id) => {
                    &&& id == old(self)@.next_id
                    &&& final(self)@ == (MixerState {
                        slots: old(self)@.slots.push(
                            SlotState {
                                id,
                                input: InputState {
                                    backpressure,
                                    last_fed: None,
                                    samples: Seq::<S>::empty(),
                                    closed: false,
                                    dropped: 0,
                                    shed: 0,
                                    shape: None,
                                },
                            },
                        ),
                        next_id: (old(self)@.next_id + 1) as u64,
                        ..old(self)@
                    })
                },
                None => old(self)@.next_id == u64::MAX && final(self)@ == old(self)@,
            },
    {
        let id: u64 = self.next_id;
        if id == u64::MAX {
            return None;
        }
        let ghost before = self@;
        self.next_id = id + 1;
        let slot = Slot { id, input: MixInput::new(backpressure) };
        self.slots.push(slot);
        proof {
            assert(self@.slots =~= before.slots.push(slot.view()));
        }
        Some(id)
    }

    /// Where an input is among the others, if it still is.
    fn place(&self, id: u64) -> (at: Option<usize>)
        ensures
            match at {
                Some(at) => at < self@.slots.len() && place_of(self@.slots, id) == Some(at as int),
                None => place_of(self@.slots, id) is None,
            },
    {
        let ghost slots = self@.slots;
        let mut i: usize = 0;
        while i < self.slots.len()
            invariant
                i <= slots.len(),
                slots == slots_view(self.slots@),
                place_of(slots.take(i as int), id) is None,
            decreases slots.len() - i,
        {
            proof {
                assert(slots.take(i + 1).drop_last() =~= slots.take(i as int));
                assert(slots.take(i + 1).last() == slots[i as int]);
            }
            if self.slots[i].id == id {
                proof {
                    place_holds(slots, i + 1, id);
                }
                return Some(i);
            }
            i += 1;
        }
        proof {
            assert(slots.take(slots.len() as int) =~= slots);
        }
        None
    }

    /// What an input is doing, if it still is.
    pub fn supply(&self, id: u64, now: Span) -> (supply: Option<Supply>)
        ensures
            supply == match place_of(self@.slots, id) {
                Some(at) => Some(self@.slots[at].input.supply(now)),
                None => None,
            },
    {
        match self.place(id) {
            Some(at) => Some(self.slots[at].input.supply(now)),
            None => None,
        }
    }

    /// Hand a block to an input, or hear that it has gone from the mix.
    pub fn offer(&mut self, id: u64, stereo: &[S], now: Span, expired: bool) -> (offered: Option<
        Offered,
    >)
        requires
            place_of(old(self)@.slots, id) matches Some(at) ==> old(
                self,
            )@.slots[at].input.samples.len() + stereo@.len() <= usize::MAX,
        ensures
            match place_of(old(self)@.slots, id) {
                Some(at) => {
                    let slot = old(self)@.slots[at];
                    let (input, counters, answer) = slot.input.offered(
                        stereo@,
                        old(self)@.device_inflight as nat,
                        now,
                        expired,
                        old(self)@.counters,
                    );
                    &&& offered == Some(answer)
                    &&& final(self)@ == (MixerState {
                        slots: old(self)@.slots.update(at, SlotState { input, ..slot }),
                        counters,
                        ..old(self)@
                    })
                },
                None => offered is None && final(self)@ == old(self)@,
            },
    {
        match self.place(id) {
            Some(at) => {
                let ghost before = self@;
                let inflight: u64 = self.device_inflight;
                let mut counters = self.counters;
                let answer = self.slots[at].input.offer(
                    stereo,
                    inflight,
                    now,
                    expired,
                    &mut counters,
                );
                self.counters = counters;
                proof {
                    assert(self@.slots =~= before.slots.update(at as int, self@.slots[at as int]));
                }
                Some(answer)
            },
            None => None,
        }
    }

    /// An input's writer has gone. What it queued still plays out.
    pub fn close(&mut self, id: u64)
        ensures
            match place_of(old(self)@.slots, id) {
                Some(at) => {
                    let slot = old(self)@.slots[at];
                    final(self)@ == (MixerState {
                        slots: old(self)@.slots.update(
                            at,
                            SlotState {
                                input: InputState { closed: true, ..slot.input },
                                ..slot
                            },
                        ),
                        ..old(self)@
                    })
                },
                None => final(self)@ == old(self)@,
            },
    {
        if let Some(at) = self.place(id) {
            let ghost before = self@;
            self.slots[at].input.close();
            proof {
                assert(self@.slots =~= before.slots.update(at as int, self@.slots[at as int]));
            }
        }
    }

    /// Throw away what an input has queued, counting it with what was shed. Hands back the
    /// conversion to rebuild, where one resamples.
    pub fn flush(&mut self, id: u64) -> (rebuild: Option<super::input::Convert>)
        ensures
            match place_of(old(self)@.slots, id) {
                Some(at) => {
                    let slot = old(self)@.slots[at];
                    let (input, counters) = slot.input.flushed(old(self)@.counters);
                    &&& final(self)@ == (MixerState {
                        slots: old(self)@.slots.update(at, SlotState { input, ..slot }),
                        counters,
                        ..old(self)@
                    })
                    &&& rebuild == match slot.input.shape {
                        Some(shape) => if shape.0 != super::RATE {
                            Some(super::input::Convert::of(shape.0, shape.1))
                        } else {
                            None
                        },
                        None => None,
                    }
                },
                None => final(self)@ == old(self)@ && rebuild is None,
            },
    {
        match self.place(id) {
            Some(at) => {
                let ghost before = self@;
                let mut counters = self.counters;
                let rebuild = self.slots[at].input.flush(&mut counters);
                self.counters = counters;
                proof {
                    assert(self@.slots =~= before.slots.update(at as int, self@.slots[at as int]));
                }
                rebuild
            },
            None => None,
        }
    }

    /// Declare the shape of what an input is about to be given: the conversion to build
    /// for it, or nothing where the shape is the one at hand or the input has gone.
    pub fn format(&self, id: u64, sample_rate: u32, channels: u16) -> (convert: Option<
        super::input::Convert,
    >)
        ensures
            convert == match place_of(self@.slots, id) {
                Some(at) => if self@.slots[at].input.shape == Some((sample_rate, channels)) {
                    None
                } else {
                    Some(super::input::Convert::of(sample_rate, channels))
                },
                None => None,
            },
    {
        match self.place(id) {
            Some(at) => self.slots[at].input.format(sample_rate, channels),
            None => None,
        }
    }

    /// The conversion for a shape is built.
    pub fn formatted(&mut self, id: u64, sample_rate: u32, channels: u16)
        ensures
            match place_of(old(self)@.slots, id) {
                Some(at) => {
                    let slot = old(self)@.slots[at];
                    final(self)@ == (MixerState {
                        slots: old(self)@.slots.update(
                            at,
                            SlotState {
                                input: InputState {
                                    shape: Some((sample_rate, channels)),
                                    ..slot.input
                                },
                                ..slot
                            },
                        ),
                        ..old(self)@
                    })
                },
                None => final(self)@ == old(self)@,
            },
    {
        if let Some(at) = self.place(id) {
            let ghost before = self@;
            self.slots[at].input.formatted(sample_rate, channels);
            proof {
                assert(self@.slots =~= before.slots.update(at as int, self@.slots[at as int]));
            }
        }
    }

    /// What the mixer has done since it started.
    pub fn counters(&self) -> (counters: MixerCounters)
        ensures
            counters == self@.counters,
    {
        self.counters
    }

    /// Whether the mix goes to a real device.
    pub fn is_real(&self) -> (is_device: bool)
        ensures
            is_device == self@.sink.real,
    {
        self.sink.real
    }

    /// Whether the mixer may wait for an input: none has come, and nobody wants it gone.
    pub fn parks(&self, shutdown: bool) -> (parks: bool)
        ensures
            parks == (!shutdown && self@.slots.len() == 0),
    {
        !shutdown && self.slots.len() == 0
    }
}

impl<S: Copy> AudioMixer<S> {
    /// Everything still worth pulling from stays; anything closed and drained is retired.
    fn live_inputs(&mut self)
        ensures
            final(self)@ == old(self)@.retired(),
    {
        let ghost before = self@;
        let ghost mut seen: int = 0;
        let mut i: usize = 0;
        proof {
            reveal(Seq::filter);
            assert(before.slots.take(0) =~= Seq::empty());
            assert(live_of(before.slots.take(0)) =~= Seq::empty());
            assert(before.slots =~= before.slots.skip(0));
        }
        while i < self.slots.len()
            invariant
                0 <= seen <= before.slots.len(),
                i == live_of(before.slots.take(seen)).len(),
                self@ == (MixerState {
                    slots: live_of(before.slots.take(seen)) + before.slots.skip(seen),
                    ..before
                }),
            decreases before.slots.len() - seen,
        {
            let ghost kept = live_of(before.slots.take(seen));
            let ghost here = before.slots[seen];
            proof {
                reveal(Seq::filter);
                assert(self@.slots[i as int] == here);
                assert(self.slots@[i as int].view() == here);
                assert(before.slots.take(seen + 1).drop_last() =~= before.slots.take(seen));
                assert(before.slots.take(seen + 1).last() == here);
                assert(live_of(before.slots.take(seen + 1)) == if here.input.is_live() {
                    kept.push(here)
                } else {
                    kept
                });
            }
            if self.slots[i].input.live() {
                i += 1;
            } else {
                let ghost held = self@.slots;
                let _ = self.slots.remove(i);
                proof {
                    assert(self@.slots =~= held.remove(i as int));
                }
            }
            proof {
                seen = seen + 1;
                assert(self@.slots =~= live_of(before.slots.take(seen)) + before.slots.skip(seen));
            }
        }
        proof {
            assert(self.slots@.len() == self@.slots.len());
            assert(before.slots.take(seen) =~= before.slots);
            assert(self@.slots =~= live_of(before.slots));
        }
    }

    /// Begin a turn of the loop: retire what has played out, and say what the speakers did
    /// not get, if anything, at most every [`REPORT_EVERY`].
    ///
    /// Idle and emitted frames alone do not wake the log: a panel holding a quiet page is
    /// not an event. Anything a session did — or failed to get — is.
    pub fn begin(&mut self, now: Span, underruns: u64) -> (report: Option<Report>)
        ensures
            (final(self)@, report) == old(self)@.retired().report(now, underruns),
    {
        self.live_inputs();
        let window = now.saturating_sub(&self.reported_at);
        if window.nanos < REPORT_EVERY {
            return None;
        }
        let counters = self.counters.since(&self.reported);
        let dry: u64 = underruns.saturating_sub(self.reported_underruns);
        let peak: u32 = self.peak;
        self.peak = 0;
        self.reported_at = now;
        self.reported = self.counters;
        self.reported_underruns = underruns;
        if counters.starved == 0 && counters.shed == 0 && counters.written == 0 && counters.drained
            == 0 {
            return None;
        }
        Some(Report { window, counters, dry, inputs: self.slots.len(), peak })
    }

    /// A pass begins at `now`; `played` is what the sink in place says it has played.
    pub fn wake(&mut self, now: Span, played: Option<u64>) -> (action: Action<S>)
        requires
            old(self)@.phase == RunPhase::Idle,
        ensures
            (final(self)@, action.view()) == old(self)@.wakes(now, played),
    {
        if self.slots.len() == 0 {
            self.device_inflight = 0;
            let since = match self.empty_since {
                Some(since) => since,
                None => now,
            };
            self.empty_since = Some(since);
            let release = self.sink.real && now.saturating_sub(&since).nanos >= IDLE_CLOSE;
            if release {
                self.sink = Sink { real: false, submitted: 0, started: now };
                self.retry_at = None;
            }
            return Action::Park { release };
        }
        self.empty_since = None;
        let due = match self.retry_at {
            Some(at) => now.nanos >= at.nanos,
            None => true,
        };
        if !self.sink.real && due {
            self.phase = RunPhase::Opening { now };
            return Action::OpenDevice;
        }
        self.pass(now, played)
    }

    /// What came of opening a device: when it opened, where it did; and what the sink now in
    /// place says it has played.
    pub fn opened(&mut self, started: Option<Span>, played: Option<u64>) -> (action: Action<S>)
        requires
            old(self)@.phase is Opening,
        ensures
            (final(self)@, action.view()) == old(self)@.opens(started, played),
    {
        if let RunPhase::Opening { now } = self.phase {
            match started {
                Some(started) => {
                    self.sink = Sink { real: true, submitted: 0, started };
                    self.retry_at = None;
                },
                None => {
                    self.retry_at = Some(now.saturating_add(&Span { nanos: REOPEN_AFTER }));
                },
            }
            return self.pass(now, played);
        }
        Action::Sleep
    }

    /// The rest of a pass, once the sink's own count is known.
    fn pass(&mut self, now: Span, played: Option<u64>) -> (action: Action<S>)
        ensures
            (final(self)@, action.view()) == old(self)@.passes(now, played),
    {
        let ghost before = self@;
        let inflight: u64 = self.sink.inflight(now, played);
        self.device_inflight = inflight;
        self.phase = RunPhase::Idle;
        let mut supplies: Vec<Supply> = Vec::new();
        let many: usize = self.slots.len();
        let mut i: usize = 0;
        while i < many
            invariant
                i <= many == self.slots@.len(),
                before.slots == slots_view(self.slots@),
                supplies@ == supplies_of(before.slots, now).take(i as int),
            decreases many - i,
        {
            supplies.push(self.slots[i].input.supply(now));
            i += 1;
            proof {
                assert(supplies@ =~= supplies_of(before.slots, now).take(i as int));
            }
        }
        proof {
            assert(supplies@ =~= supplies_of(before.slots, now));
        }
        let frames: u64 = match plan(supplies.as_slice(), inflight) {
            Pass::Sleep => {
                return Action::Sleep;
            },
            Pass::Take { frames } => frames,
            Pass::Backstop => frames_in(Span { nanos: QUANTUM }),
        };
        let mut counters = self.counters;
        let parts = mix_pass(&mut self.slots, frames, now, &mut counters);
        counters.emitted = count(counters.emitted, frames);
        self.counters = counters;
        self.phase = RunPhase::Writing { now, frames };
        Action::Write { frames, parts }
    }

    /// The loudest sample of a pass, as the bits of its magnitude. Of two magnitudes the
    /// larger has the larger bits.
    pub fn measured(&mut self, peak: u32)
        ensures
            final(self)@ == (MixerState {
                peak: if peak > old(self)@.peak {
                    peak
                } else {
                    old(self)@.peak
                },
                ..old(self)@
            }),
    {
        if peak > self.peak {
            self.peak = peak;
        }
    }

    /// What came of a write: whether the device took it, the time since, and what the sink
    /// now in place says it has played. A device that did not is let go, and the mix goes on
    /// in silence.
    ///
    /// The device's share is republished every pass, because it is half of every writer's
    /// budget: a device that stops draining has to show up as a full budget.
    pub fn written(&mut self, taken: bool, at: Span, played: Option<u64>)
        requires
            old(self)@.phase is Writing,
        ensures
            final(self)@ == old(self)@.writes(taken, at, played),
    {
        if let RunPhase::Writing { now, frames } = self.phase {
            if taken {
                self.sink.submitted = count(self.sink.submitted, frames);
            } else {
                self.sink = Sink { real: false, submitted: 0, started: at };
                self.retry_at = Some(now.saturating_add(&Span { nanos: REOPEN_AFTER }));
            }
            self.device_inflight = self.sink.inflight(at, played);
            self.phase = RunPhase::Idle;
        }
    }
}

/// A place found in a prefix is the place.
proof fn place_holds<S>(slots: Seq<SlotState<S>>, end: int, id: u64)
    requires
        0 <= end <= slots.len(),
        place_of(slots.take(end), id) is Some,
    ensures
        place_of(slots, id) == place_of(slots.take(end), id),
    decreases slots.len() - end,
{
    if end < slots.len() {
        assert(slots.take(end + 1).drop_last() =~= slots.take(end));
        place_holds(slots, end + 1, id);
    } else {
        assert(slots.take(end) =~= slots);
    }
}

/// An input that is found is where it was found.
pub proof fn place_is_within<S>(slots: Seq<SlotState<S>>, id: u64)
    ensures
        place_of(slots, id) matches Some(at) ==> 0 <= at < slots.len() && slots[at].id == id,
        place_of(slots, id) is None ==> forall|i: int|
            0 <= i < slots.len() ==> (#[trigger] slots[i]).id != id,
    decreases slots.len(),
{
    if slots.len() > 0 {
        place_is_within(slots.drop_last(), id);
        assert forall|i: int| place_of(slots, id) is None && 0 <= i < slots.len() implies (
        #[trigger] slots[i]).id != id by {
            if i < slots.len() - 1 {
                assert(slots[i] == slots.drop_last()[i]);
            }
        }
    }
}

/// **Inputs go by names of their own.** A new input, a pass and the retiring of old inputs
/// all keep every name distinct and every name given out behind the next one.
pub proof fn names_stay_distinct<S>(
    mixer: MixerState<S>,
    input: InputState<S>,
    frames: nat,
    now: Span,
)
    requires
        mixer.well_formed(),
        mixer.next_id < u64::MAX,
    ensures
        (MixerState {
            slots: mixer.slots.push(SlotState { id: mixer.next_id, input }),
            next_id: (mixer.next_id + 1) as u64,
            ..mixer
        }).well_formed(),
        (MixerState { slots: slots_after(mixer.slots, frames, now), ..mixer }).well_formed(),
        mixer.retired().well_formed(),
{
    retiring_keeps_names(mixer.slots, mixer.next_id);
}

/// What is left of distinct names is distinct.
proof fn retiring_keeps_names<S>(slots: Seq<SlotState<S>>, next_id: u64)
    requires
        forall|i: int| 0 <= i < slots.len() ==> (#[trigger] slots[i]).id < next_id,
        forall|i: int, j: int|
            0 <= i < j < slots.len() ==> (#[trigger] slots[i]).id != (#[trigger] slots[j]).id,
    ensures
        forall|i: int| 0 <= i < live_of(slots).len() ==> (#[trigger] live_of(slots)[i]).id < next_id,
        forall|i: int, j: int|
            0 <= i < j < live_of(slots).len() ==> (#[trigger] live_of(slots)[i]).id != (
            #[trigger] live_of(slots)[j]).id,
        forall|k: int|
            0 <= k < live_of(slots).len() ==> exists|i: int|
                0 <= i < slots.len() && #[trigger] live_of(slots)[k] == #[trigger] slots[i],
    decreases slots.len(),
{
    reveal(Seq::filter);
    if slots.len() > 0 {
        let rest = slots.drop_last();
        retiring_keeps_names(rest, next_id);
        let kept = live_of(slots);
        assert forall|k: int| 0 <= k < kept.len() implies exists|i: int|
            0 <= i < slots.len() && #[trigger] kept[k] == #[trigger] slots[i] by {
            if k < live_of(rest).len() {
                let i = choose|i: int| 0 <= i < rest.len() && live_of(rest)[k] == rest[i];
                assert(kept[k] == slots[i]);
            } else {
                assert(kept[k] == slots[slots.len() - 1]);
            }
        }
        assert forall|i: int, j: int| 0 <= i < j < kept.len() implies (#[trigger] kept[i]).id != (
        #[trigger] kept[j]).id by {
            if j >= live_of(rest).len() {
                let at = choose|at: int| 0 <= at < rest.len() && live_of(rest)[i] == rest[at];
                assert(kept[i] == slots[at]);
                assert(kept[j] == slots[slots.len() - 1]);
            } else {
                assert(kept[i] == live_of(rest)[i]);
                assert(kept[j] == live_of(rest)[j]);
            }
        }
        assert forall|i: int| 0 <= i < kept.len() implies (#[trigger] kept[i]).id < next_id by {
            if i < live_of(rest).len() {
                assert(kept[i] == live_of(rest)[i]);
            }
        }
    }
}

/// How many inputs of the mix have ever been fed, or have been closed.
pub open spec fn fed<S>(slots: Seq<SlotState<S>>, now: Span) -> nat
    decreases slots.len(),
{
    if slots.len() == 0 {
        0
    } else {
        fed(slots.drop_last(), now) + if slots.last().input.supply(now) == Supply::Surface {
            0nat
        } else {
            1nat
        }
    }
}

/// **Everything the mixer emits is drained, starved or idle.** Over a pass, what was taken,
/// what was invented and what was sat out add up to the pass once for every input that has
/// ever been fed; a surface owes no explanation and gets none.
pub proof fn a_pass_adds_up<S>(slots: Seq<SlotState<S>>, frames: nat, now: Span)
    ensures
        ({
            let (drained, starved, idle) = tally(slots, frames, now);
            drained + starved + idle == frames * fed(slots, now)
        }),
    decreases slots.len(),
{
    if slots.len() > 0 {
        a_pass_adds_up(slots.drop_last(), frames, now);
        super::input::a_pass_is_accounted_for(slots.last().input, frames, now);
        let before = fed(slots.drop_last(), now);
        assert(frames * (before + 1) == frames * before + frames) by (nonlinear_arith);
    } else {
        assert(frames * fed(slots, now) == 0) by (nonlinear_arith)
            requires
                fed(slots, now) == 0,
        ;
    }
}

/// **One source reads straight off the totals.** While exactly one input of the mix has ever
/// been fed, a pass keeps what was emitted equal to what was drained, starved and idle, for as
/// long as the totals can be counted.
pub proof fn one_source_accounts_for_the_mix<S>(mixer: MixerState<S>, frames: u64, now: Span)
    requires
        fed(mixer.slots, now) == 1,
        mixer.counters.emitted == mixer.counters.drained + mixer.counters.starved
            + mixer.counters.idle,
        mixer.counters.emitted + frames <= u64::MAX,
    ensures
        ({
            let totals = mixer.mixes(now, frames).0.counters;
            totals.emitted == totals.drained + totals.starved + totals.idle
        }),
{
    a_pass_adds_up(mixer.slots, frames as nat, now);
    assert(frames as nat * 1 == frames) by (nonlinear_arith);
}

/// The whole frames waiting in the rings of all inputs.
pub open spec fn in_rings<S>(slots: Seq<SlotState<S>>) -> nat
    decreases slots.len(),
{
    if slots.len() == 0 {
        0
    } else {
        in_rings(slots.drop_last()) + slots.last().input.queued()
    }
}

/// Whether every ring holds whole frames.
pub open spec fn whole_frames<S>(slots: Seq<SlotState<S>>) -> bool {
    forall|i: int| 0 <= i < slots.len() ==> (#[trigger] slots[i]).input.samples.len() % 2 == 0
}

/// Whether the totals balance: the rings hold whole frames, and what was written is what was
/// drained, what was shed and what is still in the rings.
pub open spec fn balanced<S>(slots: Seq<SlotState<S>>, counters: MixerCounters) -> bool {
    &&& whole_frames(slots)
    &&& counters.written == counters.drained + counters.shed + in_rings(slots)
}

/// **The totals balance.** In a mixer whose totals balance, they balance
/// after a block of whole frames was offered to an input, after an input was flushed, after a
/// pass, and once inputs have come and gone, for as long as the totals can be counted. They
/// balance in a mixer that has just started.
pub proof fn the_totals_balance<S>(
    mixer: MixerState<S>,
    at: int,
    stereo: Seq<S>,
    input: InputState<S>,
    frames: nat,
    now: Span,
    expired: bool,
)
    requires
        balanced(mixer.slots, mixer.counters),
        0 <= at < mixer.slots.len(),
        stereo.len() % 2 == 0,
        stereo.len() <= usize::MAX,
        input.samples.len() == 0,
        mixer.counters.written + stereo.len() / 2 <= u64::MAX,
    ensures
        balanced(MixerState::<S>::fresh(now).slots, MixerState::<S>::fresh(now).counters),
        ({
            let slot = mixer.slots[at];
            let (after, totals, _) = slot.input.offered(
                stereo,
                mixer.device_inflight as nat,
                now,
                expired,
                mixer.counters,
            );
            balanced(mixer.slots.update(at, SlotState { input: after, ..slot }), totals)
        }),
        ({
            let slot = mixer.slots[at];
            let (after, totals) = slot.input.flushed(mixer.counters);
            balanced(mixer.slots.update(at, SlotState { input: after, ..slot }), totals)
        }),
        balanced(
            slots_after(mixer.slots, frames, now),
            counters_after(mixer.counters, mixer.slots, frames, now),
        ),
        balanced(mixer.retired().slots, mixer.counters),
        balanced(mixer.slots.push(SlotState { id: mixer.next_id, input }), mixer.counters),
{
    let slot = mixer.slots[at];
    a_ring_is_among_the_rings(mixer.slots, at);
    super::input::every_frame_is_accounted_for(
        slot.input,
        stereo,
        mixer.device_inflight as nat,
        frames,
        now,
        expired,
        mixer.counters,
    );
    let offered = slot.input.offered(
        stereo,
        mixer.device_inflight as nat,
        now,
        expired,
        mixer.counters,
    ).0;
    changing_a_ring_changes_the_sum(mixer.slots, at, SlotState { input: offered, ..slot });
    let flushed = slot.input.flushed(mixer.counters).0;
    changing_a_ring_changes_the_sum(mixer.slots, at, SlotState { input: flushed, ..slot });
    a_pass_drains_the_rings(mixer.slots, frames, now);
    retired_rings_are_empty(mixer.slots);
    let more = mixer.slots.push(SlotState { id: mixer.next_id, input });
    assert(more.drop_last() =~= mixer.slots);
}

proof fn a_ring_is_among_the_rings<S>(slots: Seq<SlotState<S>>, at: int)
    requires
        0 <= at < slots.len(),
    ensures
        slots[at].input.queued() <= in_rings(slots),
    decreases slots.len(),
{
    if at < slots.len() - 1 {
        a_ring_is_among_the_rings(slots.drop_last(), at);
    }
}

proof fn changing_a_ring_changes_the_sum<S>(
    slots: Seq<SlotState<S>>,
    at: int,
    slot: SlotState<S>,
)
    requires
        0 <= at < slots.len(),
    ensures
        in_rings(slots.update(at, slot)) + slots[at].input.queued() == in_rings(slots)
            + slot.input.queued(),
    decreases slots.len(),
{
    let changed = slots.update(at, slot);
    if at == slots.len() - 1 {
        assert(changed.drop_last() =~= slots.drop_last());
    } else {
        assert(changed.drop_last() =~= slots.drop_last().update(at, slot));
        changing_a_ring_changes_the_sum(slots.drop_last(), at, slot);
    }
}

proof fn a_pass_drains_the_rings<S>(slots: Seq<SlotState<S>>, frames: nat, now: Span)
    ensures
        in_rings(slots_after(slots, frames, now)) + tally(slots, frames, now).0 == in_rings(slots),
    decreases slots.len(),
{
    if slots.len() > 0 {
        let fewer = slots.drop_last();
        a_pass_drains_the_rings(fewer, frames, now);
        assert(slots_after(slots, frames, now).drop_last() =~= slots_after(fewer, frames, now));
        super::input::a_pull_takes_the_front(slots.last().input, frames, now);
    }
}

proof fn retired_rings_are_empty<S>(slots: Seq<SlotState<S>>)
    ensures
        in_rings(live_of(slots)) == in_rings(slots),
        whole_frames(slots) ==> whole_frames(live_of(slots)),
    decreases slots.len(),
{
    reveal(Seq::filter);
    if slots.len() > 0 {
        let fewer = slots.drop_last();
        retired_rings_are_empty(fewer);
        assert(whole_frames(slots) ==> whole_frames(fewer));
        if slots.last().input.is_live() {
            assert(live_of(slots) =~= live_of(fewer).push(slots.last()));
            assert(live_of(slots).drop_last() =~= live_of(fewer));
        }
    }
}

/// **A take invents nothing.** A pass that the plan takes, rather than defends the floor
/// with, starves no input, and idles only those that had nothing to say.
pub proof fn a_take_starves_nobody<S>(slots: Seq<SlotState<S>>, inflight: nat, now: Span)
    requires
        planned(supplies_of(slots, now), inflight) is Take,
        forall|i: int|
            0 <= i < slots.len() ==> (#[trigger] slots[i]).input.samples.len() <= usize::MAX,
    ensures
        tally(slots, planned(supplies_of(slots, now), inflight)->frames as nat, now).1 == 0,
{
    let supplies = supplies_of(slots, now);
    let frames = planned(supplies, inflight)->frames as nat;
    assert forall|i: int| 0 <= i < slots.len() implies #[trigger] slots[i].input.pulled(
        frames,
        now,
    ).starved == 0 by {
        assert(supplies[i] == slots[i].input.supply(now));
        if super::limit_of(supplies[i]) is Some {
            super::a_take_is_within_every_supply(supplies, inflight, i);
            super::input::a_supplied_pass_has_no_silence(slots[i].input, frames, now);
        }
    }
    nobody_starves(slots, frames, now);
}

proof fn nobody_starves<S>(slots: Seq<SlotState<S>>, frames: nat, now: Span)
    requires
        forall|i: int|
            0 <= i < slots.len() ==> #[trigger] slots[i].input.pulled(frames, now).starved == 0,
    ensures
        tally(slots, frames, now).1 == 0,
    decreases slots.len(),
{
    if slots.len() > 0 {
        assert(slots[slots.len() - 1].input.pulled(frames, now).starved == 0);
        assert forall|i: int| 0 <= i < slots.drop_last().len() implies #[trigger] slots.drop_last()[
        i].input.pulled(frames, now).starved == 0 by {
            assert(slots[i].input.pulled(frames, now).starved == 0);
        }
        nobody_starves(slots.drop_last(), frames, now);
    }
}

/// **A failed device costs no session.** After a write that failed, and after a device that
/// would not open, the inputs are as they were, the mix goes on into silence, and no device
/// is tried again before the retry is due.
pub proof fn a_lost_device_costs_no_input<S>(
    mixer: MixerState<S>,
    at: Span,
    now: Span,
    played: Option<u64>,
)
    requires
        mixer.phase is Writing,
        now@ < Span::plus(mixer.phase->Writing_now, Span::of(REOPEN_AFTER as nat))@,
    ensures
        ({
            let after = mixer.writes(false, at, played);
            &&& after.slots == mixer.slots
            &&& after.counters == mixer.counters
            &&& !after.sink.real
            &&& !after.tries_device(now)
        }),
{
}

/// **A device is looked for again once the retry is due.** With inputs to play and no device,
/// a pass that begins then tries for one, and one that opens is the device from then on.
pub proof fn a_device_that_comes_back_is_used<S>(
    mixer: MixerState<S>,
    now: Span,
    played: Option<u64>,
    started: Span,
    counted_by: Option<u64>,
)
    requires
        mixer.slots.len() > 0,
        !mixer.sink.real,
        mixer.retry_at matches Some(at) ==> now@ >= at@,
    ensures
        ({
            let (opening, action) = mixer.wakes(now, played);
            let playing = opening.opens(Some(started), counted_by).0;
            &&& action == ActionState::<S>::OpenDevice
            &&& playing.sink == (Sink { real: true, submitted: 0, started })
            &&& playing.retry_at is None
        }),
{
}

/// **The device outlives a gap between tracks.** With no inputs, an open device is let go only
/// once there have been none for as long as the idle close.
pub proof fn the_device_outlives_a_gap<S>(mixer: MixerState<S>, now: Span, played: Option<u64>)
    requires
        mixer.slots.len() == 0,
    ensures
        ({
            let (after, action) = mixer.wakes(now, played);
            &&& action is Park
            &&& action->release ==> mixer.sink.real && (mixer.empty_since matches Some(since)
                && now@ >= since@ + IDLE_CLOSE)
            &&& !action->release ==> after.sink == mixer.sink
            &&& after.device_inflight == 0
        }),
{
}

/// Whether an input puts audio into a pass: it is flowing, or playing out its tail.
pub open spec fn is_sounding<S>(input: InputState<S>, now: Span) -> bool {
    input.supply(now) is Flowing || input.supply(now) is Tail
}

/// How many inputs put audio into a pass.
pub open spec fn sounding<S>(slots: Seq<SlotState<S>>, now: Span) -> nat
    decreases slots.len(),
{
    if slots.len() == 0 {
        0
    } else {
        sounding(slots.drop_last(), now) + if is_sounding(slots.last().input, now) {
            1nat
        } else {
            0nat
        }
    }
}

/// How many samples the parts of a pass hold together.
pub open spec fn samples_in<S>(parts: Seq<(nat, Seq<S>)>) -> nat
    decreases parts.len(),
{
    if parts.len() == 0 {
        0
    } else {
        samples_in(parts.drop_last()) + parts.last().1.len()
    }
}

/// **Nothing that is drained is left out of the mix.** A pass has a part for every input that
/// is flowing or playing out its tail, in the order of the inputs, and no other; each holds the
/// oldest of what its input held, as much as the pass takes or as there is, at the end of the
/// pass; and together they hold both samples of every frame that the pass drained.
pub proof fn nothing_drained_is_left_out<S>(slots: Seq<SlotState<S>>, frames: nat, now: Span)
    requires
        forall|i: int|
            0 <= i < slots.len() ==> (#[trigger] slots[i]).input.samples.len() <= usize::MAX,
    ensures
        ({
            let parts = parts_of(slots, frames, now);
            &&& parts.len() == sounding(slots, now)
            &&& forall|i: int|
                #![trigger slots[i]]
                0 <= i < slots.len() && is_sounding(slots[i].input, now) ==> {
                    let input = slots[i].input;
                    let place = sounding(slots.take(i), now) as int;
                    let many = if input.samples.len() / 2 <= frames {
                        input.samples.len() / 2
                    } else {
                        frames
                    };
                    &&& 0 <= place < parts.len()
                    &&& parts[place].1 == input.samples.take((many * 2) as int)
                    &&& parts[place].0 + many * 2 == frames * 2
                }
            &&& samples_in(parts) == 2 * tally(slots, frames, now).0
        }),
    decreases slots.len(),
{
    if slots.len() > 0 {
        let fewer = slots.drop_last();
        assert forall|i: int| 0 <= i < fewer.len() implies (
        #[trigger] fewer[i]).input.samples.len() <= usize::MAX by {
            assert(slots[i].input.samples.len() <= usize::MAX);
        }
        nothing_drained_is_left_out(fewer, frames, now);
        let before = parts_of(fewer, frames, now);
        let parts = parts_of(slots, frames, now);
        let last = slots.last().input;
        assert(slots[slots.len() - 1].input == last);
        super::input::a_pull_takes_the_front(last, frames, now);
        assert(slots.take(slots.len() - 1) =~= fewer);
        if is_sounding(last, now) {
            assert(parts.drop_last() =~= before);
        }
        assert forall|i: int|
            #![trigger slots[i]]
            0 <= i < slots.len() && is_sounding(slots[i].input, now) implies {
            let input = slots[i].input;
            let place = sounding(slots.take(i), now) as int;
            let many = if input.samples.len() / 2 <= frames {
                input.samples.len() / 2
            } else {
                frames
            };
            &&& 0 <= place < parts.len()
            &&& parts[place].1 == input.samples.take((many * 2) as int)
            &&& parts[place].0 + many * 2 == frames * 2
        } by {
            if i < fewer.len() {
                assert(fewer[i] == slots[i]);
                assert(fewer.take(i) =~= slots.take(i));
            }
        }
    }
}

/// **A pass leaves every input in its place, with what it did not give.** Each keeps its name,
/// and what it gave and what it is left with are what it had.
pub proof fn a_pass_leaves_the_rest<S>(slots: Seq<SlotState<S>>, frames: nat, now: Span, i: int)
    requires
        0 <= i < slots.len(),
    ensures
        ({
            let after = slots_after(slots, frames, now);
            let input = slots[i].input;
            let many = if !is_sounding(input, now) {
                0
            } else if input.samples.len() / 2 <= frames {
                input.samples.len() / 2
            } else {
                frames
            };
            &&& after.len() == slots.len()
            &&& after[i].id == slots[i].id
            &&& after[i].input.samples == input.samples.skip((many * 2) as int)
            &&& after[i].input.closed == input.closed
            &&& after[i].input.last_fed == input.last_fed
            &&& after[i].input.backpressure == input.backpressure
        }),
{
    assert(slots[i].input.samples.skip(0) =~= slots[i].input.samples);
}

/// **A pass does what the device has room for.** Where there are inputs, a pass sleeps only
/// while the device holds more than its floor and there is nothing to take; and what it writes
/// is no more than a quantum, is counted as emitted, and never fills the device past its lead.
/// What the device holds is what it was given less what it has played.
pub proof fn a_pass_does_what_there_is_room_for<S>(
    mixer: MixerState<S>,
    now: Span,
    played: Option<u64>,
)
    ensures
        ({
            let (after, action) = mixer.passes(now, played);
            let inflight = after.device_inflight;
            let gone = match played {
                Some(frames) => frames as nat,
                None => frames_of(less(now@, mixer.sink.started@)),
            };
            &&& gone <= mixer.sink.submitted ==> inflight + gone == mixer.sink.submitted
            &&& gone >= mixer.sink.submitted ==> inflight == 0
            &&& action is Sleep || action is Write
            &&& action is Sleep ==> {
                &&& inflight > frames_of(super::DEVICE_FLOOR as nat)
                &&& after.slots == mixer.slots
                &&& after.counters == mixer.counters
                &&& after.phase == RunPhase::Idle
            }
            &&& action matches ActionState::Write { frames, parts } ==> {
                &&& 0 < frames <= frames_of(QUANTUM as nat)
                &&& inflight + frames <= frames_of(super::DEVICE_LEAD as nat)
                &&& after.phase == (RunPhase::Writing { now, frames: frames as u64 })
                &&& after.counters.emitted == counted(mixer.counters.emitted, frames)
                &&& parts == parts_of(mixer.slots, frames, now)
                &&& after.slots == slots_after(mixer.slots, frames, now)
            }
            &&& after.sink == mixer.sink
            &&& after.retry_at == mixer.retry_at
        }),
{
}

/// **What a device takes is counted, and a device that fails is not asked again at once.** A
/// write that was taken adds its frames to what the device was given and leaves all else in
/// place; one that was not puts silence in its place, and a device is next looked for after the
/// wait. Either way what the sink then holds is every writer's to see.
pub proof fn a_write_is_counted<S>(
    mixer: MixerState<S>,
    taken: bool,
    at: Span,
    played: Option<u64>,
)
    requires
        mixer.phase is Writing,
    ensures
        ({
            let after = mixer.writes(taken, at, played);
            &&& after.slots == mixer.slots
            &&& after.counters == mixer.counters
            &&& after.phase == RunPhase::Idle
            &&& after.device_inflight == after.sink.holds(at, played)
            &&& taken ==> {
                &&& after.sink.real == mixer.sink.real
                &&& after.sink.started == mixer.sink.started
                &&& mixer.sink.submitted + mixer.phase->frames <= u64::MAX ==> after.sink.submitted
                    == mixer.sink.submitted + mixer.phase->frames
                &&& after.retry_at == mixer.retry_at
            }
            &&& !taken ==> {
                &&& after.sink == (Sink { real: false, submitted: 0, started: at })
                &&& after.retry_at matches Some(retry) && (mixer.phase->Writing_now@ + REOPEN_AFTER
                    <= u128::MAX ==> retry@ == mixer.phase->Writing_now@ + REOPEN_AFTER)
            }
        }),
{
    if taken && mixer.sink.submitted + mixer.phase->frames <= u64::MAX {
        vstd::arithmetic::div_mod::lemma_small_mod(
            (mixer.sink.submitted + mixer.phase->frames) as nat,
            0x1_0000_0000_0000_0000,
        );
    }
}

/// **A device that would not open is tried again after the wait, and the pass goes on.**
pub proof fn a_refused_device_is_retried<S>(mixer: MixerState<S>, played: Option<u64>)
    requires
        mixer.phase is Opening,
        mixer.phase->Opening_now@ + REOPEN_AFTER <= u128::MAX,
    ensures
        ({
            let (after, action) = mixer.opens(None, played);
            &&& after.sink == mixer.sink
            &&& after.retry_at matches Some(retry) && retry@ == mixer.phase->Opening_now@
                + REOPEN_AFTER
            &&& action is Write || action is Sleep
        }),
{
}

/// **The mixer does the next thing, and one thing.** With no inputs it parks; with inputs and
/// no device it looks for one where the retry is due; and otherwise it makes its pass.
pub proof fn the_mixer_does_the_next_thing<S>(
    mixer: MixerState<S>,
    now: Span,
    played: Option<u64>,
)
    ensures
        ({
            let (after, action) = mixer.wakes(now, played);
            let due = mixer.retry_at matches Some(at) ==> now@ >= at@;
            &&& action is Park <==> mixer.slots.len() == 0
            &&& action is OpenDevice <==> mixer.slots.len() > 0 && !mixer.sink.real && due
            &&& action is OpenDevice ==> after.phase == (RunPhase::Opening { now })
            &&& mixer.slots.len() > 0 ==> after.empty_since is None
            &&& mixer.slots.len() == 0 && mixer.empty_since is None ==> after.empty_since == Some(
                now,
            )
            &&& mixer.slots.len() == 0 && mixer.empty_since is Some ==> after.empty_since
                == mixer.empty_since
            &&& (mixer.slots.len() == 0 && mixer.sink.real && (mixer.empty_since matches Some(since)
                && now@ >= since@ + IDLE_CLOSE) ==> action == (ActionState::<S>::Park {
                release: true,
            }) && !after.sink.real)
        }),
{
}

/// **A report tells of its own window, once.** None is made before it is due; one that is due
/// begins the next window whether or not it is worth a line; and it is worth one exactly where
/// something was written, drained, starved or shed since the last. It says by how much each
/// total moved since then, and the totals themselves stay as they are.
pub proof fn a_report_tells_of_its_window<S>(mixer: MixerState<S>, now: Span, underruns: u64)
    ensures
        ({
            let (after, report) = mixer.report(now, underruns);
            let due = now@ >= mixer.reported_at@ + REPORT_EVERY;
            let (was, is) = (mixer.reported, mixer.counters);
            &&& after.counters == mixer.counters
            &&& after.slots == mixer.slots
            &&& after.sink == mixer.sink
            &&& !due ==> after == mixer && report is None
            &&& due ==> {
                &&& after.reported_at == now
                &&& after.reported == mixer.counters
                &&& after.reported_underruns == underruns
                &&& after.peak == 0
                &&& report is Some <==> is.starved > was.starved || is.shed > was.shed || is.written
                    > was.written || is.drained > was.drained
            }
            &&& report matches Some(report) ==> {
                &&& report.window@ + mixer.reported_at@ == now@
                &&& report.peak == mixer.peak
                &&& is.starved >= was.starved ==> report.counters.starved + was.starved
                    == is.starved
                &&& is.idle >= was.idle ==> report.counters.idle + was.idle == is.idle
                &&& is.written >= was.written ==> report.counters.written + was.written
                    == is.written
                &&& is.drained >= was.drained ==> report.counters.drained + was.drained
                    == is.drained
                &&& is.shed >= was.shed ==> report.counters.shed + was.shed == is.shed
                &&& is.emitted >= was.emitted ==> report.counters.emitted + was.emitted
                    == is.emitted
                &&& underruns >= mixer.reported_underruns ==> report.dry + mixer.reported_underruns
                    == underruns
            }
        }),
{
}

/// **An input is found by its name.** Where names are distinct, an input's name leads to that
/// input and a name that no input goes by leads nowhere; and retiring keeps every input that is
/// open or has audio to play out, in order, and no other.
pub proof fn an_input_is_found_by_its_name<S>(mixer: MixerState<S>, id: u64, i: int)
    requires
        mixer.well_formed(),
    ensures
        0 <= i < mixer.slots.len() ==> place_of(mixer.slots, mixer.slots[i].id) == Some(i),
        (forall|k: int| 0 <= k < mixer.slots.len() ==> (#[trigger] mixer.slots[k]).id != id)
            ==> place_of(mixer.slots, id) is None,
{
    place_is_within(mixer.slots, id);
    if 0 <= i < mixer.slots.len() {
        place_is_within(mixer.slots, mixer.slots[i].id);
        a_name_is_found(mixer.slots, i);
    }
}

proof fn a_name_is_found<S>(slots: Seq<SlotState<S>>, i: int)
    requires
        0 <= i < slots.len(),
    ensures
        place_of(slots, slots[i].id) is Some,
    decreases slots.len(),
{
    if i < slots.len() - 1 {
        a_name_is_found(slots.drop_last(), i);
        assert(slots.drop_last()[i] == slots[i]);
    }
}

/// **What is retired has played out, and nothing else is.** An input is kept exactly where it
/// is open or holds a whole frame.
pub proof fn what_is_retired_has_played_out<S>(slots: Seq<SlotState<S>>, slot: SlotState<S>)
    ensures
        live_of(slots).contains(slot) <==> slots.contains(slot) && (!slot.input.closed
            || slot.input.samples.len() >= 2),
    decreases slots.len(),
{
    reveal(Seq::filter);
    if slots.len() > 0 {
        let fewer = slots.drop_last();
        what_is_retired_has_played_out(fewer, slot);
        let last = slots.last();
        let kept = live_of(fewer);
        if last.input.is_live() {
            assert(live_of(slots) =~= kept.push(last));
            if slot == last {
                assert(live_of(slots)[kept.len() as int] == slot);
            }
            if kept.contains(slot) {
                let i = choose|i: int| 0 <= i < kept.len() && kept[i] == slot;
                assert(live_of(slots)[i] == slot);
            }
        } else {
            assert(live_of(slots) =~= kept);
        }
        if fewer.contains(slot) {
            let i = choose|i: int| 0 <= i < fewer.len() && fewer[i] == slot;
            assert(slots[i] == slot);
        }
        if slots.contains(slot) && slot != last {
            let i = choose|i: int| 0 <= i < slots.len() && slots[i] == slot;
            assert(fewer[i] == slot);
        }
        assert(slots[slots.len() - 1] == last);
    }
}

/// **A mixer begins with nothing.** No inputs, nothing counted, nothing in flight, no device, no
/// wait before one is tried, and a report due a window from now.
pub proof fn a_mixer_begins_with_nothing<S>(now: Span, played: Option<u64>)
    ensures
        ({
            let mixer = MixerState::<S>::fresh(now);
            &&& mixer.well_formed()
            &&& mixer.slots.len() == 0 && mixer.next_id == 0
            &&& mixer.counters.window(mixer.reported) == mixer.counters
            &&& mixer.counters.written == 0 && mixer.counters.drained == 0
            &&& mixer.counters.starved == 0 && mixer.counters.idle == 0
            &&& mixer.counters.shed == 0 && mixer.counters.emitted == 0
            &&& !mixer.sink.real && mixer.sink.submitted == 0 && mixer.sink.started == now
            &&& mixer.sink.holds(now, played) == 0 && mixer.device_inflight == 0
            &&& mixer.empty_since is None && mixer.retry_at is None
            &&& mixer.reported_at == now && mixer.reported_underruns == 0 && mixer.peak == 0
            &&& mixer.phase == RunPhase::Idle
        }),
{
}

/// **What is let go of leaves silence from then on.** A device that is released leaves a sink
/// that begins at that moment with nothing submitted, and one may be tried at once; a device that
/// opens begins when it opened, with nothing submitted, and is not waited for any more. Parking
/// changes nothing else.
pub proof fn a_new_sink_begins_afresh<S>(
    mixer: MixerState<S>,
    now: Span,
    started: Span,
    played: Option<u64>,
)
    ensures
        mixer.slots.len() == 0 ==> {
            let (after, action) = mixer.wakes(now, played);
            &&& action->release ==> after.sink.started == now && after.sink.submitted == 0
                && !after.sink.real && after.retry_at is None
            &&& !action->release ==> after.sink == mixer.sink && after.retry_at == mixer.retry_at
            &&& after.slots == mixer.slots && after.counters == mixer.counters
            &&& after.phase == mixer.phase && after.next_id == mixer.next_id
            &&& after.reported == mixer.reported && after.reported_at == mixer.reported_at
        },
        mixer.phase is Opening ==> {
            let after = mixer.opens(Some(started), played).0;
            after.sink.real && after.sink.submitted == 0 && after.sink.started == started
                && after.retry_at is None
        },
{
}

/// **What is in flight is what was submitted and has not played.** A sink that counts is believed,
/// one that does not has played for as long as it has been there, and no sink holds less than
/// nothing.
pub proof fn what_is_in_flight_has_not_played(sink: Sink, now: Span, counted: u64)
    ensures
        counted <= sink.submitted ==> counted + sink.holds(now, Some(counted)) == sink.submitted,
        counted > sink.submitted ==> sink.holds(now, Some(counted)) == 0,
        now@ <= sink.started@ ==> sink.holds(now, None) == sink.submitted,
        now@ == sink.started@ + 1_000_000_000 && sink.submitted >= crate::mixer::RATE ==> sink.holds(now, None)
            + crate::mixer::RATE == sink.submitted,
{
    crate::mixer::a_second_is_the_rate(1, 0, 0);
    crate::mixer::a_second_is_the_rate(0, 0, 0);
}

} // verus!
