//! How the panel *moves* between the states it decides on.
//!
//! The panel is discrete: a surface is on it, in the corner, or nowhere. This is the
//! continuous half — where a surface comes from, which spring carries it, and when it has
//! arrived. Where each edge is on the way is the caller's arithmetic: a rectangle and a
//! visibility are whatever types it integrates in.
//!
//! Three rules: a surface that exists before and after travels and never cross-fades; a
//! surface that appears comes from where it was summoned; and exits are faster than the
//! entrances they reverse.
use vstd::prelude::*;

verus! {

/// Where a surface is on the panel.
#[derive(Debug, Clone, Copy, PartialEq, Eq, Structural)]
pub enum Placement {
    /// It has the glass.
    Panel,
    /// It is in the corner.
    Widget,
    /// It is there and not shown.
    Hidden,
}

/// A thing that moves over the panel.
#[derive(Debug, Clone, Copy, PartialEq, Eq, Structural)]
pub enum Surface {
    /// A session's video.
    Video,
    /// The now-playing card.
    Card,
    /// A page that was cast.
    CastPage,
    /// The idle screen's own widget.
    IdleWidget,
}

/// A spring, parameterised the way a person thinks about one: how long it takes to arrive.
#[derive(Debug, Clone, Copy, PartialEq, Eq, Structural)]
pub struct Spring {
    /// Hundredths of a second to arrive, roughly.
    pub response: u16,
    /// Hundredths of critical damping. Below a hundred overshoots once and comes back.
    pub damping: u16,
}

impl Spring {
    /// A spring that arrives in `response` hundredths of a second with `damping`.
    #[must_use]
    pub fn new(response: u16, damping: u16) -> (spring: Spring)
        ensures
            spring == (Spring { response, damping }),
    {
        Spring { response, damping }
    }

    /// Whether it passes its target on the way to it.
    pub open spec fn overshoots(self) -> bool {
        self.damping < 100
    }
}

/// Where a surface came onto the panel from.
#[derive(Debug, Clone, Copy)]
pub enum Origin<R> {
    /// A rectangle on the panel: the tile that was pressed, or the corner it is being
    /// summoned from. The surface starts there, at full opacity, and travels.
    From(R),
    /// Nowhere in particular: a sender started a session with nobody at the panel. It fades
    /// through, from just inside the rectangle it is heading for.
    Nowhere,
}

/// What a surface is doing right now.
#[derive(Debug, Clone, Copy, PartialEq, Eq, Structural)]
pub enum Phase {
    /// Not on the panel and not moving. The layer can be dropped.
    Absent,
    /// Arriving from an [`Origin`].
    Entering,
    /// Settled where the panel says it goes.
    Resting,
    /// Travelling between two placements.
    Moving,
    /// On its way off the panel. Still drawn.
    Leaving,
}

impl Phase {
    /// Whether the surface is composited.
    pub open spec fn is_drawn(self) -> bool {
        self != Phase::Absent
    }

    /// Whether the surface should be composited at all.
    #[must_use]
    pub fn drawn(self) -> (drawn: bool)
        ensures
            drawn == self.is_drawn(),
    {
        match self {
            Phase::Absent => false,
            _ => true,
        }
    }

    /// What a surface that has arrived is doing.
    pub open spec fn arrived(self) -> Phase {
        match self {
            Phase::Leaving => Phase::Absent,
            _ => Phase::Resting,
        }
    }
}

/// One transition, as the choreography sees it.
#[derive(Debug, Clone, Copy)]
pub struct Step<R> {
    /// Where it was. `None` means it was not on the panel.
    pub from: Option<Placement>,
    /// Where it is going. `None` means it is leaving.
    pub to: Option<Placement>,
    /// Where it is arriving from. Consulted only when `from` is `None`.
    pub origin: Origin<R>,
}

/// The table: which spring each transition gets. One place, so the panel's feel is legible
/// as data.
pub struct Choreography;

/// How much of the panel a surface with no origin starts at, in hundredths.
pub const FADE_THROUGH_SCALE: u16 = 94;

/// How much of its rectangle a surface shrinks to as it leaves, in hundredths.
pub const EXIT_SCALE: u16 = 96;

/// How far the floor pushes back while a session has the glass, in hundredths. More than
/// everything: there is nothing behind the shell, so scaling it *down* would open a black
/// border around the panel.
pub const FLOOR_RECESS: u16 = 102;

/// How bright the floor is while a session has the glass, in hundredths.
pub const FLOOR_DIM: u16 = 85;

impl Choreography {
    /// The spring for a step.
    pub open spec fn spring_for<R>(step: Step<R>) -> Spring {
        match (step.from, step.to) {
            (None, _) => match step.origin {
                Origin::From(_) => Spring { response: 40, damping: 100 },
                Origin::Nowhere => Spring { response: 28, damping: 100 },
            },
            (Some(_), None) => Spring { response: 20, damping: 100 },
            (Some(from), Some(to)) => match (from, to) {
                (Placement::Panel, Placement::Widget) => Spring { response: 42, damping: 100 },
                (Placement::Widget, Placement::Panel) => Spring { response: 38, damping: 85 },
                (Placement::Hidden, Placement::Widget) => Spring { response: 32, damping: 100 },
                (Placement::Widget, Placement::Hidden) => Spring { response: 22, damping: 100 },
                (Placement::Hidden, Placement::Panel) => Spring { response: 34, damping: 100 },
                (Placement::Panel, Placement::Hidden) => Spring { response: 24, damping: 100 },
                _ => Spring { response: 30, damping: 100 },
            },
        }
    }

    /// The spring for `step`.
    ///
    /// Appearing from a rectangle can afford to be stately; from nowhere it should be brisk.
    /// Leaving altogether is the fastest thing the panel does. Going into the corner is its
    /// signature move, the one the eye follows all the way, so it gets the longest response.
    /// The summon — what a person directly asked for by putting a
    /// finger on the corner — is the one place where overshoot is right; everything else on
    /// a display people see out of the corner of their eye all day is critically damped.
    #[must_use]
    pub fn spring<R: Copy>(step: Step<R>) -> (spring: Spring)
        ensures
            spring == Choreography::spring_for(step),
    {
        match (step.from, step.to) {
            (None, _) => {
                match step.origin {
                    Origin::From(_) => Spring::new(40, 100),
                    Origin::Nowhere => Spring::new(28, 100),
                }
            },
            (Some(_), None) => Spring::new(20, 100),
            (Some(Placement::Panel), Some(Placement::Widget)) => Spring::new(42, 100),
            (Some(Placement::Widget), Some(Placement::Panel)) => Spring::new(38, 85),
            (Some(Placement::Hidden), Some(Placement::Widget)) => Spring::new(32, 100),
            (Some(Placement::Widget), Some(Placement::Hidden)) => Spring::new(22, 100),
            (Some(Placement::Hidden), Some(Placement::Panel)) => Spring::new(34, 100),
            (Some(Placement::Panel), Some(Placement::Hidden)) => Spring::new(24, 100),
            (Some(_), Some(_)) => Spring::new(30, 100),
        }
    }

    /// The spring the floor moves by.
    pub open spec fn floor_spring() -> Spring {
        Spring { response: 38, damping: 100 }
    }

    /// The floor's own spring. Between the demote's and the summon's, because it moves with
    /// both and should never be the thing that finishes last.
    #[must_use]
    pub fn floor() -> (spring: Spring)
        ensures
            spring == Choreography::floor_spring(),
    {
        Spring::new(38, 100)
    }
}

/// Where a surface is heading, and how visible it should be when it gets there.
#[derive(Debug, Clone, Copy)]
pub struct Target<R, F> {
    /// The rectangle it is heading for.
    pub rect: R,
    /// The opacity it is heading for.
    pub opacity: F,
}

/// A surface's rectangle and opacity, and how fast each is changing.
#[derive(Debug, Clone, Copy)]
pub struct Frame<R, F> {
    /// Where it is.
    pub at: R,
    /// How fast each of its edges is moving.
    pub vel: R,
    /// How visible it is.
    pub opacity: F,
    /// How fast that is changing.
    pub opacity_vel: F,
}

/// One surface's live geometry: where it actually is, how fast it is moving, and what it is
/// doing.
#[derive(Debug, Clone, Copy)]
pub struct Motion<R, F> {
    frame: Frame<R, F>,
    phase: Phase,
    spring: Spring,
}

impl<R, F> Motion<R, F> {
    /// Where it is and how fast it is moving.
    pub closed spec fn shown(self) -> Frame<R, F> {
        self.frame
    }

    /// What it is doing.
    pub closed spec fn doing(self) -> Phase {
        self.phase
    }

    /// What carries it.
    pub closed spec fn carried_by(self) -> Spring {
        self.spring
    }
}

impl<R: Copy, F: Copy> Motion<R, F> {
    /// A surface that is not on the panel.
    #[must_use]
    pub fn absent(frame: Frame<R, F>) -> (motion: Motion<R, F>)
        ensures
            motion.shown() == frame,
            motion.doing() == Phase::Absent,
            motion.carried_by() == (Spring { response: 30, damping: 100 }),
    {
        Motion { frame, phase: Phase::Absent, spring: Spring::new(30, 100) }
    }

    /// Where it is now, and how fast it is moving. What the compositor gets.
    #[must_use]
    pub fn frame(&self) -> (frame: Frame<R, F>)
        ensures
            frame == self.shown(),
    {
        self.frame
    }

    /// What it is doing.
    #[must_use]
    pub fn phase(&self) -> (phase: Phase)
        ensures
            phase == self.doing(),
    {
        self.phase
    }

    /// What carries it.
    #[must_use]
    pub fn spring(&self) -> (spring: Spring)
        ensures
            spring == self.carried_by(),
    {
        self.spring
    }

    /// Whether it should be composited.
    #[must_use]
    pub fn drawn(&self) -> (drawn: bool)
        ensures
            drawn == self.doing().is_drawn(),
    {
        self.phase.drawn()
    }

    /// Start arriving at `target` from `origin`; `inset` is the target's rectangle at the
    /// fade-through scale, `still` a rectangle that is not moving and `clear` no visibility.
    ///
    /// The surface is placed at its origin *before* the first step, so the first frame it is
    /// composited in is already the right size in the right place.
    pub fn enter(
        &mut self,
        target: Target<R, F>,
        origin: Origin<R>,
        spring: Spring,
        inset: R,
        still: R,
        clear: F,
    )
        ensures
            final(self).shown() == (Frame {
                at: match origin {
                    Origin::From(rect) => rect,
                    Origin::Nowhere => inset,
                },
                vel: still,
                opacity: match origin {
                    Origin::From(_) => target.opacity,
                    Origin::Nowhere => clear,
                },
                opacity_vel: clear,
            }),
            final(self).doing() == Phase::Entering,
            final(self).carried_by() == spring,
    {
        let (at, opacity) = match origin {
            Origin::From(rect) => (rect, target.opacity),
            Origin::Nowhere => (inset, clear),
        };
        self.frame = Frame { at, vel: still, opacity, opacity_vel: clear };
        self.phase = Phase::Entering;
        self.spring = spring;
    }

    /// Be at `target` now, with no motion at all: for a renderer nobody is watching.
    /// `visible` says whether the target's opacity is any at all.
    pub fn snap(&mut self, target: Target<R, F>, visible: bool, still: R, clear: F)
        ensures
            final(self).shown() == (Frame {
                at: target.rect,
                vel: still,
                opacity: target.opacity,
                opacity_vel: clear,
            }),
            final(self).doing() == if visible {
                Phase::Resting
            } else {
                Phase::Absent
            },
            final(self).carried_by() == old(self).carried_by(),
    {
        self.frame = Frame {
            at: target.rect,
            vel: still,
            opacity: target.opacity,
            opacity_vel: clear,
        };
        self.phase =
        if visible {
            Phase::Resting
        } else {
            Phase::Absent
        };
    }

    /// Head somewhere else. Velocity is kept, so a reversal mid-flight carries through the
    /// turn instead of stopping dead and starting again.
    pub fn move_to(&mut self, spring: Spring)
        ensures
            final(self).shown() == old(self).shown(),
            final(self).doing() == Phase::Moving,
            final(self).carried_by() == spring,
    {
        self.phase = Phase::Moving;
        self.spring = spring;
    }

    /// Start leaving. Still drawn until it has finished.
    pub fn leave(&mut self, spring: Spring)
        ensures
            final(self).shown() == old(self).shown(),
            final(self).doing() == Phase::Leaving,
            final(self).carried_by() == spring,
    {
        self.phase = Phase::Leaving;
        self.spring = spring;
    }

    /// Hand a velocity to the animation — what a released drag does.
    pub fn push(&mut self, vel: R)
        ensures
            final(self).shown() == (Frame { vel, ..old(self).shown() }),
            final(self).doing() == old(self).doing(),
            final(self).carried_by() == old(self).carried_by(),
    {
        self.frame.vel = vel;
    }

    /// Take up a frame's worth of time: `next` is where the spring carries it, and `settled`
    /// whether that is close enough to `target`, and slow enough, to have arrived. Returns
    /// whether anything is still moving.
    ///
    /// The one place a phase finishes: a surface that has arrived rests exactly where it was
    /// heading, and one that has finished leaving is absent, so its layer can go.
    pub fn step(
        &mut self,
        next: Frame<R, F>,
        settled: bool,
        target: Target<R, F>,
        still: R,
        clear: F,
    ) -> (moving: bool)
        ensures
            final(self).carried_by() == old(self).carried_by(),
            moving == (old(self).doing() != Phase::Absent && !settled),
            old(self).doing() == Phase::Absent ==> final(self).shown() == old(self).shown()
                && final(self).doing() == Phase::Absent,
            moving ==> final(self).shown() == next && final(self).doing() == old(self).doing(),
            old(self).doing() != Phase::Absent && settled ==> {
                &&& final(self).shown() == (Frame {
                    at: target.rect,
                    vel: still,
                    opacity: target.opacity,
                    opacity_vel: clear,
                })
                &&& final(self).doing() == old(self).doing().arrived()
            },
    {
        match self.phase {
            Phase::Absent => {
                return false;
            },
            _ => {},
        }
        if !settled {
            self.frame = next;
            return true;
        }
        self.frame = Frame {
            at: target.rect,
            vel: still,
            opacity: target.opacity,
            opacity_vel: clear,
        };
        self.phase =
        match self.phase {
            Phase::Leaving => Phase::Absent,
            _ => Phase::Resting,
        };
        false
    }
}

/// The floor's motion: the shell receding under a session that has the glass.
#[derive(Debug, Clone, Copy)]
pub struct Floor<F> {
    at: Option<FloorFrame<F>>,
}

/// How large and how bright the floor is, and how fast each is changing.
#[derive(Debug, Clone, Copy)]
pub struct FloorFrame<F> {
    /// How large.
    pub scale: F,
    /// How fast that is changing.
    pub scale_vel: F,
    /// How bright.
    pub dim: F,
    /// How fast that is changing.
    pub dim_vel: F,
}

impl<F> Floor<F> {
    /// Where it is, once it has been placed.
    pub closed spec fn placed(self) -> Option<FloorFrame<F>> {
        self.at
    }
}

impl<F: Copy> Floor<F> {
    /// A floor that has not been placed.
    pub fn new() -> (floor: Floor<F>)
        ensures
            floor.placed() is None,
    {
        Floor { at: None }
    }

    /// How large and how bright the shell is. `None` until it has first been stepped, so a
    /// renderer that never animates leaves the layer alone entirely.
    #[must_use]
    pub fn placement(&self) -> (at: Option<FloorFrame<F>>)
        ensures
            at == self.placed(),
    {
        self.at
    }

    /// The scale and brightness the floor is asked for, in hundredths.
    pub open spec fn wanted(recessed: bool) -> (u16, u16) {
        if recessed {
            (FLOOR_RECESS, FLOOR_DIM)
        } else {
            (100, 100)
        }
    }

    /// The scale and brightness the floor is asked for, in hundredths.
    pub fn target(recessed: bool) -> (target: (u16, u16))
        ensures
            target == Floor::<F>::wanted(recessed),
    {
        if recessed {
            (FLOOR_RECESS, FLOOR_DIM)
        } else {
            (100, 100)
        }
    }

    /// Advance toward the asked-for arrangement; `next` is where the spring carries the floor
    /// and `settled` whether it has arrived. Returns whether it is still moving.
    ///
    /// The first step places the floor where it is asked to be, so nothing animates on boot.
    pub fn step(&mut self, next: FloorFrame<F>, settled: bool, target: FloorFrame<F>) -> (moving:
        bool)
        ensures
            moving == (old(self).placed() is Some && !settled),
            final(self).placed() == Some(
                if moving {
                    next
                } else {
                    target
                },
            ),
    {
        let first = match self.at {
            Some(_) => false,
            None => true,
        };
        if first || settled {
            self.at = Some(target);
            return false;
        }
        self.at = Some(next);
        true
    }
}

/// Every surface's motion.
pub struct Motions<R, F> {
    /// A session's video.
    pub video: Motion<R, F>,
    /// The now-playing card.
    pub card: Motion<R, F>,
    /// A page that was cast.
    pub cast_page: Motion<R, F>,
    /// The idle screen's own widget.
    pub idle_widget: Motion<R, F>,
    /// The floor, which is not a surface but moves with them.
    pub floor: Floor<F>,
}

impl<R, F> Motions<R, F> {
    /// One surface's motion.
    pub open spec fn of(self, surface: Surface) -> Motion<R, F> {
        match surface {
            Surface::Video => self.video,
            Surface::Card => self.card,
            Surface::CastPage => self.cast_page,
            Surface::IdleWidget => self.idle_widget,
        }
    }
}

impl<R: Copy, F: Copy> Motions<R, F> {
    /// Every surface off the panel, and the floor not placed.
    pub fn new(frame: Frame<R, F>) -> (motions: Motions<R, F>)
        ensures
            forall|surface: Surface|
                {
                    &&& (#[trigger] motions.of(surface)).doing() == Phase::Absent
                    &&& motions.of(surface).shown() == frame
                },
            motions.floor.placed() is None,
    {
        Motions {
            video: Motion::absent(frame),
            card: Motion::absent(frame),
            cast_page: Motion::absent(frame),
            idle_widget: Motion::absent(frame),
            floor: Floor::new(),
        }
    }

    /// One surface's motion.
    #[must_use]
    pub fn get(&self, surface: Surface) -> (motion: &Motion<R, F>)
        ensures
            *motion == self.of(surface),
    {
        match surface {
            Surface::Video => &self.video,
            Surface::Card => &self.card,
            Surface::CastPage => &self.cast_page,
            Surface::IdleWidget => &self.idle_widget,
        }
    }

    /// One surface's motion, to change; the others and the floor stay as they are.
    pub fn get_mut(&mut self, surface: Surface) -> (motion: &mut Motion<R, F>)
        ensures
            *motion == old(self).of(surface),
            forall|other: Surface| #[trigger]
                final(self).of(other) == if other == surface {
                    *final(motion)
                } else {
                    old(self).of(other)
                },
            final(self).floor == old(self).floor,
    {
        match surface {
            Surface::Video => &mut self.video,
            Surface::Card => &mut self.card,
            Surface::CastPage => &mut self.cast_page,
            Surface::IdleWidget => &mut self.idle_widget,
        }
    }
}

/// **Exits are quicker than the entrances they reverse.** Going into hiding is quicker than
/// coming out of it, and leaving the panel altogether is quicker than anything else.
pub proof fn exits_are_quicker_than_entrances<R>(shown: Placement, origin: Origin<R>, step: Step<R>)
    requires
        shown != Placement::Hidden,
    ensures
        Choreography::spring_for(
            Step { from: Some(shown), to: Some(Placement::Hidden), origin },
        ).response < Choreography::spring_for(
            Step { from: Some(Placement::Hidden), to: Some(shown), origin },
        ).response,
        step.from is None || step.to is Some ==> Choreography::spring_for(
            Step { from: Some(shown), to: None, origin },
        ).response < Choreography::spring_for(step).response,
{
}

/// **Going into the corner takes the longest**, and nothing else takes as long.
pub proof fn the_demote_is_the_longest<R>(step: Step<R>, origin: Origin<R>)
    ensures
        ({
            let demote = Choreography::spring_for(
                Step { from: Some(Placement::Panel), to: Some(Placement::Widget), origin },
            );
            &&& Choreography::spring_for(step).response <= demote.response
            &&& Choreography::spring_for(step).response == demote.response <==> (step.from == Some(
                Placement::Panel,
            ) && step.to == Some(Placement::Widget))
        }),
{
}

/// **Only the summon overshoots.** From the corner to the panel is the one transition that is
/// lively; every other is critically damped.
pub proof fn only_the_summon_overshoots<R>(step: Step<R>)
    ensures
        Choreography::spring_for(step).overshoots() <==> (step.from == Some(Placement::Widget)
            && step.to == Some(Placement::Panel)),
        !Choreography::spring_for(step).overshoots() ==> Choreography::spring_for(step).damping
            == 100,
{
}

/// **The floor never holds up what it moves with.** Its spring lies between the summon's and
/// the demote's, responds no later than either, and does not overshoot.
pub proof fn the_floor_moves_with_both<R>(origin: Origin<R>)
    ensures
        ({
            let demote = Choreography::spring_for(
                Step { from: Some(Placement::Panel), to: Some(Placement::Widget), origin },
            );
            let summon = Choreography::spring_for(
                Step { from: Some(Placement::Widget), to: Some(Placement::Panel), origin },
            );
            let floor = Choreography::floor_spring();
            &&& summon.response <= floor.response <= demote.response
            &&& floor.response <= summon.response
            &&& !floor.overshoots()
        }),
{
}

/// **Every transition arrives.** No spring in the table is without a response, and none takes
/// as long as half a second.
pub proof fn every_spring_arrives<R>(step: Step<R>)
    ensures
        0 < Choreography::spring_for(step).response < 50,
{
}

/// **A leaving surface stays drawn until it has gone.** Until it arrives it is still leaving,
/// and only then is it absent.
pub proof fn a_leaving_surface_stays_drawn(phase: Phase)
    ensures
        Phase::Leaving.is_drawn(),
        !phase.arrived().is_drawn() <==> phase == Phase::Leaving,
{
}

/// **Arriving from somewhere is statelier than arriving from nowhere**, and what arrives rests,
/// unless it was on its way off.
pub proof fn arriving_from_somewhere_is_statelier<R>(rect: R, to: Option<Placement>, phase: Phase)
    ensures
        Choreography::spring_for(Step { from: None, to, origin: Origin::<R>::Nowhere }).response
            < Choreography::spring_for(Step { from: None, to, origin: Origin::From(rect) }).response,
        phase.arrived() == Phase::Resting <==> phase != Phase::Leaving,
        phase.arrived() == Phase::Resting || phase.arrived() == Phase::Absent,
        phase.is_drawn() <==> phase != Phase::Absent,
{
}

/// **Where a surface comes from matters only when it was not there.** One that was keeps the
/// spring of its transition, wherever it is said to come from.
pub proof fn an_origin_matters_only_to_what_appears<R>(step: Step<R>, other: Origin<R>)
    requires
        step.from is Some,
    ensures
        Choreography::spring_for(step) == Choreography::spring_for(Step { origin: other, ..step }),
{
}

/// **The floor recedes under a session and comes back.** While a session has the glass it is
/// larger, so that no border opens, and darker; otherwise it is as it is.
pub proof fn the_floor_recedes_and_comes_back<F: Copy>()
    ensures
        Floor::<F>::wanted(true).0 > 100,
        Floor::<F>::wanted(true).1 < 100,
        Floor::<F>::wanted(false) == (100u16, 100u16),
{
}

/// **A surface is its own.** No two surfaces share a motion.
pub proof fn a_surface_is_its_own<R, F>(motions: Motions<R, F>, motion: Motion<R, F>)
    ensures
        (Motions { video: motion, ..motions }).of(Surface::Video) == motion,
        (Motions { card: motion, ..motions }).of(Surface::Card) == motion,
        (Motions { cast_page: motion, ..motions }).of(Surface::CastPage) == motion,
        (Motions { idle_widget: motion, ..motions }).of(Surface::IdleWidget) == motion,
        forall|surface: Surface|
            surface != Surface::Video ==> #[trigger] (Motions { video: motion, ..motions }).of(
                surface,
            ) == motions.of(surface),
{
}

/// **The panel's paces stand in one order.** From the quickest: leaving altogether, out of the
/// corner, off the glass, appearing from nowhere, anything that is not told apart, into the
/// corner out of hiding, onto the glass out of hiding, the summon, appearing from somewhere, and
/// the demote. In hundredths of a second they are these, and every change of placement has one.
pub proof fn the_paces_stand_in_one_order<R>(
    rect: R,
    origin: Origin<R>,
    shown: Placement,
    to: Option<Placement>,
)
    ensures
        ({
            let pace = |from: Option<Placement>, to: Option<Placement>| -> int
                { Choreography::spring_for(Step { from, to, origin }).response as int };
            let panel = Some(Placement::Panel);
            let widget = Some(Placement::Widget);
            let hidden = Some(Placement::Hidden);
            &&& pace(Some(shown), None) == 20
            &&& pace(widget, hidden) == 22
            &&& pace(panel, hidden) == 24
            &&& pace(Some(shown), Some(shown)) == 30
            &&& pace(hidden, widget) == 32
            &&& pace(hidden, panel) == 34
            &&& pace(widget, panel) == 38
            &&& pace(panel, widget) == 42
        }),
        Choreography::spring_for(Step { from: None, to, origin: Origin::<R>::Nowhere }).response
            == 28,
        Choreography::spring_for(Step { from: None, to, origin: Origin::From(rect) }).response
            == 40,
{
}

} // verus!
