use castaway_pipeline::motion::Placement::{Hidden, Panel, Widget};
use castaway_pipeline::motion::{
    Choreography, Floor, FloorFrame, Frame, Motion, Motions, Origin, Phase, Placement, Spring, Step,
    Surface, Target, EXIT_SCALE, FADE_THROUGH_SCALE, FLOOR_DIM, FLOOR_RECESS,
};

/// A rectangle, in thousandths of the panel.
type Rect = (i64, i64, i64, i64);

const FULL: Rect = (0, 0, 1000, 1000);
const CORNER: Rect = (660, 660, 320, 320);
const STILL: Rect = (0, 0, 0, 0);
const INSET: Rect = (30, 30, 940, 940);

fn target(rect: Rect) -> Target<Rect, i64> {
    Target {
        rect,
        opacity: 1000,
    }
}

fn absent() -> Motion<Rect, i64> {
    Motion::absent(Frame {
        at: FULL,
        vel: STILL,
        opacity: 0,
        opacity_vel: 0,
    })
}

fn step(from: Option<Placement>, to: Option<Placement>) -> Step<Rect> {
    Step {
        from,
        to,
        origin: Origin::Nowhere,
    }
}

#[test]
fn exits_are_quicker_than_the_entrances_they_reverse() {
    for shown in [Panel, Widget] {
        let out = Choreography::spring(step(Some(shown), Some(Hidden)));
        let back = Choreography::spring(step(Some(Hidden), Some(shown)));
        assert!(out.response < back.response);
    }
    let gone = Choreography::spring(step(Some(Panel), None));
    for origin in [Origin::Nowhere, Origin::From(CORNER)] {
        let arriving = Choreography::spring(Step {
            from: None,
            to: Some(Panel),
            origin,
        });
        assert!(gone.response < arriving.response);
    }
}

#[test]
fn only_the_summon_overshoots() {
    // A display people see out of the corner of their eye all day should not wobble. The
    // one exception is the transition somebody asked for with a finger, and it is
    // deliberate — so it is worth a test that fails if a future tune spreads it.
    let summon = step(Some(Widget), Some(Panel));
    assert!(Choreography::spring(summon).damping < 100);

    for quiet in [
        step(Some(Panel), Some(Widget)),
        step(Some(Widget), Some(Hidden)),
        step(Some(Panel), None),
        step(None, Some(Panel)),
        step(Some(Hidden), Some(Panel)),
        step(Some(Hidden), Some(Widget)),
    ] {
        assert_eq!(Choreography::spring(quiet).damping, 100, "{quiet:?}");
    }
}

#[test]
fn the_table_is_the_panels_feel() {
    let table = [
        (None, Some(Panel), 28, 100),
        (Some(Panel), None, 20, 100),
        (Some(Panel), Some(Widget), 42, 100),
        (Some(Widget), Some(Panel), 38, 85),
        (Some(Hidden), Some(Widget), 32, 100),
        (Some(Widget), Some(Hidden), 22, 100),
        (Some(Hidden), Some(Panel), 34, 100),
        (Some(Panel), Some(Hidden), 24, 100),
        (Some(Panel), Some(Panel), 30, 100),
    ];
    for (from, to, response, damping) in table {
        assert_eq!(
            Choreography::spring(step(from, to)),
            Spring::new(response, damping)
        );
    }
    assert_eq!(
        Choreography::spring(Step {
            from: None,
            to: None,
            origin: Origin::From(FULL)
        }),
        Spring::new(40, 100)
    );
    let floor = Choreography::floor();
    assert_eq!(floor, Spring::new(38, 100));
    let demote = Choreography::spring(step(Some(Panel), Some(Widget)));
    let summon = Choreography::spring(step(Some(Widget), Some(Panel)));
    assert!(summon.response <= floor.response && floor.response <= demote.response);
    assert_eq!(
        (FADE_THROUGH_SCALE, EXIT_SCALE, FLOOR_RECESS, FLOOR_DIM),
        (94, 96, 102, 85)
    );
}

#[test]
fn an_app_summoned_from_the_corner_starts_at_the_corner() {
    let spring = Choreography::spring(step(None, Some(Placement::Panel)));
    let mut m = absent();
    m.enter(target(FULL), Origin::From(CORNER), spring, INSET, STILL, 0);
    assert_eq!(m.frame().at, CORNER);
    assert_eq!(m.frame().opacity, 1000, "a shared element does not fade in");
    assert_eq!(m.phase(), Phase::Entering);
}

#[test]
fn a_surface_with_nowhere_to_come_from_fades_through() {
    let mut m = absent();
    m.enter(
        target(FULL),
        Origin::Nowhere,
        Spring::new(28, 100),
        INSET,
        STILL,
        0,
    );
    assert_eq!(m.frame().opacity, 0, "it fades in");
    assert_eq!(m.frame().at, INSET);
}

#[test]
fn a_leaving_surface_stays_drawn_until_it_has_gone() {
    let spring = Choreography::spring(step(Some(Placement::Panel), None));
    let mut m = absent();
    m.enter(target(FULL), Origin::From(FULL), spring, INSET, STILL, 0);
    m.leave(spring);
    let gone = Target {
        rect: (20, 20, 960, 960),
        opacity: 0,
    };
    for left in (1..10).rev() {
        let next = Frame {
            at: FULL,
            vel: STILL,
            opacity: left * 100,
            opacity_vel: -100,
        };
        assert!(m.step(next, false, gone, STILL, 0));
        assert!(m.drawn(), "it must stay composited while it is leaving");
    }
    let last = m.frame();
    assert!(!m.step(last, true, gone, STILL, 0));
    assert_eq!(m.phase(), Phase::Absent, "and now the layer can go");
    assert_eq!(m.frame().at, gone.rect);
    assert!(!m.step(last, false, gone, STILL, 0), "nothing moves any more");
}

#[test]
fn an_arrival_rests_exactly_where_it_was_heading() {
    let mut m = absent();
    m.enter(
        target(FULL),
        Origin::From(FULL),
        Spring::new(42, 100),
        INSET,
        STILL,
        0,
    );
    m.move_to(Spring::new(42, 100));
    m.push((5, 0, 0, 0));
    assert_eq!(m.frame().vel, (5, 0, 0, 0), "a flick carries through");
    let near = Frame {
        at: (661, 660, 320, 320),
        vel: (1, 0, 0, 0),
        opacity: 999,
        opacity_vel: 1,
    };
    assert!(!m.step(near, true, target(CORNER), STILL, 0));
    assert_eq!(m.frame().at, CORNER);
    assert_eq!(m.frame().vel, STILL);
    assert_eq!(m.phase(), Phase::Resting);
    m.snap(
        Target {
            rect: FULL,
            opacity: 0,
        },
        false,
        STILL,
        0,
    );
    assert_eq!(m.phase(), Phase::Absent);
    m.snap(target(FULL), true, STILL, 0);
    assert_eq!(m.phase(), Phase::Resting);
    assert_eq!(m.spring(), Spring::new(42, 100));
}

#[test]
fn the_floor_starts_where_it_is_asked_to_be_and_does_not_animate_on_boot() {
    let mut floor: Floor<i64> = Floor::new();
    assert!(
        floor.placement().is_none(),
        "untouched, so leave the layer alone"
    );
    let (scale, dim) = Floor::<i64>::target(true);
    let wanted = FloorFrame {
        scale: i64::from(scale),
        scale_vel: 0,
        dim: i64::from(dim),
        dim_vel: 0,
    };
    let elsewhere = FloorFrame { scale: 7, ..wanted };
    assert!(
        !floor.step(elsewhere, false, wanted),
        "the first step is a placement"
    );
    let at = floor.placement().unwrap();
    assert_eq!(at.scale, i64::from(FLOOR_RECESS));
    assert_eq!(at.dim, i64::from(FLOOR_DIM));
    // Overscanned, never inset.
    assert!(at.scale >= 100);
}

#[test]
fn the_floor_comes_forward_when_the_session_hands_the_glass_back() {
    let frame = |scale: u16, dim: u16| FloorFrame {
        scale: i64::from(scale),
        scale_vel: 0,
        dim: i64::from(dim),
        dim_vel: 0,
    };
    let mut floor: Floor<i64> = Floor::new();
    floor.step(frame(0, 0), false, frame(102, 85));
    let (scale, dim) = Floor::<i64>::target(false);
    assert!(floor.step(frame(101, 90), false, frame(scale, dim)));
    assert_eq!(floor.placement().unwrap().dim, 90);
    assert!(!floor.step(frame(100, 99), true, frame(scale, dim)));
    let at = floor.placement().unwrap();
    assert_eq!(at.scale, 100, "back to full size");
    assert_eq!(at.dim, 100, "and full brightness");
}

#[test]
fn motions_are_addressed_by_surface_without_an_index_anybody_can_get_wrong() {
    let all_surfaces = [
        Surface::Video,
        Surface::Card,
        Surface::CastPage,
        Surface::IdleWidget,
    ];
    let mut all = Motions::new(absent().frame());
    for surface in all_surfaces {
        assert_eq!(all.get(surface).phase(), Phase::Absent);
    }
    all.get_mut(Surface::Card).enter(
        target(FULL),
        Origin::Nowhere,
        Spring::new(30, 100),
        INSET,
        STILL,
        0,
    );
    assert_eq!(all.get(Surface::Card).phase(), Phase::Entering);
    for other in [Surface::Video, Surface::CastPage, Surface::IdleWidget] {
        assert_eq!(
            all.get(other).phase(),
            Phase::Absent,
            "{other:?} moved with the card"
        );
    }
}
