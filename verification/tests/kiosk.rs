use castaway_pipeline::kiosk::pacing::{
    Bringup, BringupOrder, Demand, Pacing, Pause, PillOrder, WindowInput, WindowNotice,
    WindowOrder, FALLBACK_FRAME_INTERVAL,
};
use castaway_pipeline::kiosk::router::{
    Answer, Ask, EdgeDrag, Effect, PanelHit, Router, ScreenHit, StripPhase, Tail, Turn,
};
use castaway_pipeline::kiosk::{
    pointer_button, ContactId, Input, InputOrigin, MouseButton, PointerButton, PointerEvent,
    TouchEvent, TouchPhase, WindowTouch,
};
use castaway_pipeline::span::Span;

const NOW: Span = Span {
    nanos: 50_000_000_000,
};

/// How long a used pointer stays on the glass here.
const HOLD: Span = Span {
    nanos: 3_000_000_000,
};

/// What the drawing side of a panel answers, and what it was told to do.
#[derive(Default)]
struct Panel {
    /// Whether there is a transport strip, across the bottom tenth.
    strip: bool,
    preview: Option<f32>,
    surface: Option<u64>,
    minimized: bool,
    tiles: bool,
    scrollable: bool,
    pill: bool,
    depth: usize,
    done: Vec<String>,
    delivered: Vec<TouchPhase>,
    sunk: usize,
    seeks: usize,
}

impl Panel {
    fn perform(&mut self, effect: &Effect<f32>) {
        match effect {
            Effect::ClearScrubPreview => self.preview = None,
            Effect::Deliver(event) => self.delivered.push(event.phase),
            Effect::SinkTouch(_) | Effect::SinkPointer(_) => self.sunk += 1,
            other => self.done.push(format!("{other:?}")),
        }
    }

    fn answer(&mut self, ask: &Ask<f32>) -> Answer<f32> {
        match *ask {
            Ask::Nothing => unreachable!(),
            Ask::Panel { x, .. } => Answer::Panel(if self.minimized && x > 0.9 {
                PanelHit::Restore
            } else {
                PanelHit::Miss
            }),
            Ask::Edge { x, y } => Answer::Edge {
                from_edge: x < 0.01,
                on_pill: self.pill && x < 0.1 && y < 0.1,
            },
            Ask::EdgeDrag { held, x, started, .. } => Answer::Drag(if !held.from_edge {
                EdgeDrag::Ignore
            } else if started {
                EdgeDrag::Carry { shown: 1.0 - x }
            } else if self.depth > 0 {
                EdgeDrag::Begin
            } else if x > 0.3 {
                EdgeDrag::Home
            } else {
                EdgeDrag::Ignore
            }),
            Ask::Begin => Answer::Began(self.depth > 0),
            Ask::Offer { phase, scrubbing } => Answer::Offer(match phase {
                TouchPhase::Down => Some(StripPhase::Press),
                TouchPhase::Up => Some(StripPhase::Release),
                TouchPhase::Move if scrubbing => Some(StripPhase::Drag),
                _ => None,
            }),
            Ask::Owns { y, .. } => Answer::Owns(self.strip && y > 0.9),
            Ask::Act { x, strip, .. } => {
                match strip {
                    StripPhase::Press | StripPhase::Drag => self.preview = Some(x),
                    StripPhase::Release => self.seeks += 1,
                }
                Answer::Acted {
                    answered: self.strip,
                    preview: self.preview.is_some(),
                }
            }
            Ask::Shell { .. } => Answer::Shell {
                hit: self.tiles.then_some(ScreenHit::Push),
                scrollable: self.scrollable,
            },
            Ask::Scroll { from, to } => {
                self.done.push(format!("Scroll {from} {to}"));
                Answer::Scrolled(from != to)
            }
            Ask::Surface => Answer::Surface(self.surface),
            Ask::Next => Answer::Next,
        }
    }

    fn finish(&mut self, router: &mut Router<f32>, mut turn: Turn<f32>) {
        loop {
            for effect in &turn.effects {
                self.perform(effect);
            }
            if matches!(turn.ask, Ask::Nothing) {
                return;
            }
            let answer = self.answer(&turn.ask);
            turn = router.answer(answer, NOW);
        }
    }

    fn apply(&mut self, router: &mut Router<f32>, input: Input<f32>) {
        let turn = router.apply(input, NOW);
        self.finish(router, turn);
    }

    fn forget(&mut self, router: &mut Router<f32>, origin: InputOrigin) {
        let turn = router.forget_origin(origin, NOW);
        self.finish(router, turn);
    }
}

fn touch(id: ContactId, phase: TouchPhase, x: f32, y: f32) -> Input<f32> {
    Input::Touch(TouchEvent { id, phase, x, y })
}

fn down(id: ContactId, x: f32, y: f32) -> Input<f32> {
    touch(id, TouchPhase::Down, x, y)
}

fn up(id: ContactId, x: f32, y: f32) -> Input<f32> {
    touch(id, TouchPhase::Up, x, y)
}

fn moved(id: ContactId, x: f32, y: f32) -> Input<f32> {
    touch(id, TouchPhase::Move, x, y)
}

fn remote(peer: u64, finger: u32) -> ContactId {
    ContactId::Remote { peer, finger }
}

fn bench() -> (Router<f32>, Panel) {
    (Router::new(), Panel::default())
}

fn with_strip() -> (Router<f32>, Panel) {
    (
        Router::new(),
        Panel {
            strip: true,
            ..Panel::default()
        },
    )
}

#[test]
fn a_finger_on_the_scrub_track_owns_it_until_it_lifts() {
    let (mut app, mut panel) = with_strip();
    let finger = ContactId::Panel(1);
    panel.apply(&mut app, down(finger, 0.2, 0.95));
    assert_eq!(
        app.scrubber(),
        Some(finger),
        "a press on the track begins a scrub"
    );
    assert!(
        panel.preview.is_some_and(|f| (f - 0.2).abs() < 0.02),
        "and the bar goes to the finger"
    );
    panel.apply(&mut app, moved(finger, 0.8, 0.5));
    assert!(
        panel.preview.is_some_and(|f| (f - 0.8).abs() < 0.02),
        "the bar must follow, off the strip too"
    );
    panel.apply(&mut app, up(finger, 0.8, 0.5));
    assert_eq!(app.scrubber(), None, "the lift ends it");
    assert_eq!(
        panel.preview, None,
        "and the picture goes back to being the source's"
    );
}

#[test]
fn a_drag_that_merely_crosses_the_strip_is_left_alone() {
    let (mut app, mut panel) = with_strip();
    let finger = ContactId::Panel(2);
    panel.apply(&mut app, down(finger, 0.5, 0.3));
    assert_eq!(app.scrubber(), None, "nothing was scrubbed by that");
    panel.apply(&mut app, moved(finger, 0.5, 0.95));
    assert_eq!(
        app.scrubber(),
        None,
        "a passing drag must not capture the scrubber"
    );
    assert_eq!(panel.preview, None, "and must not move the bar under it");
}

#[test]
fn a_lost_contact_puts_the_bar_back_rather_than_seeking() {
    let (mut app, mut panel) = with_strip();
    let contact = remote(7, 0);
    panel.apply(&mut app, down(contact, 0.6, 0.95));
    assert_eq!(app.scrubber(), Some(contact));
    panel.forget(&mut app, InputOrigin::Remote(7));
    assert_eq!(app.scrubber(), None, "the contact is gone, so the scrub is");
    assert_eq!(panel.preview, None, "the bar goes back to the music");
    assert_eq!(panel.seeks, 0, "a dropped connection must not seek anywhere");
}

#[test]
fn two_peers_numbering_their_fingers_the_same_are_two_contacts() {
    let (mut app, mut panel) = bench();
    panel.apply(&mut app, down(remote(1, 0), 0.3, 0.3));
    panel.apply(&mut app, down(remote(2, 0), 0.5, 0.5));
    panel.apply(&mut app, down(ContactId::Panel(0), 0.7, 0.7));
    assert_eq!(app.held(), 3);

    panel.apply(&mut app, up(remote(1, 0), 0.3, 0.3));
    assert_eq!(app.held(), 2);
    assert!(app.contact(remote(2, 0)).is_some());
    assert!(app.contact(ContactId::Panel(0)).is_some());
}

#[test]
fn a_remote_contact_reaches_the_reserved_edge_like_a_finger() {
    let (mut app, mut panel) = bench();
    panel.apply(&mut app, down(remote(1, 0), 0.001, 0.5));
    let contact = app.contact(remote(1, 0)).expect("tracked");
    assert!(
        contact.from_edge,
        "a remote press on the reserved edge is the panel's, exactly as a finger's is"
    );
    assert_eq!(panel.sunk, 0, "and nothing underneath saw it");
}

#[test]
fn a_pointer_event_wakes_the_cursor_and_a_touch_puts_it_away() {
    let mut pacing = Pacing::new();
    assert!(
        pacing.pointer_used.is_none(),
        "nothing has used the pointer yet"
    );
    let moved = pacing.decode_window_event(WindowInput::CursorMoved { x: 0.1, y: 0.1 }, NOW);
    assert!(matches!(
        moved,
        Some(Input::Pointer(PointerEvent::Move { .. }))
    ));
    assert_eq!(
        pacing.pointer_used,
        Some(NOW),
        "a move must wake the cursor"
    );
    let touched = pacing.decode_window_event(
        WindowInput::Touch {
            id: 0,
            phase: WindowTouch::Started,
            x: 0.2,
            y: 0.2,
        },
        NOW,
    );
    assert!(matches!(touched, Some(Input::Touch(_))));
    assert!(
        pacing.pointer_used.is_none(),
        "a finger on the glass takes the arrow off it"
    );
}

#[test]
fn the_cursors_hide_deadline_reaches_the_demand_calculation() {
    let mut pacing = Pacing::new();
    pacing.dirty = false;
    assert_eq!(
        pacing.demand(false, None, None, None, NOW),
        Demand::Idle,
        "an untouched panel asks for nothing"
    );
    assert_eq!(
        pacing.demand(false, None, Some(HOLD), None, NOW),
        Demand::At(NOW.saturating_add(&HOLD)),
        "the hide is what is due"
    );
    assert_eq!(
        pacing.demand(false, None, None, None, NOW),
        Demand::Idle,
        "a hidden cursor asks for nothing"
    );
}

#[test]
fn a_remote_contact_does_not_touch_the_panel_mouse_state() {
    let (mut app, mut panel) = bench();
    panel.apply(&mut app, down(remote(1, 0), 0.5, 0.5));
    assert!(!app.pointer_held());
    assert!(app.contact(ContactId::Pointer).is_none());
}

fn button(button: PointerButton, down: bool) -> Input<f32> {
    Input::Pointer(PointerEvent::Button {
        x: 0.5,
        y: 0.5,
        button,
        down,
    })
}

#[test]
fn the_local_mouse_still_becomes_a_contact() {
    let (mut app, mut panel) = bench();
    panel.apply(&mut app, button(PointerButton::Left, true));
    assert!(app.pointer_held());
    assert!(app.contact(ContactId::Pointer).is_some());

    panel.apply(&mut app, button(PointerButton::Left, false));
    assert!(!app.pointer_held());
    assert_eq!(app.held(), 0);
}

#[test]
fn a_non_primary_button_is_not_a_contact() {
    let (mut app, mut panel) = bench();
    panel.apply(&mut app, button(PointerButton::Right, true));
    assert!(!app.pointer_held());
    assert_eq!(app.held(), 0);
    assert_eq!(panel.sunk, 1, "it goes to what is underneath");
}

#[test]
fn any_contact_raises_the_pill_whoever_it_belongs_to() {
    let (mut app, mut panel) = bench();
    assert!(app.pill().is_none());
    panel.apply(&mut app, down(remote(1, 0), 0.5, 0.5));
    assert_eq!(app.pill(), Some(NOW));
    app.rest_pill();
    assert!(app.pill().is_none());
}

#[test]
fn a_cancel_ends_a_contact_as_thoroughly_as_a_release() {
    let (mut app, mut panel) = bench();
    let id = remote(1, 0);
    panel.apply(&mut app, down(id, 0.5, 0.5));
    panel.apply(&mut app, touch(id, TouchPhase::Cancel, 0.5, 0.5));
    assert_eq!(app.held(), 0);
}

#[test]
fn a_drained_queue_reaches_the_router() {
    let (mut app, mut panel) = bench();
    let mut pacing = Pacing::new();
    pacing.dirty = false;
    let queue = vec![down(remote(1, 0), 0.5, 0.5)];
    assert_eq!(app.held(), 0, "nothing lands before a drain");
    pacing.drain_remote_input(queue.len());
    for input in queue {
        panel.apply(&mut app, input);
    }
    assert!(app.contact(remote(1, 0)).is_some());
    assert!(pacing.dirty, "input owes the glass a frame");
}

#[test]
fn a_departed_peer_leaves_nothing_behind_in_the_router() {
    let (mut app, mut panel) = bench();
    panel.scrollable = true;
    panel.apply(&mut app, down(remote(1, 0), 0.5, 0.5));
    panel.apply(&mut app, down(ContactId::Panel(0), 0.7, 0.7));
    panel.forget(&mut app, InputOrigin::Remote(1));
    assert!(
        app.contact(remote(1, 0)).is_none(),
        "the peer's contact is gone"
    );
    assert!(
        app.contact(ContactId::Panel(0)).is_some(),
        "and nobody else's went with it"
    );
    assert!(panel.done.contains(&"CancelOrigin(Remote(1))".to_string()));
}

#[test]
fn a_peer_that_presses_and_immediately_drops_strands_nothing() {
    let (mut app, mut panel) = bench();
    panel.apply(&mut app, down(remote(1, 0), 0.5, 0.5));
    panel.forget(&mut app, InputOrigin::Remote(1));
    assert_eq!(app.held(), 0);
}

#[test]
fn a_peer_that_drops_mid_swipe_does_not_strand_the_navigation() {
    let (mut app, mut panel) = bench();
    panel.depth = 1;
    let id = remote(1, 0);
    panel.apply(&mut app, down(id, 0.001, 0.5));
    panel.apply(&mut app, moved(id, 0.1, 0.5));
    assert!(app.carrying(), "the finger carries a navigation");
    panel.apply(&mut app, moved(id, 0.2, 0.5));
    panel.forget(&mut app, InputOrigin::Remote(1));
    assert!(!app.carrying(), "the drag was never released");
    assert!(panel.done.contains(&"Release".to_string()));
    assert_eq!(app.held(), 0);
}

#[test]
fn forgetting_an_origin_leaves_every_other_origins_contacts_alone() {
    let (mut app, mut panel) = bench();
    panel.apply(&mut app, down(remote(1, 0), 0.3, 0.3));
    panel.apply(&mut app, down(ContactId::Panel(0), 0.6, 0.6));
    panel.forget(&mut app, InputOrigin::Remote(1));
    assert_eq!(app.held(), 1);
    assert!(app.contact(ContactId::Panel(0)).is_some());
}

#[test]
fn draining_without_a_queue_is_nothing() {
    let mut pacing = Pacing::new();
    pacing.dirty = false;
    pacing.drain_remote_input(0);
    assert!(!pacing.dirty);
}

#[test]
fn extra_mouse_buttons_are_dropped() {
    assert_eq!(pointer_button(MouseButton::Left), Some(PointerButton::Left));
    assert_eq!(pointer_button(MouseButton::Back), None);
    let mut pacing = Pacing::new();
    let input = pacing.decode_window_event(
        WindowInput::MouseInput {
            x: 0.0,
            y: 0.0,
            button: MouseButton::Other(9),
            down: true,
        },
        NOW,
    );
    assert!(input.is_none());
    assert_eq!(pacing.pointer_used, Some(NOW), "but it is the mouse in use");
}

#[test]
fn a_swipe_from_the_edge_goes_home_once_and_says_so() {
    let (mut app, mut panel) = bench();
    let id = ContactId::Panel(3);
    panel.apply(&mut app, down(id, 0.001, 0.5));
    panel.apply(&mut app, moved(id, 0.4, 0.5));
    assert!(app.contact(id).unwrap().fired);
    assert_eq!(
        panel.done.iter().filter(|done| *done == "GoHome").count(),
        1
    );
    let home = panel.done.iter().position(|done| done == "GoHome").unwrap();
    assert_eq!(panel.done[home - 1], "CancelAll", "what is underneath lets go first");
}

#[test]
fn a_contact_that_began_outside_the_edge_is_never_taken_over() {
    let (mut app, mut panel) = bench();
    panel.surface = Some(4);
    panel.depth = 1;
    let id = ContactId::Panel(3);
    panel.apply(&mut app, down(id, 0.5, 0.5));
    panel.apply(&mut app, moved(id, 0.001, 0.5));
    panel.apply(&mut app, moved(id, 0.4, 0.5));
    assert!(!app.carrying());
    panel.apply(&mut app, up(id, 0.001, 0.5));
    assert_eq!(
        panel.delivered,
        vec![
            TouchPhase::Down,
            TouchPhase::Move,
            TouchPhase::Move,
            TouchPhase::Up
        ]
    );
    assert!(app.contact(id).is_none());
    // And one that began in it is never let through, wherever it goes.
    panel.depth = 0;
    panel.apply(&mut app, down(id, 0.001, 0.5));
    panel.apply(&mut app, moved(id, 0.2, 0.5));
    panel.apply(&mut app, up(id, 0.5, 0.5));
    assert_eq!(panel.delivered.len(), 4);
    assert_eq!(app.held(), 0);
}

#[test]
fn the_navigation_keeps_what_landed_in_the_edge() {
    let (mut app, mut panel) = bench();
    let inside = ContactId::Panel(1);
    let outside = ContactId::Panel(2);
    panel.apply(&mut app, down(inside, 0.001, 0.5));
    panel.apply(&mut app, down(outside, 0.5, 0.5));
    let lift = |id, x| TouchEvent { id, phase: TouchPhase::Up, x, y: 0.5 };
    let turn = app.route_navigation(lift(inside, 0.9), Tail::Touch);
    assert!(matches!(turn.ask, Ask::Nothing));
    assert!(app.contact(inside).is_none());
    let turn = app.route_navigation(lift(outside, 0.001), Tail::Touch);
    assert!(matches!(turn.ask, Ask::Offer { .. }));
    assert!(app.contact(outside).is_none());
}

#[test]
fn a_contact_that_presses_twice_is_held_once() {
    let (mut app, mut panel) = bench();
    let id = remote(1, 0);
    panel.apply(&mut app, down(id, 0.3, 0.3));
    panel.apply(&mut app, down(id, 0.001, 0.3));
    assert_eq!(app.held(), 1);
    assert!(app.contact(id).unwrap().from_edge, "as it last landed");
}

#[test]
fn a_press_on_the_pill_goes_home_and_is_not_held() {
    let (mut app, mut panel) = bench();
    panel.pill = true;
    panel.apply(&mut app, down(ContactId::Panel(0), 0.05, 0.05));
    assert_eq!(app.held(), 0);
    assert!(panel.done.contains(&"GoHome".to_string()));
    assert_eq!(panel.sunk, 0);
}

#[test]
fn a_tap_on_a_demoted_surface_brings_it_back() {
    let (mut app, mut panel) = bench();
    panel.minimized = true;
    panel.apply(&mut app, down(ContactId::Panel(0), 0.95, 0.5));
    assert!(panel.done.contains(&"Restore".to_string()));
    assert_eq!(panel.sunk, 0);
}

#[test]
fn a_tile_takes_the_press_and_a_scroll_takes_the_drag() {
    let (mut app, mut panel) = bench();
    panel.tiles = true;
    panel.apply(&mut app, down(ContactId::Panel(0), 0.5, 0.5));
    assert!(panel.done.contains(&"ShellPush".to_string()));
    assert_eq!(panel.sunk, 0);
    let (mut app, mut panel) = bench();
    panel.scrollable = true;
    panel.apply(&mut app, down(ContactId::Panel(0), 0.5, 0.5));
    assert_eq!(panel.sunk, 1, "nothing took the press itself");
    panel.apply(&mut app, moved(ContactId::Panel(0), 0.5, 0.25));
    assert_eq!(panel.sunk, 1, "but the drag scrolled");
    assert!(panel.done.contains(&"Scroll 0.5 0.25".to_string()));
    panel.apply(&mut app, moved(ContactId::Panel(0), 0.6, 0.25));
    assert_eq!(panel.sunk, 2, "a move that scrolls nothing goes on");
    panel.apply(&mut app, up(ContactId::Panel(0), 0.6, 0.25));
    assert_eq!(panel.sunk, 3, "and so does the lift");
    // With the finger gone, a move of the same name scrolls nothing.
    panel.apply(&mut app, moved(ContactId::Panel(0), 0.5, 0.1));
    assert_eq!(panel.sunk, 4);
}

#[test]
fn a_departed_peers_contact_is_cancelled_at_the_session_it_drove() {
    let (mut app, mut panel) = bench();
    panel.surface = Some(9);
    panel.apply(&mut app, down(remote(1, 0), 0.5, 0.5));
    panel.apply(&mut app, down(remote(2, 0), 0.6, 0.5));
    panel.forget(&mut app, InputOrigin::Remote(1));
    assert_eq!(
        panel.delivered,
        vec![TouchPhase::Down, TouchPhase::Down, TouchPhase::Cancel]
    );
    assert!(panel.done.contains(&"CancelOrigin(Remote(1))".to_string()));
    assert!(app.contact(remote(2, 0)).is_some());
    // One that the panel kept to itself was never the session's to let go of.
    panel.apply(&mut app, down(remote(1, 0), 0.001, 0.5));
    panel.forget(&mut app, InputOrigin::Remote(1));
    assert_eq!(panel.delivered.len(), 3);
}

#[test]
fn a_departed_peer_lets_the_scrubber_go_wherever_it_pressed_last() {
    let (mut app, mut panel) = bench();
    panel.strip = true;
    panel.apply(&mut app, down(remote(1, 0), 0.5, 0.95));
    assert_eq!(app.scrubber(), Some(remote(1, 0)));
    panel.apply(&mut app, down(remote(1, 0), 0.001, 0.5));
    panel.forget(&mut app, InputOrigin::Remote(1));
    assert_eq!(app.scrubber(), None);
    assert!(panel.preview.is_none());
    assert_eq!(panel.seeks, 0);
}

#[test]
fn a_driven_session_takes_the_contact_ahead_of_the_page() {
    let (mut app, mut panel) = bench();
    panel.surface = Some(9);
    panel.apply(&mut app, down(ContactId::Panel(0), 0.5, 0.5));
    panel.apply(&mut app, moved(ContactId::Panel(0), 0.5, 0.6));
    assert_eq!(panel.delivered, vec![TouchPhase::Down, TouchPhase::Move]);
    let told = |panel: &Panel| {
        panel
            .done
            .iter()
            .filter(|done| *done == "TellSize(9)")
            .count()
    };
    assert_eq!(told(&panel), 1, "a surface is told the size once");
    app.resized();
    panel.apply(&mut app, up(ContactId::Panel(0), 0.5, 0.6));
    assert_eq!(told(&panel), 2, "and again when the size changes");
    assert_eq!(panel.sunk, 0);
}

#[test]
fn a_back_and_a_home_let_go_of_everything_underneath() {
    let app: Router<f32> = Router::new();
    assert!(matches!(
        app.back_one_level().as_slice(),
        [Effect::CancelAll, Effect::Back]
    ));
    assert!(matches!(
        app.go_home().as_slice(),
        [Effect::CancelAll, Effect::GoHome]
    ));
}

#[test]
fn a_frame_waits_for_the_display_and_a_timer_for_its_moment() {
    let mut pacing = Pacing::new();
    assert_eq!(
        pacing.about_to_wait(false, Demand::Frame, true, NOW),
        Pause::Redraw
    );
    assert_eq!(
        pacing.window_event(WindowNotice::RedrawRequested, true, NOW),
        WindowOrder::Redraw {
            elapsed: Some(Span::zero())
        }
    );
    assert!(!pacing.dirty);
    let due = NOW.saturating_add(&Span {
        nanos: FALLBACK_FRAME_INTERVAL,
    });
    assert_eq!(
        pacing.about_to_wait(false, Demand::Frame, true, NOW),
        Pause::Until(due)
    );
    assert_eq!(
        pacing.about_to_wait(false, Demand::Frame, true, due),
        Pause::Redraw
    );
    assert_eq!(
        pacing.window_event(WindowNotice::RedrawRequested, true, due),
        WindowOrder::Redraw {
            elapsed: Some(Span {
                nanos: FALLBACK_FRAME_INTERVAL
            })
        }
    );
    // With nothing to draw with, the pill and the cursor are still seen to.
    let before = pacing.last_frame;
    assert_eq!(
        pacing.window_event(WindowNotice::RedrawRequested, false, due),
        WindowOrder::Redraw { elapsed: None }
    );
    assert_eq!(pacing.last_frame, before);
    assert_eq!(
        pacing.about_to_wait(false, Demand::At(due), true, NOW),
        Pause::Until(due)
    );
    // A change that is due waits for the display like any other frame.
    let next = pacing.next_frame_at.unwrap();
    assert_eq!(
        pacing.about_to_wait(false, Demand::At(NOW), true, NOW),
        Pause::Until(next)
    );
    assert_eq!(
        pacing.about_to_wait(false, Demand::At(NOW), true, next),
        Pause::Redraw
    );
    assert_eq!(
        pacing.about_to_wait(false, Demand::At(NOW), false, next),
        Pause::Wake
    );
    assert_eq!(
        pacing.about_to_wait(false, Demand::Idle, true, NOW),
        Pause::Wake
    );
    assert_eq!(
        pacing.about_to_wait(true, Demand::Frame, true, NOW),
        Pause::Exit
    );
}

#[test]
fn only_a_fresh_press_of_escape_backs_out() {
    let key = |pressed, repeat, escape| WindowNotice::Key {
        pressed,
        repeat,
        escape,
    };
    let mut pacing = Pacing::new();
    pacing.dirty = false;
    assert_eq!(
        pacing.window_event(key(true, false, true), true, NOW),
        WindowOrder::Back
    );
    assert!(pacing.dirty);
    for other in [
        key(true, true, true),
        key(false, false, true),
        key(true, false, false),
    ] {
        assert_eq!(
            pacing.window_event(other, true, NOW),
            WindowOrder::Nothing
        );
    }
    assert_eq!(
        pacing.window_event(WindowNotice::CloseRequested, true, NOW),
        WindowOrder::Exit
    );
    assert_eq!(
        pacing.window_event(WindowNotice::Resized, true, NOW),
        WindowOrder::Resize
    );
}

#[test]
fn the_sooner_demand_wins() {
    let at = |nanos| Demand::At(Span { nanos });
    assert_eq!(at(5).merge(at(3)), at(3));
    assert_eq!(at(5).merge(Demand::Idle), at(5));
    assert_eq!(Demand::Idle.merge(at(5)), at(5));
    assert_eq!(at(5).merge(Demand::Frame), Demand::Frame);
    assert_eq!(Demand::deadline(None), Demand::Idle);
    assert_eq!(Demand::deadline(Some(Span { nanos: 5 })), at(5));
}

#[test]
fn the_window_is_told_about_the_cursor_once() {
    let mut pacing = Pacing::new();
    assert_eq!(pacing.tick_cursor(false, true), None);
    pacing.window_up(Some(Span { nanos: 8_333_333 }));
    assert_eq!(pacing.frame_interval, Span { nanos: 8_333_333 });
    assert_eq!(pacing.tick_cursor(true, false), None, "hidden from the start");
    assert_eq!(pacing.tick_cursor(true, true), Some(true));
    assert_eq!(pacing.tick_cursor(true, true), None);
}

#[test]
fn the_pill_is_drawn_once_and_cleared_once() {
    let mut pacing = Pacing::new();
    assert_eq!(pacing.tick_pill(false), PillOrder::Leave);
    assert_eq!(pacing.tick_pill(true), PillOrder::Draw);
    pacing.pill_drew(false);
    assert_eq!(pacing.tick_pill(true), PillOrder::Draw, "it did not work");
    pacing.pill_drew(true);
    assert_eq!(pacing.tick_pill(true), PillOrder::Keep);
    assert_eq!(pacing.tick_pill(false), PillOrder::Clear);
    assert_eq!(pacing.tick_pill(false), PillOrder::Leave);
}

#[test]
fn a_window_a_surface_and_a_compositor_are_all_needed() {
    let mut bringup = Bringup::Down;
    assert_eq!(bringup.resumed(), BringupOrder::CreateWindow);
    assert_eq!(bringup.made(true), BringupOrder::CreateSurface);
    assert_eq!(bringup.made(true), BringupOrder::CreateCompositor);
    assert_eq!(bringup.made(true), BringupOrder::BeginDrawing);
    assert_eq!(bringup.resumed(), BringupOrder::Nothing, "made once");
    for failing in 0..3 {
        let mut bringup = Bringup::Down;
        bringup.resumed();
        for _ in 0..failing {
            bringup.made(true);
        }
        assert_eq!(bringup.made(false), BringupOrder::Exit);
        assert_eq!(bringup, Bringup::Failed);
        assert_eq!(bringup.resumed(), BringupOrder::CreateWindow, "from the start");
        assert_eq!(bringup.made(true), BringupOrder::CreateSurface);
    }
}

#[test]
fn a_wide_contact_number_is_cut_to_the_panels() {
    let mut pacing = Pacing::new();
    let input = pacing.decode_window_event(
        WindowInput::Touch {
            id: 0x1_0000_0007,
            phase: WindowTouch::Cancelled,
            x: 0.2,
            y: 0.3,
        },
        NOW,
    );
    match input {
        Some(Input::Touch(event)) => {
            assert_eq!(event.id, ContactId::Panel(7));
            assert_eq!(event.phase, TouchPhase::Cancel);
            assert_eq!((event.x, event.y), (0.2, 0.3));
        }
        other => panic!("{other:?}"),
    }
}
