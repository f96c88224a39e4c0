//! Where a contact goes.
//!
//! The panel's layers are asked in order — navigation, transport strip, shell — and what none
//! of them takes belongs to whatever is underneath. Each turn of the router says what to do
//! and what to find out; the answer is the next turn.
use super::{ContactId, Input, InputOrigin, PointerButton, PointerEvent, TouchEvent, TouchPhase};
use crate::span::Span;
use vstd::prelude::*;

verus! {

/// A contact that is down.
#[derive(Debug, Clone, Copy)]
pub struct Held<C> {
    /// Whose.
    pub id: ContactId,
    /// Where it landed, across the panel.
    pub start_x: C,
    /// Where it landed, down the panel.
    pub start_y: C,
    /// Whether it landed in the reserved edge.
    pub from_edge: bool,
    /// Whether its swipe has already gone home.
    pub fired: bool,
}

/// A contact that is scrolling a shell screen, and where it was last seen.
#[derive(Debug, Clone, Copy)]
pub struct Scrolling<C> {
    /// Whose.
    pub id: ContactId,
    /// How far down the panel it was.
    pub y: C,
}

/// What is under a press, of the surfaces that have been put aside.
#[derive(Debug, Clone, Copy, PartialEq, Eq, Structural)]
pub enum PanelHit {
    /// A demoted surface: the press means "bring it back".
    Restore,
    /// A demoted surface's close badge.
    Close,
    /// Neither.
    Miss,
}

/// What a drag of a contact means to the navigation.
#[derive(Debug, Clone, Copy)]
pub enum EdgeDrag<C> {
    /// Nothing.
    Ignore,
    /// Go home.
    Home,
    /// Begin the navigation the finger is going to carry.
    Begin,
    /// Carry it.
    Carry {
        /// How much of it shows.
        shown: C,
    },
}

/// What the transport strip is offered.
#[derive(Debug, Clone, Copy, PartialEq, Eq, Structural)]
pub enum StripPhase {
    /// A press.
    Press,
    /// A move of the contact that holds the scrubber.
    Drag,
    /// A release.
    Release,
}

/// What a press on the shell's own screens means.
#[derive(Debug, Clone, Copy, PartialEq, Eq, Structural)]
pub enum ScreenHit {
    /// Open a screen, out of what was pressed.
    Push,
    /// Go back.
    Back,
    /// Something only the app can answer.
    Event,
}

/// Something to do. In order, and before anything is asked.
#[derive(Debug, Clone, Copy)]
pub enum Effect<C> {
    /// Somebody is using the panel.
    NoteTouch,
    /// Whatever is underneath lets go of every contact.
    CancelAll,
    /// Whatever is underneath lets go of an origin's contacts.
    CancelOrigin(InputOrigin),
    /// Show Home, with the shell in front.
    GoHome,
    /// Go back one level.
    Back,
    /// Bring the demoted surface back.
    Restore,
    /// Ask the app to end the demoted surface's launch.
    ClosePage,
    /// The navigation follows the finger.
    Drive {
        /// How much of it shows.
        shown: C,
        /// When and where the finger was last seen carrying it.
        was: Option<(Span, C)>,
        /// The time now.
        now: Span,
        /// Where the finger is now.
        x: C,
    },
    /// The finger let the navigation go.
    Release,
    /// The bar goes back to the music.
    ClearScrubPreview,
    /// Open the screen that was pressed, with the shell in front.
    ShellPush,
    /// Go back, within the shell.
    ShellBack,
    /// Hand the press to the app.
    ShellEvent,
    /// Tell a surface the panel's size.
    TellSize(u64),
    /// Hand a contact to the surface that holds the glass.
    Deliver(TouchEvent<C>),
    /// Hand a contact to whatever is underneath.
    SinkTouch(TouchEvent<C>),
    /// Hand a pointer event to whatever is underneath.
    SinkPointer(PointerEvent<C>),
}

/// Something to find out.
#[derive(Debug, Clone, Copy)]
pub enum Ask<C> {
    /// Nothing: the input is dealt with.
    Nothing,
    /// What is under a press, of the surfaces that have been put aside.
    Panel {
        /// Where, across the panel.
        x: C,
        /// Where, down the panel.
        y: C,
    },
    /// Whether a press is in the reserved edge, and whether it is on the home pill.
    Edge {
        /// Where, across the panel.
        x: C,
        /// Where, down the panel.
        y: C,
    },
    /// What a drag means to the navigation.
    EdgeDrag {
        /// The contact.
        held: Held<C>,
        /// Where it is, across the panel.
        x: C,
        /// Where it is, down the panel.
        y: C,
        /// Whether a navigation is being carried already.
        started: bool,
    },
    /// Whether a navigation back began.
    Begin,
    /// What the transport strip is offered of a contact.
    Offer {
        /// What the contact is doing.
        phase: TouchPhase,
        /// Whether it holds the scrubber.
        scrubbing: bool,
    },
    /// Whether a point is on the transport strip.
    Owns {
        /// Where, across the panel.
        x: C,
        /// Where, down the panel.
        y: C,
    },
    /// Offer the strip a contact; whether it answered, and whether the bar then shows a
    /// preview.
    Act {
        /// Where, across the panel.
        x: C,
        /// Where, down the panel.
        y: C,
        /// What it is offered.
        strip: StripPhase,
    },
    /// What a press on the shell's screens means, and whether there is something to scroll.
    Shell {
        /// Where, across the panel.
        x: C,
        /// Where, down the panel.
        y: C,
    },
    /// Scroll the shell; whether it scrolled.
    Scroll {
        /// From where, down the panel.
        from: C,
        /// To where, down the panel.
        to: C,
    },
    /// Which surface holds the glass, if one does.
    Surface,
    /// Nothing; the next of several contacts follows.
    Next,
}

/// What was found out.
#[derive(Debug, Clone, Copy)]
pub enum Answer<C> {
    /// What is under the press.
    Panel(PanelHit),
    /// Where the press is.
    Edge {
        /// Whether it is in the reserved edge.
        from_edge: bool,
        /// Whether it is on the home pill, and the pill is there.
        on_pill: bool,
    },
    /// What the drag means.
    Drag(EdgeDrag<C>),
    /// Whether a navigation began.
    Began(bool),
    /// What the strip is offered, if anything.
    Offer(Option<StripPhase>),
    /// Whether the point is on the strip.
    Owns(bool),
    /// What the strip did.
    Acted {
        /// Whether it answered.
        answered: bool,
        /// Whether the bar shows a preview.
        preview: bool,
    },
    /// What the shell makes of the press.
    Shell {
        /// What it means, if anything.
        hit: Option<ScreenHit>,
        /// Whether there is something to scroll.
        scrollable: bool,
    },
    /// Whether the shell scrolled.
    Scrolled(bool),
    /// Which surface holds the glass.
    Surface(Option<u64>),
    /// Go on.
    Next,
}

/// What becomes of a contact that no layer took.
#[derive(Debug, Clone, Copy)]
pub enum Tail<C> {
    /// It is a finger's.
    Touch,
    /// It stands for a pointer event.
    Pointer(PointerEvent<C>),
    /// It is being forgotten, with its origin.
    Forget(InputOrigin),
}

/// What the router is waiting to hear.
#[derive(Debug, Clone, Copy)]
pub enum Step<C> {
    /// Nothing; it is ready for the next input.
    Idle,
    /// What is put aside under a press.
    Panel(TouchEvent<C>, Tail<C>),
    /// Where a press is.
    Edge(TouchEvent<C>, Tail<C>),
    /// What a drag means to the navigation.
    Drag(TouchEvent<C>, Tail<C>),
    /// Whether a navigation began.
    Began(TouchEvent<C>, Tail<C>),
    /// What the strip is offered.
    Offer(TouchEvent<C>, Tail<C>),
    /// Whether a point is on the strip.
    Owns(TouchEvent<C>, Tail<C>, StripPhase),
    /// What the strip did.
    Acted(TouchEvent<C>, Tail<C>),
    /// What is put aside under a press, below the strip.
    PanelBelow(TouchEvent<C>, Tail<C>),
    /// What the shell makes of a press.
    Shell(TouchEvent<C>, Tail<C>),
    /// Whether the shell scrolled.
    Scrolled(TouchEvent<C>, Tail<C>),
    /// Which surface holds the glass.
    Surface(TouchEvent<C>, Tail<C>),
    /// Whether to go on forgetting.
    Forgetting(InputOrigin),
}

/// What the router holds.
#[verifier::ext_equal]
pub struct RouterState<C> {
    /// The contacts that are down.
    pub contacts: Seq<Held<C>>,
    /// Where each scrolling contact was last seen.
    pub scrolls: Seq<Scrolling<C>>,
    /// The contact that holds the scrubber.
    pub scrubbing: Option<ContactId>,
    /// Whether a contact is carrying a navigation.
    pub started_drag: bool,
    /// When and where it was last seen doing so.
    pub drag_sample: Option<(Span, C)>,
    /// Whether the pointer's primary button is down.
    pub pointer_contact: bool,
    /// When the home pill was last raised.
    pub pill_since: Option<Span>,
    /// The surface that has been told the panel's size.
    pub sized: Option<u64>,
    /// The contacts still to be forgotten.
    pub doomed: Seq<Held<C>>,
    /// What it is waiting to hear.
    pub step: Step<C>,
}

/// One turn as a spec value: the router after it, what to do, what to find out.
#[verifier::ext_equal]
pub struct TurnState<C> {
    /// The router after it.
    pub after: RouterState<C>,
    /// What to do.
    pub effects: Seq<Effect<C>>,
    /// What to find out.
    pub ask: Ask<C>,
}

/// Where among the contacts that are down one is, if it is.
pub open spec fn held_at<C>(contacts: Seq<Held<C>>, id: ContactId) -> Option<int>
    decreases contacts.len(),
{
    if contacts.len() == 0 {
        None
    } else {
        match held_at(contacts.drop_last(), id) {
            Some(at) => Some(at),
            None => if contacts.last().id == id {
                Some(contacts.len() - 1)
            } else {
                None
            },
        }
    }
}

/// Where among the scrolling contacts one is, if it is.
pub open spec fn scrolling_at<C>(scrolls: Seq<Scrolling<C>>, id: ContactId) -> Option<int>
    decreases scrolls.len(),
{
    if scrolls.len() == 0 {
        None
    } else {
        match scrolling_at(scrolls.drop_last(), id) {
            Some(at) => Some(at),
            None => if scrolls.last().id == id {
                Some(scrolls.len() - 1)
            } else {
                None
            },
        }
    }
}

/// The contacts with one more, in place of any of the same name.
pub open spec fn with_held<C>(contacts: Seq<Held<C>>, held: Held<C>) -> Seq<Held<C>> {
    match held_at(contacts, held.id) {
        Some(at) => contacts.update(at, held),
        None => contacts.push(held),
    }
}

/// The scrolling contacts with one more, in place of any of the same name.
pub open spec fn with_scroll<C>(scrolls: Seq<Scrolling<C>>, id: ContactId, y: C) -> Seq<
    Scrolling<C>,
> {
    match scrolling_at(scrolls, id) {
        Some(at) => scrolls.update(at, Scrolling { id, y }),
        None => scrolls.push(Scrolling { id, y }),
    }
}

/// The contacts without one.
pub open spec fn without_held<C>(contacts: Seq<Held<C>>, id: ContactId) -> Seq<Held<C>> {
    match held_at(contacts, id) {
        Some(at) => contacts.remove(at),
        None => contacts,
    }
}

/// The scrolling contacts without one.
pub open spec fn without_scroll<C>(scrolls: Seq<Scrolling<C>>, id: ContactId) -> Seq<Scrolling<C>> {
    match scrolling_at(scrolls, id) {
        Some(at) => scrolls.remove(at),
        None => scrolls,
    }
}

/// The contacts of one origin.
pub open spec fn held_from<C>(contacts: Seq<Held<C>>, origin: InputOrigin) -> Seq<Held<C>> {
    contacts.filter(|held: Held<C>| held.id.origin() == origin)
}

/// The contacts of every other origin.
pub open spec fn held_elsewhere<C>(contacts: Seq<Held<C>>, origin: InputOrigin) -> Seq<Held<C>> {
    contacts.filter(|held: Held<C>| held.id.origin() != origin)
}

/// The scrolling contacts of every other origin.
pub open spec fn scrolls_elsewhere<C>(scrolls: Seq<Scrolling<C>>, origin: InputOrigin) -> Seq<
    Scrolling<C>,
> {
    scrolls.filter(|scroll: Scrolling<C>| scroll.id.origin() != origin)
}

/// Whether no two contacts go by the same name.
pub open spec fn told_apart<C>(contacts: Seq<Held<C>>) -> bool {
    forall|i: int, j: int|
        0 <= i < j < contacts.len() ==> (#[trigger] contacts[i]).id != (#[trigger] contacts[j]).id
}

/// A contact, if it is down.
pub open spec fn held_of<C>(contacts: Seq<Held<C>>, id: ContactId) -> Option<Held<C>> {
    match held_at(contacts, id) {
        Some(at) => Some(contacts[at]),
        None => None,
    }
}

/// Whether no two scrolling contacts go by the same name.
pub open spec fn scrolls_apart<C>(scrolls: Seq<Scrolling<C>>) -> bool {
    forall|i: int, j: int|
        0 <= i < j < scrolls.len() ==> (#[trigger] scrolls[i]).id != (#[trigger] scrolls[j]).id
}

/// A scrolling contact, if it is one.
pub open spec fn scroll_of<C>(scrolls: Seq<Scrolling<C>>, id: ContactId) -> Option<Scrolling<C>> {
    match scrolling_at(scrolls, id) {
        Some(at) => Some(scrolls[at]),
        None => None,
    }
}

impl<C> TurnState<C> {
    /// Whether the navigation kept the contact to itself.
    pub open spec fn swallows(self) -> bool {
        self.ask is Nothing || self.ask is Next
    }

    /// Whether the navigation left the contact to the layers below.
    pub open spec fn passes_on(self) -> bool {
        self.ask is Offer
    }

    /// The turn with something to do first.
    pub open spec fn after_doing(self, first: Seq<Effect<C>>) -> TurnState<C> {
        TurnState { effects: first + self.effects, ..self }
    }
}

impl<C> RouterState<C> {
    /// Whether no contact occurs twice, among those that are down and among those that
    /// scroll.
    pub open spec fn well_formed(self) -> bool {
        told_apart(self.contacts) && scrolls_apart(self.scrolls)
    }

    /// A turn that does nothing, asks something, and waits for the answer.
    pub open spec fn asks(self, ask: Ask<C>, step: Step<C>) -> TurnState<C> {
        TurnState { after: RouterState { step, ..self }, effects: Seq::empty(), ask }
    }

    /// The end of an input.
    pub open spec fn done(self) -> TurnState<C> {
        self.asks(Ask::Nothing, Step::Idle)
    }

    /// The end of a contact's way.
    pub open spec fn ends(self, tail: Tail<C>) -> TurnState<C> {
        match tail {
            Tail::Forget(origin) => self.asks(Ask::Next, Step::Forgetting(origin)),
            _ => self.done(),
        }
    }

    /// The end of a contact's way through the layers: what none of them took goes on to
    /// whatever is underneath.
    pub open spec fn concludes(self, event: TouchEvent<C>, tail: Tail<C>, consumed: bool) ->
        TurnState<C> {
        if consumed {
            self.ends(tail)
        } else {
            self.asks(Ask::Surface, Step::Surface(event, tail))
        }
    }

    /// The beginning of a contact's way: the navigation layer sees every phase, and sees them
    /// first. It is the only thing above a fullscreen cast, so it is the only thing that can
    /// offer a way out of one.
    pub open spec fn routes(self, event: TouchEvent<C>, tail: Tail<C>, now: Span) -> TurnState<C> {
        let woken = RouterState { pill_since: Some(now), ..self };
        woken.navigates(event, tail).after_doing(seq![Effect::NoteTouch])
    }

    /// The navigation layer's turn.
    pub open spec fn navigates(self, event: TouchEvent<C>, tail: Tail<C>) -> TurnState<C> {
        match event.phase {
            TouchPhase::Down => self.asks(
                Ask::Panel { x: event.x, y: event.y },
                Step::Panel(event, tail),
            ),
            TouchPhase::Move => match held_at(self.contacts, event.id) {
                Some(at) => self.asks(
                    Ask::EdgeDrag {
                        held: self.contacts[at],
                        x: event.x,
                        y: event.y,
                        started: self.started_drag,
                    },
                    Step::Drag(event, tail),
                ),
                None => self.offers(event, tail),
            },
            TouchPhase::Up | TouchPhase::Cancel => self.lifts(event, tail),
        }
    }

    /// A contact is gone from the glass, and with it the navigation it carried.
    pub open spec fn lifts(self, event: TouchEvent<C>, tail: Tail<C>) -> TurnState<C> {
        let from_edge = match held_at(self.contacts, event.id) {
            Some(at) => self.contacts[at].from_edge,
            None => false,
        };
        let left = RouterState {
            contacts: without_held(self.contacts, event.id),
            started_drag: false,
            drag_sample: if self.started_drag {
                None
            } else {
                self.drag_sample
            },
            ..self
        };
        let turn = if from_edge {
            left.concludes(event, tail, true)
        } else {
            left.offers(event, tail)
        };
        if self.started_drag {
            turn.after_doing(seq![Effect::Release])
        } else {
            turn
        }
    }

    /// The transport strip's turn.
    pub open spec fn offers(self, event: TouchEvent<C>, tail: Tail<C>) -> TurnState<C> {
        self.asks(
            Ask::Offer { phase: event.phase, scrubbing: self.scrubbing == Some(event.id) },
            Step::Offer(event, tail),
        )
    }

    /// The strip has been offered the contact, or there was nothing to offer it.
    pub open spec fn strip_answered(
        self,
        event: TouchEvent<C>,
        tail: Tail<C>,
        answered: bool,
        preview: bool,
    ) -> TurnState<C> {
        let lifted = event.phase == TouchPhase::Up && self.scrubbing == Some(event.id);
        let after = RouterState {
            scrubbing: if lifted {
                None
            } else if event.phase == TouchPhase::Down && answered && preview {
                Some(event.id)
            } else {
                self.scrubbing
            },
            ..self
        };
        let turn = if answered {
            after.concludes(event, tail, true)
        } else {
            after.reaches_shell(event, tail)
        };
        if lifted {
            turn.after_doing(seq![Effect::ClearScrubPreview])
        } else {
            turn
        }
    }

    /// The shell's turn.
    pub open spec fn reaches_shell(self, event: TouchEvent<C>, tail: Tail<C>) -> TurnState<C> {
        match event.phase {
            TouchPhase::Down => self.asks(
                Ask::Panel { x: event.x, y: event.y },
                Step::PanelBelow(event, tail),
            ),
            TouchPhase::Move => match scrolling_at(self.scrolls, event.id) {
                Some(at) => (RouterState {
                    scrolls: with_scroll(self.scrolls, event.id, event.y),
                    ..self
                }).asks(
                    Ask::Scroll { from: self.scrolls[at].y, to: event.y },
                    Step::Scrolled(event, tail),
                ),
                None => self.concludes(event, tail, false),
            },
            TouchPhase::Up | TouchPhase::Cancel => (RouterState {
                scrolls: without_scroll(self.scrolls, event.id),
                ..self
            }).concludes(event, tail, false),
        }
    }

    /// A new input.
    pub open spec fn begins(self, input: Input<C>, now: Span) -> TurnState<C> {
        match input {
            Input::Touch(event) => self.routes(event, Tail::Touch, now),
            Input::Pointer(pointer) => match pointer {
                PointerEvent::Move { x, y } => if self.pointer_contact {
                    self.routes(
                        TouchEvent { id: ContactId::Pointer, phase: TouchPhase::Move, x, y },
                        Tail::Pointer(pointer),
                        now,
                    )
                } else {
                    self.done().after_doing(seq![Effect::SinkPointer(pointer)])
                },
                PointerEvent::Button { x, y, button, down } => if button == PointerButton::Left {
                    (RouterState { pointer_contact: down, ..self }).routes(
                        TouchEvent {
                            id: ContactId::Pointer,
                            phase: if down {
                                TouchPhase::Down
                            } else {
                                TouchPhase::Up
                            },
                            x,
                            y,
                        },
                        Tail::Pointer(pointer),
                        now,
                    )
                } else {
                    self.done().after_doing(seq![Effect::SinkPointer(pointer)])
                },
                PointerEvent::Wheel { .. } => self.done().after_doing(
                    seq![Effect::SinkPointer(pointer)],
                ),
            },
        }
    }

    /// Whether the scrubber is held from an origin.
    pub open spec fn scrubbed_from(self, origin: InputOrigin) -> bool {
        match self.scrubbing {
            Some(id) => id.origin() == origin,
            None => false,
        }
    }

    /// The next contact to forget, or the end of it.
    pub open spec fn forgets_next(self, origin: InputOrigin, now: Span) -> TurnState<C> {
        if self.doomed.len() == 0 {
            let left = RouterState {
                contacts: held_elsewhere(self.contacts, origin),
                scrolls: scrolls_elsewhere(self.scrolls, origin),
                scrubbing: if self.scrubbed_from(origin) {
                    None
                } else {
                    self.scrubbing
                },
                ..self
            };
            left.done().after_doing(
                if self.scrubbed_from(origin) {
                    seq![Effect::ClearScrubPreview, Effect::CancelOrigin(origin)]
                } else {
                    seq![Effect::CancelOrigin(origin)]
                },
            )
        } else {
            let held = self.doomed[0];
            (RouterState { doomed: self.doomed.drop_first(), ..self }).routes(
                TouchEvent {
                    id: held.id,
                    phase: TouchPhase::Cancel,
                    x: held.start_x,
                    y: held.start_y,
                },
                Tail::Forget(origin),
                now,
            )
        }
    }

    /// An origin is gone: each of its contacts is cancelled.
    pub open spec fn forgets(self, origin: InputOrigin, now: Span) -> TurnState<C> {
        (RouterState { doomed: held_from(self.contacts, origin), ..self }).forgets_next(
            origin,
            now,
        )
    }

    /// Whether an answer is the one that is waited for.
    pub open spec fn expects(self, answer: Answer<C>) -> bool {
        match self.step {
            Step::Idle => false,
            Step::Panel(..) => answer is Panel,
            Step::Edge(..) => answer is Edge,
            Step::Drag(..) => answer is Drag,
            Step::Began(..) => answer is Began,
            Step::Offer(..) => answer is Offer,
            Step::Owns(..) => answer is Owns,
            Step::Acted(..) => answer is Acted,
            Step::PanelBelow(..) => answer is Panel,
            Step::Shell(..) => answer is Shell,
            Step::Scrolled(..) => answer is Scrolled,
            Step::Surface(..) => answer is Surface,
            Step::Forgetting(_) => answer is Next,
        }
    }

    /// What an answer makes of the router.
    pub open spec fn hears(self, answer: Answer<C>, now: Span) -> TurnState<C> {
        match (self.step, answer) {
            (Step::Panel(event, tail), Answer::Panel(hit)) => match hit {
                PanelHit::Restore => self.concludes(event, tail, true).after_doing(
                    seq![Effect::Restore],
                ),
                PanelHit::Close => self.concludes(event, tail, true).after_doing(
                    seq![Effect::ClosePage],
                ),
                PanelHit::Miss => self.asks(
                    Ask::Edge { x: event.x, y: event.y },
                    Step::Edge(event, tail),
                ),
            },
            (Step::Edge(event, tail), Answer::Edge { from_edge, on_pill }) => if on_pill {
                self.concludes(event, tail, true).after_doing(
                    seq![Effect::CancelAll, Effect::GoHome],
                )
            } else {
                let held = RouterState {
                    contacts: with_held(
                        self.contacts,
                        Held {
                            id: event.id,
                            start_x: event.x,
                            start_y: event.y,
                            from_edge,
                            fired: false,
                        },
                    ),
                    ..self
                };
                if from_edge {
                    held.concludes(event, tail, true)
                } else {
                    held.offers(event, tail)
                }
            },
            (Step::Drag(event, tail), Answer::Drag(intent)) => match intent {
                EdgeDrag::Ignore => self.dragged(event, tail),
                EdgeDrag::Home => (RouterState {
                    contacts: match held_at(self.contacts, event.id) {
                        Some(at) => self.contacts.update(
                            at,
                            Held { fired: true, ..self.contacts[at] },
                        ),
                        None => self.contacts,
                    },
                    ..self
                }).dragged(event, tail).after_doing(seq![Effect::CancelAll, Effect::GoHome]),
                EdgeDrag::Begin => self.asks(Ask::Begin, Step::Began(event, tail)),
                EdgeDrag::Carry { shown } => (RouterState {
                    drag_sample: Some((now, event.x)),
                    ..self
                }).dragged(event, tail).after_doing(
                    seq![Effect::Drive { shown, was: self.drag_sample, now, x: event.x }],
                ),
            },
            (Step::Began(event, tail), Answer::Began(began)) => (if began {
                RouterState { started_drag: true, drag_sample: None, ..self }
            } else {
                self
            }).dragged(event, tail),
            (Step::Offer(event, tail), Answer::Offer(offer)) => {
                let cancelled = self.scrubbing == Some(event.id) && event.phase
                    == TouchPhase::Cancel;
                let kept = if cancelled {
                    RouterState { scrubbing: None, ..self }
                } else {
                    self
                };
                let turn = match offer {
                    Some(strip) => if strip == StripPhase::Drag {
                        kept.asks(
                            Ask::Act { x: event.x, y: event.y, strip },
                            Step::Acted(event, tail),
                        )
                    } else {
                        kept.asks(
                            Ask::Owns { x: event.x, y: event.y },
                            Step::Owns(event, tail, strip),
                        )
                    },
                    None => kept.reaches_shell(event, tail),
                };
                if cancelled {
                    turn.after_doing(seq![Effect::ClearScrubPreview])
                } else {
                    turn
                }
            },
            (Step::Owns(event, tail, strip), Answer::Owns(owns)) => if owns {
                self.asks(Ask::Act { x: event.x, y: event.y, strip }, Step::Acted(event, tail))
            } else {
                self.strip_answered(event, tail, false, false)
            },
            (Step::Acted(event, tail), Answer::Acted { answered, preview }) => self.strip_answered(
                event,
                tail,
                answered,
                preview,
            ),
            (Step::PanelBelow(event, tail), Answer::Panel(hit)) => match hit {
                PanelHit::Restore => self.concludes(event, tail, true).after_doing(
                    seq![Effect::Restore],
                ),
                PanelHit::Close => self.concludes(event, tail, true).after_doing(
                    seq![Effect::ClosePage],
                ),
                PanelHit::Miss => self.asks(
                    Ask::Shell { x: event.x, y: event.y },
                    Step::Shell(event, tail),
                ),
            },
            (Step::Shell(event, tail), Answer::Shell { hit, scrollable }) => match hit {
                Some(hit) => (RouterState {
                    scrolls: without_scroll(self.scrolls, event.id),
                    ..self
                }).concludes(event, tail, true).after_doing(
                    seq![
                        match hit {
                            ScreenHit::Push => Effect::ShellPush,
                            ScreenHit::Back => Effect::ShellBack,
                            ScreenHit::Event => Effect::ShellEvent,
                        },
                    ],
                ),
                None => (RouterState {
                    scrolls: if scrollable {
                        with_scroll(self.scrolls, event.id, event.y)
                    } else {
                        self.scrolls
                    },
                    ..self
                }).concludes(event, tail, false),
            },
            (Step::Scrolled(event, tail), Answer::Scrolled(scrolled)) => self.concludes(
                event,
                tail,
                scrolled,
            ),
            (Step::Surface(event, tail), Answer::Surface(surface)) => match surface {
                Some(surface) => (RouterState { sized: Some(surface), ..self }).ends(
                    tail,
                ).after_doing(
                    if self.sized == Some(surface) {
                        seq![Effect::Deliver(event)]
                    } else {
                        seq![Effect::TellSize(surface), Effect::Deliver(event)]
                    },
                ),
                None => self.ends(tail).after_doing(
                    match tail {
                        Tail::Touch => seq![Effect::SinkTouch(event)],
                        Tail::Pointer(pointer) => seq![Effect::SinkPointer(pointer)],
                        Tail::Forget(_) => Seq::empty(),
                    },
                ),
            },
            (Step::Forgetting(origin), Answer::Next) => self.forgets_next(origin, now),
            _ => self.done(),
        }
    }

    /// The navigation is done with a drag: one that began in the reserved edge goes no
    /// further.
    pub open spec fn dragged(self, event: TouchEvent<C>, tail: Tail<C>) -> TurnState<C> {
        let from_edge = match held_at(self.contacts, event.id) {
            Some(at) => self.contacts[at].from_edge,
            None => false,
        };
        if from_edge {
            self.concludes(event, tail, true)
        } else {
            self.offers(event, tail)
        }
    }
}

/// One turn of the router: what to do, in order, and then what to find out.
#[derive(Debug, Clone)]
pub struct Turn<C> {
    /// What to do.
    pub effects: Vec<Effect<C>>,
    /// What to find out.
    pub ask: Ask<C>,
}

/// Where contacts go.
pub struct Router<C> {
    contacts: Vec<Held<C>>,
    scrolls: Vec<Scrolling<C>>,
    scrubbing: Option<ContactId>,
    started_drag: bool,
    drag_sample: Option<(Span, C)>,
    pointer_contact: bool,
    pill_since: Option<Span>,
    sized: Option<u64>,
    doomed: Vec<Held<C>>,
    step: Step<C>,
}

impl<C> View for Router<C> {
    type V = RouterState<C>;

    closed spec fn view(&self) -> RouterState<C> {
        RouterState {
            contacts: self.contacts@,
            scrolls: self.scrolls@,
            scrubbing: self.scrubbing,
            started_drag: self.started_drag,
            drag_sample: self.drag_sample,
            pointer_contact: self.pointer_contact,
            pill_since: self.pill_since,
            sized: self.sized,
            doomed: self.doomed@,
            step: self.step,
        }
    }
}

/// A turn and the router it left, as a spec value.
pub open spec fn turn_of<C>(router: RouterState<C>, turn: Turn<C>) -> TurnState<C> {
    TurnState { after: router, effects: turn.effects@, ask: turn.ask }
}

impl<C: Copy> Router<C> {
    /// A router that holds no contact.
    pub fn new() -> (router: Router<C>)
        ensures
            router@.well_formed(),
            router@ == (RouterState {
                contacts: Seq::<Held<C>>::empty(),
                scrolls: Seq::<Scrolling<C>>::empty(),
                scrubbing: None,
                started_drag: false,
                drag_sample: None,
                pointer_contact: false,
                pill_since: None,
                sized: None,
                doomed: Seq::<Held<C>>::empty(),
                step: Step::Idle,
            }),
    {
        Router {
            contacts: Vec::new(),
            scrolls: Vec::new(),
            scrubbing: None,
            started_drag: false,
            drag_sample: None,
            pointer_contact: false,
            pill_since: None,
            sized: None,
            doomed: Vec::new(),
            step: Step::Idle,
        }
    }

    /// How many contacts are down.
    pub fn held(&self) -> (many: usize)
        ensures
            many == self@.contacts.len(),
    {
        self.contacts.len()
    }

    /// A contact, if it is down.
    pub fn contact(&self, id: ContactId) -> (held: Option<Held<C>>)
        ensures
            held == match held_at(self@.contacts, id) {
                Some(at) => Some(self@.contacts[at]),
                None => None,
            },
    {
        match self.find_held(id) {
            Some(at) => Some(self.contacts[at]),
            None => None,
        }
    }

    /// The contact that holds the scrubber, if one does.
    pub fn scrubber(&self) -> (id: Option<ContactId>)
        ensures
            id == self@.scrubbing,
    {
        self.scrubbing
    }

    /// Whether the pointer's primary button is down.
    pub fn pointer_held(&self) -> (is_down: bool)
        ensures
            is_down == self@.pointer_contact,
    {
        self.pointer_contact
    }

    /// Whether a contact is carrying a navigation.
    pub fn carrying(&self) -> (is_carrying: bool)
        ensures
            is_carrying == self@.started_drag,
    {
        self.started_drag
    }

    /// When the home pill was last raised, if it still is.
    pub fn pill(&self) -> (since: Option<Span>)
        ensures
            since == self@.pill_since,
    {
        self.pill_since
    }

    /// The pill has faded back to rest, or is not there.
    pub fn rest_pill(&mut self)
        ensures
            final(self)@ == (RouterState { pill_since: None, ..old(self)@ }),
    {
        self.pill_since = None;
    }

    /// The panel has a new size, which no surface has been told.
    pub fn resized(&mut self)
        ensures
            final(self)@ == (RouterState { sized: None, ..old(self)@ }),
    {
        self.sized = None;
    }

    /// Route one input through the panel's layers and on to whatever is underneath.
    ///
    /// The same function serves the glass and every remote peer.
    pub fn apply(&mut self, input: Input<C>, now: Span) -> (turn: Turn<C>)
        requires
            old(self)@.well_formed(),
            old(self)@.step is Idle,
        ensures
            final(self)@.well_formed(),
            turn_of(final(self)@, turn) == old(self)@.begins(input, now),
    {
        proof {
            an_input_keeps_contacts_apart(self@, input, now);
        }
        match input {
            Input::Touch(event) => self.route_contact(event, Tail::Touch, now),
            Input::Pointer(pointer) => {
                match pointer {
                    PointerEvent::Move { x, y } => {
                        if self.pointer_contact {
                            let event = TouchEvent {
                                id: ContactId::Pointer,
                                phase: TouchPhase::Move,
                                x,
                                y,
                            };
                            return self.route_contact(event, Tail::Pointer(pointer), now);
                        }
                    },
                    PointerEvent::Button { x, y, button, down } => {
                        if button == PointerButton::Left {
                            self.pointer_contact = down;
                            let phase = if down {
                                TouchPhase::Down
                            } else {
                                TouchPhase::Up
                            };
                            let event = TouchEvent { id: ContactId::Pointer, phase, x, y };
                            return self.route_contact(event, Tail::Pointer(pointer), now);
                        }
                    },
                    PointerEvent::Wheel { .. } => {},
                }
                let mut effects: Vec<Effect<C>> = Vec::new();
                effects.push(Effect::SinkPointer(pointer));
                self.done(effects)
            },
        }
    }

    /// Go back to Home, from the pill, the gesture or a remote. Whatever is underneath lets go
    /// first: the panel is being taken away from it mid-touch by definition.
    pub fn go_home(&self) -> (effects: Vec<Effect<C>>)
        ensures
            effects@ == seq![Effect::<C>::CancelAll, Effect::<C>::GoHome],
    {
        let mut effects: Vec<Effect<C>> = Vec::new();
        effects.push(Effect::CancelAll);
        effects.push(Effect::GoHome);
        effects
    }

    /// One step out, from wherever the panel is.
    pub fn back_one_level(&self) -> (effects: Vec<Effect<C>>)
        ensures
            effects@ == seq![Effect::<C>::CancelAll, Effect::<C>::Back],
    {
        let mut effects: Vec<Effect<C>> = Vec::new();
        effects.push(Effect::CancelAll);
        effects.push(Effect::Back);
        effects
    }

    /// A peer has gone away: everything the router holds for it is cancelled, and whatever is
    /// underneath lets go too.
    ///
    /// Cancelled rather than released, and only for this origin. A dropped connection did not
    /// *finish* a gesture.
    pub fn forget_origin(&mut self, origin: InputOrigin, now: Span) -> (turn: Turn<C>)
        requires
            old(self)@.well_formed(),
            old(self)@.step is Idle,
        ensures
            final(self)@.well_formed(),
            turn_of(final(self)@, turn) == old(self)@.forgets(origin, now),
    {
        let ghost before = self@;
        proof {
            forgetting_keeps_contacts_apart(
                RouterState { doomed: held_from(before.contacts, origin), ..before },
                origin,
                now,
            );
        }
        let mut doomed: Vec<Held<C>> = Vec::new();
        let many: usize = self.contacts.len();
        let mut i: usize = 0;
        proof {
            reveal(Seq::filter);
            assert(before.contacts.take(0) =~= Seq::empty());
            assert(held_from(before.contacts.take(0), origin) =~= Seq::empty());
        }
        while i < many
            invariant
                i <= many == self.contacts@.len(),
                before == self@,
                doomed@ == held_from(before.contacts.take(i as int), origin),
            decreases many - i,
        {
            proof {
                reveal(Seq::filter);
                assert(before.contacts.take(i + 1).drop_last() =~= before.contacts.take(i as int));
                assert(before.contacts.take(i + 1).last() == before.contacts[i as int]);
            }
            if self.contacts[i].id.is_from(origin) {
                doomed.push(self.contacts[i]);
            }
            i += 1;
        }
        proof {
            assert(before.contacts.take(many as int) =~= before.contacts);
        }
        self.doomed = doomed;
        self.forget_next(origin, now)
    }

    /// What was asked for has been found out.
    pub fn answer(&mut self, answer: Answer<C>, now: Span) -> (turn: Turn<C>)
        requires
            old(self)@.well_formed(),
            old(self)@.expects(answer),
        ensures
            final(self)@.well_formed(),
            turn_of(final(self)@, turn) == old(self)@.hears(answer, now),
    {
        proof {
            an_answer_keeps_contacts_apart(self@, answer, now);
        }
        let mut effects: Vec<Effect<C>> = Vec::new();
        match (self.step, answer) {
            (Step::Panel(event, tail), Answer::Panel(hit)) => {
                match hit {
                    PanelHit::Restore => {
                        effects.push(Effect::Restore);
                        self.conclude(effects, event, tail, true)
                    },
                    PanelHit::Close => {
                        effects.push(Effect::ClosePage);
                        self.conclude(effects, event, tail, true)
                    },
                    PanelHit::Miss => self.ask(
                        effects,
                        Ask::Edge { x: event.x, y: event.y },
                        Step::Edge(event, tail),
                    ),
                }
            },
            (Step::Edge(event, tail), Answer::Edge { from_edge, on_pill }) => {
                if on_pill {
                    effects.push(Effect::CancelAll);
                    effects.push(Effect::GoHome);
                    return self.conclude(effects, event, tail, true);
                }
                self.hold(
                    Held {
                        id: event.id,
                        start_x: event.x,
                        start_y: event.y,
                        from_edge,
                        fired: false,
                    },
                );
                if from_edge {
                    self.conclude(effects, event, tail, true)
                } else {
                    self.offer_to_transport(effects, event, tail)
                }
            },
            (Step::Drag(event, tail), Answer::Drag(intent)) => {
                match intent {
                    EdgeDrag::Ignore => {},
                    EdgeDrag::Home => {
                        if let Some(at) = self.find_held(event.id) {
                            let mut held = self.contacts[at];
                            held.fired = true;
                            self.contacts.set(at, held);
                        }
                        effects.push(Effect::CancelAll);
                        effects.push(Effect::GoHome);
                    },
                    EdgeDrag::Begin => {
                        return self.ask(effects, Ask::Begin, Step::Began(event, tail));
                    },
                    EdgeDrag::Carry { shown } => {
                        effects.push(
                            Effect::Drive { shown, was: self.drag_sample, now, x: event.x },
                        );
                        self.drag_sample = Some((now, event.x));
                    },
                }
                self.after_drag(effects, event, tail)
            },
            (Step::Began(event, tail), Answer::Began(began)) => {
                if began {
                    self.started_drag = true;
                    self.drag_sample = None;
                }
                self.after_drag(effects, event, tail)
            },
            (Step::Offer(event, tail), Answer::Offer(offer)) => {
                let scrubbing = self.scrubs(event.id);
                if scrubbing && event.phase == TouchPhase::Cancel {
                    self.scrubbing = None;
                    effects.push(Effect::ClearScrubPreview);
                }
                match offer {
                    Some(strip) => {
                        if strip == StripPhase::Drag {
                            self.ask(
                                effects,
                                Ask::Act { x: event.x, y: event.y, strip },
                                Step::Acted(event, tail),
                            )
                        } else {
                            self.ask(
                                effects,
                                Ask::Owns { x: event.x, y: event.y },
                                Step::Owns(event, tail, strip),
                            )
                        }
                    },
                    None => self.offer_to_shell(effects, event, tail),
                }
            },
            (Step::Owns(event, tail, strip), Answer::Owns(owns)) => {
                if owns {
                    self.ask(
                        effects,
                        Ask::Act { x: event.x, y: event.y, strip },
                        Step::Acted(event, tail),
                    )
                } else {
                    self.after_strip(event, tail, false, false)
                }
            },
            (Step::Acted(event, tail), Answer::Acted { answered, preview }) => self.after_strip(
                event,
                tail,
                answered,
                preview,
            ),
            (Step::PanelBelow(event, tail), Answer::Panel(hit)) => {
                match hit {
                    PanelHit::Restore => {
                        effects.push(Effect::Restore);
                        self.conclude(effects, event, tail, true)
                    },
                    PanelHit::Close => {
                        effects.push(Effect::ClosePage);
                        self.conclude(effects, event, tail, true)
                    },
                    PanelHit::Miss => self.ask(
                        effects,
                        Ask::Shell { x: event.x, y: event.y },
                        Step::Shell(event, tail),
                    ),
                }
            },
            (Step::Shell(event, tail), Answer::Shell { hit, scrollable }) => {
                match hit {
                    Some(hit) => {
                        effects.push(
                            match hit {
                                ScreenHit::Push => Effect::ShellPush,
                                ScreenHit::Back => Effect::ShellBack,
                                ScreenHit::Event => Effect::ShellEvent,
                            },
                        );
                        self.end_scroll(event.id);
                        self.conclude(effects, event, tail, true)
                    },
                    None => {
                        if scrollable {
                            self.scroll(event.id, event.y);
                        }
                        self.conclude(effects, event, tail, false)
                    },
                }
            },
            (Step::Scrolled(event, tail), Answer::Scrolled(scrolled)) => self.conclude(
                effects,
                event,
                tail,
                scrolled,
            ),
            (Step::Surface(event, tail), Answer::Surface(surface)) => {
                match surface {
                    Some(surface) => {
                        if !self.has_told(surface) {
                            effects.push(Effect::TellSize(surface));
                        }
                        self.sized = Some(surface);
                        effects.push(Effect::Deliver(event));
                    },
                    None => {
                        match tail {
                            Tail::Touch => effects.push(Effect::SinkTouch(event)),
                            Tail::Pointer(pointer) => effects.push(Effect::SinkPointer(pointer)),
                            Tail::Forget(_) => {},
                        }
                    },
                }
                self.end(effects, tail)
            },
            (Step::Forgetting(origin), Answer::Next) => self.forget_next(origin, now),
            _ => self.done(effects),
        }
    }

    fn has_told(&self, surface: u64) -> (told: bool)
        ensures
            told == (self@.sized == Some(surface)),
    {
        match self.sized {
            Some(other) => other == surface,
            None => false,
        }
    }

    fn scrubs(&self, id: ContactId) -> (scrubs: bool)
        ensures
            scrubs == (self@.scrubbing == Some(id)),
    {
        match self.scrubbing {
            Some(other) => other == id,
            None => false,
        }
    }

    fn ask(&mut self, effects: Vec<Effect<C>>, ask: Ask<C>, step: Step<C>) -> (turn: Turn<C>)
        ensures
            turn_of(final(self)@, turn) == old(self)@.asks(ask, step).after_doing(effects@),
    {
        self.step = step;
        Turn { effects, ask }
    }

    fn done(&mut self, effects: Vec<Effect<C>>) -> (turn: Turn<C>)
        ensures
            turn_of(final(self)@, turn) == old(self)@.done().after_doing(effects@),
    {
        self.ask(effects, Ask::Nothing, Step::Idle)
    }

    fn conclude(
        &mut self,
        effects: Vec<Effect<C>>,
        event: TouchEvent<C>,
        tail: Tail<C>,
        consumed: bool,
    ) -> (turn: Turn<C>)
        ensures
            turn_of(final(self)@, turn) == old(self)@.concludes(event, tail, consumed).after_doing(
                effects@,
            ),
    {
        if consumed {
            self.end(effects, tail)
        } else {
            self.ask(effects, Ask::Surface, Step::Surface(event, tail))
        }
    }

    fn end(&mut self, effects: Vec<Effect<C>>, tail: Tail<C>) -> (turn: Turn<C>)
        ensures
            turn_of(final(self)@, turn) == old(self)@.ends(tail).after_doing(effects@),
    {
        match tail {
            Tail::Forget(origin) => self.ask(effects, Ask::Next, Step::Forgetting(origin)),
            _ => self.done(effects),
        }
    }

    /// Route one contact — a finger, or the primary mouse button standing in for one —
    /// through the panel's own layers.
    fn route_contact(&mut self, event: TouchEvent<C>, tail: Tail<C>, now: Span) -> (turn: Turn<C>)
        ensures
            turn_of(final(self)@, turn) == old(self)@.routes(event, tail, now),
    {
        self.pill_since = Some(now);
        let mut turn = self.route_navigation(event, tail);
        let ghost first = turn.effects@;
        turn.effects.insert(0, Effect::NoteTouch);
        proof {
            assert(turn.effects@ =~= seq![Effect::<C>::NoteTouch] + first);
        }
        turn
    }

    /// The navigation layer: the home pill, and the reserved edge the swipe starts from.
    ///
    /// It sees every phase of a contact, and sees it first. A contact that landed in the
    /// reserved edge goes no further in any later phase, and one that landed elsewhere is never
    /// taken over.
    pub fn route_navigation(&mut self, event: TouchEvent<C>, tail: Tail<C>) -> (turn: Turn<C>)
        ensures
            turn_of(final(self)@, turn) == old(self)@.navigates(event, tail),
    {
        let mut effects: Vec<Effect<C>> = Vec::new();
        proof {
            assert(forall|turn: TurnState<C>|
                #[trigger] turn.after_doing(Seq::<Effect<C>>::empty()) =~= turn);
        }
        match event.phase {
            TouchPhase::Down => self.ask(
                effects,
                Ask::Panel { x: event.x, y: event.y },
                Step::Panel(event, tail),
            ),
            TouchPhase::Move => {
                match self.find_held(event.id) {
                    Some(at) => {
                        let held = self.contacts[at];
                        let started = self.started_drag;
                        self.ask(
                            effects,
                            Ask::EdgeDrag { held, x: event.x, y: event.y, started },
                            Step::Drag(event, tail),
                        )
                    },
                    None => self.offer_to_transport(effects, event, tail),
                }
            },
            TouchPhase::Up | TouchPhase::Cancel => {
                let mut from_edge = false;
                if let Some(at) = self.find_held(event.id) {
                    from_edge = self.contacts[at].from_edge;
                    let _ = self.contacts.remove(at);
                }
                if self.started_drag {
                    effects.push(Effect::Release);
                    self.started_drag = false;
                    self.drag_sample = None;
                    proof {
                        assert(effects@ =~= seq![Effect::<C>::Release]);
                    }
                }
                if from_edge {
                    self.conclude(effects, event, tail, true)
                } else {
                    self.offer_to_transport(effects, event, tail)
                }
            },
        }
    }

    fn after_drag(&mut self, effects: Vec<Effect<C>>, event: TouchEvent<C>, tail: Tail<C>) -> (turn:
        Turn<C>)
        ensures
            turn_of(final(self)@, turn) == old(self)@.dragged(event, tail).after_doing(effects@),
    {
        let from_edge = match self.find_held(event.id) {
            Some(at) => self.contacts[at].from_edge,
            None => false,
        };
        if from_edge {
            self.conclude(effects, event, tail, true)
        } else {
            self.offer_to_transport(effects, event, tail)
        }
    }

    /// Offer a contact to the transport strip.
    fn offer_to_transport(
        &mut self,
        effects: Vec<Effect<C>>,
        event: TouchEvent<C>,
        tail: Tail<C>,
    ) -> (turn: Turn<C>)
        ensures
            turn_of(final(self)@, turn) == old(self)@.offers(event, tail).after_doing(effects@),
    {
        let scrubbing = self.scrubs(event.id);
        self.ask(
            effects,
            Ask::Offer { phase: event.phase, scrubbing },
            Step::Offer(event, tail),
        )
    }

    fn after_strip(
        &mut self,
        event: TouchEvent<C>,
        tail: Tail<C>,
        answered: bool,
        preview: bool,
    ) -> (turn: Turn<C>)
        ensures
            turn_of(final(self)@, turn) == old(self)@.strip_answered(
                event,
                tail,
                answered,
                preview,
            ),
    {
        let mut effects: Vec<Effect<C>> = Vec::new();
        if event.phase == TouchPhase::Up && self.scrubs(event.id) {
            self.scrubbing = None;
            effects.push(Effect::ClearScrubPreview);
        } else if event.phase == TouchPhase::Down && answered && preview {
            self.scrubbing = Some(event.id);
        }
        if answered {
            self.conclude(effects, event, tail, true)
        } else {
            self.offer_to_shell(effects, event, tail)
        }
    }

    /// Offer a contact to the shell: a press to its screens, a drag to what scrolls.
    fn offer_to_shell(&mut self, effects: Vec<Effect<C>>, event: TouchEvent<C>, tail: Tail<C>) -> (
    turn: Turn<C>)
        ensures
            turn_of(final(self)@, turn) == old(self)@.reaches_shell(event, tail).after_doing(
                effects@,
            ),
    {
        match event.phase {
            TouchPhase::Down => self.ask(
                effects,
                Ask::Panel { x: event.x, y: event.y },
                Step::PanelBelow(event, tail),
            ),
            TouchPhase::Move => {
                match self.find_scroll(event.id) {
                    Some(at) => {
                        let from = self.scrolls[at].y;
                        self.scroll(event.id, event.y);
                        self.ask(
                            effects,
                            Ask::Scroll { from, to: event.y },
                            Step::Scrolled(event, tail),
                        )
                    },
                    None => self.conclude(effects, event, tail, false),
                }
            },
            TouchPhase::Up | TouchPhase::Cancel => {
                self.end_scroll(event.id);
                self.conclude(effects, event, tail, false)
            },
        }
    }

    fn forget_next(&mut self, origin: InputOrigin, now: Span) -> (turn: Turn<C>)
        ensures
            turn_of(final(self)@, turn) == old(self)@.forgets_next(origin, now),
    {
        if self.doomed.len() == 0 {
            self.drop_origin(origin);
            let mut effects: Vec<Effect<C>> = Vec::new();
            if let Some(id) = self.scrubbing {
                if id.is_from(origin) {
                    self.scrubbing = None;
                    effects.push(Effect::ClearScrubPreview);
                }
            }
            effects.push(Effect::CancelOrigin(origin));
            return self.done(effects);
        }
        let ghost doomed = self.doomed@;
        let held = self.doomed.remove(0);
        proof {
            assert(self.doomed@ =~= doomed.drop_first());
        }
        let event = TouchEvent {
            id: held.id,
            phase: TouchPhase::Cancel,
            x: held.start_x,
            y: held.start_y,
        };
        self.route_contact(event, Tail::Forget(origin), now)
    }

    /// Whatever the navigation layer did not own of an origin's goes too.
    fn drop_origin(&mut self, origin: InputOrigin)
        ensures
            final(self)@ == (RouterState {
                contacts: held_elsewhere(old(self)@.contacts, origin),
                scrolls: scrolls_elsewhere(old(self)@.scrolls, origin),
                ..old(self)@
            }),
    {
        let ghost before = self@;
        let mut contacts: Vec<Held<C>> = Vec::new();
        let mut i: usize = 0;
        proof {
            reveal(Seq::filter);
            assert(before.contacts.take(0) =~= Seq::empty());
            assert(held_elsewhere(before.contacts.take(0), origin) =~= Seq::empty());
        }
        while i < self.contacts.len()
            invariant
                i <= self.contacts@.len(),
                before == self@,
                contacts@ == held_elsewhere(before.contacts.take(i as int), origin),
            decreases self.contacts@.len() - i,
        {
            proof {
                reveal(Seq::filter);
                assert(before.contacts.take(i + 1).drop_last() =~= before.contacts.take(i as int));
                assert(before.contacts.take(i + 1).last() == before.contacts[i as int]);
            }
            if !self.contacts[i].id.is_from(origin) {
                contacts.push(self.contacts[i]);
            }
            i += 1;
        }
        proof {
            assert(before.contacts.take(i as int) =~= before.contacts);
        }
        let mut scrolls: Vec<Scrolling<C>> = Vec::new();
        let mut j: usize = 0;
        proof {
            reveal(Seq::filter);
            assert(before.scrolls.take(0) =~= Seq::empty());
            assert(scrolls_elsewhere(before.scrolls.take(0), origin) =~= Seq::empty());
        }
        while j < self.scrolls.len()
            invariant
                j <= self.scrolls@.len(),
                before == self@,
                scrolls@ == scrolls_elsewhere(before.scrolls.take(j as int), origin),
            decreases self.scrolls@.len() - j,
        {
            proof {
                reveal(Seq::filter);
                assert(before.scrolls.take(j + 1).drop_last() =~= before.scrolls.take(j as int));
                assert(before.scrolls.take(j + 1).last() == before.scrolls[j as int]);
            }
            if !self.scrolls[j].id.is_from(origin) {
                scrolls.push(self.scrolls[j]);
            }
            j += 1;
        }
        proof {
            assert(before.scrolls.take(j as int) =~= before.scrolls);
        }
        self.contacts = contacts;
        self.scrolls = scrolls;
    }

    fn find_held(&self, id: ContactId) -> (at: Option<usize>)
        ensures
            match at {
                Some(at) => at < self@.contacts.len() && held_at(self@.contacts, id) == Some(
                    at as int,
                ),
                None => held_at(self@.contacts, id) is None,
            },
    {
        let ghost contacts = self.contacts@;
        let mut i: usize = 0;
        while i < self.contacts.len()
            invariant
                i <= contacts.len(),
                contacts == self.contacts@,
                held_at(contacts.take(i as int), id) is None,
            decreases contacts.len() - i,
        {
            proof {
                assert(contacts.take(i + 1).drop_last() =~= contacts.take(i as int));
                assert(contacts.take(i + 1).last() == contacts[i as int]);
            }
            if self.contacts[i].id == id {
                proof {
                    held_is_found(contacts, i + 1, id);
                }
                return Some(i);
            }
            i += 1;
        }
        proof {
            assert(contacts.take(contacts.len() as int) =~= contacts);
        }
        None
    }

    fn find_scroll(&self, id: ContactId) -> (at: Option<usize>)
        ensures
            match at {
                Some(at) => at < self@.scrolls.len() && scrolling_at(self@.scrolls, id) == Some(
                    at as int,
                ),
                None => scrolling_at(self@.scrolls, id) is None,
            },
    {
        let ghost scrolls = self.scrolls@;
        let mut i: usize = 0;
        while i < self.scrolls.len()
            invariant
                i <= scrolls.len(),
                scrolls == self.scrolls@,
                scrolling_at(scrolls.take(i as int), id) is None,
            decreases scrolls.len() - i,
        {
            proof {
                assert(scrolls.take(i + 1).drop_last() =~= scrolls.take(i as int));
                assert(scrolls.take(i + 1).last() == scrolls[i as int]);
            }
            if self.scrolls[i].id == id {
                proof {
                    scroll_is_found(scrolls, i + 1, id);
                }
                return Some(i);
            }
            i += 1;
        }
        proof {
            assert(scrolls.take(scrolls.len() as int) =~= scrolls);
        }
        None
    }

    fn hold(&mut self, held: Held<C>)
        ensures
            final(self)@ == (RouterState {
                contacts: with_held(old(self)@.contacts, held),
                ..old(self)@
            }),
    {
        match self.find_held(held.id) {
            Some(at) => {
                self.contacts.set(at, held);
            },
            None => {
                self.contacts.push(held);
            },
        }
    }

    fn scroll(&mut self, id: ContactId, y: C)
        ensures
            final(self)@ == (RouterState {
                scrolls: with_scroll(old(self)@.scrolls, id, y),
                ..old(self)@
            }),
    {
        match self.find_scroll(id) {
            Some(at) => {
                self.scrolls.set(at, Scrolling { id, y });
            },
            None => {
                self.scrolls.push(Scrolling { id, y });
            },
        }
    }

    fn end_scroll(&mut self, id: ContactId)
        ensures
            final(self)@ == (RouterState {
                scrolls: without_scroll(old(self)@.scrolls, id),
                ..old(self)@
            }),
    {
        if let Some(at) = self.find_scroll(id) {
            let _ = self.scrolls.remove(at);
        }
    }
}

/// A contact found in a prefix is where it is.
proof fn held_is_found<C>(contacts: Seq<Held<C>>, end: int, id: ContactId)
    requires
        0 <= end <= contacts.len(),
        held_at(contacts.take(end), id) is Some,
    ensures
        held_at(contacts, id) == held_at(contacts.take(end), id),
    decreases contacts.len() - end,
{
    if end < contacts.len() {
        assert(contacts.take(end + 1).drop_last() =~= contacts.take(end));
        held_is_found(contacts, end + 1, id);
    } else {
        assert(contacts.take(end) =~= contacts);
    }
}

/// A scrolling contact found in a prefix is where it is.
proof fn scroll_is_found<C>(scrolls: Seq<Scrolling<C>>, end: int, id: ContactId)
    requires
        0 <= end <= scrolls.len(),
        scrolling_at(scrolls.take(end), id) is Some,
    ensures
        scrolling_at(scrolls, id) == scrolling_at(scrolls.take(end), id),
    decreases scrolls.len() - end,
{
    if end < scrolls.len() {
        assert(scrolls.take(end + 1).drop_last() =~= scrolls.take(end));
        scroll_is_found(scrolls, end + 1, id);
    } else {
        assert(scrolls.take(end) =~= scrolls);
    }
}

/// A contact that is found is where it was found, and one that is not is nowhere.
pub proof fn held_is_within<C>(contacts: Seq<Held<C>>, id: ContactId)
    ensures
        held_at(contacts, id) matches Some(at) ==> 0 <= at < contacts.len() && contacts[at].id
            == id,
        held_at(contacts, id) is None ==> forall|i: int|
            0 <= i < contacts.len() ==> (#[trigger] contacts[i]).id != id,
    decreases contacts.len(),
{
    if contacts.len() > 0 {
        held_is_within(contacts.drop_last(), id);
        assert forall|i: int|
            held_at(contacts, id) is None && 0 <= i < contacts.len() implies (
        #[trigger] contacts[i]).id != id by {
            if i < contacts.len() - 1 {
                assert(contacts[i] == contacts.drop_last()[i]);
            }
        }
    }
}

/// Where contacts are told apart, the one at a place is the one found by its name.
proof fn found_by_name<C>(contacts: Seq<Held<C>>, at: int)
    requires
        told_apart(contacts),
        0 <= at < contacts.len(),
    ensures
        held_at(contacts, contacts[at].id) == Some(at),
{
    held_is_within(contacts, contacts[at].id);
    assert(contacts[at].id == contacts[at].id);
}

/// **Two peers that number their fingers the same are two contacts.** A contact that lands
/// and one that leaves touch no other, and contacts stay told apart.
#[verifier::rlimit(40)]
pub proof fn contacts_do_not_interfere<C>(
    contacts: Seq<Held<C>>,
    held: Held<C>,
    gone: ContactId,
    other: ContactId,
)
    requires
        told_apart(contacts),
    ensures
        told_apart(with_held(contacts, held)),
        told_apart(without_held(contacts, gone)),
        held_of(with_held(contacts, held), held.id) == Some(held),
        held_of(without_held(contacts, gone), gone) is None,
        other != held.id ==> held_of(with_held(contacts, held), other) == held_of(contacts, other),
        other != gone ==> held_of(without_held(contacts, gone), other) == held_of(contacts, other),
{
    held_is_within(contacts, held.id);
    held_is_within(contacts, gone);
    held_is_within(contacts, other);
    let landed = with_held(contacts, held);
    let left = without_held(contacts, gone);
    held_is_within(landed, held.id);
    held_is_within(landed, other);
    held_is_within(left, gone);
    held_is_within(left, other);
    let spot = match held_at(contacts, held.id) {
        Some(at) => at,
        None => contacts.len() as int,
    };
    assert(landed[spot] == held);
    found_by_name(landed, spot);
    if held_at(contacts, other) is Some {
        let at = held_at(contacts, other)->0;
        if other != held.id {
            assert(landed[at] == contacts[at]);
            found_by_name(landed, at);
        }
        if other != gone {
            match held_at(contacts, gone) {
                Some(out) => {
                    let moved = if at < out {
                        at
                    } else {
                        at - 1
                    };
                    assert(left[moved] == contacts[at]);
                    found_by_name(left, moved);
                },
                None => {},
            }
        }
    } else {
        if other != held.id && held_at(landed, other) is Some {
            let at = held_at(landed, other)->0;
            assert(at != spot);
            assert(landed[at] == contacts[at]);
        }
        if other != gone && held_at(left, other) is Some {
            let at = held_at(left, other)->0;
            match held_at(contacts, gone) {
                Some(out) => {
                    let was = if at < out {
                        at
                    } else {
                        at + 1
                    };
                    assert(left[at] == contacts[was]);
                },
                None => {},
            }
        }
    }
    if held_at(left, gone) is Some {
        let at = held_at(left, gone)->0;
        match held_at(contacts, gone) {
            Some(out) => {
                let was = if at < out {
                    at
                } else {
                    at + 1
                };
                assert(left[at] == contacts[was]);
                assert(contacts[was].id == contacts[out].id);
            },
            None => {},
        }
    }
}

/// A scrolling contact that is found is where it was found, and one that is not is nowhere.
proof fn scroll_is_within<C>(scrolls: Seq<Scrolling<C>>, id: ContactId)
    ensures
        scrolling_at(scrolls, id) matches Some(at) ==> 0 <= at < scrolls.len() && scrolls[at].id
            == id,
        scrolling_at(scrolls, id) is None ==> forall|i: int|
            0 <= i < scrolls.len() ==> (#[trigger] scrolls[i]).id != id,
    decreases scrolls.len(),
{
    if scrolls.len() > 0 {
        scroll_is_within(scrolls.drop_last(), id);
        assert forall|i: int|
            scrolling_at(scrolls, id) is None && 0 <= i < scrolls.len() implies (
        #[trigger] scrolls[i]).id != id by {
            if i < scrolls.len() - 1 {
                assert(scrolls[i] == scrolls.drop_last()[i]);
            }
        }
    }
}

/// Where scrolling contacts are told apart, the one at a place is the one found by its name.
proof fn scroll_by_name<C>(scrolls: Seq<Scrolling<C>>, at: int)
    requires
        scrolls_apart(scrolls),
        0 <= at < scrolls.len(),
    ensures
        scrolling_at(scrolls, scrolls[at].id) == Some(at),
{
    scroll_is_within(scrolls, scrolls[at].id);
    assert(scrolls[at].id == scrolls[at].id);
}

/// Scrolling contacts stay told apart, and one that begins or ends touches no other.
proof fn scrolls_do_not_interfere<C>(
    scrolls: Seq<Scrolling<C>>,
    id: ContactId,
    y: C,
    other: ContactId,
)
    requires
        scrolls_apart(scrolls),
    ensures
        scrolls_apart(with_scroll(scrolls, id, y)),
        scrolls_apart(without_scroll(scrolls, id)),
        other != id ==> scroll_of(without_scroll(scrolls, id), other) == scroll_of(scrolls, other),
{
    scroll_is_within(scrolls, id);
    scroll_is_within(scrolls, other);
    let left = without_scroll(scrolls, id);
    scroll_is_within(left, other);
    if other != id {
        match scrolling_at(scrolls, id) {
            Some(out) => {
                match scrolling_at(scrolls, other) {
                    Some(at) => {
                        let moved = if at < out {
                            at
                        } else {
                            at - 1
                        };
                        assert(left[moved] == scrolls[at]);
                        scroll_by_name(left, moved);
                    },
                    None => {
                        if scrolling_at(left, other) is Some {
                            let at = scrolling_at(left, other)->0;
                            let was = if at < out {
                                at
                            } else {
                                at + 1
                            };
                            assert(left[at] == scrolls[was]);
                        }
                    },
                }
            },
            None => {},
        }
    }
}

/// What is left of the contacts without an origin's is told apart, has none of its, and has
/// every other as it was.
proof fn elsewhere_is_apart<C>(contacts: Seq<Held<C>>, origin: InputOrigin, id: ContactId)
    requires
        told_apart(contacts),
    ensures
        told_apart(held_elsewhere(contacts, origin)),
        id.origin() == origin ==> held_of(held_elsewhere(contacts, origin), id) is None,
        id.origin() != origin ==> held_of(held_elsewhere(contacts, origin), id) == held_of(
            contacts,
            id,
        ),
    decreases contacts.len(),
{
    reveal(Seq::filter);
    let kept = held_elsewhere(contacts, origin);
    if contacts.len() > 0 {
        let fewer = contacts.drop_last();
        elsewhere_is_apart(fewer, origin, id);
        elsewhere_is_apart(fewer, origin, contacts.last().id);
        held_is_within(fewer, contacts.last().id);
        held_is_within(fewer, id);
        if contacts.last().id.origin() != origin {
            let kept_fewer = held_elsewhere(fewer, origin);
            assert(kept == kept_fewer.push(contacts.last()));
            assert(kept.drop_last() =~= kept_fewer);
            held_is_within(kept_fewer, contacts.last().id);
            held_is_within(kept_fewer, id);
        }
    }
}

/// What is left of the scrolling contacts without an origin's is told apart, has none of its,
/// and has every other as it was.
proof fn elsewhere_scrolls_apart<C>(
    scrolls: Seq<Scrolling<C>>,
    origin: InputOrigin,
    id: ContactId,
)
    requires
        scrolls_apart(scrolls),
    ensures
        scrolls_apart(scrolls_elsewhere(scrolls, origin)),
        id.origin() == origin ==> scroll_of(scrolls_elsewhere(scrolls, origin), id) is None,
        id.origin() != origin ==> scroll_of(scrolls_elsewhere(scrolls, origin), id) == scroll_of(
            scrolls,
            id,
        ),
    decreases scrolls.len(),
{
    reveal(Seq::filter);
    let kept = scrolls_elsewhere(scrolls, origin);
    if scrolls.len() > 0 {
        let fewer = scrolls.drop_last();
        elsewhere_scrolls_apart(fewer, origin, id);
        elsewhere_scrolls_apart(fewer, origin, scrolls.last().id);
        scroll_is_within(fewer, scrolls.last().id);
        scroll_is_within(fewer, id);
        if scrolls.last().id.origin() != origin {
            let kept_fewer = scrolls_elsewhere(fewer, origin);
            assert(kept == kept_fewer.push(scrolls.last()));
            assert(kept.drop_last() =~= kept_fewer);
            scroll_is_within(kept_fewer, scrolls.last().id);
            scroll_is_within(kept_fewer, id);
        }
    }
}

/// **No contact is ever held twice**, whatever comes in.
pub proof fn an_input_keeps_contacts_apart<C>(router: RouterState<C>, input: Input<C>, now: Span)
    requires
        router.well_formed(),
    ensures
        router.begins(input, now).after.well_formed(),
{
    if let Input::Touch(event) = input {
        a_route_keeps_contacts_apart(router, event, Tail::Touch, now);
    } else if let Input::Pointer(pointer) = input {
        match pointer {
            PointerEvent::Move { x, y } => {
                a_route_keeps_contacts_apart(
                    router,
                    TouchEvent { id: ContactId::Pointer, phase: TouchPhase::Move, x, y },
                    Tail::Pointer(pointer),
                    now,
                );
            },
            PointerEvent::Button { x, y, button, down } => {
                a_route_keeps_contacts_apart(
                    RouterState { pointer_contact: down, ..router },
                    TouchEvent {
                        id: ContactId::Pointer,
                        phase: if down {
                            TouchPhase::Down
                        } else {
                            TouchPhase::Up
                        },
                        x,
                        y,
                    },
                    Tail::Pointer(pointer),
                    now,
                );
            },
            PointerEvent::Wheel { .. } => {},
        }
    }
}

proof fn a_route_keeps_contacts_apart<C>(
    router: RouterState<C>,
    event: TouchEvent<C>,
    tail: Tail<C>,
    now: Span,
)
    requires
        router.well_formed(),
    ensures
        router.routes(event, tail, now).after.well_formed(),
{
    let any = Held {
        id: event.id,
        start_x: event.x,
        start_y: event.y,
        from_edge: false,
        fired: false,
    };
    contacts_do_not_interfere(router.contacts, any, event.id, event.id);
}

/// **No contact is ever held twice**, while an origin's are forgotten.
pub proof fn forgetting_keeps_contacts_apart<C>(
    router: RouterState<C>,
    origin: InputOrigin,
    now: Span,
)
    requires
        router.well_formed(),
    ensures
        router.forgets_next(origin, now).after.well_formed(),
{
    if router.doomed.len() == 0 {
        elsewhere_is_apart(router.contacts, origin, ContactId::Pointer);
        elsewhere_scrolls_apart(router.scrolls, origin, ContactId::Pointer);
    } else {
        let held = router.doomed[0];
        a_route_keeps_contacts_apart(
            RouterState { doomed: router.doomed.drop_first(), ..router },
            TouchEvent {
                id: held.id,
                phase: TouchPhase::Cancel,
                x: held.start_x,
                y: held.start_y,
            },
            Tail::Forget(origin),
            now,
        );
    }
}

/// **No contact is ever held twice**, whatever is answered.
#[verifier::rlimit(40)]
pub proof fn an_answer_keeps_contacts_apart<C>(
    router: RouterState<C>,
    answer: Answer<C>,
    now: Span,
)
    requires
        router.well_formed(),
    ensures
        router.hears(answer, now).after.well_formed(),
{
    match (router.step, answer) {
        (Step::Edge(event, _), Answer::Edge { from_edge, .. }) => {
            let held = Held {
                id: event.id,
                start_x: event.x,
                start_y: event.y,
                from_edge,
                fired: false,
            };
            contacts_do_not_interfere(router.contacts, held, event.id, event.id);
        },
        (Step::Drag(event, _), Answer::Drag(_)) => {
            held_is_within(router.contacts, event.id);
        },
        (Step::Offer(event, _), Answer::Offer(_)) => {
            scrolls_do_not_interfere(router.scrolls, event.id, event.y, event.id);
        },
        (Step::Owns(event, _, _), Answer::Owns(_)) => {
            scrolls_do_not_interfere(router.scrolls, event.id, event.y, event.id);
        },
        (Step::Acted(event, _), Answer::Acted { .. }) => {
            scrolls_do_not_interfere(router.scrolls, event.id, event.y, event.id);
        },
        (Step::Shell(event, _), Answer::Shell { .. }) => {
            scrolls_do_not_interfere(router.scrolls, event.id, event.y, event.id);
        },
        (Step::Forgetting(origin), Answer::Next) => {
            forgetting_keeps_contacts_apart(router, origin, now);
        },
        _ => {},
    }
}

/// **A cancel ends a contact as thoroughly as a release.** After either, the contact is not
/// down, no navigation is being carried, and one that was is let go.
pub proof fn an_ended_contact_leaves_nothing<C>(
    router: RouterState<C>,
    event: TouchEvent<C>,
    tail: Tail<C>,
    now: Span,
)
    requires
        router.well_formed(),
        event.phase == TouchPhase::Up || event.phase == TouchPhase::Cancel,
    ensures
        ({
            let turn = router.routes(event, tail, now);
            &&& held_of(turn.after.contacts, event.id) is None
            &&& !turn.after.started_drag
            &&& router.started_drag ==> turn.after.drag_sample is None
            &&& router.started_drag ==> turn.effects.contains(Effect::<C>::Release)
        }),
{
    let any = Held {
        id: event.id,
        start_x: event.x,
        start_y: event.y,
        from_edge: false,
        fired: false,
    };
    contacts_do_not_interfere(router.contacts, any, event.id, event.id);
    let turn = router.routes(event, tail, now);
    if router.started_drag {
        assert(turn.effects[1] == Effect::<C>::Release);
    }
}

/// **A contact belongs where it landed, wherever it goes.** Once it is down, every move and
/// its end are the navigation's exactly where it landed in the reserved edge, and the layers'
/// below exactly where it did not, at whatever point of the panel they happen. A move leaves it
/// down, and as it landed; its end leaves it down no longer.
#[verifier::rlimit(40)]
pub proof fn a_contact_belongs_where_it_landed<C>(
    router: RouterState<C>,
    held: Held<C>,
    event: TouchEvent<C>,
    tail: Tail<C>,
    answer: Answer<C>,
    now: Span,
)
    requires
        router.well_formed(),
        held_of(router.contacts, event.id) == Some(held),
    ensures
        router.routes(event, tail, now).ask == router.navigates(event, tail).ask,
        router.routes(event, tail, now).after.contacts == router.navigates(
            event,
            tail,
        ).after.contacts,
        event.phase == TouchPhase::Up || event.phase == TouchPhase::Cancel ==> {
            let turn = router.navigates(event, tail);
            &&& turn.swallows() == held.from_edge
            &&& turn.passes_on() == !held.from_edge
            &&& held_of(turn.after.contacts, event.id) is None
        },
        event.phase == TouchPhase::Move ==> {
            let turn = router.navigates(event, tail);
            &&& turn.ask == (Ask::EdgeDrag {
                held,
                x: event.x,
                y: event.y,
                started: router.started_drag,
            })
            &&& turn.after.step == Step::Drag(event, tail)
            &&& turn.after.contacts == router.contacts
        },
        router.step == Step::Drag(event, tail) && answer is Drag && answer->Drag_0 is Begin ==> {
            let turn = router.hears(answer, now);
            &&& turn.ask is Begin
            &&& turn.after.step == Step::Began(event, tail)
            &&& turn.after.contacts == router.contacts
        },
        (router.step == Step::Drag(event, tail) && answer is Drag && answer->Drag_0 !is Begin)
            || (router.step == Step::Began(event, tail) && answer is Began) ==> {
            let turn = router.hears(answer, now);
            &&& turn.swallows() == held.from_edge
            &&& turn.passes_on() == !held.from_edge
            &&& held_of(turn.after.contacts, event.id) matches Some(kept)
                && kept == (Held { fired: kept.fired, ..held })
        },
{
    held_is_within(router.contacts, event.id);
    contacts_do_not_interfere(router.contacts, held, event.id, event.id);
    if router.step == Step::Drag(event, tail) && answer is Drag && answer->Drag_0 is Home {
        let at = held_at(router.contacts, event.id)->0;
        let fired = router.contacts.update(at, Held { fired: true, ..router.contacts[at] });
        same_names_same_place(router.contacts, fired, event.id);
    }
}

/// **Nothing but its own press and its own end moves a contact.** Any input that is neither,
/// and any answer to what neither asked, leaves it down as it landed.
#[verifier::rlimit(40)]
pub proof fn a_contact_stays_as_it_landed<C>(
    router: RouterState<C>,
    held: Held<C>,
    input: Input<C>,
    answer: Answer<C>,
    now: Span,
)
    requires
        router.well_formed(),
        held_of(router.contacts, held.id) == Some(held),
    ensures
        match input {
            Input::Touch(event) => event.id != held.id || event.phase == TouchPhase::Down
                || event.phase == TouchPhase::Move,
            Input::Pointer(pointer) => held.id != ContactId::Pointer || (pointer matches
                PointerEvent::Button { button, down, .. } ==> down || button
                != PointerButton::Left),
        } ==> held_of(router.begins(input, now).after.contacts, held.id) == Some(held),
        match router.step {
            Step::Edge(event, _) => event.id != held.id,
            Step::Forgetting(origin) => origin != held.id.origin() && (router.doomed.len() > 0
                ==> router.doomed[0].id != held.id),
            _ => true,
        } ==> (held_of(router.hears(answer, now).after.contacts, held.id) matches Some(kept)
            && kept == (Held { fired: kept.fired, ..held })),
{
    held_is_within(router.contacts, held.id);
    if let Input::Touch(event) = input {
        contacts_do_not_interfere(router.contacts, held, event.id, held.id);
    } else {
        contacts_do_not_interfere(router.contacts, held, ContactId::Pointer, held.id);
    }
    match router.step {
        Step::Edge(event, _) => {
            if let Answer::Edge { from_edge, .. } = answer {
                let landed = Held {
                    id: event.id,
                    start_x: event.x,
                    start_y: event.y,
                    from_edge,
                    fired: false,
                };
                contacts_do_not_interfere(router.contacts, landed, event.id, held.id);
            }
        },
        Step::Drag(event, _) => {
            held_is_within(router.contacts, event.id);
            if held_at(router.contacts, event.id) is Some {
                let at = held_at(router.contacts, event.id)->0;
                let fired = router.contacts.update(at, Held { fired: true, ..router.contacts[at] });
                same_names_same_place(router.contacts, fired, held.id);
            }
        },
        Step::Forgetting(origin) => {
            elsewhere_is_apart(router.contacts, origin, held.id);
            if router.doomed.len() > 0 {
                contacts_do_not_interfere(
                    router.contacts,
                    held,
                    router.doomed[0].id,
                    held.id,
                );
            }
        },
        _ => {},
    }
}

/// Contacts of the same names are found in the same places.
proof fn same_names_same_place<C>(a: Seq<Held<C>>, b: Seq<Held<C>>, id: ContactId)
    requires
        a.len() == b.len(),
        forall|i: int| 0 <= i < a.len() ==> (#[trigger] a[i]).id == (#[trigger] b[i]).id,
    ensures
        held_at(a, id) == held_at(b, id),
    decreases a.len(),
{
    if a.len() > 0 {
        let last = a.len() - 1;
        assert(a[last].id == b[last].id);
        assert forall|i: int| 0 <= i < a.drop_last().len() implies (#[trigger] a.drop_last()[i]).id
            == (#[trigger] b.drop_last()[i]).id by {
            assert(a[i].id == b[i].id);
        }
        same_names_same_place(a.drop_last(), b.drop_last(), id);
    }
}

/// **A press in the reserved edge is the panel's, and no other is.** A press that is on
/// nothing the panel put there is held as it landed; the navigation keeps it where that was in
/// the edge, without doing anything, and leaves it to the layers below where it was not.
pub proof fn a_press_belongs_where_it_lands<C>(
    router: RouterState<C>,
    event: TouchEvent<C>,
    tail: Tail<C>,
    from_edge: bool,
    now: Span,
)
    requires
        router.well_formed(),
        router.step == Step::Edge(event, tail),
    ensures
        ({
            let turn = router.hears(Answer::Edge { from_edge, on_pill: false }, now);
            &&& turn.swallows() == from_edge
            &&& turn.passes_on() == !from_edge
            &&& turn.effects.len() == 0
            &&& held_of(turn.after.contacts, event.id) == Some(
                Held {
                    id: event.id,
                    start_x: event.x,
                    start_y: event.y,
                    from_edge,
                    fired: false,
                },
            )
        }),
{
    let held = Held {
        id: event.id,
        start_x: event.x,
        start_y: event.y,
        from_edge,
        fired: false,
    };
    contacts_do_not_interfere(router.contacts, held, event.id, event.id);
}

/// **A drag that merely crosses the strip is left alone.** Whatever the strip answers, only a
/// press makes a contact the scrubber's.
pub proof fn only_a_press_captures_the_scrubber<C>(
    router: RouterState<C>,
    event: TouchEvent<C>,
    tail: Tail<C>,
    answered: bool,
    preview: bool,
)
    requires
        event.phase != TouchPhase::Down,
        router.scrubbing != Some(event.id),
    ensures
        router.strip_answered(event, tail, answered, preview).after.scrubbing == router.scrubbing,
{
}

/// **A finger on the scrub track owns it until it lifts**, and a lost contact puts the bar
/// back: the end of the contact that holds the scrubber, whatever the strip makes of it, lets
/// the scrubber go and clears the preview.
pub proof fn the_scrubber_is_let_go<C>(
    router: RouterState<C>,
    event: TouchEvent<C>,
    tail: Tail<C>,
    offer: Option<StripPhase>,
    answered: bool,
    preview: bool,
    now: Span,
)
    requires
        router.scrubbing == Some(event.id),
    ensures
        event.phase == TouchPhase::Up ==> {
            let turn = router.strip_answered(event, tail, answered, preview);
            &&& turn.after.scrubbing is None
            &&& turn.effects.contains(Effect::<C>::ClearScrubPreview)
        },
        event.phase == TouchPhase::Cancel && router.step == Step::Offer(event, tail) ==> {
            let turn = router.hears(Answer::Offer(offer), now);
            &&& turn.after.scrubbing is None
            &&& turn.effects.contains(Effect::<C>::ClearScrubPreview)
        },
        event.phase == TouchPhase::Move ==> router.strip_answered(
            event,
            tail,
            answered,
            preview,
        ).after.scrubbing == Some(event.id),
{
    if event.phase == TouchPhase::Up {
        let turn = router.strip_answered(event, tail, answered, preview);
        assert(turn.effects[0] == Effect::<C>::ClearScrubPreview);
    }
    if event.phase == TouchPhase::Cancel && router.step == Step::Offer(event, tail) {
        let turn = router.hears(Answer::Offer(offer), now);
        assert(turn.effects[0] == Effect::<C>::ClearScrubPreview);
    }
}

/// **The shell keeps what it acts on, and nothing else.** A press that hits something of a
/// screen's and a move that scrolled one stop at the shell. A press that hits nothing, a move
/// that scrolled nothing and the end of a contact go on to whatever is underneath.
pub proof fn the_shell_keeps_what_it_acts_on<C>(
    router: RouterState<C>,
    event: TouchEvent<C>,
    tail: Tail<C>,
    hit: Option<ScreenHit>,
    scrollable: bool,
    scrolled: bool,
    now: Span,
)
    ensures
        router.step == Step::Shell(event, tail) ==> {
            let turn = router.hears(Answer::Shell { hit, scrollable }, now);
            &&& turn.swallows() == (hit is Some)
            &&& turn.ask is Surface == (hit is None)
        },
        router.step == Step::Scrolled(event, tail) ==> {
            let turn = router.hears(Answer::Scrolled(scrolled), now);
            &&& turn.swallows() == scrolled
            &&& turn.ask is Surface == !scrolled
        },
        event.phase == TouchPhase::Move ==> {
            let turn = router.reaches_shell(event, tail);
            &&& turn.ask is Scroll == (scroll_of(router.scrolls, event.id) is Some)
            &&& turn.ask is Surface == (scroll_of(router.scrolls, event.id) is None)
        },
        event.phase == TouchPhase::Up || event.phase == TouchPhase::Cancel
            ==> router.reaches_shell(event, tail).ask is Surface,
{
}

/// **A lost contact is let go underneath too.** A contact that is forgotten with its origin,
/// and that no layer of the panel's own took, is cancelled at the surface that holds the glass,
/// and the forgetting goes on.
pub proof fn a_lost_contact_is_let_go_underneath<C>(
    router: RouterState<C>,
    event: TouchEvent<C>,
    origin: InputOrigin,
    surface: Option<u64>,
    now: Span,
)
    requires
        router.step == Step::Surface(event, Tail::<C>::Forget(origin)),
    ensures
        ({
            let turn = router.hears(Answer::Surface(surface), now);
            &&& surface is Some ==> turn.effects.len() > 0 && turn.effects.last()
                == Effect::<C>::Deliver(event)
            &&& turn.ask is Next
            &&& turn.after.step == Step::<C>::Forgetting(origin)
        }),
{
}

/// The router once answers have been heard, one after the other.
pub open spec fn after_answers<C>(
    router: RouterState<C>,
    answers: Seq<(Answer<C>, Span)>,
) -> RouterState<C>
    decreases answers.len(),
{
    if answers.len() == 0 {
        router
    } else {
        after_answers(router, answers.drop_last()).hears(
            answers.last().0,
            answers.last().1,
        ).after
    }
}

/// Whether each of the answers is the one that is waited for when it comes.
pub open spec fn all_expected<C>(
    router: RouterState<C>,
    answers: Seq<(Answer<C>, Span)>,
) -> bool {
    forall|i: int|
        0 <= i < answers.len() ==> after_answers(router, answers.take(i)).expects(
            (#[trigger] answers[i]).0,
        )
}

/// How many answers forgetting may still take.
pub open spec fn still_to_hear<C>(router: RouterState<C>) -> nat {
    6 * router.doomed.len() + match router.step {
        Step::Offer(..) => 5nat,
        Step::Owns(..) => 4,
        Step::Acted(..) => 3,
        Step::Surface(..) => 2,
        Step::Forgetting(_) => 1,
        _ => 0,
    }
}

/// Whether the router is on its way to forgetting an origin, from where it was when that
/// began: every other origin's contacts, scrolling and scrubber are as they were, and what it
/// is dealing with is the end of one of that origin's contacts. At the end of the way, nothing
/// of that origin's is left.
pub open spec fn forgetting<C>(
    before: RouterState<C>,
    router: RouterState<C>,
    origin: InputOrigin,
) -> bool {
    &&& router.well_formed()
    &&& forall|id: ContactId|
        id.origin() != origin ==> {
            &&& #[trigger] held_of(router.contacts, id) == held_of(before.contacts, id)
            &&& scroll_of(router.scrolls, id) == scroll_of(before.scrolls, id)
            &&& before.scrubbing == Some(id) ==> router.scrubbing == Some(id)
        }
    &&& router.pointer_contact == before.pointer_contact
    &&& forall|i: int|
        0 <= i < router.doomed.len() ==> (#[trigger] router.doomed[i]).id.origin() == origin
    &&& match router.step {
        Step::Idle => forall|id: ContactId|
            id.origin() == origin ==> {
                &&& #[trigger] held_of(router.contacts, id) is None
                &&& scroll_of(router.scrolls, id) is None
                &&& router.scrubbing != Some(id)
            },
        Step::Forgetting(peer) => peer == origin,
        Step::Offer(event, tail)
        | Step::Owns(event, tail, _)
        | Step::Acted(event, tail)
        | Step::Surface(event, tail) => {
            &&& event.id.origin() == origin
            &&& event.phase == TouchPhase::Cancel
            &&& tail == Tail::<C>::Forget(origin)
        },
        _ => false,
    }
}

/// **A departed peer leaves nothing behind, and nobody else's goes with it.** From the moment
/// it is forgotten, through every answer, each other origin's contacts are down as they were,
/// scroll as they did, and keep the scrubber; and once the router is ready again, none of the
/// departed origin's is down, scrolling or holding the scrubber. It is ready again within a
/// number of answers.
#[verifier::rlimit(40)]
pub proof fn a_departed_peer_leaves_nothing<C>(
    router: RouterState<C>,
    origin: InputOrigin,
    now: Span,
    answers: Seq<(Answer<C>, Span)>,
)
    requires
        router.well_formed(),
        all_expected(router.forgets(origin, now).after, answers),
    ensures
        ({
            let first = router.forgets(origin, now).after;
            let last = after_answers(first, answers);
            &&& forgetting(router, last, origin)
            &&& answers.len() + still_to_hear(last) <= still_to_hear(first)
            &&& last.step is Idle <==> still_to_hear(last) == 0
        }),
    decreases answers.len(),
{
    let first = router.forgets(origin, now).after;
    if answers.len() == 0 {
        broadcast use vstd::seq_lib::group_filter_ensures;

        let doomed = RouterState { doomed: held_from(router.contacts, origin), ..router };
        let theirs = |held: Held<C>| held.id.origin() == origin;
        assert forall|i: int| 0 <= i < doomed.doomed.len() implies (
        #[trigger] doomed.doomed[i]).id.origin() == origin by {
            assert(theirs(router.contacts.filter(theirs)[i]));
        }
        forgetting_goes_on(router, doomed, origin, now);
    } else {
        let fewer = answers.drop_last();
        assert forall|i: int| 0 <= i < fewer.len() implies after_answers(
            first,
            fewer.take(i),
        ).expects((#[trigger] fewer[i]).0) by {
            assert(fewer.take(i) =~= answers.take(i));
            assert(fewer[i] == answers[i]);
        }
        a_departed_peer_leaves_nothing(router, origin, now, fewer);
        let end = answers.len() - 1;
        assert(answers.take(end) =~= fewer);
        assert(answers[end] == answers.last());
        an_answer_goes_on_forgetting(
            router,
            after_answers(first, fewer),
            origin,
            answers.last().0,
            answers.last().1,
        );
    }
}

/// The next contact to forget, or the end of it, is on the way.
proof fn forgetting_goes_on<C>(
    before: RouterState<C>,
    router: RouterState<C>,
    origin: InputOrigin,
    now: Span,
)
    requires
        router.well_formed(),
        forall|id: ContactId|
            id.origin() != origin ==> {
                &&& #[trigger] held_of(router.contacts, id) == held_of(before.contacts, id)
                &&& scroll_of(router.scrolls, id) == scroll_of(before.scrolls, id)
                &&& before.scrubbing == Some(id) ==> router.scrubbing == Some(id)
            },
        router.pointer_contact == before.pointer_contact,
        forall|i: int|
            0 <= i < router.doomed.len() ==> (#[trigger] router.doomed[i]).id.origin() == origin,
    ensures
        forgetting(before, router.forgets_next(origin, now).after, origin),
        still_to_hear(router.forgets_next(origin, now).after) <= 6 * router.doomed.len(),
        router.forgets_next(origin, now).after.step is Idle <==> router.doomed.len() == 0,
{
    let after = router.forgets_next(origin, now).after;
    forgetting_keeps_contacts_apart(router, origin, now);
    if router.doomed.len() == 0 {
        assert forall|id: ContactId| id.origin() == origin implies #[trigger] held_of(
            after.contacts,
            id,
        ) is None && scroll_of(after.scrolls, id) is None && after.scrubbing != Some(id) by {
            elsewhere_is_apart(router.contacts, origin, id);
            elsewhere_scrolls_apart(router.scrolls, origin, id);
        }
        assert forall|id: ContactId| id.origin() != origin implies {
            &&& #[trigger] held_of(after.contacts, id) == held_of(before.contacts, id)
            &&& scroll_of(after.scrolls, id) == scroll_of(before.scrolls, id)
            &&& before.scrubbing == Some(id) ==> after.scrubbing == Some(id)
        } by {
            elsewhere_is_apart(router.contacts, origin, id);
            elsewhere_scrolls_apart(router.scrolls, origin, id);
            assert(held_of(router.contacts, id) == held_of(before.contacts, id));
        }
    } else {
        let held = router.doomed[0];
        assert(after.doomed =~= router.doomed.drop_first());
        assert forall|i: int| 0 <= i < after.doomed.len() implies (
        #[trigger] after.doomed[i]).id.origin() == origin by {
            assert(after.doomed[i] == router.doomed[i + 1]);
        }
        assert forall|id: ContactId| id.origin() != origin implies {
            &&& #[trigger] held_of(after.contacts, id) == held_of(before.contacts, id)
            &&& scroll_of(after.scrolls, id) == scroll_of(before.scrolls, id)
            &&& before.scrubbing == Some(id) ==> after.scrubbing == Some(id)
        } by {
            contacts_do_not_interfere(router.contacts, held, held.id, id);
            assert(held_of(router.contacts, id) == held_of(before.contacts, id));
        }
    }
}

/// An answer that is waited for while an origin is forgotten is on the way.
proof fn an_answer_goes_on_forgetting<C>(
    before: RouterState<C>,
    router: RouterState<C>,
    origin: InputOrigin,
    answer: Answer<C>,
    now: Span,
)
    requires
        forgetting(before, router, origin),
        router.expects(answer),
    ensures
        forgetting(before, router.hears(answer, now).after, origin),
        still_to_hear(router.hears(answer, now).after) < still_to_hear(router),
        router.hears(answer, now).after.step is Idle <==> still_to_hear(
            router.hears(answer, now).after,
        ) == 0,
{
    let after = router.hears(answer, now).after;
    an_answer_keeps_contacts_apart(router, answer, now);
    match router.step {
        Step::Forgetting(_) => {
            forgetting_goes_on(before, router, origin, now);
        },
        Step::Offer(event, _)
        | Step::Owns(event, _, _)
        | Step::Acted(event, _)
        | Step::Surface(event, _) => {
            assert forall|id: ContactId| id.origin() != origin implies {
                &&& #[trigger] held_of(after.contacts, id) == held_of(before.contacts, id)
                &&& scroll_of(after.scrolls, id) == scroll_of(before.scrolls, id)
                &&& before.scrubbing == Some(id) ==> after.scrubbing == Some(id)
            } by {
                scrolls_do_not_interfere(router.scrolls, event.id, event.y, id);
                assert(held_of(router.contacts, id) == held_of(before.contacts, id));
            }
        },
        _ => {},
    }
}

/// **A remote contact does not touch the panel's mouse.** A finger's event, wherever it comes
/// from, leaves the pointer's button as it was.
pub proof fn a_touch_leaves_the_mouse_alone<C>(
    router: RouterState<C>,
    event: TouchEvent<C>,
    now: Span,
)
    ensures
        router.begins(Input::Touch(event), now).after.pointer_contact == router.pointer_contact,
{
}

/// **The primary button is a finger.** A press and a release of it take the road a finger's
/// would, under the pointer's own name; any other button goes straight to what is underneath.
pub proof fn the_primary_button_is_a_finger<C>(
    router: RouterState<C>,
    x: C,
    y: C,
    button: PointerButton,
    down: bool,
    now: Span,
)
    ensures
        ({
            let pointer = PointerEvent::Button { x, y, button, down };
            let turn = router.begins(Input::Pointer(pointer), now);
            if button == PointerButton::Left {
                &&& turn.after.pointer_contact == down
                &&& turn.after.pill_since == Some(now)
                &&& turn.effects.len() > 0 && turn.effects[0] == Effect::<C>::NoteTouch
            } else {
                &&& turn.effects == seq![Effect::SinkPointer(pointer)]
                &&& turn.ask is Nothing
                &&& turn.after.contacts == router.contacts
                &&& turn.after.pointer_contact == router.pointer_contact
            }
        }),
{
}

/// **Any contact raises the pill, whoever it belongs to.**
pub proof fn any_contact_raises_the_pill<C>(
    router: RouterState<C>,
    event: TouchEvent<C>,
    now: Span,
)
    ensures
        router.begins(Input::Touch(event), now).after.pill_since == Some(now),
{
}

/// The contact that is on its way while the router waits, and what it stands for.
pub open spec fn on_its_way<C>(step: Step<C>) -> Option<(TouchEvent<C>, Tail<C>)> {
    match step {
        Step::Idle => None,
        Step::Panel(event, tail) => Some((event, tail)),
        Step::Edge(event, tail) => Some((event, tail)),
        Step::Drag(event, tail) => Some((event, tail)),
        Step::Began(event, tail) => Some((event, tail)),
        Step::Offer(event, tail) => Some((event, tail)),
        Step::Owns(event, tail, _) => Some((event, tail)),
        Step::Acted(event, tail) => Some((event, tail)),
        Step::PanelBelow(event, tail) => Some((event, tail)),
        Step::Shell(event, tail) => Some((event, tail)),
        Step::Scrolled(event, tail) => Some((event, tail)),
        Step::Surface(event, tail) => Some((event, tail)),
        Step::Forgetting(_) => None,
    }
}

/// A contact that scrolls is found where it was last seen, and one that has ended is not found.
proof fn a_scroll_is_its_own<C>(scrolls: Seq<Scrolling<C>>, id: ContactId, y: C)
    requires
        scrolls_apart(scrolls),
    ensures
        scroll_of(with_scroll(scrolls, id, y), id) == Some(Scrolling { id, y }),
        scroll_of(without_scroll(scrolls, id), id) is None,
{
    scroll_is_within(scrolls, id);
    scrolls_do_not_interfere(scrolls, id, y, id);
    let more = with_scroll(scrolls, id, y);
    let left = without_scroll(scrolls, id);
    match scrolling_at(scrolls, id) {
        Some(at) => {
            scroll_by_name(more, at);
            scroll_is_within(left, id);
            if scrolling_at(left, id) is Some {
                let k = scrolling_at(left, id)->0;
                let was = if k < at {
                    k
                } else {
                    k + 1
                };
                assert(left[k] == scrolls[was]);
                assert(scrolls[was].id == scrolls[at].id);
            }
        },
        None => {
            scroll_by_name(more, scrolls.len() as int);
        },
    }
}

/// **A contact that no layer took goes on unchanged.** Once it is known which surface holds the
/// glass, the contact is delivered to that surface exactly as it came, the surface having been
/// told the panel's size where it had not been. Where there is none, a finger's event goes to
/// what is underneath exactly as it came, and so does the pointer event that a contact stood
/// for. It is the last thing done, and the contact's way ends with it.
pub proof fn what_no_layer_took_goes_on_unchanged<C>(
    router: RouterState<C>,
    event: TouchEvent<C>,
    tail: Tail<C>,
    surface: Option<u64>,
    now: Span,
)
    requires
        router.step == Step::Surface(event, tail),
    ensures
        ({
            let turn = router.hears(Answer::Surface(surface), now);
            &&& surface matches Some(surface) ==> {
                &&& turn.effects.len() > 0
                &&& turn.effects.last() matches Effect::Deliver(given) && given.id == event.id
                    && given.phase == event.phase && given.x == event.x && given.y == event.y
                &&& turn.effects.len() == if router.sized == Some(surface) {
                    1nat
                } else {
                    2nat
                }
                &&& router.sized != Some(surface) ==> turn.effects[0] == Effect::<C>::TellSize(
                    surface,
                )
                &&& turn.after.sized == Some(surface)
            }
            &&& surface is None && tail is Touch ==> {
                &&& turn.effects.len() == 1
                &&& turn.effects[0] matches Effect::SinkTouch(given) && given.id == event.id
                    && given.phase == event.phase && given.x == event.x && given.y == event.y
            }
            &&& surface is None ==> (tail matches Tail::Pointer(pointer) ==> turn.effects.len() == 1
                && turn.effects[0] == Effect::SinkPointer(pointer))
            &&& surface is None ==> turn.after.sized == router.sized
            &&& tail !is Forget ==> turn.ask is Nothing && turn.after.step is Idle
            &&& turn.after.contacts == router.contacts
            &&& turn.after.scrolls == router.scrolls
            &&& turn.after.scrubbing == router.scrubbing
        }),
{
}

/// **A contact sets out as it came.** A finger's event sets out as it is, the primary button
/// sets out as a finger where the pointer is, and a move of the pointer does while that button is
/// down; nothing else of the pointer's sets out at all.
pub proof fn a_contact_sets_out_as_it_came<C>(router: RouterState<C>, input: Input<C>, now: Span)
    ensures
        ({
            let turn = router.begins(input, now);
            on_its_way(turn.after.step) matches Some(way) ==> match input {
                Input::Touch(event) => way.0 == event && way.1 is Touch,
                Input::Pointer(pointer) => {
                    &&& way.1 == Tail::Pointer(pointer)
                    &&& way.0.id == ContactId::Pointer
                    &&& match pointer {
                        PointerEvent::Move { x, y } => way.0.phase == TouchPhase::Move && way.0.x
                            == x && way.0.y == y && router.pointer_contact,
                        PointerEvent::Button { x, y, button, down } => {
                            &&& way.0.x == x && way.0.y == y
                            &&& button == PointerButton::Left
                            &&& way.0.phase == if down {
                                TouchPhase::Down
                            } else {
                                TouchPhase::Up
                            }
                        },
                        PointerEvent::Wheel { .. } => false,
                    }
                },
            }
        }),
{
}

/// **Nothing changes a contact on its way.** Until its way ends, every answer leaves it and what
/// it stands for as they were.
#[verifier::rlimit(60)]
pub proof fn nothing_changes_a_contact_on_its_way<C>(
    router: RouterState<C>,
    answer: Answer<C>,
    now: Span,
)
    requires
        router.step !is Forgetting,
    ensures
        ({
            let after = router.hears(answer, now).after.step;
            on_its_way(after) is Some ==> on_its_way(after) == on_its_way(router.step)
        }),
{
}

/// **A forgotten contact is cancelled, not lifted.** The next of an origin's contacts to be
/// forgotten sets out as the cancelling of that contact.
pub proof fn a_forgotten_contact_is_cancelled<C>(
    router: RouterState<C>,
    origin: InputOrigin,
    now: Span,
)
    ensures
        ({
            let turn = router.forgets_next(origin, now);
            &&& router.doomed.len() == 0 ==> turn.after.step is Idle && turn.effects.len() > 0
                && turn.effects.last() == Effect::<C>::CancelOrigin(origin)
            &&& on_its_way(turn.after.step) matches Some(way) ==> {
                &&& router.doomed.len() > 0
                &&& way.0.id == router.doomed[0].id
                &&& way.0.phase == TouchPhase::Cancel
                &&& way.1 == Tail::<C>::Forget(origin)
            }
            &&& router.doomed.len() > 0 ==> turn.after.doomed == router.doomed.drop_first()
        }),
{
}

/// Whether what a turn asks is asked about the contact on its way: every place is where it is,
/// every phase is its phase, and the one that drags, scrolls or scrubs is that one.
pub open spec fn asks_about_the_contact<C>(turn: TurnState<C>, scrolls: Seq<Scrolling<C>>) -> bool {
    let way = on_its_way(turn.after.step);
    match turn.ask {
        Ask::Nothing => turn.after.step is Idle,
        Ask::Next => turn.after.step is Forgetting,
        Ask::Panel { x, y } => way is Some && x == (way->0).0.x && y == (way->0).0.y,
        Ask::Edge { x, y } => way is Some && x == (way->0).0.x && y == (way->0).0.y,
        Ask::Owns { x, y } => way is Some && x == (way->0).0.x && y == (way->0).0.y,
        Ask::Act { x, y, .. } => way is Some && x == (way->0).0.x && y == (way->0).0.y,
        Ask::Shell { x, y } => way is Some && x == (way->0).0.x && y == (way->0).0.y,
        Ask::EdgeDrag { held, x, y, started } => {
            &&& way is Some && x == (way->0).0.x && y == (way->0).0.y
            &&& held_of(turn.after.contacts, (way->0).0.id) == Some(held)
            &&& held.id == (way->0).0.id
            &&& started == turn.after.started_drag
        },
        Ask::Offer { phase, scrubbing } => way is Some && phase == (way->0).0.phase && scrubbing
            == (turn.after.scrubbing == Some((way->0).0.id)),
        Ask::Scroll { from, to } => {
            &&& way is Some && to == (way->0).0.y
            &&& scroll_of(scrolls, (way->0).0.id) matches Some(was) && from == was.y
            &&& scroll_of(turn.after.scrolls, (way->0).0.id) matches Some(is) && is.y == to
        },
        Ask::Begin => way is Some,
        Ask::Surface => way is Some,
    }
}

/// **What is asked is asked about the contact**, from where it sets out to the end of its way.
#[verifier::rlimit(60)]
pub proof fn what_is_asked_is_about_the_contact<C>(
    router: RouterState<C>,
    input: Input<C>,
    now: Span,
)
    requires
        router.well_formed(),
    ensures
        asks_about_the_contact(router.begins(input, now), router.scrolls),
{
    if let Some(way) = on_its_way(router.begins(input, now).after.step) {
        held_is_within(router.contacts, way.0.id);
    }
}

/// **What is asked further is asked about the contact**, whatever was answered before.
#[verifier::rlimit(60)]
pub proof fn what_is_asked_next_is_about_the_contact<C>(
    router: RouterState<C>,
    answer: Answer<C>,
    now: Span,
)
    requires
        router.well_formed(),
        router.step !is Forgetting,
    ensures
        asks_about_the_contact(router.hears(answer, now), router.scrolls),
{
    if let Some(way) = on_its_way(router.step) {
        a_scroll_is_its_own(router.scrolls, way.0.id, way.0.y);
    }
}

/// **The layers are asked in order.** A press is first offered to what was put aside, then to
/// the pill and the edge, then to the transport strip, then once more to what was put aside,
/// then to the shell, and only then goes on. A contact that is let go of or moves is offered to
/// the strip and the shell before it goes on. No layer is passed over, and a layer that took the
/// contact is the last.
#[verifier::rlimit(40)]
pub proof fn the_layers_are_asked_in_order<C>(
    router: RouterState<C>,
    event: TouchEvent<C>,
    tail: Tail<C>,
    strip: StripPhase,
    answer: Answer<C>,
    now: Span,
)
    requires
        router.expects(answer),
    ensures
        event.phase == TouchPhase::Down ==> router.routes(event, tail, now).ask is Panel,
        event.phase != TouchPhase::Down ==> {
            let turn = router.routes(event, tail, now);
            turn.ask is EdgeDrag || turn.ask is Offer || turn.swallows()
        },
        ({
            let turn = router.hears(answer, now);
            match (router.step, answer) {
                (Step::Panel(..), Answer::Panel(hit)) => if hit is Miss {
                    turn.ask is Edge
                } else {
                    turn.swallows()
                },
                (Step::Edge(..), Answer::Edge { from_edge, on_pill }) => if from_edge || on_pill {
                    turn.swallows()
                } else {
                    turn.ask is Offer
                },
                (Step::Offer(event, _), Answer::Offer(offer)) => match offer {
                    Some(strip) => if strip == StripPhase::Drag {
                        turn.ask matches Ask::Act { strip: acts, .. } && acts == strip
                    } else {
                        turn.ask is Owns
                    },
                    None => turn.ask is Panel == (event.phase == TouchPhase::Down),
                },
                (Step::Owns(event, _, strip), Answer::Owns(owns)) => if owns {
                    turn.ask matches Ask::Act { strip: acts, .. } && acts == strip
                } else {
                    turn.ask is Panel == (event.phase == TouchPhase::Down)
                },
                (Step::Acted(event, _), Answer::Acted { answered, .. }) => if answered {
                    turn.swallows()
                } else {
                    turn.ask is Panel == (event.phase == TouchPhase::Down)
                },
                (Step::PanelBelow(..), Answer::Panel(hit)) => if hit is Miss {
                    turn.ask is Shell
                } else {
                    turn.swallows()
                },
                _ => true,
            }
        }),
        event.phase == TouchPhase::Down ==> router.reaches_shell(event, tail).after.step
            == Step::PanelBelow(event, tail),
{
}

/// **Every answer has its effect, and only that.** A demoted surface that was hit is brought
/// back, its badge ends its launch, the pill goes home once what is underneath has let go, a
/// completed swipe does the same, a carried navigation follows the finger from where it was last
/// seen, and a press on a screen opens, goes back or is handed to the app. Nothing else that is
/// heard does any of these.
#[verifier::rlimit(40)]
pub proof fn every_answer_has_its_effect<C>(router: RouterState<C>, answer: Answer<C>, now: Span)
    requires
        router.expects(answer),
        router.step !is Forgetting,
    ensures
        ({
            let turn = router.hears(answer, now);
            let home = seq![Effect::<C>::CancelAll, Effect::<C>::GoHome];
            match answer {
                Answer::Panel(hit) => turn.effects == match hit {
                    PanelHit::Restore => seq![Effect::<C>::Restore],
                    PanelHit::Close => seq![Effect::<C>::ClosePage],
                    PanelHit::Miss => Seq::empty(),
                },
                Answer::Edge { on_pill, .. } => turn.effects == if on_pill {
                    home
                } else {
                    Seq::empty()
                },
                Answer::Drag(intent) => match intent {
                    EdgeDrag::Ignore => turn.effects.len() == 0 && turn.after.drag_sample
                        == router.drag_sample,
                    EdgeDrag::Begin => turn.effects.len() == 0 && turn.ask is Begin,
                    EdgeDrag::Home => turn.effects == home,
                    EdgeDrag::Carry { shown } => {
                        let x = (on_its_way(router.step)->0).0.x;
                        &&& turn.effects == seq![
                            Effect::Drive { shown, was: router.drag_sample, now, x },
                        ]
                        &&& turn.after.drag_sample == Some((now, x))
                    },
                },
                Answer::Began(began) => turn.effects.len() == 0 && turn.after.started_drag == (began
                    || router.started_drag) && (began ==> turn.after.drag_sample is None),
                Answer::Shell { hit, scrollable } => {
                    &&& turn.effects == match hit {
                        Some(ScreenHit::Push) => seq![Effect::<C>::ShellPush],
                        Some(ScreenHit::Back) => seq![Effect::<C>::ShellBack],
                        Some(ScreenHit::Event) => seq![Effect::<C>::ShellEvent],
                        None => Seq::empty(),
                    }
                    &&& hit is None && !scrollable ==> turn.after.scrolls == router.scrolls
                },
                Answer::Scrolled(_) => turn.effects.len() == 0,
                Answer::Owns(owns) => owns ==> turn.effects.len() == 0,
                _ => true,
            }
        }),
{
    let turn = router.hears(answer, now);
    assert(turn.effects =~= turn.effects + Seq::<Effect<C>>::empty());
}

/// **A press on a screen that scrolls begins a scroll where it is, and a press that hits
/// something of it does not.**
pub proof fn a_press_begins_a_scroll_where_it_is<C>(
    router: RouterState<C>,
    event: TouchEvent<C>,
    tail: Tail<C>,
    hit: Option<ScreenHit>,
    scrollable: bool,
    now: Span,
)
    requires
        router.well_formed(),
        router.step == Step::Shell(event, tail),
    ensures
        ({
            let scrolls = router.hears(Answer::Shell { hit, scrollable }, now).after.scrolls;
            &&& hit is Some ==> scroll_of(scrolls, event.id) is None
            &&& hit is None && scrollable ==> (scroll_of(scrolls, event.id) matches Some(scroll)
                && scroll.y == event.y && scroll.id == event.id)
        }),
{
    a_scroll_is_its_own(router.scrolls, event.id, event.y);
}

/// **The end of a contact ends its scroll, and a pointer that is no finger goes straight on.**
/// Other buttons than the primary, the wheel, and a move with no button down reach what is
/// underneath as they are, and change nothing here; the primary button is down exactly from its
/// press to its release.
pub proof fn a_bare_pointer_goes_straight_on<C>(
    router: RouterState<C>,
    pointer: PointerEvent<C>,
    event: TouchEvent<C>,
    tail: Tail<C>,
    now: Span,
)
    requires
        router.well_formed(),
        event.phase == TouchPhase::Up || event.phase == TouchPhase::Cancel,
    ensures
        scroll_of(router.reaches_shell(event, tail).after.scrolls, event.id) is None,
        ({
            let turn = router.begins(Input::Pointer(pointer), now);
            let bare = match pointer {
                PointerEvent::Move { .. } => !router.pointer_contact,
                PointerEvent::Button { button, .. } => button != PointerButton::Left,
                PointerEvent::Wheel { .. } => true,
            };
            &&& bare ==> {
                &&& turn.effects.len() == 1
                &&& turn.effects[0] == Effect::SinkPointer(pointer)
                &&& turn.ask is Nothing
                &&& turn.after.contacts == router.contacts
                &&& turn.after.scrolls == router.scrolls
                &&& turn.after.pointer_contact == router.pointer_contact
                &&& turn.after.pill_since == router.pill_since
            }
            &&& !bare ==> {
                &&& turn.effects.len() > 0
                &&& turn.effects[0] is NoteTouch
                &&& turn.after.pill_since == Some(now)
                &&& turn.after.pointer_contact == match pointer {
                    PointerEvent::Button { down, .. } => down,
                    _ => router.pointer_contact,
                }
            }
        }),
{
    a_scroll_is_its_own(router.scrolls, event.id, event.y);
}

/// **What began in the edge goes no further.** Once the navigation is done with a drag, or a
/// contact is lifted or lost, one that landed in the reserved edge ends there, and any other, or
/// one that is not known, is offered to the strip.
pub proof fn what_began_in_the_edge_goes_no_further<C>(
    router: RouterState<C>,
    event: TouchEvent<C>,
    tail: Tail<C>,
    intent: EdgeDrag<C>,
    now: Span,
)
    requires
        router.well_formed(),
    ensures
        ({
            let edge = held_of(router.contacts, event.id) matches Some(held) && held.from_edge;
            &&& router.dragged(event, tail).swallows() == edge
            &&& router.dragged(event, tail).passes_on() == !edge
            &&& router.lifts(event, tail).swallows() == edge
            &&& router.lifts(event, tail).passes_on() == !edge
            &&& router.step == Step::Drag(event, tail) && !(intent is Begin) ==> router.hears(
                Answer::Drag(intent),
                now,
            ).passes_on() == !edge
        }),
{
    held_is_within(router.contacts, event.id);
    if let Some(at) = held_at(router.contacts, event.id) {
        let fired = router.contacts.update(at, Held { fired: true, ..router.contacts[at] });
        a_contact_keeps_its_place(router.contacts, fired, event.id);
    }
}

/// A contact whose name and place are kept is found where it was.
proof fn a_contact_keeps_its_place<C>(before: Seq<Held<C>>, after: Seq<Held<C>>, id: ContactId)
    requires
        before.len() == after.len(),
        forall|i: int| 0 <= i < before.len() ==> (#[trigger] after[i]).id == before[i].id,
    ensures
        held_at(after, id) == held_at(before, id),
    decreases before.len(),
{
    if before.len() > 0 {
        assert(after[before.len() - 1].id == before[before.len() - 1].id);
        assert forall|i: int| 0 <= i < before.len() - 1 implies (#[trigger] after.drop_last()[i]).id
            == before.drop_last()[i].id by {
            assert(after[i].id == before[i].id);
        }
        a_contact_keeps_its_place(before.drop_last(), after.drop_last(), id);
    }
}

/// **A navigation is let go of with the finger that carries it.** While one is carried, a contact
/// that leaves the glass releases it, first of all, and where it was last seen is forgotten;
/// while none is, nothing is released.
pub proof fn a_navigation_is_let_go_with_the_finger<C>(
    router: RouterState<C>,
    event: TouchEvent<C>,
    tail: Tail<C>,
)
    ensures
        ({
            let turn = router.lifts(event, tail);
            &&& !turn.after.started_drag
            &&& router.started_drag ==> turn.effects.len() == 1 && turn.effects[0] is Release
                && turn.after.drag_sample is None
            &&& !router.started_drag ==> turn.effects.len() == 0 && turn.after.drag_sample
                == router.drag_sample
            &&& turn.after.scrubbing == router.scrubbing
            &&& turn.after.scrolls == router.scrolls
        }),
{
}

/// **The scrubber is taken by a press that moved it, and given up by the contact that has it.**
/// A press that the strip answered with a preview captures it; the contact that holds it gives
/// it up when it is lifted or lost, and the bar then goes back to the music; nothing else that
/// the strip hears changes who holds it or what the bar shows.
#[verifier::rlimit(40)]
pub proof fn the_scrubber_changes_hands_for_a_reason<C>(
    router: RouterState<C>,
    event: TouchEvent<C>,
    tail: Tail<C>,
    answered: bool,
    preview: bool,
    offer: Option<StripPhase>,
    now: Span,
)
    ensures
        ({
            let turn = router.strip_answered(event, tail, answered, preview);
            let mine = router.scrubbing == Some(event.id);
            &&& turn.after.scrubbing == if mine && event.phase == TouchPhase::Up {
                None
            } else if event.phase == TouchPhase::Down && answered && preview {
                Some(event.id)
            } else {
                router.scrubbing
            }
            &&& turn.effects.len() == if mine && event.phase == TouchPhase::Up {
                1nat
            } else {
                0nat
            }
            &&& turn.effects.len() == 1 ==> turn.effects[0] is ClearScrubPreview
            &&& answered ==> turn.swallows()
        }),
        router.step == Step::Offer(event, tail) ==> {
            let turn = router.hears(Answer::Offer(offer), now);
            let lost = router.scrubbing == Some(event.id) && event.phase == TouchPhase::Cancel;
            &&& turn.after.scrubbing == if lost {
                None
            } else {
                router.scrubbing
            }
            &&& turn.effects.len() == if lost {
                1nat
            } else {
                0nat
            }
            &&& lost ==> turn.effects[0] is ClearScrubPreview
        },
{
}

/// **An origin that is gone takes its own with it, and nothing else.** Its contacts are cancelled
/// where they landed, one after another; with the last of them the scrubber is given up where the
/// origin held it, and the bar goes back to the music, and stays as it is where it did not.
pub proof fn an_origin_takes_its_own_with_it<C>(
    router: RouterState<C>,
    origin: InputOrigin,
    now: Span,
)
    ensures
        ({
            let turn = router.forgets_next(origin, now);
            let held = router.scrubbing matches Some(id) && id.origin() == origin;
            &&& router.doomed.len() == 0 ==> {
                &&& turn.effects.len() == if held {
                    2nat
                } else {
                    1nat
                }
                &&& held ==> turn.effects[0] is ClearScrubPreview && turn.after.scrubbing is None
                &&& !held ==> turn.after.scrubbing == router.scrubbing
                &&& turn.ask is Nothing
            }
            &&& on_its_way(turn.after.step) matches Some(way) ==> way.0.x
                == router.doomed[0].start_x && way.0.y == router.doomed[0].start_y
            &&& turn.after.pointer_contact == router.pointer_contact
            &&& turn.after.sized == router.sized
        }),
{
}

/// **What an answer is not about stays as it is.** No answer touches whether the pointer's button
/// is down or when the pill was raised; only the surface that holds the glass is told its size;
/// only the beginning of a navigation begins one; and only the edge and a swipe that went home
/// change what is known of a contact.
#[verifier::rlimit(60)]
pub proof fn what_an_answer_is_not_about_stays<C>(
    router: RouterState<C>,
    answer: Answer<C>,
    now: Span,
)
    requires
        router.expects(answer),
        router.step !is Forgetting,
    ensures
        ({
            let after = router.hears(answer, now).after;
            &&& after.pointer_contact == router.pointer_contact
            &&& after.pill_since == router.pill_since
            &&& after.doomed == router.doomed
            &&& !(answer is Surface) ==> after.sized == router.sized
            &&& !(answer is Began) ==> after.started_drag == router.started_drag
            &&& !(answer is Edge) && !(answer is Drag) ==> after.contacts == router.contacts
            &&& answer is Drag ==> after.contacts.len() == router.contacts.len()
            &&& !(answer is Drag) && !(answer is Began) ==> after.drag_sample == router.drag_sample
            &&& !(answer is Offer) && !(answer is Owns) && !(answer is Acted) ==> after.scrubbing
                == router.scrubbing
        }),
{
    if let Some(way) = on_its_way(router.step) {
        held_is_within(router.contacts, way.0.id);
    }
}

/// **A swipe that went home is marked, and nothing else of it changes.**
pub proof fn a_swipe_that_went_home_is_marked<C>(
    router: RouterState<C>,
    event: TouchEvent<C>,
    tail: Tail<C>,
    now: Span,
)
    requires
        router.well_formed(),
        router.step == Step::Drag(event, tail),
    ensures
        ({
            let after = router.hears(Answer::Drag(EdgeDrag::Home), now).after.contacts;
            held_of(router.contacts, event.id) matches Some(held) ==> held_of(after, event.id)
                == Some(Held { fired: true, ..held })
        }),
        router.hears(Answer::Drag(EdgeDrag::Ignore), now).after.contacts == router.contacts,
        router.hears(Answer::Drag(EdgeDrag::Begin), now).after.contacts == router.contacts,
{
    held_is_within(router.contacts, event.id);
    if let Some(at) = held_at(router.contacts, event.id) {
        let fired = router.contacts.update(at, Held { fired: true, ..router.contacts[at] });
        a_contact_keeps_its_place(router.contacts, fired, event.id);
    }
}

} // verus!
