//! When the glass is owed a frame, and what the window is told.
//!
//! Presenting is demand-driven: every producer wakes the loop, and each turn the loop works
//! out afresh what it owes the glass next — another frame while something moves, a timer for
//! the next scheduled change, or nothing at all. Redraws are capped at the display's own
//! refresh interval either way.
use super::{
    button_of, pointer_button, touch_of, translate_touch, Input, MouseButton, PointerEvent,
    WindowTouch,
};
use crate::span::Span;
use vstd::prelude::*;

verus! {

/// One frame at sixty a second, until the monitor says otherwise, in nanoseconds.
pub const FALLBACK_FRAME_INTERVAL: u128 = 16_666_667;

/// What a part of the panel owes the glass next.
#[derive(Debug, Clone, Copy, PartialEq, Eq, Structural)]
pub enum Demand {
    /// Nothing, until something wakes it.
    Idle,
    /// A change at a time.
    At(Span),
    /// A frame, as soon as the display will take one.
    Frame,
}

impl Demand {
    /// The sooner of two demands.
    pub open spec fn sooner(a: Demand, b: Demand) -> Demand {
        match (a, b) {
            (Demand::Frame, _) => Demand::Frame,
            (_, Demand::Frame) => Demand::Frame,
            (Demand::At(a), Demand::At(b)) => Demand::At(Span::least(a, b)),
            (Demand::At(a), Demand::Idle) => Demand::At(a),
            (Demand::Idle, other) => other,
        }
    }

    /// The sooner of this demand and another.
    pub fn merge(self, other: Demand) -> (sooner: Demand)
        ensures
            sooner == Demand::sooner(self, other),
    {
        match (self, other) {
            (Demand::Frame, _) => Demand::Frame,
            (_, Demand::Frame) => Demand::Frame,
            (Demand::At(a), Demand::At(b)) => Demand::At(a.shorter_of(b)),
            (Demand::At(a), Demand::Idle) => Demand::At(a),
            (Demand::Idle, other) => other,
        }
    }

    /// A change at a time, if there is one.
    pub open spec fn due(at: Option<Span>) -> Demand {
        match at {
            Some(at) => Demand::At(at),
            None => Demand::Idle,
        }
    }

    /// A change at a time, if there is one.
    pub fn deadline(at: Option<Span>) -> (demand: Demand)
        ensures
            demand == Demand::due(at),
    {
        match at {
            Some(at) => Demand::At(at),
            None => Demand::Idle,
        }
    }
}

/// What the loop does before it sleeps.
#[derive(Debug, Clone, Copy, PartialEq, Eq, Structural)]
pub enum Pause {
    /// Leave the loop.
    Exit,
    /// Ask for a redraw.
    Redraw,
    /// Sleep until a time, or a wake.
    Until(Span),
    /// Sleep until a wake.
    Wake,
}

/// What the window system says.
#[derive(Debug, Clone, Copy)]
pub enum WindowInput<C> {
    /// The pointer moved.
    CursorMoved {
        /// Where, across the panel.
        x: C,
        /// Where, down the panel.
        y: C,
    },
    /// A button changed.
    MouseInput {
        /// Where the pointer is, across the panel.
        x: C,
        /// Where the pointer is, down the panel.
        y: C,
        /// Which button.
        button: MouseButton,
        /// Whether it went down.
        down: bool,
    },
    /// The wheel turned.
    MouseWheel {
        /// Where the pointer is, across the panel.
        x: C,
        /// Where the pointer is, down the panel.
        y: C,
        /// How far across.
        dx: C,
        /// How far down.
        dy: C,
    },
    /// A finger did something.
    Touch {
        /// Its number.
        id: u64,
        /// What it did.
        phase: WindowTouch,
        /// Where, across the panel.
        x: C,
        /// Where, down the panel.
        y: C,
    },
    /// Not input at all.
    Other,
}

/// What a window event is, besides input.
#[derive(Debug, Clone, Copy, PartialEq, Eq, Structural)]
pub enum WindowNotice {
    /// A key changed.
    Key {
        /// Whether it went down.
        pressed: bool,
        /// Whether this is the key repeating.
        repeat: bool,
        /// Whether it is the key that backs out.
        escape: bool,
    },
    /// The window is asked to close.
    CloseRequested,
    /// The window has a new size.
    Resized,
    /// The glass may be drawn.
    RedrawRequested,
    /// Anything else.
    Other,
}

/// What a window event asks for.
#[derive(Debug, Clone, Copy, PartialEq, Eq, Structural)]
pub enum WindowOrder {
    /// Nothing.
    Nothing,
    /// Back out one level.
    Back,
    /// Leave the loop.
    Exit,
    /// Everything that has a size takes the new one.
    Resize,
    /// Bring the home pill and the cursor up to date, and draw a frame where there is
    /// anything to draw with.
    Redraw {
        /// The time since the last frame, where one is to be drawn.
        elapsed: Option<Span>,
    },
}

/// What the loop keeps time by.
#[derive(Debug, Clone, Copy, PartialEq, Eq, Structural)]
pub struct Pacing {
    /// Whether an event arrived since the last redraw, so the panel owes the glass one more
    /// frame regardless of what the standing facts say.
    pub dirty: bool,
    /// The earliest the next redraw may present.
    pub next_frame_at: Option<Span>,
    /// One display refresh.
    pub frame_interval: Span,
    /// When the last frame was.
    pub last_frame: Option<Span>,
    /// When the pointer was last actually used. Nothing until it is, which on a wall panel
    /// with no mouse attached is forever.
    pub pointer_used: Option<Span>,
    /// What the window was last told about the pointer's visibility.
    pub cursor_shown: Option<bool>,
    /// Whether the home pill is drawn.
    pub pill_drawn: bool,
}

/// What becomes of the home pill in a frame.
#[derive(Debug, Clone, Copy, PartialEq, Eq, Structural)]
pub enum PillOrder {
    /// Nothing.
    Leave,
    /// Take it off the glass.
    Clear,
    /// Draw it, say whether that worked, and set how much of it shows.
    Draw,
    /// Set how much of it shows.
    Keep,
}

impl Pacing {
    /// A loop that owes its first frame.
    pub fn new() -> (pacing: Pacing)
        ensures
            pacing == (Pacing {
                dirty: true,
                next_frame_at: None,
                frame_interval: Span { nanos: FALLBACK_FRAME_INTERVAL },
                last_frame: None,
                pointer_used: None,
                cursor_shown: None,
                pill_drawn: false,
            }),
    {
        Pacing {
            dirty: true,
            next_frame_at: None,
            frame_interval: Span { nanos: FALLBACK_FRAME_INTERVAL },
            last_frame: None,
            pointer_used: None,
            cursor_shown: None,
            pill_drawn: false,
        }
    }

    /// What a window event is to the panel.
    pub open spec fn decoded<C>(self, event: WindowInput<C>, now: Span) -> (
        Pacing,
        Option<Input<C>>,
    ) {
        let woken = Pacing { pointer_used: Some(now), ..self };
        match event {
            WindowInput::CursorMoved { x, y } => (
                woken,
                Some(Input::Pointer(PointerEvent::Move { x, y })),
            ),
            WindowInput::MouseInput { x, y, button, down } => (
                woken,
                match button_of(button) {
                    Some(button) => Some(
                        Input::Pointer(PointerEvent::Button { x, y, button, down }),
                    ),
                    None => None,
                },
            ),
            WindowInput::MouseWheel { x, y, dx, dy } => (
                woken,
                Some(Input::Pointer(PointerEvent::Wheel { x, y, dx, dy })),
            ),
            WindowInput::Touch { id, phase, x, y } => (
                Pacing { pointer_used: None, ..self },
                Some(Input::Touch(touch_of(id, phase, x, y))),
            ),
            WindowInput::Other => (self, None),
        }
    }

    /// Turn a window event into an input, or nothing if it is not input at all.
    ///
    /// Using the pointer is what puts the cursor on the glass. A finger takes it off at once:
    /// it is a person who is not using the mouse, and the arrow left over from whoever last
    /// did is a parked arrow.
    pub fn decode_window_event<C: Copy>(&mut self, event: WindowInput<C>, now: Span) -> (input:
        Option<Input<C>>)
        ensures
            (*final(self), input) == old(self).decoded(event, now),
    {
        match event {
            WindowInput::CursorMoved { x, y } => {
                self.pointer_used = Some(now);
                Some(Input::Pointer(PointerEvent::Move { x, y }))
            },
            WindowInput::MouseInput { x, y, button, down } => {
                self.pointer_used = Some(now);
                match pointer_button(button) {
                    Some(button) => Some(
                        Input::Pointer(PointerEvent::Button { x, y, button, down }),
                    ),
                    None => None,
                }
            },
            WindowInput::MouseWheel { x, y, dx, dy } => {
                self.pointer_used = Some(now);
                Some(Input::Pointer(PointerEvent::Wheel { x, y, dx, dy }))
            },
            WindowInput::Touch { id, phase, x, y } => {
                self.pointer_used = None;
                Some(Input::Touch(translate_touch(id, phase, x, y)))
            },
            WindowInput::Other => None,
        }
    }

    /// What a window event asks for, besides being input.
    pub open spec fn noticed(self, notice: WindowNotice, drawing: bool, now: Span) -> (
        Pacing,
        WindowOrder,
    ) {
        let owed = Pacing { dirty: true, ..self };
        match notice {
            WindowNotice::Key { pressed, repeat, escape } => (
                owed,
                if pressed && !repeat && escape {
                    WindowOrder::Back
                } else {
                    WindowOrder::Nothing
                },
            ),
            WindowNotice::CloseRequested => (owed, WindowOrder::Exit),
            WindowNotice::Resized => (owed, WindowOrder::Resize),
            WindowNotice::RedrawRequested => {
                let next = Pacing {
                    dirty: false,
                    next_frame_at: Some(Span::plus(now, self.frame_interval)),
                    ..self
                };
                if drawing {
                    (
                        Pacing { last_frame: Some(now), ..next },
                        WindowOrder::Redraw {
                            elapsed: Some(
                                match self.last_frame {
                                    Some(last) => Span::less(now, last),
                                    None => Span { nanos: 0 },
                                },
                            ),
                        },
                    )
                } else {
                    (next, WindowOrder::Redraw { elapsed: None })
                }
            },
            WindowNotice::Other => (owed, WindowOrder::Nothing),
        }
    }

    /// A window event. Any but the redraw itself can change what the glass should show, so
    /// each one earns the panel exactly one more frame. `drawing` says whether there is
    /// anything to draw with.
    pub fn window_event(&mut self, notice: WindowNotice, drawing: bool, now: Span) -> (order:
        WindowOrder)
        ensures
            (*final(self), order) == old(self).noticed(notice, drawing, now),
    {
        match notice {
            WindowNotice::RedrawRequested => {
                self.dirty = false;
                self.next_frame_at = Some(now.saturating_add(&self.frame_interval));
                if !drawing {
                    return WindowOrder::Redraw { elapsed: None };
                }
                let elapsed = match self.last_frame {
                    Some(last) => now.saturating_sub(&last),
                    None => Span { nanos: 0 },
                };
                self.last_frame = Some(now);
                WindowOrder::Redraw { elapsed: Some(elapsed) }
            },
            WindowNotice::Key { pressed, repeat, escape } => {
                self.dirty = true;
                if pressed && !repeat && escape {
                    WindowOrder::Back
                } else {
                    WindowOrder::Nothing
                }
            },
            WindowNotice::CloseRequested => {
                self.dirty = true;
                WindowOrder::Exit
            },
            WindowNotice::Resized => {
                self.dirty = true;
                WindowOrder::Resize
            },
            WindowNotice::Other => {
                self.dirty = true;
                WindowOrder::Nothing
            },
        }
    }

    /// A producer put something where the next redraw will find it.
    pub fn user_event(&mut self)
        ensures
            *final(self) == (Pacing { dirty: true, ..*old(self) }),
    {
        self.dirty = true;
    }

    /// So many inputs of remote peers were taken up: input earns a frame for the same reason
    /// a finger on the glass does.
    pub fn drain_remote_input(&mut self, batch: usize)
        ensures
            *final(self) == (Pacing { dirty: old(self).dirty || batch > 0, ..*old(self) }),
    {
        if batch > 0 {
            self.dirty = true;
        }
    }

    /// What the panel owes the glass next.
    pub open spec fn owes(
        self,
        pill_raised: bool,
        drawing: Option<Demand>,
        cursor_changes: Option<Span>,
        browser: Option<Span>,
        now: Span,
    ) -> Demand {
        let own = if self.dirty || pill_raised {
            Demand::Frame
        } else {
            Demand::Idle
        };
        let drawn = match drawing {
            Some(drawing) => Demand::sooner(own, drawing),
            None => own,
        };
        let pointed = match cursor_changes {
            Some(until) => Demand::sooner(drawn, Demand::At(Span::plus(now, until))),
            None => drawn,
        };
        Demand::sooner(pointed, Demand::due(browser))
    }

    /// What the panel owes the glass next, from standing facts: what the drawing side owes,
    /// how long until the cursor changes, and when the browser is due.
    ///
    /// A hide deadline that were not merged here would be slept through, and the arrow would
    /// stay up until something unrelated woke the loop.
    pub fn demand(
        &self,
        pill_raised: bool,
        drawing: Option<Demand>,
        cursor_changes: Option<Span>,
        browser: Option<Span>,
        now: Span,
    ) -> (demand: Demand)
        ensures
            demand == self.owes(pill_raised, drawing, cursor_changes, browser, now),
    {
        let mut demand = if self.dirty || pill_raised {
            Demand::Frame
        } else {
            Demand::Idle
        };
        if let Some(drawing) = drawing {
            demand = demand.merge(drawing);
        }
        if let Some(until) = cursor_changes {
            demand = demand.merge(Demand::At(now.saturating_add(&until)));
        }
        demand.merge(Demand::deadline(browser))
    }

    /// What the loop does before it sleeps.
    pub open spec fn pauses(self, exit: bool, demand: Demand, window: bool, now: Span) -> Pause {
        if exit {
            Pause::Exit
        } else {
            match demand {
                Demand::Frame => self.presents(window, now),
                Demand::At(at) => if at@ <= now@ {
                    self.presents(window, now)
                } else {
                    Pause::Until(at)
                },
                Demand::Idle => Pause::Wake,
            }
        }
    }

    /// A frame that is owed now: it waits for the display, and needs a window.
    pub open spec fn presents(self, window: bool, now: Span) -> Pause {
        match self.next_frame_at {
            Some(due) if due@ > now@ => Pause::Until(due),
            _ => if window {
                Pause::Redraw
            } else {
                Pause::Wake
            },
        }
    }

    /// What the loop does before it sleeps: a demanded frame waits for the display-rate cap,
    /// a scheduled change waits for its moment and then for the cap too, an idle panel sleeps
    /// until a wake.
    pub fn about_to_wait(&self, exit: bool, demand: Demand, window: bool, now: Span) -> (pause:
        Pause)
        ensures
            pause == self.pauses(exit, demand, window, now),
    {
        if exit {
            return Pause::Exit;
        }
        match demand {
            Demand::Frame => {},
            Demand::At(at) => {
                if at.nanos > now.nanos {
                    return Pause::Until(at);
                }
            },
            Demand::Idle => {
                return Pause::Wake;
            },
        }
        if let Some(due) = self.next_frame_at {
            if due.nanos > now.nanos {
                return Pause::Until(due);
            }
        }
        if window {
            Pause::Redraw
        } else {
            Pause::Wake
        }
    }

    /// What the window is to be told of the cursor, where that is news to it.
    pub open spec fn cursor_news(self, window: bool, shown: bool) -> Option<bool> {
        if window && self.cursor_shown != Some(shown) {
            Some(shown)
        } else {
            None
        }
    }

    /// What becomes of the home pill, given whether it is to be seen.
    pub open spec fn pill_order(self, visible: bool) -> PillOrder {
        match (visible, self.pill_drawn) {
            (true, true) => PillOrder::Keep,
            (true, false) => PillOrder::Draw,
            (false, true) => PillOrder::Clear,
            (false, false) => PillOrder::Leave,
        }
    }

    /// Apply the cursor policy to the window: what to tell it, where that has changed.
    pub fn tick_cursor(&mut self, window: bool, shown: bool) -> (tell: Option<bool>)
        ensures
            tell == old(self).cursor_news(window, shown),
            window && old(self).cursor_shown != Some(shown) ==> tell == Some(shown)
                && *final(self) == (Pacing { cursor_shown: Some(shown), ..*old(self) }),
            !(window && old(self).cursor_shown != Some(shown)) ==> tell is None && *final(self)
                == *old(self),
    {
        if !window {
            return None;
        }
        if let Some(told) = self.cursor_shown {
            if told == shown {
                return None;
            }
        }
        self.cursor_shown = Some(shown);
        Some(shown)
    }

    /// What becomes of the home pill this frame: it exists only while a session covers the
    /// shell, and while it exists it never fully leaves. It is rasterized only when it first
    /// appears.
    pub fn tick_pill(&mut self, visible: bool) -> (order: PillOrder)
        ensures
            *final(self) == (Pacing {
                pill_drawn: old(self).pill_drawn && visible,
                ..*old(self)
            }),
            order == old(self).pill_order(visible),
            order == if visible {
                if old(self).pill_drawn {
                    PillOrder::Keep
                } else {
                    PillOrder::Draw
                }
            } else if old(self).pill_drawn {
                PillOrder::Clear
            } else {
                PillOrder::Leave
            },
    {
        if !visible {
            let order = if self.pill_drawn {
                PillOrder::Clear
            } else {
                PillOrder::Leave
            };
            self.pill_drawn = false;
            return order;
        }
        if self.pill_drawn {
            PillOrder::Keep
        } else {
            PillOrder::Draw
        }
    }

    /// Whether drawing the pill worked.
    pub fn pill_drew(&mut self, worked: bool)
        ensures
            *final(self) == (Pacing {
                pill_drawn: worked || old(self).pill_drawn,
                ..*old(self)
            }),
    {
        if worked {
            self.pill_drawn = true;
        }
    }

    /// The window is up, with the pointer hidden from its first frame. The redraw cap comes
    /// from the panel itself, where it says what it is.
    pub fn window_up(&mut self, refresh: Option<Span>)
        ensures
            *final(self) == (Pacing {
                cursor_shown: Some(false),
                frame_interval: match refresh {
                    Some(interval) => interval,
                    None => old(self).frame_interval,
                },
                ..*old(self)
            }),
    {
        self.cursor_shown = Some(false);
        if let Some(interval) = refresh {
            self.frame_interval = interval;
        }
    }
}

/// What bringing the window up is waiting for.
#[derive(Debug, Clone, Copy, PartialEq, Eq, Structural)]
pub enum Bringup {
    /// It has not begun.
    Down,
    /// A window.
    Window,
    /// A surface in it.
    Surface,
    /// A compositor on that.
    Compositor,
    /// Nothing: it is up.
    Up,
    /// Nothing: it failed, and the loop leaves unless the window is wanted again.
    Failed,
}

/// What to do next to bring the window up.
#[derive(Debug, Clone, Copy, PartialEq, Eq, Structural)]
pub enum BringupOrder {
    /// Nothing.
    Nothing,
    /// Make a window.
    CreateWindow,
    /// Hide its pointer, give it the panel's own, and make a surface in it.
    CreateSurface,
    /// Make a compositor on that.
    CreateCompositor,
    /// Begin drawing: the idle scene, the banner, the size, and a first redraw.
    BeginDrawing,
    /// Leave the loop.
    Exit,
}

impl Bringup {
    /// The window is wanted: it is made once, and begun afresh where it failed before.
    pub open spec fn resumes(self) -> (Bringup, BringupOrder) {
        match self {
            Bringup::Down | Bringup::Failed => (Bringup::Window, BringupOrder::CreateWindow),
            _ => (self, BringupOrder::Nothing),
        }
    }

    /// What a step's outcome makes of it. A window, a surface and a compositor are all
    /// needed: without any of them the loop leaves.
    pub open spec fn hears(self, made: bool) -> (Bringup, BringupOrder) {
        match self {
            Bringup::Window => if made {
                (Bringup::Surface, BringupOrder::CreateSurface)
            } else {
                (Bringup::Failed, BringupOrder::Exit)
            },
            Bringup::Surface => if made {
                (Bringup::Compositor, BringupOrder::CreateCompositor)
            } else {
                (Bringup::Failed, BringupOrder::Exit)
            },
            Bringup::Compositor => if made {
                (Bringup::Up, BringupOrder::BeginDrawing)
            } else {
                (Bringup::Failed, BringupOrder::Exit)
            },
            _ => (self, BringupOrder::Nothing),
        }
    }

    /// The window is wanted.
    pub fn resumed(&mut self) -> (order: BringupOrder)
        ensures
            (*final(self), order) == old(self).resumes(),
    {
        match *self {
            Bringup::Down | Bringup::Failed => {
                *self = Bringup::Window;
                BringupOrder::CreateWindow
            },
            _ => BringupOrder::Nothing,
        }
    }

    /// Whether the step that was ordered worked.
    pub fn made(&mut self, made: bool) -> (order: BringupOrder)
        ensures
            (*final(self), order) == old(self).hears(made),
    {
        let waiting = match *self {
            Bringup::Window | Bringup::Surface | Bringup::Compositor => true,
            _ => false,
        };
        if waiting && !made {
            *self = Bringup::Failed;
            return BringupOrder::Exit;
        }
        match *self {
            Bringup::Window => {
                *self = Bringup::Surface;
                BringupOrder::CreateSurface
            },
            Bringup::Surface => {
                *self = Bringup::Compositor;
                BringupOrder::CreateCompositor
            },
            Bringup::Compositor => {
                *self = Bringup::Up;
                BringupOrder::BeginDrawing
            },
            _ => BringupOrder::Nothing,
        }
    }
}

/// **Demands merge in any order**, and an idle part adds nothing.
pub proof fn demands_merge_in_any_order(a: Demand, b: Demand, c: Demand)
    ensures
        Demand::sooner(a, b) == Demand::sooner(b, a),
        Demand::sooner(Demand::sooner(a, b), c) == Demand::sooner(a, Demand::sooner(b, c)),
        Demand::sooner(a, Demand::Idle) == a,
{
}

/// **The cursor's hide deadline reaches the loop's sleep.** While it has one, the loop never
/// sleeps without a time to wake at, and wakes by the deadline, or by the display's next
/// refresh where a frame is owed already.
pub proof fn a_hide_deadline_is_not_slept_through(
    pacing: Pacing,
    pill_raised: bool,
    drawing: Option<Demand>,
    until: Span,
    browser: Option<Span>,
    now: Span,
)
    ensures
        ({
            let demand = pacing.owes(pill_raised, drawing, Some(until), browser, now);
            let pause = pacing.pauses(false, demand, true, now);
            &&& demand !is Idle
            &&& pause !is Wake
            &&& pause matches Pause::Until(at) ==> at@ <= Span::plus(now, until)@
                || pacing.next_frame_at == Some(at)
        }),
{
}

/// **No redraw comes faster than the display.** After a frame, whatever is demanded, no other
/// is asked for before the refresh interval is over; and a demand for one waits exactly that
/// long.
pub proof fn redraws_keep_to_the_display(
    pacing: Pacing,
    drawing: bool,
    drawn: Span,
    exit: bool,
    demand: Demand,
    window: bool,
    now: Span,
)
    requires
        now@ < Span::plus(drawn, pacing.frame_interval)@,
    ensures
        ({
            let after = pacing.noticed(WindowNotice::RedrawRequested, drawing, drawn).0;
            &&& !after.dirty
            &&& after.pauses(exit, demand, window, now) != Pause::Redraw
            &&& after.pauses(false, Demand::Frame, window, now) == Pause::Until(
                Span::plus(drawn, pacing.frame_interval),
            )
        }),
{
}

/// **An event earns exactly one frame.** Any window event but the redraw itself leaves the
/// glass owed one, and the redraw pays it.
pub proof fn an_event_earns_a_frame(
    pacing: Pacing,
    notice: WindowNotice,
    drawing: bool,
    now: Span,
)
    ensures
        notice != WindowNotice::RedrawRequested ==> pacing.noticed(notice, drawing, now).0.dirty,
        notice == WindowNotice::RedrawRequested ==> !pacing.noticed(notice, drawing, now).0.dirty,
{
}

/// **An idle panel sleeps.** With nothing owed by any part, the loop waits for a wake.
pub proof fn an_idle_panel_sleeps(pacing: Pacing, now: Span)
    requires
        !pacing.dirty,
    ensures
        pacing.pauses(
            false,
            pacing.owes(false, Some(Demand::Idle), None, None, now),
            true,
            now,
        ) == Pause::Wake,
{
}

/// **A window event is taken where it was.** Input keeps its position, its distance, its button
/// and whether that went down; only the buttons the panel does not know, and what is no input at
/// all, come to nothing.
pub proof fn input_is_taken_where_it_was<C>(pacing: Pacing, event: WindowInput<C>, now: Span)
    ensures
        ({
            let input = pacing.decoded(event, now).1;
            match event {
                WindowInput::CursorMoved { x, y } => input matches Some(Input::Pointer(moved))
                    && (moved matches PointerEvent::Move { x: px, y: py } && px == x && py == y),
                WindowInput::MouseInput { x, y, button, down } => match input {
                    Some(input) => {
                        &&& input matches Input::Pointer(clicked)
                        &&& clicked matches PointerEvent::Button {
                            x: px,
                            y: py,
                            button: known,
                            down: went,
                        }
                        &&& px == x && py == y && went == down && button_of(button) == Some(known)
                    },
                    None => button != MouseButton::Left && button != MouseButton::Middle && button
                        != MouseButton::Right,
                },
                WindowInput::MouseWheel { x, y, dx, dy } => {
                    &&& input matches Some(Input::Pointer(turned))
                    &&& turned matches PointerEvent::Wheel { x: px, y: py, dx: pdx, dy: pdy }
                    &&& px == x && py == y && pdx == dx && pdy == dy
                },
                WindowInput::Touch { x, y, .. } => {
                    &&& input matches Some(Input::Touch(touch))
                    &&& touch.x == x && touch.y == y
                },
                WindowInput::Other => input is None,
            }
        }),
{
}

/// **Using the pointer brings it up, a finger takes it away, and neither changes anything
/// else.**
pub proof fn only_input_moves_the_pointers_clock<C>(
    pacing: Pacing,
    event: WindowInput<C>,
    now: Span,
)
    ensures
        ({
            let after = pacing.decoded(event, now).0;
            &&& after.pointer_used == match event {
                WindowInput::Touch { .. } => None,
                WindowInput::Other => pacing.pointer_used,
                _ => Some(now),
            }
            &&& after.dirty == pacing.dirty
            &&& after.next_frame_at == pacing.next_frame_at
            &&& after.frame_interval == pacing.frame_interval
            &&& after.last_frame == pacing.last_frame
            &&& after.cursor_shown == pacing.cursor_shown
            &&& after.pill_drawn == pacing.pill_drawn
        }),
{
}

/// **A window event asks for one thing.** Only the key that backs out, pressed and not held,
/// backs out; only a request to close leaves; only a new size resizes; and only a redraw draws.
pub proof fn a_notice_asks_for_one_thing(
    pacing: Pacing,
    notice: WindowNotice,
    drawing: bool,
    now: Span,
)
    ensures
        ({
            let order = pacing.noticed(notice, drawing, now).1;
            &&& order == WindowOrder::Back <==> notice == (WindowNotice::Key {
                pressed: true,
                repeat: false,
                escape: true,
            })
            &&& order == WindowOrder::Exit <==> notice == WindowNotice::CloseRequested
            &&& order == WindowOrder::Resize <==> notice == WindowNotice::Resized
            &&& order is Redraw <==> notice == WindowNotice::RedrawRequested
        }),
{
}

/// **Frames are timed one after another.** The time a frame is given is the time since the last
/// that was drawn, nothing for the first, and none where there is nothing to draw with, which
/// draws no frame; and nothing but a redraw moves the frames' clock.
pub proof fn frames_are_timed_one_after_another(
    pacing: Pacing,
    notice: WindowNotice,
    drawing: bool,
    now: Span,
)
    ensures
        ({
            let (after, order) = pacing.noticed(notice, drawing, now);
            &&& order matches WindowOrder::Redraw { elapsed } ==> {
                &&& elapsed is Some <==> drawing
                &&& after.last_frame == if drawing {
                    Some(now)
                } else {
                    pacing.last_frame
                }
                &&& drawing ==> match pacing.last_frame {
                    Some(last) => last@ <= now@ ==> last@ + (elapsed->0)@ == now@,
                    None => (elapsed->0)@ == 0,
                }
                &&& now@ + pacing.frame_interval@ <= u128::MAX ==> (
                after.next_frame_at matches Some(next) && next@ == now@ + pacing.frame_interval@)
            }
            &&& !(order is Redraw) ==> after.last_frame == pacing.last_frame && after.next_frame_at
                == pacing.next_frame_at
            &&& after.frame_interval == pacing.frame_interval
            &&& after.pointer_used == pacing.pointer_used
            &&& after.cursor_shown == pacing.cursor_shown
            &&& after.pill_drawn == pacing.pill_drawn
        }),
{
}

/// **What is owed is the soonest that any part owes.** A frame is owed exactly where an event
/// earned one, the pill is raised or the drawing side owes one; failing that, a change at the
/// earliest of the times that any part gave; and nothing exactly where no part gave one.
pub proof fn what_is_owed_is_the_soonest(
    pacing: Pacing,
    pill_raised: bool,
    drawing: Option<Demand>,
    cursor_changes: Option<Span>,
    browser: Option<Span>,
    now: Span,
)
    ensures
        ({
            let owed = pacing.owes(pill_raised, drawing, cursor_changes, browser, now);
            let drawn = match drawing {
                Some(Demand::At(at)) => Some(at),
                _ => None,
            };
            let pointed = match cursor_changes {
                Some(until) => Some(Span::plus(now, until)),
                None => None,
            };
            &&& owed == Demand::Frame <==> pacing.dirty || pill_raised || drawing == Some(
                Demand::Frame,
            )
            &&& owed == Demand::Idle <==> !pacing.dirty && !pill_raised && (drawing is None
                || drawing == Some(Demand::Idle)) && cursor_changes is None && browser is None
            &&& owed matches Demand::At(at) ==> {
                &&& drawn == Some(at) || pointed == Some(at) || browser == Some(at)
                &&& drawn is Some ==> at@ <= (drawn->0)@
                &&& pointed is Some ==> at@ <= (pointed->0)@
                &&& browser is Some ==> at@ <= (browser->0)@
            }
        }),
{
}

/// **The loop sleeps only for a reason, and draws only what is owed.** It leaves exactly when it
/// is told to; it redraws exactly where something is due, the display is ready and there is a
/// window; it sleeps to a time only where that is still to come; and it sleeps without one only
/// where nothing is owed or there is no window to draw in.
pub proof fn the_loop_sleeps_only_for_a_reason(
    pacing: Pacing,
    exit: bool,
    demand: Demand,
    window: bool,
    now: Span,
)
    ensures
        ({
            let pause = pacing.pauses(exit, demand, window, now);
            let due = demand == Demand::Frame || (demand matches Demand::At(at) && at@ <= now@);
            let ready = pacing.next_frame_at matches Some(next) ==> next@ <= now@;
            &&& pause == Pause::Exit <==> exit
            &&& pause == Pause::Redraw <==> !exit && due && ready && window
            &&& pause == Pause::Wake <==> !exit && (demand == Demand::Idle || (due && ready
                && !window))
            &&& pause matches Pause::Until(at) ==> at@ > now@ && if due {
                pacing.next_frame_at == Some(at)
            } else {
                demand == Demand::At(at)
            }
        }),
{
}

/// **The window comes up step by step, or not at all.** What is ordered is what is then waited
/// for; each thing made leads to the next; drawing begins only once all three are there; and a
/// thing that cannot be made leaves the loop.
pub proof fn the_window_comes_up_step_by_step(bringup: Bringup, made: bool)
    ensures
        ({
            let (after, order) = bringup.hears(made);
            let waiting = bringup == Bringup::Window || bringup == Bringup::Surface || bringup
                == Bringup::Compositor;
            &&& order == BringupOrder::Exit <==> waiting && !made
            &&& order == BringupOrder::BeginDrawing <==> bringup == Bringup::Compositor && made
            &&& order == BringupOrder::CreateSurface <==> bringup == Bringup::Window && made
            &&& order == BringupOrder::CreateCompositor <==> bringup == Bringup::Surface && made
            &&& order != BringupOrder::CreateWindow
            &&& !waiting ==> after == bringup
            &&& waiting ==> after == match order {
                BringupOrder::CreateSurface => Bringup::Surface,
                BringupOrder::CreateCompositor => Bringup::Compositor,
                BringupOrder::BeginDrawing => Bringup::Up,
                _ => Bringup::Failed,
            }
        }),
        ({
            let (after, order) = bringup.resumes();
            &&& order == BringupOrder::CreateWindow <==> bringup == Bringup::Down || bringup
                == Bringup::Failed
            &&& order == BringupOrder::CreateWindow ==> after == Bringup::Window
            &&& order != BringupOrder::CreateWindow ==> order == BringupOrder::Nothing && after
                == bringup
        }),
{
}

/// **A window is told what is news to it, once.** Only a window can be told, what it is told is
/// what is to be, and having been told it is not told again until that changes.
pub proof fn a_window_is_told_what_is_news(pacing: Pacing, window: bool, shown: bool)
    ensures
        pacing.cursor_news(window, shown) matches Some(told) ==> window && told == shown
            && pacing.cursor_shown != Some(shown),
        pacing.cursor_news(true, shown) is None <==> pacing.cursor_shown == Some(shown),
        (Pacing { cursor_shown: Some(shown), ..pacing }).cursor_news(window, shown) is None,
        (Pacing { cursor_shown: Some(!shown), ..pacing }).cursor_news(true, shown) == Some(shown),
{
}

/// **The pill is drawn once and taken off once.** It is drawn only where it is to be seen and is
/// not there, taken off only where it is there and is not to be seen, and left alone otherwise,
/// but for how much of it shows.
pub proof fn the_pill_is_drawn_once(pacing: Pacing, visible: bool)
    ensures
        pacing.pill_order(visible) == PillOrder::Draw <==> visible && !pacing.pill_drawn,
        pacing.pill_order(visible) == PillOrder::Keep <==> visible && pacing.pill_drawn,
        pacing.pill_order(visible) == PillOrder::Clear <==> !visible && pacing.pill_drawn,
        pacing.pill_order(visible) == PillOrder::Leave <==> !visible && !pacing.pill_drawn,
{
}

} // verus!
