//! The panel's window: where a contact goes, and when the glass is owed a frame.
//!
//! A contact passes through the panel's own layers — the navigation edge and the home pill,
//! the transport strip, the shell — before whatever is underneath sees it. [`router`] makes
//! those decisions; [`pacing`] decides when to draw. Neither knows what a window is: a
//! position is whatever type the caller measures the panel in, and what only the drawing side
//! can answer is asked for and answered.
use vstd::prelude::*;

pub mod pacing;
pub mod router;

verus! {

/// Where input comes from.
#[derive(Debug, Clone, Copy, PartialEq, Eq, Structural)]
pub enum InputOrigin {
    /// The panel itself: its glass, or a mouse plugged into it.
    Panel,
    /// A remote peer.
    Remote(u64),
}

/// One contact, told apart from every other by where it comes from as well as by number:
/// two peers that number their fingers the same are two contacts.
#[derive(Debug, Clone, Copy, PartialEq, Eq, Structural)]
pub enum ContactId {
    /// The panel's own mouse, of which there is one.
    Pointer,
    /// A finger on the panel.
    Panel(u32),
    /// A remote peer's finger.
    Remote {
        /// Whose.
        peer: u64,
        /// Which of them.
        finger: u32,
    },
}

impl ContactId {
    /// Where this contact comes from.
    pub open spec fn origin(self) -> InputOrigin {
        match self {
            ContactId::Pointer => InputOrigin::Panel,
            ContactId::Panel(_) => InputOrigin::Panel,
            ContactId::Remote { peer, .. } => InputOrigin::Remote(peer),
        }
    }

    /// Whether this contact comes from `origin`.
    pub fn is_from(&self, origin: InputOrigin) -> (from: bool)
        ensures
            from == (self.origin() == origin),
    {
        match (*self, origin) {
            (ContactId::Remote { peer, .. }, InputOrigin::Remote(other)) => peer == other,
            (ContactId::Pointer, InputOrigin::Panel) => true,
            (ContactId::Panel(_), InputOrigin::Panel) => true,
            _ => false,
        }
    }
}

/// What a contact is doing.
#[derive(Debug, Clone, Copy, PartialEq, Eq, Structural)]
pub enum TouchPhase {
    /// It landed.
    Down,
    /// It moved.
    Move,
    /// It lifted.
    Up,
    /// It was lost. A cancelled gesture did not finish.
    Cancel,
}

/// One event of one contact.
#[derive(Debug, Clone, Copy)]
pub struct TouchEvent<C> {
    /// Whose.
    pub id: ContactId,
    /// What it did.
    pub phase: TouchPhase,
    /// Where, across the panel.
    pub x: C,
    /// Where, down the panel.
    pub y: C,
}

/// A button of the pointer.
#[derive(Debug, Clone, Copy, PartialEq, Eq, Structural)]
pub enum PointerButton {
    /// The primary one, which is a finger.
    Left,
    /// The middle one.
    Middle,
    /// The secondary one.
    Right,
}

/// One event of the pointer.
#[derive(Debug, Clone, Copy)]
pub enum PointerEvent<C> {
    /// It moved.
    Move {
        /// Where, across the panel.
        x: C,
        /// Where, down the panel.
        y: C,
    },
    /// A button changed.
    Button {
        /// Where, across the panel.
        x: C,
        /// Where, down the panel.
        y: C,
        /// Which button.
        button: PointerButton,
        /// Whether it went down.
        down: bool,
    },
    /// The wheel turned.
    Wheel {
        /// Where, across the panel.
        x: C,
        /// Where, down the panel.
        y: C,
        /// How far across.
        dx: C,
        /// How far down.
        dy: C,
    },
}

/// One piece of input.
#[derive(Debug, Clone, Copy)]
pub enum Input<C> {
    /// From a finger.
    Touch(TouchEvent<C>),
    /// From the pointer.
    Pointer(PointerEvent<C>),
}

/// A button as the window system names it.
#[derive(Debug, Clone, Copy, PartialEq, Eq, Structural)]
pub enum MouseButton {
    /// The primary one.
    Left,
    /// The secondary one.
    Right,
    /// The middle one.
    Middle,
    /// A side button.
    Back,
    /// The other side button.
    Forward,
    /// Any other, by number.
    Other(u16),
}

/// The button the panel knows it as.
pub open spec fn button_of(button: MouseButton) -> Option<PointerButton> {
    match button {
        MouseButton::Left => Some(PointerButton::Left),
        MouseButton::Middle => Some(PointerButton::Middle),
        MouseButton::Right => Some(PointerButton::Right),
        _ => None,
    }
}

/// The button the panel knows it as. Extra buttons are dropped.
pub fn pointer_button(button: MouseButton) -> (known: Option<PointerButton>)
    ensures
        known == button_of(button),
{
    match button {
        MouseButton::Left => Some(PointerButton::Left),
        MouseButton::Middle => Some(PointerButton::Middle),
        MouseButton::Right => Some(PointerButton::Right),
        _ => None,
    }
}

/// What the window system says a finger is doing.
#[derive(Debug, Clone, Copy, PartialEq, Eq, Structural)]
pub enum WindowTouch {
    /// It landed.
    Started,
    /// It moved.
    Moved,
    /// It lifted.
    Ended,
    /// It was lost.
    Cancelled,
}

/// What a finger is doing, in the panel's own words.
pub open spec fn phase_of(phase: WindowTouch) -> TouchPhase {
    match phase {
        WindowTouch::Started => TouchPhase::Down,
        WindowTouch::Moved => TouchPhase::Move,
        WindowTouch::Ended => TouchPhase::Up,
        WindowTouch::Cancelled => TouchPhase::Cancel,
    }
}

/// A contact of the window system as a contact of the panel.
pub open spec fn touch_of<C>(id: u64, phase: WindowTouch, x: C, y: C) -> TouchEvent<C> {
    TouchEvent {
        id: ContactId::Panel((id % 0x1_0000_0000) as u32),
        phase: phase_of(phase),
        x,
        y,
    }
}

/// A contact of the window system as a contact of the panel.
///
/// Its numbers are wider than the panel's and stay small in practice; what is cut off is only
/// ever compared against other *panel* contacts.
pub fn translate_touch<C: Copy>(id: u64, phase: WindowTouch, x: C, y: C) -> (event: TouchEvent<C>)
    ensures
        event == touch_of(id, phase, x, y),
{
    let phase = match phase {
        WindowTouch::Started => TouchPhase::Down,
        WindowTouch::Moved => TouchPhase::Move,
        WindowTouch::Ended => TouchPhase::Up,
        WindowTouch::Cancelled => TouchPhase::Cancel,
    };
    TouchEvent { id: ContactId::Panel((id % 0x1_0000_0000) as u32), phase, x, y }
}

/// **A finger is the panel's own, where it was, doing what it did.** Its position is untouched;
/// fingers whose numbers fit the panel's stay apart; and no two things a finger does are taken
/// for each other.
pub proof fn a_finger_is_told_as_it_is<C>(
    id: u64,
    other: u64,
    phase: WindowTouch,
    different: WindowTouch,
    x: C,
    y: C,
)
    ensures
        touch_of(id, phase, x, y).x == x,
        touch_of(id, phase, x, y).y == y,
        touch_of(id, phase, x, y).id.origin() == InputOrigin::Panel,
        touch_of(id, phase, x, y).id != ContactId::Pointer,
        id <= u32::MAX ==> touch_of(id, phase, x, y).id == ContactId::Panel(id as u32),
        id <= u32::MAX && other <= u32::MAX && id != other ==> touch_of(id, phase, x, y).id
            != touch_of(other, phase, x, y).id,
        touch_of(id, phase, x, y).id == touch_of(id, different, x, y).id,
        phase != different ==> phase_of(phase) != phase_of(different),
        phase == WindowTouch::Started <==> phase_of(phase) == TouchPhase::Down,
        phase == WindowTouch::Moved <==> phase_of(phase) == TouchPhase::Move,
        phase == WindowTouch::Ended <==> phase_of(phase) == TouchPhase::Up,
{
}

/// **A button keeps its name.** The three the panel knows are told apart as the window system
/// tells them apart, and no other is taken for one of them.
pub proof fn a_button_keeps_its_name(button: MouseButton)
    ensures
        button_of(button) == Some(PointerButton::Left) <==> button == MouseButton::Left,
        button_of(button) == Some(PointerButton::Middle) <==> button == MouseButton::Middle,
        button_of(button) == Some(PointerButton::Right) <==> button == MouseButton::Right,
{
}

/// **A contact has one origin.** The pointer and every finger on the glass are the panel's; a
/// peer's fingers are that peer's and nobody else's.
pub proof fn a_contact_has_one_origin(id: ContactId, peer: u64, finger: u32)
    ensures
        id.origin() == InputOrigin::Remote(peer) <==> (id matches ContactId::Remote { peer: whose, .. }
            && whose == peer),
        ContactId::Pointer.origin() == InputOrigin::Panel,
        ContactId::Panel(finger).origin() == InputOrigin::Panel,
{
}

} // verus!
