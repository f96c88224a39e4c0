//! Keeping the panel lit while it is playing something.
//!
//! A held request belongs to a session and is released when the session lets go of it, so
//! every way a session ends releases it. A pair of calls that could get out of step is
//! exactly the bug this is shaped against: an inhibit leaked once is a panel that never
//! sleeps again.
use vstd::prelude::*;

verus! {

/// `ES_CONTINUOUS` — the request stands until it is cleared, rather than being a one-shot
/// nudge of the idle timer.
pub const ES_CONTINUOUS: u32 = 0x8000_0000;

/// `ES_DISPLAY_REQUIRED` — the display specifically, not merely the system.
pub const ES_DISPLAY_REQUIRED: u32 = 0x0000_0002;

/// What this platform can do about its display.
#[derive(Debug, Clone, Copy, PartialEq, Eq, Structural)]
pub enum Backend {
    /// No way to keep the display on: asking is answered with a debug line and nothing
    /// else.
    Missing,
    /// The thread's execution state, as it was before this request: zero where the request
    /// was refused.
    ExecutionState(u32),
}

/// The requests that were granted to a thread and are still held. The display's flag belongs
/// to the thread, so it is cleared with the last of them.
#[derive(Debug, Clone, Copy, PartialEq, Eq, Structural)]
pub struct Holders {
    many: usize,
}

impl Holders {
    /// How many requests are held.
    pub closed spec fn many(self) -> nat {
        self.many as nat
    }

    /// Nobody holds anything.
    pub fn none() -> (holders: Holders)
        ensures
            holders.many() == 0,
    {
        Holders { many: 0 }
    }
}

/// A held request that the display stay on. Letting go of it releases the request.
#[derive(Debug)]
pub struct KeepAwake {
    /// Whether anything was actually acquired, so that letting go does not release a
    /// request that was never made.
    held: bool,
}

/// Whether what the platform said of a request grants it.
pub open spec fn grants(asked: Backend) -> bool {
    match asked {
        Backend::Missing => false,
        Backend::ExecutionState(previous) => previous != 0,
    }
}

/// How many hold a request once one more was asked for: as many as can be counted, at most.
pub open spec fn taken_by(many: nat, granted: bool) -> nat {
    if granted && many < usize::MAX {
        many + 1
    } else {
        many
    }
}

/// How many hold a request once one was let go of.
pub open spec fn let_go_by(many: nat, held: bool) -> nat {
    if held && many > 0 {
        (many - 1) as nat
    } else {
        many
    }
}

impl KeepAwake {
    /// Whether a request is held.
    pub closed spec fn holds(self) -> bool {
        self.held
    }

    /// Take note of what asking the platform to keep the display on came to.
    ///
    /// Never fails: a panel that cannot inhibit sleep should still play.
    #[must_use]
    pub fn acquire(asked: Backend, holders: &mut Holders) -> (guard: KeepAwake)
        ensures
            guard.holds() == grants(asked),
            final(holders).many() == taken_by(old(holders).many(), grants(asked)),
    {
        let held: bool = match asked {
            Backend::Missing => false,
            Backend::ExecutionState(previous) => previous != 0,
        };
        if held && holders.many < usize::MAX {
            holders.many += 1;
        }
        KeepAwake { held }
    }

    /// Whether the request was actually granted, for tests and diagnostics.
    #[must_use]
    pub fn held(&self) -> (held: bool)
        ensures
            held == self.holds(),
    {
        self.held
    }

    /// Let go of the request, and learn whether the platform is to be told: only where one
    /// was granted and nobody else holds one, so that nobody else's is cleared.
    pub fn release(self, holders: &mut Holders) -> (tell: bool)
        ensures
            final(holders).many() == let_go_by(old(holders).many(), self.holds()),
            tell == (self.holds() && final(holders).many() == 0),
    {
        if self.held && holders.many > 0 {
            holders.many -= 1;
        }
        self.held && holders.many == 0
    }
}

/// **Guards nest without releasing each other early.** While one guard is held, taking and
/// letting go of any other leaves as many as there were, so the display is not let go of.
pub proof fn guards_nest(many: nat, granted: bool)
    requires
        0 < many < usize::MAX,
    ensures
        let_go_by(taken_by(many, granted), granted) == many,
        let_go_by(taken_by(many, granted), granted) > 0,
{
}

/// **The display is let go of with the last guard, and no sooner.** Of two or more guards, one
/// that is let go of leaves the display kept; of one, it does not; and a guard that was never
/// granted anything changes nothing.
pub proof fn the_last_guard_lets_go(many: nat)
    ensures
        many > 1 ==> let_go_by(many, true) > 0,
        many == 1 ==> let_go_by(many, true) == 0,
        let_go_by(many, false) == many,
        many < usize::MAX ==> taken_by(many, true) == many + 1,
{
}

/// **Only a request that the platform took is held.** One that was refused, or that there is no
/// way to make, is not; and a refusal changes nothing for those that hold one.
pub proof fn only_a_request_that_was_taken_is_held(previous: u32, many: nat)
    ensures
        !grants(Backend::Missing),
        grants(Backend::ExecutionState(previous)) <==> previous != 0,
        taken_by(many, false) == many,
        taken_by(many, true) >= many,
{
}

} // verus!
