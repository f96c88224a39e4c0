//! The UDP ports that peer connections are allowed to bind.
//!
//! Not an optimisation and not tidiness: the firewall is derived from the declared range,
//! so a socket outside it is one the deployed box silently drops. The connection would
//! negotiate perfectly and then carry nothing.
use std::collections::HashSet;
use vstd::prelude::*;
use vstd::std_specs::hash::*;

verus! {

broadcast use group_hash_axioms;

/// The ports a range allows, and which are in use.
#[derive(Debug)]
pub struct PortPool {
    first: u16,
    last: u16,
    taken: HashSet<u16>,
}

/// What a pool stands at.
pub struct PoolView {
    /// The lowest port allowed.
    pub first: u16,
    /// The highest port allowed.
    pub last: u16,
    /// The ports in use.
    pub taken: Set<u16>,
}

impl PoolView {
    /// Whether a port is in the range. A reversed range holds none.
    pub open spec fn allows(self, port: u16) -> bool {
        self.first <= port <= self.last
    }

    /// Whether a port may be handed out: it is in the range, free, and the lowest such.
    pub open spec fn is_next(self, port: u16) -> bool {
        &&& self.allows(port)
        &&& !self.taken.contains(port)
        &&& forall|lower: u16|
            self.allows(lower) && lower < port ==> #[trigger] self.taken.contains(lower)
    }

    /// Whether every port of the range is in use.
    pub open spec fn exhausted(self) -> bool {
        forall|port: u16| self.allows(port) ==> #[trigger] self.taken.contains(port)
    }

    /// Only ports of the range are ever in use.
    pub open spec fn well_formed(self) -> bool {
        &&& self.taken.finite()
        &&& forall|port: u16| #[trigger] self.taken.contains(port) ==> self.allows(port)
    }

    /// The pool with a port in use.
    pub open spec fn with(self, port: u16) -> PoolView {
        PoolView { taken: self.taken.insert(port), ..self }
    }

    /// The pool with a port free.
    pub open spec fn without(self, port: u16) -> PoolView {
        PoolView { taken: self.taken.remove(port), ..self }
    }
}

impl View for PortPool {
    type V = PoolView;

    closed spec fn view(&self) -> PoolView {
        PoolView { first: self.first, last: self.last, taken: self.taken@ }
    }
}

impl PortPool {
    /// A pool over the inclusive range `first..=last`.
    ///
    /// A reversed range is empty rather than an error: it comes from an operator's config
    /// file, and the honest failure is "no port is free" at the moment a peer tries.
    #[must_use]
    pub fn new(first: u16, last: u16) -> (pool: PortPool)
        ensures
            pool@ == (PoolView { first, last, taken: Set::empty() }),
            pool@.well_formed(),
    {
        PortPool { first, last, taken: HashSet::new() }
    }

    /// Claim the lowest free port, or `None` if every one is in use.
    ///
    /// Lowest-free-first: a predictable allocation makes a packet capture readable, and
    /// there is nothing to gain from spreading peers over the range.
    pub fn take(&mut self) -> (port: Option<u16>)
        ensures
            old(self)@.well_formed() ==> final(self)@.well_formed(),
            match port {
                Some(port) => {
                    &&& old(self)@.is_next(port)
                    &&& final(self)@ == old(self)@.with(port)
                },
                None => {
                    &&& old(self)@.exhausted()
                    &&& final(self)@ == old(self)@
                },
            },
    {
        let mut at: u32 = self.first as u32;
        while at <= self.last as u32
            invariant
                self@ == old(self)@,
                self.first <= at,
                at <= self.last + 1 || at == self.first,
                forall|lower: u16|
                    self@.allows(lower) && lower < at ==> #[trigger] self@.taken.contains(lower),
            decreases self.last as int + 1 - at,
        {
            let port: u16 = at as u16;
            if !self.taken.contains(&port) {
                self.taken.insert(port);
                return Some(port);
            }
            at += 1;
        }
        None
    }

    /// Return a port to the pool.
    ///
    /// Returning one that was never taken is a no-op rather than a panic: the release path
    /// is reached from a peer's state machine and from its media pump ending, and which of
    /// the two arrives first is not ours to decide.
    pub fn give_back(&mut self, port: u16)
        ensures
            final(self)@ == old(self)@.without(port),
            old(self)@.well_formed() ==> final(self)@.well_formed(),
    {
        self.taken.remove(&port);
        assert(self@.taken =~= old(self)@.taken.remove(port));
    }

    /// How many are in use.
    #[must_use]
    pub fn in_use(&self) -> (count: usize)
        ensures
            count == self@.taken.len(),
    {
        self.taken.len()
    }
}

/// **A pool stays within its range.** Handing the next port out and taking any port back
/// keep only ports of the range in use.
pub proof fn a_pool_stays_within_its_range(pool: PoolView, next: u16, back: u16)
    requires
        pool.well_formed(),
    ensures
        pool.is_next(next) ==> pool.with(next).well_formed(),
        pool.without(back).well_formed(),
{
}

/// **A port is never handed out twice at once, nor from outside the range.** The one that
/// is handed out was free and allowed.
pub proof fn a_port_is_fresh(pool: PoolView, port: u16)
    requires
        pool.is_next(port),
    ensures
        pool.allows(port),
        !pool.taken.contains(port),
        pool.with(port).taken.contains(port),
{
}

/// **Which port comes next is settled.** No two ports are both next, and none is while the
/// pool is exhausted.
pub proof fn the_next_port_is_settled(pool: PoolView, a: u16, b: u16)
    requires
        pool.is_next(a),
        pool.is_next(b),
    ensures
        a == b,
        !pool.exhausted(),
{
    assert(!pool.taken.contains(a));
    assert(!pool.taken.contains(b));
}

/// **An unexhausted pool has a next port.** While any port of the range is free, one of
/// them is next.
pub proof fn a_free_port_means_a_next_one(pool: PoolView, free: u16)
    requires
        pool.allows(free),
        !pool.taken.contains(free),
    ensures
        exists|port: u16| pool.is_next(port) && port <= free,
    decreases free,
{
    if exists|lower: u16|
        pool.allows(lower) && lower < free && !#[trigger] pool.taken.contains(lower) {
        let lower = choose|lower: u16|
            pool.allows(lower) && lower < free && !#[trigger] pool.taken.contains(lower);
        a_free_port_means_a_next_one(pool, lower);
    } else {
        assert(pool.is_next(free));
    }
}

/// **A port goes back where it came from.** Taking the next port and giving it back leaves
/// the pool as it was, and the freed one is next again.
pub proof fn giving_back_undoes_taking(pool: PoolView, port: u16)
    requires
        pool.is_next(port),
    ensures
        pool.with(port).without(port) == pool,
        pool.with(port).without(port).is_next(port),
{
    assert(pool.taken.insert(port).remove(port) =~= pool.taken);
}

/// **Giving back is harmless.** Twice is as once, and a port that was not taken changes
/// nothing.
pub proof fn giving_back_is_harmless(pool: PoolView, port: u16)
    ensures
        pool.without(port).without(port) == pool.without(port),
        !pool.taken.contains(port) ==> pool.without(port) == pool,
{
    assert(pool.taken.remove(port).remove(port) =~= pool.taken.remove(port));
    if !pool.taken.contains(port) {
        assert(pool.taken.remove(port) =~= pool.taken);
    }
}

/// **A reversed range is empty.** Nothing is ever handed out of it.
pub proof fn a_reversed_range_holds_nothing(pool: PoolView, port: u16)
    requires
        pool.last < pool.first,
    ensures
        pool.exhausted(),
        !pool.is_next(port),
{
}

/// **A port is nobody else's business.** Taking one or giving one back changes nothing of any
/// other, nor the range.
pub proof fn a_port_is_nobody_elses_business(pool: PoolView, port: u16, other: u16)
    requires
        port != other,
    ensures
        pool.with(port).taken.contains(other) == pool.taken.contains(other),
        pool.without(port).taken.contains(other) == pool.taken.contains(other),
        !pool.without(port).taken.contains(port),
        pool.with(port).allows(other) == pool.allows(other),
        pool.without(port).allows(other) == pool.allows(other),
        pool.allows(port) == (pool.first <= port && port <= pool.last),
{
}

} // verus!
