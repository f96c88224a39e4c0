//! The fd plane: pairing the browser's frame descriptors with the paints that claim them.
//!
//! The descriptors travel on a socket of their own. One message is an eight-byte
//! little-endian paint id, with the descriptors attached to it: an id can never be paired
//! with another message's descriptors. A delivery waits in a table until the paint message
//! claims it, and a miss costs the frame, never the session.
use crate::span::Span;
use crate::text::joined;
use vstd::prelude::*;

verus! {

/// The most descriptors one message may carry.
pub const MAX_FDS: usize = 4;

/// How many unclaimed deliveries to hold before evicting the oldest.
///
/// Each entry holds live descriptors, which is exactly what must not accumulate.
pub const MAX_UNCLAIMED: usize = 32;

/// The bytes of a paint id.
pub const HEADER_LEN: usize = 8;

/// How long to wait between looks for a connection, in nanoseconds.
pub const ACCEPT_POLL: u128 = 50_000_000;

/// One delivery that nothing has claimed.
#[derive(Debug)]
struct Delivery<F> {
    id: u64,
    fds: Vec<F>,
}

/// Descriptors that have arrived and not yet been claimed by their paint message, oldest
/// paint first.
#[derive(Debug)]
pub struct FdTable<F> {
    arrived: Vec<Delivery<F>>,
}

/// How many of the deliveries are of earlier paints.
pub open spec fn earlier<F>(arrived: Seq<(u64, Seq<F>)>, id: u64) -> nat
    decreases arrived.len(),
{
    if arrived.len() == 0 {
        0
    } else if arrived.last().0 < id {
        arrived.len()
    } else {
        earlier(arrived.drop_last(), id)
    }
}

/// Whether a delivery for a paint is there, given how many are of earlier ones.
pub open spec fn is_at<F>(arrived: Seq<(u64, Seq<F>)>, at: nat, id: u64) -> bool {
    at < arrived.len() && arrived[at as int].0 == id
}

/// The deliveries with one more, in its place; a second delivery for one paint takes the
/// place of the first.
pub open spec fn with_delivery<F>(arrived: Seq<(u64, Seq<F>)>, id: u64, fds: Seq<F>) -> Seq<
    (u64, Seq<F>),
> {
    let at = earlier(arrived, id);
    if is_at(arrived, at, id) {
        arrived.update(at as int, (id, fds))
    } else {
        arrived.insert(at as int, (id, fds))
    }
}

/// The deliveries, with the oldest gone where there are as many as may wait.
pub open spec fn evicted<F>(arrived: Seq<(u64, Seq<F>)>) -> Seq<(u64, Seq<F>)> {
    if arrived.len() >= MAX_UNCLAIMED {
        arrived.skip(arrived.len() - MAX_UNCLAIMED + 1)
    } else {
        arrived
    }
}

/// Whether deliveries are in the order of their paints, each paint once, and no more of
/// them than may wait.
pub open spec fn orderly<F>(arrived: Seq<(u64, Seq<F>)>) -> bool {
    &&& arrived.len() <= MAX_UNCLAIMED
    &&& forall|i: int, j: int|
        0 <= i < j < arrived.len() ==> (#[trigger] arrived[i]).0 < (#[trigger] arrived[j]).0
}

/// What a claim finds.
#[derive(Debug)]
pub enum Claim<F> {
    /// The descriptors.
    Taken(Vec<F>),
    /// Nothing yet; wait this long, or until something arrives.
    Wait(Span),
    /// Nothing, and the wait is over. The frame is dropped.
    Missed,
}

impl<F> View for FdTable<F> {
    type V = Seq<(u64, Seq<F>)>;

    closed spec fn view(&self) -> Seq<(u64, Seq<F>)> {
        self.arrived@.map_values(|delivery: Delivery<F>| (delivery.id, delivery.fds@))
    }
}

impl<F> FdTable<F> {
    /// A table with nothing in it.
    pub fn new() -> (table: FdTable<F>)
        ensures
            table@ == Seq::<(u64, Seq<F>)>::empty(),
            orderly(table@),
    {
        let table = FdTable { arrived: Vec::new() };
        proof {
            assert(table@ =~= Seq::<(u64, Seq<F>)>::empty());
        }
        table
    }

    /// How many deliveries are waiting.
    pub fn unclaimed(&self) -> (many: usize)
        ensures
            many == self@.len(),
    {
        self.arrived.len()
    }

    /// How many of the deliveries are of earlier paints.
    fn place(&self, id: u64) -> (at: usize)
        ensures
            at == earlier(self@, id),
            at <= self@.len(),
    {
        let ghost all = self@;
        let mut at: usize = self.arrived.len();
        proof {
            assert(all.take(at as int) =~= all);
        }
        while at > 0
            invariant
                at <= all.len() == self.arrived@.len(),
                all == self@,
                earlier(all, id) == earlier(all.take(at as int), id),
            decreases at,
        {
            proof {
                assert(all.take(at as int).last() == all[at - 1]);
                assert(all.take(at as int).drop_last() =~= all.take(at - 1));
                assert(all[at - 1].0 == self.arrived@[at - 1].id);
            }
            if self.arrived[at - 1].id < id {
                return at;
            }
            at -= 1;
        }
        at
    }

    /// Record one delivery. Evicts (and thereby closes) the oldest if the browser is somehow
    /// sending descriptors nothing claims; says for which paint, where it does.
    pub fn insert(&mut self, id: u64, fds: Vec<F>) -> (stale: Option<u64>)
        requires
            orderly(old(self)@),
        ensures
            final(self)@ == with_delivery(evicted(old(self)@), id, fds@),
            orderly(final(self)@),
            stale == if old(self)@.len() >= MAX_UNCLAIMED {
                Some(old(self)@[0].0)
            } else {
                None
            },
    {
        let ghost before = self@;
        let mut stale: Option<u64> = None;
        if self.arrived.len() >= MAX_UNCLAIMED {
            let oldest = self.arrived.remove(0);
            stale = Some(oldest.id);
            proof {
                assert(self@ =~= before.skip(1));
            }
        }
        let ghost kept = self@;
        let at: usize = self.place(id);
        proof {
            earlier_splits(kept, id);
        }
        if at < self.arrived.len() && self.arrived[at].id == id {
            self.arrived.set(at, Delivery { id, fds });
            proof {
                assert(self@ =~= with_delivery(kept, id, fds@));
            }
        } else {
            self.arrived.insert(at, Delivery { id, fds });
            proof {
                assert(self@ =~= with_delivery(kept, id, fds@));
            }
        }
        stale
    }

    /// Claim the descriptors for `id`, or hear how much longer to wait for a delivery that is
    /// still in flight.
    pub fn take(&mut self, id: u64, now: Span, deadline: Span) -> (claim: Claim<F>)
        requires
            orderly(old(self)@),
        ensures
            ({
                let at = earlier(old(self)@, id);
                if is_at(old(self)@, at, id) {
                    &&& claim matches Claim::Taken(fds)
                    &&& fds@ == old(self)@[at as int].1
                    &&& final(self)@ == old(self)@.remove(at as int)
                } else {
                    &&& final(self)@ == old(self)@
                    &&& now@ >= deadline@ ==> claim is Missed
                    &&& now@ < deadline@ ==> (claim matches Claim::Wait(more) && more@ == deadline@
                        - now@)
                }
            }),
            orderly(final(self)@),
    {
        let ghost before = self@;
        let at: usize = self.place(id);
        if at < self.arrived.len() && self.arrived[at].id == id {
            let delivery = self.arrived.remove(at);
            proof {
                assert(self@ =~= before.remove(at as int));
            }
            return Claim::Taken(delivery.fds);
        }
        proof {
            assert(!is_at(before, at as nat, id)) by {
                if at < before.len() {
                    assert(before[at as int].0 == self.arrived@[at as int].id);
                }
            }
        }
        if now.nanos >= deadline.nanos {
            return Claim::Missed;
        }
        Claim::Wait(deadline.saturating_sub(&now))
    }
}

/// In orderly deliveries, those before the place of a paint are earlier and those from it on
/// are not.
pub proof fn earlier_splits<F>(arrived: Seq<(u64, Seq<F>)>, id: u64)
    requires
        forall|i: int, j: int|
            0 <= i < j < arrived.len() ==> (#[trigger] arrived[i]).0 < (#[trigger] arrived[j]).0,
    ensures
        earlier(arrived, id) <= arrived.len(),
        forall|i: int| 0 <= i < earlier(arrived, id) ==> (#[trigger] arrived[i]).0 < id,
        forall|i: int|
            earlier(arrived, id) <= i < arrived.len() ==> (#[trigger] arrived[i]).0 >= id,
    decreases arrived.len(),
{
    if arrived.len() > 0 && arrived.last().0 >= id {
        earlier_splits(arrived.drop_last(), id);
        assert forall|i: int| 0 <= i < earlier(arrived, id) implies (#[trigger] arrived[i]).0
            < id by {
            assert(arrived.drop_last()[i] == arrived[i]);
        }
        assert forall|i: int| earlier(arrived, id) <= i < arrived.len() implies (
        #[trigger] arrived[i]).0 >= id by {
            if i < arrived.len() - 1 {
                assert(arrived.drop_last()[i] == arrived[i]);
            }
        }
    }
}

/// **A delivery reaches its claim.** What was just recorded for a paint is what a claim for
/// that paint finds.
pub proof fn a_delivery_reaches_its_claim<F>(
    arrived: Seq<(u64, Seq<F>)>,
    id: u64,
    fds: Seq<F>,
)
    requires
        orderly(arrived),
    ensures
        ({
            let after = with_delivery(evicted(arrived), id, fds);
            let at = earlier(after, id);
            is_at(after, at, id) && after[at as int].1 == fds
        }),
{
    let kept = evicted(arrived);
    earlier_splits(kept, id);
    let after = with_delivery(kept, id, fds);
    earlier_splits(after, id);
    let spot = earlier(kept, id) as int;
    assert(after[spot] == (id, fds));
    if earlier(after, id) < spot {
        assert(after[earlier(after, id) as int].0 >= id);
    }
    if earlier(after, id) > spot {
        assert(after[spot].0 < id);
    }
}

/// **Unclaimed deliveries are bounded, oldest first.** However many arrive, no more than may
/// wait do, and what goes to make room is the earliest paint's.
pub proof fn unclaimed_deliveries_are_bounded<F>(
    arrived: Seq<(u64, Seq<F>)>,
    id: u64,
    fds: Seq<F>,
)
    requires
        orderly(arrived),
        arrived.len() == MAX_UNCLAIMED,
    ensures
        with_delivery(evicted(arrived), id, fds).len() <= MAX_UNCLAIMED,
        evicted(arrived) == arrived.drop_first(),
        forall|i: int| 0 < i < arrived.len() ==> arrived[0].0 < (#[trigger] arrived[i]).0,
{
    assert(evicted(arrived) =~= arrived.drop_first());
    earlier_splits(evicted(arrived), id);
}

/// The path of the fd plane's socket, beside the control socket's.
pub fn socket_path(address: &str) -> (path: String)
    ensures
        path@ == address@ + "-fd"@,
{
    joined(address, "-fd")
}

/// How many descriptors a control message of `len` bytes, `header_len` of them its header,
/// holds.
pub fn rights_in(len: usize, header_len: usize) -> (many: usize)
    ensures
        many as int == if len >= header_len {
            (len - header_len) / 4
        } else {
            0
        },
{
    len.saturating_sub(header_len) / 4
}

/// The number that bytes stand for, the first of them the least.
pub open spec fn little_endian(bytes: Seq<u8>) -> nat
    decreases bytes.len(),
{
    if bytes.len() == 0 {
        0
    } else {
        bytes[0] as nat + 256 * little_endian(bytes.drop_first())
    }
}

/// What a received chunk completes.
#[derive(Debug)]
pub enum Received<F> {
    /// The message wants this many bytes more.
    More(usize),
    /// A message: its paint, and the descriptors that rode with it.
    Delivery {
        /// The paint.
        id: u64,
        /// The descriptors.
        fds: Vec<F>,
    },
    /// The peer closed between messages.
    End,
    /// The peer closed in the middle of one.
    Broken,
    /// A control message was cut short: what did arrive cannot be trusted to be complete.
    Truncated,
}

/// What a read comes to.
pub enum Reading<F> {
    /// A message that is still short: its bytes and its descriptors so far.
    More {
        /// The bytes.
        got: Seq<u8>,
        /// The descriptors.
        held: Seq<F>,
    },
    /// A whole message.
    Delivery {
        /// The paint.
        id: nat,
        /// The descriptors.
        fds: Seq<F>,
    },
    /// The peer closed between messages.
    End,
    /// The peer closed in the middle of one.
    Broken,
    /// A control message was cut short.
    Truncated,
}

/// What a read of `bytes` and `fds` comes to, behind a message of which `got` and `held` have
/// arrived.
pub open spec fn reading<F>(
    got: Seq<u8>,
    held: Seq<F>,
    bytes: Seq<u8>,
    fds: Seq<F>,
    truncated: bool,
) -> Reading<F> {
    if truncated {
        Reading::Truncated
    } else if bytes.len() == 0 {
        if got.len() == 0 && held.len() == 0 && fds.len() == 0 {
            Reading::End
        } else {
            Reading::Broken
        }
    } else if got.len() + bytes.len() < HEADER_LEN {
        Reading::More { got: got + bytes, held: held + fds }
    } else {
        Reading::Delivery { id: little_endian(got + bytes), fds: held + fds }
    }
}

/// A message that is still arriving.
pub struct Assembly<F> {
    header: Vec<u8>,
    fds: Vec<F>,
}

impl<F> Assembly<F> {
    /// The bytes of the paint id so far.
    pub closed spec fn got(self) -> Seq<u8> {
        self.header@
    }

    /// The descriptors so far.
    pub closed spec fn held(self) -> Seq<F> {
        self.fds@
    }

    /// A message of which nothing has arrived.
    pub fn new() -> (assembly: Assembly<F>)
        ensures
            assembly.got() == Seq::<u8>::empty(),
            assembly.held() == Seq::<F>::empty(),
    {
        Assembly { header: Vec::new(), fds: Vec::new() }
    }

    /// How many bytes the message still wants.
    pub fn wants(&self) -> (more: usize)
        requires
            self.got().len() <= HEADER_LEN,
        ensures
            more == HEADER_LEN - self.got().len(),
    {
        HEADER_LEN - self.header.len()
    }

    /// One read: the bytes that landed, the descriptors that came attached, and whether the
    /// control message was cut short. No bytes means the peer has closed.
    ///
    /// The sender writes a message atomically, but assuming so would turn "cannot happen"
    /// into framing corruption the day it does; descriptors from any read of the message are
    /// collected.
    pub fn receive(&mut self, bytes: &[u8], fds: Vec<F>, truncated: bool) -> (received: Received<F>)
        requires
            old(self).got().len() < HEADER_LEN,
            bytes@.len() <= HEADER_LEN - old(self).got().len(),
            old(self).held().len() + fds@.len() <= usize::MAX,
        ensures
            match reading(old(self).got(), old(self).held(), bytes@, fds@, truncated) {
                Reading::More { got, held } => {
                    &&& (received matches Received::More(more) && more == HEADER_LEN - got.len())
                    &&& final(self).got() == got
                    &&& final(self).held() == held
                },
                Reading::Delivery { id: paint, fds: rode } => {
                    &&& (received matches Received::Delivery { id, fds } && id == paint && fds@
                        == rode)
                    &&& final(self).got() == Seq::<u8>::empty()
                    &&& final(self).held() == Seq::<F>::empty()
                },
                Reading::End => received is End,
                Reading::Broken => received is Broken,
                Reading::Truncated => received is Truncated,
            },
    {
        if truncated {
            return Received::Truncated;
        }
        let ghost start = self.header@;
        let ghost all = self.fds@ + fds@;
        let mut fds = fds;
        self.fds.append(&mut fds);
        if bytes.len() == 0 {
            if self.header.len() == 0 && self.fds.len() == 0 {
                return Received::End;
            }
            return Received::Broken;
        }
        let many: usize = bytes.len();
        let mut i: usize = 0;
        while i < many
            invariant
                i <= many == bytes@.len(),
                self.header@ == start + bytes@.take(i as int),
                self.fds@ == all,
            decreases many - i,
        {
            self.header.push(bytes[i]);
            i += 1;
            proof {
                assert(self.header@ =~= start + bytes@.take(i as int));
            }
        }
        proof {
            assert(bytes@.take(many as int) =~= bytes@);
        }
        if self.header.len() < HEADER_LEN {
            return Received::More(HEADER_LEN - self.header.len());
        }
        let id: u64 = read_id(&self.header);
        self.header = Vec::new();
        let mut out: Vec<F> = Vec::new();
        out.append(&mut self.fds);
        proof {
            assert(out@ =~= all);
        }
        Received::Delivery { id, fds: out }
    }
}

/// The paint id in its eight bytes.
fn read_id(header: &Vec<u8>) -> (id: u64)
    requires
        header@.len() == HEADER_LEN,
    ensures
        id == little_endian(header@),
{
    let ghost all = header@;
    let mut value: u64 = 0;
    let mut i: usize = HEADER_LEN;
    proof {
        assert(all.skip(8) =~= Seq::empty());
    }
    while i > 0
        invariant
            0 <= i <= HEADER_LEN,
            all == header@,
            all.len() == HEADER_LEN,
            value == little_endian(all.skip(i as int)),
            i == 8 ==> value == 0,
            i == 7 ==> value < 0x100,
            i == 6 ==> value < 0x1_0000,
            i == 5 ==> value < 0x100_0000,
            i == 4 ==> value < 0x1_0000_0000,
            i == 3 ==> value < 0x100_0000_0000,
            i == 2 ==> value < 0x1_0000_0000_0000,
            i == 1 ==> value < 0x100_0000_0000_0000,
        decreases i,
    {
        i -= 1;
        proof {
            assert(all.skip(i as int)[0] == all[i as int]);
            assert(all.skip(i as int).drop_first() =~= all.skip(i + 1));
        }
        value = value * 256 + header[i] as u64;
    }
    proof {
        assert(all.skip(0) =~= all);
    }
    value
}

/// What a look for a connection finds.
#[derive(Debug, Clone, Copy, PartialEq, Eq, Structural)]
pub enum Look {
    /// A connection; whether it could be made to wait for reads.
    Connected {
        /// Whether it will.
        blocking: bool,
    },
    /// Nobody yet.
    WouldBlock,
    /// The listener failed.
    Failed,
}

/// What becomes of the wait for a connection.
#[derive(Debug, Clone, Copy, PartialEq, Eq, Structural)]
pub enum Accepting {
    /// It is over, with a connection.
    Accepted,
    /// It is over, without one.
    GaveUp,
    /// Look again after this long.
    Again(Span),
}

/// What becomes of the wait for a connection.
pub open spec fn accepting(look: Look, now: Span, give_up: Span) -> Accepting {
    match look {
        Look::Connected { blocking } => if blocking {
            Accepting::Accepted
        } else {
            Accepting::GaveUp
        },
        Look::Failed => Accepting::GaveUp,
        Look::WouldBlock => if now@ >= give_up@ {
            Accepting::GaveUp
        } else {
            Accepting::Again(Span::of(ACCEPT_POLL as nat))
        },
    }
}

/// Wait for the one connection, without waiting forever on a peer that will never make it.
pub fn accept_within(look: Look, now: Span, give_up: Span) -> (next: Accepting)
    ensures
        next == accepting(look, now, give_up),
{
    match look {
        Look::Connected { blocking } => {
            if blocking {
                Accepting::Accepted
            } else {
                Accepting::GaveUp
            }
        },
        Look::Failed => Accepting::GaveUp,
        Look::WouldBlock => {
            if now.nanos >= give_up.nanos {
                Accepting::GaveUp
            } else {
                Accepting::Again(Span { nanos: ACCEPT_POLL })
            }
        },
    }
}

/// **How a message is split does not matter.** A message that two reads bring is the one that
/// a single read of the same bytes and descriptors would have brought.
pub proof fn splits_do_not_matter<F>(
    got: Seq<u8>,
    held: Seq<F>,
    first: (Seq<u8>, Seq<F>),
    second: (Seq<u8>, Seq<F>),
)
    requires
        first.0.len() > 0,
        second.0.len() > 0,
        got.len() + first.0.len() + second.0.len() <= HEADER_LEN,
    ensures
        reading(got, held, first.0, first.1, false) matches Reading::More { got: g, held: h }
            && reading(g, h, second.0, second.1, false) == reading(
            got,
            held,
            first.0 + second.0,
            first.1 + second.1,
            false,
        ),
{
    assert(got + first.0 + second.0 =~= got + (first.0 + second.0));
    assert(held + first.1 + second.1 =~= held + (first.1 + second.1));
}

/// **A delivery disturbs no other.** Whatever is recorded for one paint, what waits for any other
/// is what waited before, but for what had to make room.
pub proof fn a_delivery_disturbs_no_other<F>(
    arrived: Seq<(u64, Seq<F>)>,
    id: u64,
    fds: Seq<F>,
    other: (u64, Seq<F>),
)
    requires
        orderly(arrived),
        other.0 != id,
    ensures
        with_delivery(evicted(arrived), id, fds).contains(other) <==> evicted(arrived).contains(
            other,
        ),
        arrived.len() < MAX_UNCLAIMED ==> evicted(arrived) == arrived,
{
    let kept = evicted(arrived);
    let after = with_delivery(kept, id, fds);
    let spot = earlier(kept, id) as int;
    earlier_splits(kept, id);
    if kept.contains(other) {
        let i = choose|i: int| 0 <= i < kept.len() && kept[i] == other;
        if is_at(kept, spot as nat, id) {
            assert(after[i] == other);
        } else if i < spot {
            assert(after[i] == other);
        } else {
            assert(after[i + 1] == other);
        }
    }
    if after.contains(other) {
        let i = choose|i: int| 0 <= i < after.len() && after[i] == other;
        assert(after[spot] == (id, fds));
        if is_at(kept, spot as nat, id) {
            assert(kept[i] == other);
        } else if i < spot {
            assert(kept[i] == other);
        } else {
            assert(kept[i - 1] == other);
        }
    }
}

/// **A claim finds what waits, and nothing else.** There is a delivery at a paint's place exactly
/// where one for that paint waits.
pub proof fn a_claim_finds_what_waits<F>(arrived: Seq<(u64, Seq<F>)>, id: u64)
    requires
        orderly(arrived),
    ensures
        is_at(arrived, earlier(arrived, id), id) <==> exists|i: int|
            0 <= i < arrived.len() && (#[trigger] arrived[i]).0 == id,
{
    earlier_splits(arrived, id);
    let at = earlier(arrived, id);
    if is_at(arrived, at, id) {
        assert(arrived[at as int].0 == id);
    }
    if exists|i: int| 0 <= i < arrived.len() && (#[trigger] arrived[i]).0 == id {
        let i = choose|i: int| 0 <= i < arrived.len() && (#[trigger] arrived[i]).0 == id;
        if at < i {
            assert(arrived[at as int].0 < arrived[i].0);
        }
    }
}

/// Two hundred and fifty-six to a power.
pub open spec fn places(power: nat) -> nat
    decreases power,
{
    if power == 0 {
        1
    } else {
        256 * places((power - 1) as nat)
    }
}

/// **Bytes stand for what their places make them.** Each byte counts for as much again as its
/// place says, the first for least; and bytes that follow others count from where those end.
pub proof fn bytes_stand_for_their_places(head: Seq<u8>, tail: Seq<u8>, byte: u8)
    ensures
        little_endian(head + tail) == little_endian(head) + places(head.len()) * little_endian(
            tail,
        ),
        little_endian(seq![byte]) == byte,
        little_endian(head) < places(head.len()),
    decreases head.len(),
{
    reveal_with_fuel(little_endian, 2);
    assert(seq![byte].drop_first() =~= Seq::<u8>::empty());
    if head.len() == 0 {
        assert(head + tail =~= tail);
        assert(places(0) * little_endian(tail) == little_endian(tail)) by (nonlinear_arith)
            requires
                places(0) == 1,
        ;
    } else {
        let rest = head.drop_first();
        let p = places(rest.len());
        let t = little_endian(tail);
        bytes_stand_for_their_places(rest, tail, byte);
        assert((head + tail).drop_first() =~= rest + tail);
        assert(256 * (p * t) == (256 * p) * t) by (nonlinear_arith);
    }
}

/// **A read comes to one thing, and loses nothing.** A control message that was cut short is
/// never trusted; no bytes mean the peer has closed, in the middle of a message where any of one
/// had arrived; and otherwise every byte and every descriptor is kept or handed on.
pub proof fn a_read_comes_to_one_thing<F>(
    got: Seq<u8>,
    held: Seq<F>,
    bytes: Seq<u8>,
    fds: Seq<F>,
    truncated: bool,
)
    ensures
        ({
            let read = reading(got, held, bytes, fds, truncated);
            &&& read is Truncated <==> truncated
            &&& read is End <==> !truncated && bytes.len() == 0 && got.len() == 0 && held.len() == 0
                && fds.len() == 0
            &&& read is Broken <==> !truncated && bytes.len() == 0 && (got.len() > 0 || held.len()
                > 0 || fds.len() > 0)
            &&& read is Delivery ==> got.len() + bytes.len() >= 8
            &&& read matches Reading::More { got: more, held: holds } ==> {
                &&& more.len() == got.len() + bytes.len() && more.len() < 8
                &&& more.take(got.len() as int) == got && more.skip(got.len() as int) == bytes
                &&& holds.take(held.len() as int) == held && holds.skip(held.len() as int) == fds
            }
            &&& read matches Reading::Delivery { id, fds: rode } ==> {
                &&& rode.take(held.len() as int) == held && rode.skip(held.len() as int) == fds
                &&& got.len() == 0 ==> id == little_endian(bytes)
            }
        }),
{
    assert((got + bytes).take(got.len() as int) =~= got);
    assert((got + bytes).skip(got.len() as int) =~= bytes);
    assert((held + fds).take(held.len() as int) =~= held);
    assert((held + fds).skip(held.len() as int) =~= fds);
    if got.len() == 0 {
        assert(got + bytes =~= bytes);
    }
}

/// **The wait for a connection ends for a reason.** It is over with one exactly where one is
/// there that will wait for reads; it goes on only while nobody has come and there is time; and
/// it is given up otherwise.
pub proof fn the_wait_for_a_connection_ends_for_a_reason(look: Look, now: Span, give_up: Span)
    ensures
        accepting(look, now, give_up) == Accepting::Accepted <==> look == (Look::Connected {
            blocking: true,
        }),
        accepting(look, now, give_up) is Again <==> look == Look::WouldBlock && now@ < give_up@,
        accepting(look, now, give_up) matches Accepting::Again(rest) ==> rest@ == ACCEPT_POLL,
{
}

/// **A control message holds as many descriptors as fill it.** Four bytes behind the header are
/// one, what is left over is none, and a message shorter than its header holds none.
pub proof fn a_control_message_holds_what_fills_it(len: usize, header_len: usize, many: usize)
    requires
        call_ensures(rights_in, (len, header_len), many),
    ensures
        len >= header_len ==> header_len + 4 * many <= len < header_len + 4 * many + 4,
        len < header_len ==> many == 0,
{
}

/// **A paint waits once.** No two deliveries are for one paint, and an earlier paint's stands
/// before a later one's.
pub proof fn a_paint_waits_once<F>(arrived: Seq<(u64, Seq<F>)>, i: int, j: int)
    requires
        orderly(arrived),
        0 <= i < arrived.len(),
        0 <= j < arrived.len(),
    ensures
        arrived[i].0 == arrived[j].0 <==> i == j,
        arrived[i].0 < arrived[j].0 <==> i < j,
        arrived.len() <= 32,
{
}

} // verus!
