//! One RTP payload at a time into the bytes of an access unit.
//!
//! Depacketization is the `rtc` crate's — the same crate whose transport delivered the
//! packet, so H.264's aggregation and fragmentation and VP8's descriptor are read by the
//! implementation that is already parsing them. What is relied on of it is stated here.
use crate::buffers::{held, slice_of};
use bytes::Bytes;
use rtc::rtp::codec::h264::H264Packet;
use rtc::rtp::codec::opus::OpusPacket;
use rtc::rtp::codec::vp8::Vp8Packet;
use rtc::rtp::packetizer::Depacketizer;
use vstd::prelude::*;

verus! {

/// The `rtc` crate's H.264 depacketizer.
#[verifier::external_type_specification]
#[verifier::external_body]
pub struct ExH264Packet(rtc::rtp::codec::h264::H264Packet);

/// The `rtc` crate's VP8 depacketizer.
#[verifier::external_type_specification]
#[verifier::external_body]
pub struct ExVp8Packet(rtc::rtp::codec::vp8::Vp8Packet);

/// The bytes of a fragmented unit that an H.264 depacketizer has collected so far.
pub uninterp spec fn fragments(depacketizer: H264Packet) -> Seq<u8>;

/// Whether an H.264 depacketizer was made to put a length before each unit instead of a
/// start code.
pub uninterp spec fn length_prefixed(depacketizer: H264Packet) -> bool;

/// Which extensions a VP8 depacketizer last saw declared: of the picture id, the temporal
/// level index, the temporal layer and the key index, one byte each, 1 where declared.
pub uninterp spec fn extensions(depacketizer: Vp8Packet) -> Seq<u8>;

/// The start code that stands before each unit.
pub open spec fn start_code() -> Seq<u8> {
    seq![0u8, 0u8, 0u8, 1u8]
}

/// The type of a unit, from the first byte of its payload.
pub open spec fn unit_type(payload: Seq<u8>) -> u8 {
    payload[0] & 0x1f
}

/// The units of an aggregate from `at` on, each with a start code before it: a size in two
/// bytes, the greater first, stands before each unit. `None` where a unit is longer than
/// what is left.
pub open spec fn aggregated(payload: Seq<u8>, at: int) -> Option<Seq<u8>>
    decreases payload.len() - at,
    when 0 <= at
{
    if at >= payload.len() {
        Some(Seq::empty())
    } else {
        let end = at + 2 + payload[at] * 256 + payload[at + 1];
        if end > payload.len() {
            None
        } else {
            match aggregated(payload, end) {
                Some(rest) => Some(start_code() + payload.subrange(at + 2, end) + rest),
                None => None,
            }
        }
    }
}

/// What an H.264 payload comes to, with these fragments collected: the bytes it completes,
/// and the fragments then collected.
///
/// A payload with no more than a header is malformed, but for an access unit delimiter. A
/// whole unit gets a start code. A fragment is collected, and the last one completes the
/// unit under a header put together from both of its bytes.
pub open spec fn h264_unpacked(fragments: Seq<u8>, payload: Seq<u8>) -> (
    Option<Seq<u8>>,
    Seq<u8>,
) {
    if payload.len() <= 1 || (payload.len() == 2 && unit_type(payload) != 9) {
        (None, fragments)
    } else if 1 <= unit_type(payload) <= 23 {
        (Some(start_code() + payload), fragments)
    } else if unit_type(payload) == 28 {
        let collected = fragments + payload.skip(2);
        if payload[1] & 0x40 != 0 {
            let header = (payload[0] & 0x60) | (payload[1] & 0x1f);
            (Some(start_code() + seq![header] + collected), Seq::empty())
        } else {
            (Some(Seq::empty()), collected)
        }
    } else if unit_type(payload) == 24 {
        (aggregated(payload, 1), fragments)
    } else {
        (None, fragments)
    }
}

/// Whether the sizes in an aggregate lead to a place with no room for another size, from
/// `at` on.
pub open spec fn sizes_tear(payload: Seq<u8>, at: int) -> bool
    decreases payload.len() - at,
    when 0 <= at
{
    if at >= payload.len() {
        false
    } else if at + 1 >= payload.len() {
        true
    } else {
        let end = at + 2 + payload[at] * 256 + payload[at + 1];
        end <= payload.len() && sizes_tear(payload, end)
    }
}

/// Whether an H.264 payload is an aggregate that breaks off in the middle of a size.
pub open spec fn is_torn(payload: Seq<u8>) -> bool {
    payload.len() > 2 && unit_type(payload) == 24 && sizes_tear(payload, 1)
}

/// One bit of a byte, as a number.
pub open spec fn bit(byte: u8, mask: u8) -> u8 {
    if byte & mask != 0 {
        1
    } else {
        0
    }
}

/// The extensions known once a VP8 payload's descriptor has been read: a picture id, a
/// temporal level index, a temporal layer and a key frame index, one where it is declared.
/// A descriptor without the extension bit declares nothing, and what was known stays.
pub open spec fn declared(extensions: Seq<u8>, payload: Seq<u8>) -> Seq<u8> {
    if payload[0] & 0x80 != 0 {
        seq![
            bit(payload[1], 0x80),
            bit(payload[1], 0x40),
            bit(payload[1], 0x20),
            bit(payload[1], 0x10),
        ]
    } else {
        extensions
    }
}

/// How long a VP8 payload's descriptor is with these extensions: a byte, one more where it
/// declares extensions, one or two for a picture id, one for a level index, and one for a
/// layer and a key frame index together.
pub open spec fn descriptor_len(extensions: Seq<u8>, payload: Seq<u8>) -> int {
    let fixed = if payload[0] & 0x80 != 0 {
        2int
    } else {
        1int
    };
    let id = if extensions[0] != 1 {
        0int
    } else if payload[fixed] & 0x80 != 0 {
        2int
    } else {
        1int
    };
    let level = if extensions[1] == 1 {
        1int
    } else {
        0int
    };
    let layer = if extensions[2] == 1 || extensions[3] == 1 {
        1int
    } else {
        0int
    };
    fixed + id + level + layer
}

/// What a VP8 payload comes to, with these extensions known: the bytes behind its
/// descriptor, if there are any, and the extensions then known.
pub open spec fn vp8_unpacked(extensions: Seq<u8>, payload: Seq<u8>) -> (
    Option<Seq<u8>>,
    Seq<u8>,
) {
    if payload.len() < 4 {
        (None, extensions)
    } else {
        let known = declared(extensions, payload);
        let behind = descriptor_len(known, payload);
        (
            if behind < payload.len() {
                Some(payload.skip(behind))
            } else {
                None
            },
            known,
        )
    }
}

/// No extension declared.
pub open spec fn no_extensions() -> Seq<u8> {
    seq![0u8, 0u8, 0u8, 0u8]
}

/// The contents of an optional buffer.
pub open spec fn held_of(chunk: Option<Bytes>) -> Option<Seq<u8>> {
    match chunk {
        Some(chunk) => Some(held(chunk)),
        None => None,
    }
}

/// A fresh H.264 depacketizer: `<H264Packet as Default>::default`, which has collected
/// nothing and writes start codes.
#[verifier::external_body]
fn new_h264() -> (depacketizer: H264Packet)
    ensures
        fragments(depacketizer) == Seq::<u8>::empty(),
        !length_prefixed(depacketizer),
{
    H264Packet::default()
}

/// `<H264Packet as Depacketizer>::depacketize`, its error dropped. What it returns and what
/// it then has collected are [`h264_unpacked`] of what it had and the payload; how units
/// are written it never changes. It panics on an aggregate that breaks off in the middle
/// of a size.
#[verifier::external_body]
fn unpack_h264(depacketizer: &mut H264Packet, payload: &Bytes) -> (chunk: Option<Bytes>)
    requires
        !length_prefixed(*old(depacketizer)),
        !is_torn(held(*payload)),
    ensures
        !length_prefixed(*final(depacketizer)),
        (held_of(chunk), fragments(*final(depacketizer))) == h264_unpacked(
            fragments(*old(depacketizer)),
            held(*payload),
        ),
{
    depacketizer.depacketize(payload).ok()
}

/// A fresh VP8 depacketizer: `<Vp8Packet as Default>::default`, which has seen no
/// extension declared.
#[verifier::external_body]
fn new_vp8() -> (depacketizer: Vp8Packet)
    ensures
        extensions(depacketizer) == no_extensions(),
{
    Vp8Packet::default()
}

/// `<Vp8Packet as Depacketizer>::depacketize`, its error dropped. What it returns and which
/// extensions it then knows of are [`vp8_unpacked`] of those it knew of and the payload.
#[verifier::external_body]
fn unpack_vp8(depacketizer: &mut Vp8Packet, payload: &Bytes) -> (chunk: Option<Bytes>)
    ensures
        (held_of(chunk), extensions(*final(depacketizer))) == vp8_unpacked(
            extensions(*old(depacketizer)),
            held(*payload),
        ),
{
    depacketizer.depacketize(payload).ok()
}

/// `<OpusPacket as Depacketizer>::depacketize`, its error dropped: the payload as it is,
/// or nothing for an empty one.
#[verifier::external_body]
fn unpack_opus(payload: &Bytes) -> (chunk: Option<Bytes>)
    ensures
        held_of(chunk) == if held(*payload).len() == 0 {
            None
        } else {
            Some(held(*payload))
        },
{
    OpusPacket.depacketize(payload).ok()
}

/// What a track's depacketizer carries over from one payload to the next.
pub enum UnpackState {
    /// H.264: the fragments collected.
    H264(Seq<u8>),
    /// VP8: the extensions known.
    Vp8(Seq<u8>),
    /// Opus: nothing.
    Opus,
}

impl UnpackState {
    /// What a payload comes to, and what is then carried over. A torn aggregate is a
    /// malformed payload like any other.
    pub open spec fn unpacked(self, payload: Seq<u8>) -> (Option<Seq<u8>>, UnpackState) {
        match self {
            UnpackState::H264(fragments) => if is_torn(payload) {
                (None, self)
            } else {
                let (chunk, after) = h264_unpacked(fragments, payload);
                (chunk, UnpackState::H264(after))
            },
            UnpackState::Vp8(extensions) => {
                let (chunk, after) = vp8_unpacked(extensions, payload);
                (chunk, UnpackState::Vp8(after))
            },
            UnpackState::Opus => (
                if payload.len() == 0 {
                    None
                } else {
                    Some(payload)
                },
                self,
            ),
        }
    }
}

/// The depacketizer of one track.
#[derive(Debug)]
pub(crate) enum Unpacker {
    H264(H264Packet),
    Vp8(Vp8Packet),
    Opus,
}

impl Unpacker {
    pub(crate) open spec fn state(self) -> UnpackState {
        match self {
            Unpacker::H264(depacketizer) => UnpackState::H264(fragments(depacketizer)),
            Unpacker::Vp8(depacketizer) => UnpackState::Vp8(extensions(depacketizer)),
            Unpacker::Opus => UnpackState::Opus,
        }
    }

    /// An H.264 track's units are written with start codes.
    pub(crate) open spec fn well_formed(self) -> bool {
        self matches Unpacker::H264(depacketizer) ==> !length_prefixed(depacketizer)
    }

    pub(crate) fn h264() -> (unpacker: Unpacker)
        ensures
            unpacker.well_formed(),
            unpacker.state() == UnpackState::H264(Seq::empty()),
    {
        Unpacker::H264(new_h264())
    }

    pub(crate) fn vp8() -> (unpacker: Unpacker)
        ensures
            unpacker.well_formed(),
            unpacker.state() == UnpackState::Vp8(no_extensions()),
    {
        Unpacker::Vp8(new_vp8())
    }

    /// Take one payload's bytes out of it; `None` where it is malformed.
    pub(crate) fn unpack(&mut self, payload: &Bytes) -> (chunk: Option<Bytes>)
        requires
            old(self).well_formed(),
        ensures
            final(self).well_formed(),
            (held_of(chunk), final(self).state()) == old(self).state().unpacked(held(*payload)),
    {
        match self {
            Unpacker::H264(depacketizer) => if torn(slice_of(payload)) {
                None
            } else {
                unpack_h264(depacketizer, payload)
            },
            Unpacker::Vp8(depacketizer) => unpack_vp8(depacketizer, payload),
            Unpacker::Opus => unpack_opus(payload),
        }
    }
}

/// Whether an H.264 payload is an aggregate that breaks off in the middle of a size.
pub fn torn(payload: &[u8]) -> (yes: bool)
    ensures
        yes == is_torn(payload@),
{
    let len: usize = payload.len();
    if len <= 2 || payload[0] & 0x1f != 24 {
        return false;
    }
    let mut at: usize = 1;
    while at < len
        invariant
            len == payload@.len(),
            1 <= at <= len,
            sizes_tear(payload@, 1) == sizes_tear(payload@, at as int),
            len > 2,
            unit_type(payload@) == 24,
        decreases len - at,
    {
        if len - at < 2 {
            return true;
        }
        let size: usize = payload[at] as usize * 256 + payload[at + 1] as usize;
        if len - at - 2 < size {
            return false;
        }
        at = at + 2 + size;
    }
    false
}

/// The units of an aggregate, each behind its size.
pub open spec fn sized(units: Seq<Seq<u8>>) -> Seq<u8>
    decreases units.len(),
{
    if units.len() == 0 {
        Seq::empty()
    } else {
        seq![(units[0].len() / 256) as u8, (units[0].len() % 256) as u8] + units[0] + sized(
            units.drop_first(),
        )
    }
}

/// The units of an aggregate, each behind a start code.
pub open spec fn coded(units: Seq<Seq<u8>>) -> Seq<u8>
    decreases units.len(),
{
    if units.len() == 0 {
        Seq::empty()
    } else {
        start_code() + units[0] + coded(units.drop_first())
    }
}

/// Whether every unit is short enough for its size to be written.
pub open spec fn sizes_fit(units: Seq<Seq<u8>>) -> bool {
    forall|i: int| 0 <= i < units.len() ==> (#[trigger] units[i]).len() < 65536
}

/// What sizes and units lead to from where they begin.
proof fn sizes_lead_to_their_units(head: Seq<u8>, units: Seq<Seq<u8>>, stray: Seq<u8>)
    requires
        sizes_fit(units),
        stray.len() <= 1,
    ensures
        sizes_tear(head + sized(units) + stray, head.len() as int) <==> stray.len() == 1,
        stray.len() == 0 ==> aggregated(head + sized(units) + stray, head.len() as int) == Some(
            coded(units),
        ),
    decreases units.len(),
{
    let payload = head + sized(units) + stray;
    let at = head.len() as int;
    if units.len() > 0 {
        let unit = units[0];
        let size = seq![(unit.len() / 256) as u8, (unit.len() % 256) as u8];
        let rest = units.drop_first();
        assert(sizes_fit(rest)) by {
            assert forall|i: int| 0 <= i < rest.len() implies (#[trigger] rest[i]).len() < 65536 by {
                assert(rest[i] == units[i + 1]);
            }
        }
        sizes_lead_to_their_units(head + size + unit, rest, stray);
        assert(payload =~= head + size + unit + sized(rest) + stray);
        assert(payload[at] == size[0]);
        assert(payload[at + 1] == size[1]);
        assert(unit.len() == (unit.len() / 256) * 256 + unit.len() % 256);
        assert(payload[at] * 256 + payload[at + 1] == unit.len());
        assert(payload.subrange(at + 2, at + 2 + unit.len()) =~= unit);
    }
}

/// **Only half a size tears an aggregate.** An aggregate of whole units is never torn, and comes
/// to those units in order; with one byte of another size behind them it is torn.
pub proof fn only_half_a_size_tears(header: u8, units: Seq<Seq<u8>>, stray: Seq<u8>)
    requires
        header & 0x1f == 24,
        sizes_fit(units),
        units.len() > 0,
        stray.len() <= 1,
    ensures
        is_torn(seq![header] + sized(units) + stray) <==> stray.len() == 1,
        stray.len() == 0 ==> aggregated(seq![header] + sized(units) + stray, 1) == Some(
            coded(units),
        ),
{
    let head = seq![header];
    let payload = head + sized(units) + stray;
    sizes_lead_to_their_units(head, units, stray);
    assert(payload[0] == header);
    assert(sized(units).len() >= 2);
}

/// **Nothing but an aggregate is torn, and what is torn counts for nothing.** A torn payload
/// comes to nothing and leaves what was collected as it was.
pub proof fn what_is_torn_counts_for_nothing(fragments: Seq<u8>, payload: Seq<u8>)
    ensures
        unit_type(payload) != 24 ==> !is_torn(payload),
        is_torn(payload) ==> UnpackState::H264(fragments).unpacked(payload) == (
            None::<Seq<u8>>,
            UnpackState::H264(fragments),
        ),
        !is_torn(payload) ==> UnpackState::H264(fragments).unpacked(payload).0 == h264_unpacked(
            fragments,
            payload,
        ).0,
{
}

/// **A track keeps to its codec.** Whatever arrives, what is carried over is of the same codec;
/// and sound passes through whole.
pub proof fn a_track_keeps_to_its_codec(state: UnpackState, payload: Seq<u8>)
    ensures
        state is H264 == state.unpacked(payload).1 is H264,
        state is Vp8 == state.unpacked(payload).1 is Vp8,
        state is Opus && payload.len() > 0 ==> state.unpacked(payload).0 == Some(payload),
        payload.len() == 0 ==> state.unpacked(payload) == (None::<Seq<u8>>, state),
{
}

} // verus!
