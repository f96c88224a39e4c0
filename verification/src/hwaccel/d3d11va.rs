//! Decoded D3D11 surfaces into shareable textures: the ring of textures a decoded frame is
//! copied into, and what each call along the way may come to.
use super::HwGiveUp;
use crate::text::{hex, hex_text, joined};
use vstd::prelude::*;
use vstd::string::*;

verus! {

/// How many shared textures to cycle through.
///
/// One is not enough: the compositor may still be sampling the previous frame's texture
/// when the next decode completes. Four covers two frames of latency plus the one being
/// written, with a spare.
pub const POOL_DEPTH: usize = 4;

/// What stands in the text of a failed call.
pub open spec fn failed_text(call: Seq<char>, code: i32) -> Seq<char> {
    call + " failed (0x"@ + hex_text((code as u32) as nat, 8) + ")"@
}

/// Judge a call by its result code, and by whether it gave what it was called for.
pub fn check_call(call: &str, code: i32, gave: bool) -> (checked: Result<(), HwGiveUp>)
    ensures
        match checked {
            Ok(_) => code == 0 && gave,
            Err(HwGiveUp::ExportFailed(why)) => {
                &&& code != 0 || !gave
                &&& why@ == failed_text(call@, code)
            },
            Err(_) => false,
        },
{
    if code != 0 || !gave {
        let mut why: String = joined(call, " failed (0x");
        why.append(hex(code as u32, 8).as_str());
        why.append(")");
        return Err(HwGiveUp::ExportFailed(why));
    }
    Ok(())
}

/// What to do about a fence that was polled.
#[derive(Debug)]
pub enum FencePoll {
    /// The copy has retired.
    Retired,
    /// Not yet: poll again.
    Pending,
    /// The query failed.
    Failed(HwGiveUp),
}

/// Judge one poll of the fence behind a copy by its result code.
pub fn poll_fence(code: i32) -> (poll: FencePoll)
    ensures
        match poll {
            FencePoll::Retired => code == 0,
            FencePoll::Pending => code > 0,
            FencePoll::Failed(HwGiveUp::ExportFailed(why)) => {
                &&& code < 0
                &&& why@ == failed_text("query GetData"@, code)
            },
            FencePoll::Failed(_) => false,
        },
{
    if code == 0 {
        return FencePoll::Retired;
    }
    if code < 0 {
        let mut why: String = joined("query GetData", " failed (0x");
        why.append(hex(code as u32, 8).as_str());
        why.append(")");
        return FencePoll::Failed(HwGiveUp::ExportFailed(why));
    }
    FencePoll::Pending
}

/// What a device context turned out to hold.
#[derive(Debug, Clone, Copy, PartialEq, Eq, Structural)]
pub struct ContextParts {
    /// Whether there is a hardware device context.
    pub context: bool,
    /// Whether it has the D3D11 part.
    pub hwctx: bool,
    /// Whether that has a device and its immediate context.
    pub device: bool,
}

/// What keeps an exporter from being built on a device context.
pub open spec fn context_refusal(parts: ContextParts) -> Option<Seq<char>> {
    if !parts.context {
        Some("null hw device context"@)
    } else if !parts.hwctx {
        Some("null D3D11VA hwctx"@)
    } else if !parts.device {
        Some("D3D11VA context has no device"@)
    } else {
        None
    }
}

/// Where a frame goes in the ring.
#[derive(Debug, Clone, Copy, PartialEq, Eq, Structural)]
pub enum Slot {
    /// Into the texture at this place, which nothing downstream holds any more.
    Reuse(usize),
    /// Into a new texture.
    Create,
}

/// What the ring of shareable textures holds.
pub struct PoolState {
    /// The size every texture in it has.
    pub size: (u32, u32),
    /// How many textures there are.
    pub len: nat,
}

/// Copies decoded D3D11 surfaces into shareable textures.
#[derive(Debug)]
pub struct D3d11Exporter {
    size: (u32, u32),
    len: usize,
}

impl View for D3d11Exporter {
    type V = PoolState;

    closed spec fn view(&self) -> PoolState {
        PoolState { size: self.size, len: self.len as nat }
    }
}

/// Whether `slot` is where the next frame goes: the first texture nothing holds, else a
/// new one while there is room, else nowhere.
pub open spec fn is_slot(free: Seq<bool>, slot: Option<Slot>) -> bool {
    match slot {
        Some(Slot::Reuse(at)) => {
            &&& (at as int) < free.len()
            &&& free[at as int]
            &&& forall|i: int| 0 <= i < at ==> !(#[trigger] free[i])
        },
        Some(Slot::Create) => {
            &&& forall|i: int| 0 <= i < free.len() ==> !(#[trigger] free[i])
            &&& free.len() < POOL_DEPTH
        },
        None => {
            &&& forall|i: int| 0 <= i < free.len() ==> !(#[trigger] free[i])
            &&& free.len() >= POOL_DEPTH
        },
    }
}

impl D3d11Exporter {
    /// The ring never holds more textures than its depth.
    pub open spec fn well_formed(self) -> bool {
        self@.len <= POOL_DEPTH
    }

    /// Build an exporter on a device context, if the context carries a device.
    pub fn new(parts: ContextParts) -> (exporter: Result<D3d11Exporter, HwGiveUp>)
        ensures
            match exporter {
                Ok(exporter) => {
                    &&& context_refusal(parts) is None
                    &&& exporter.well_formed()
                    &&& exporter@ == (PoolState { size: (0, 0), len: 0 })
                },
                Err(HwGiveUp::DeviceUnavailable(why)) => context_refusal(parts) == Some(why@),
                Err(_) => false,
            },
    {
        if !parts.context {
            return Err(
                HwGiveUp::DeviceUnavailable(String::from_str("null hw device context")),
            );
        }
        if !parts.hwctx {
            return Err(HwGiveUp::DeviceUnavailable(String::from_str("null D3D11VA hwctx")));
        }
        if !parts.device {
            return Err(
                HwGiveUp::DeviceUnavailable(String::from_str("D3D11VA context has no device")),
            );
        }
        Ok(D3d11Exporter { size: (0, 0), len: 0 })
    }

    /// Take a decoded frame: check it, and start a new ring where its size is not that of
    /// the ring's textures. Returns whether the old textures are to be let go.
    pub fn begin_frame(&mut self, texture: bool, width: i32, height: i32) -> (resized: Result<
        bool,
        HwGiveUp,
    >)
        requires
            old(self).well_formed(),
        ensures
            final(self).well_formed(),
            match resized {
                Ok(resized) => {
                    let size = (width as u32, height as u32);
                    &&& texture && width > 0 && height > 0
                    &&& resized == (old(self)@.size != size)
                    &&& final(self)@ == if resized {
                        PoolState { size, len: 0 }
                    } else {
                        old(self)@
                    }
                },
                Err(HwGiveUp::ExportFailed(why)) => {
                    &&& !texture || width <= 0 || height <= 0
                    &&& why@ == "decoded frame has no texture"@
                    &&& final(self)@ == old(self)@
                },
                Err(_) => false,
            },
    {
        if !texture || width <= 0 || height <= 0 {
            return Err(HwGiveUp::ExportFailed(String::from_str("decoded frame has no texture")));
        }
        let same: bool = self.size.0 == width as u32 && self.size.1 == height as u32;
        if same {
            Ok(false)
        } else {
            self.size = (width as u32, height as u32);
            self.len = 0;
            Ok(true)
        }
    }

    /// Take a free texture from the ring, or room for another up to [`POOL_DEPTH`].
    ///
    /// `free` says of each texture whether nothing but the ring holds it. With all of them
    /// in use the frame is dropped: the right answer for a live mirror.
    pub fn acquire_slot(&self, free: &Vec<bool>) -> (slot: Result<Slot, HwGiveUp>)
        requires
            self.well_formed(),
            free@.len() == self@.len,
        ensures
            match slot {
                Ok(slot) => is_slot(free@, Some(slot)),
                Err(HwGiveUp::ExportFailed(why)) => {
                    &&& is_slot(free@, None)
                    &&& why@ == "all shared textures are still in use"@
                },
                Err(_) => false,
            },
    {
        let mut i: usize = 0;
        while i < free.len()
            invariant
                i <= free@.len(),
                forall|j: int| 0 <= j < i ==> !(#[trigger] free@[j]),
            decreases free@.len() - i,
        {
            if free[i] {
                return Ok(Slot::Reuse(i));
            }
            i += 1;
        }
        if self.len >= POOL_DEPTH {
            return Err(
                HwGiveUp::ExportFailed(String::from_str("all shared textures are still in use")),
            );
        }
        Ok(Slot::Create)
    }

    /// Add a texture that was created to the ring, at its end.
    pub fn slot_created(&mut self)
        requires
            old(self).well_formed(),
            old(self)@.len < POOL_DEPTH,
        ensures
            final(self).well_formed(),
            final(self)@ == (PoolState { len: old(self)@.len + 1, ..old(self)@ }),
    {
        self.len += 1;
    }
}

/// **A texture still on screen is never written into.** Whatever slot a frame is given, no
/// surface downstream holds it: it is free, or it is new.
pub proof fn a_slot_is_never_in_use(free: Seq<bool>, slot: Slot)
    requires
        is_slot(free, Some(slot)),
    ensures
        slot matches Slot::Reuse(at) ==> (at as int) < free.len() && free[at as int],
        slot is Create ==> free.len() < POOL_DEPTH,
{
}

/// **Where a frame goes is settled.** There is one place for it: a texture that is free wherever
/// any is, a new one only while all are in use and there is room, and nowhere only once the ring
/// is full and in use.
pub proof fn where_a_frame_goes_is_settled(free: Seq<bool>, a: Option<Slot>, b: Option<Slot>)
    requires
        is_slot(free, a),
        is_slot(free, b),
    ensures
        a == b,
        a is None ==> free.len() >= POOL_DEPTH,
        free.contains(true) <==> (a matches Some(slot) && slot is Reuse),
{
    if free.contains(true) {
        let i = choose|i: int| 0 <= i < free.len() && free[i] == true;
        assert(free[i]);
    }
    match (a, b) {
        (Some(Slot::Reuse(x)), Some(Slot::Reuse(y))) => {
            if x < y {
                assert(!free[x as int]);
            } else if y < x {
                assert(!free[y as int]);
            }
        },
        _ => {},
    }
    if let Some(Slot::Reuse(at)) = a {
        assert(free.contains(free[at as int]));
    }
}

/// **An exporter needs every part of its device**, and says which is missing, the outermost
/// first.
pub proof fn an_exporter_needs_every_part(parts: ContextParts, inner: ContextParts)
    ensures
        context_refusal(parts) is None <==> parts.context && parts.hwctx && parts.device,
        !parts.context && !inner.context ==> context_refusal(parts) == context_refusal(inner),
        parts.context && inner.context && !parts.hwctx && !inner.hwctx ==> context_refusal(parts)
            == context_refusal(inner),
{
}

/// **Every frame has an answer.** Whatever is free, there is a place for it or there is none.
pub proof fn every_frame_has_an_answer(free: Seq<bool>, at: usize)
    ensures
        free.len() < POOL_DEPTH && (forall|i: int| 0 <= i < free.len() ==> !(#[trigger] free[i]))
            ==> is_slot(free, Some(Slot::Create)),
        free.len() >= POOL_DEPTH && (forall|i: int| 0 <= i < free.len() ==> !(#[trigger] free[i]))
            ==> is_slot(free, None),
        (at as int) < free.len() && free[at as int] && (forall|i: int|
            0 <= i < at ==> !(#[trigger] free[i])) ==> is_slot(free, Some(Slot::Reuse(at))),
{
}

/// **A call is believed only where it gave what it was called for, and a fence is awaited only
/// while it is pending.**
pub proof fn a_call_is_judged_by_its_code(
    call: &str,
    code: i32,
    gave: bool,
    checked: Result<(), HwGiveUp>,
    poll: FencePoll,
)
    requires
        call_ensures(check_call, (call, code, gave), checked),
        call_ensures(poll_fence, (code,), poll),
    ensures
        checked is Ok <==> code == 0 && gave,
        checked matches Err(reason) ==> reason is ExportFailed,
        poll is Retired <==> code == 0,
        poll is Pending <==> code > 0,
        poll is Failed <==> code < 0,
{
}

} // verus!
