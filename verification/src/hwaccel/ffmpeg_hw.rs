//! Negotiating a hardware pixel format with a decoder, and reading what a decoded frame
//! says of its colours.
use super::{HwBackendKind, HwGiveUp};
use vstd::prelude::*;

verus! {

/// The matrix a stream says its colours are in, as the decoder spells it.
#[derive(Debug, Clone, Copy, PartialEq, Eq, Structural)]
pub enum StreamSpace {
    /// BT.709.
    Bt709,
    /// BT.470BG: BT.601 as PAL spells it.
    Bt470bg,
    /// SMPTE 170M: BT.601 as NTSC spells it.
    Smpte170m,
    /// SMPTE 240M.
    Smpte240m,
    /// BT.2020 with non-constant luminance.
    Bt2020Ncl,
    /// The stream does not say.
    Unspecified,
    /// Any other matrix.
    Other,
}

/// The range a stream says its samples span, as the decoder spells it.
#[derive(Debug, Clone, Copy, PartialEq, Eq, Structural)]
pub enum StreamRange {
    /// The full range, as in JPEG.
    Jpeg,
    /// The limited range, as in MPEG.
    Mpeg,
    /// Anything else, including not saying.
    Other,
}

/// The matrix a stream signalled.
#[derive(Debug, Clone, Copy, PartialEq, Eq, Structural)]
pub enum SignalledSpace {
    /// BT.601.
    Bt601,
    /// BT.709.
    Bt709,
    /// BT.2020 with non-constant luminance.
    Bt2020Ncl,
    /// Nothing was said.
    Unspecified,
    /// Something was said that there is no conversion for.
    Unsupported,
}

/// The range a stream signalled.
#[derive(Debug, Clone, Copy, PartialEq, Eq, Structural)]
pub enum SignalledRange {
    /// The full range.
    Full,
    /// The limited range.
    Limited,
    /// Nothing was said.
    Unspecified,
}

/// What a decoded frame says of its colours, with the height that an unlabelled frame is
/// judged by.
#[derive(Debug, Clone, Copy, PartialEq, Eq, Structural)]
pub struct SignalledColor {
    /// The matrix.
    pub space: SignalledSpace,
    /// The range.
    pub range: SignalledRange,
    /// The frame's height in pixels; zero where the frame gives none that makes sense.
    pub height: u32,
}

/// Read a decoded frame's colorimetry.
#[must_use]
pub fn color_of(space: StreamSpace, range: StreamRange, height: i32) -> (color: SignalledColor)
    ensures
        color.space == space_of(space),
        color.range == range_of(range),
        color.height == if height >= 0 {
            height as u32
        } else {
            0
        },
{
    SignalledColor {
        space: signalled_space(space),
        range: signalled_range(range),
        height: if height >= 0 {
            height as u32
        } else {
            0
        },
    }
}

/// The matrix a decoder's tag stands for. Both spellings of BT.601 are the same matrix.
pub open spec fn space_of(space: StreamSpace) -> SignalledSpace {
    match space {
        StreamSpace::Bt709 => SignalledSpace::Bt709,
        StreamSpace::Bt470bg => SignalledSpace::Bt601,
        StreamSpace::Smpte170m => SignalledSpace::Bt601,
        StreamSpace::Smpte240m => SignalledSpace::Bt601,
        StreamSpace::Bt2020Ncl => SignalledSpace::Bt2020Ncl,
        StreamSpace::Unspecified => SignalledSpace::Unspecified,
        StreamSpace::Other => SignalledSpace::Unsupported,
    }
}

/// The matrix a decoder's tag stands for.
pub fn signalled_space(space: StreamSpace) -> (signalled: SignalledSpace)
    ensures
        signalled == space_of(space),
{
    match space {
        StreamSpace::Bt709 => SignalledSpace::Bt709,
        StreamSpace::Bt470bg => SignalledSpace::Bt601,
        StreamSpace::Smpte170m => SignalledSpace::Bt601,
        StreamSpace::Smpte240m => SignalledSpace::Bt601,
        StreamSpace::Bt2020Ncl => SignalledSpace::Bt2020Ncl,
        StreamSpace::Unspecified => SignalledSpace::Unspecified,
        StreamSpace::Other => SignalledSpace::Unsupported,
    }
}

/// The range a decoder's tag stands for.
pub open spec fn range_of(range: StreamRange) -> SignalledRange {
    match range {
        StreamRange::Jpeg => SignalledRange::Full,
        StreamRange::Mpeg => SignalledRange::Limited,
        StreamRange::Other => SignalledRange::Unspecified,
    }
}

/// The range a decoder's tag stands for.
pub fn signalled_range(range: StreamRange) -> (signalled: SignalledRange)
    ensures
        signalled == range_of(range),
{
    match range {
        StreamRange::Jpeg => SignalledRange::Full,
        StreamRange::Mpeg => SignalledRange::Limited,
        StreamRange::Other => SignalledRange::Unspecified,
    }
}

/// How many entries of a decoder's list are looked at: a stop in case the list is not
/// terminated.
pub const MAX_ENTRIES: usize = 64;

/// The pixel format that stands for "none", and ends a decoder's list.
pub const PIX_FMT_NONE: i32 = -1;

/// A pixel format that a decoder offers.
#[derive(Debug, Clone, Copy, PartialEq, Eq, Structural)]
pub struct OfferedFormat {
    /// The format.
    pub format: i32,
    /// Whether it denotes a surface on an accelerator rather than pixels in memory.
    pub hardware: bool,
}

/// How many of the offered formats are looked at: those before the end of the list, and no
/// more than [`MAX_ENTRIES`].
pub open spec fn offer_len(offered: Seq<OfferedFormat>) -> nat
    decreases offered.len(),
{
    if offered.len() == 0 || offered[0].format == PIX_FMT_NONE {
        0
    } else {
        1 + offer_len(offered.drop_first())
    }
}

/// The formats that are looked at.
pub open spec fn looked_at(offered: Seq<OfferedFormat>) -> Seq<OfferedFormat> {
    let n = offer_len(offered);
    offered.take(
        if n <= MAX_ENTRIES {
            n as int
        } else {
            MAX_ENTRIES as int
        },
    )
}

/// The first format in a list that lives in system memory, or none.
pub open spec fn first_software(offered: Seq<OfferedFormat>) -> i32
    decreases offered.len(),
{
    if offered.len() == 0 {
        PIX_FMT_NONE
    } else if !offered[0].hardware {
        offered[0].format
    } else {
        first_software(offered.drop_first())
    }
}

/// Whether a list holds a format.
pub open spec fn offers(offered: Seq<OfferedFormat>, wanted: i32) -> bool {
    exists|i: int| 0 <= i < offered.len() && (#[trigger] offered[i]).format == wanted
}

/// What negotiation wants and what came of it: the hardware pixel format to pick, and
/// whether a list has been without it since that was last asked.
#[derive(Debug, Clone, Copy, PartialEq, Eq, Structural)]
pub struct Negotiation {
    /// The hardware pixel format to pick.
    pub wanted: i32,
    /// Whether a list has been without it, and nobody has asked since.
    pub rejected: bool,
}

impl Negotiation {
    /// Nothing wanted yet.
    pub fn new() -> (negotiation: Negotiation)
        ensures
            negotiation == (Negotiation { wanted: PIX_FMT_NONE, rejected: false }),
    {
        Negotiation { wanted: PIX_FMT_NONE, rejected: false }
    }

    /// Want this format from now on, with nothing refused yet.
    pub fn want(&mut self, format: i32)
        ensures
            *final(self) == (Negotiation { wanted: format, rejected: false }),
    {
        self.wanted = format;
        self.rejected = false;
    }

    /// Answer a decoder's list of formats.
    ///
    /// Picking the hardware format commits the decoder to GPU surfaces. A list without it
    /// is how a driver says "not this stream": the refusal is noted, and the answer is the
    /// first *software* format, because another accelerator's format would make the
    /// decoder reject the setup outright instead of decoding on the CPU. `None` stands for
    /// a decoder that gave no list at all.
    pub fn choose_format(&mut self, offered: Option<&Vec<OfferedFormat>>) -> (format: i32)
        ensures
            final(self).wanted == old(self).wanted,
            format != old(self).wanted ==> final(self).rejected,
            match offered {
                None => format == PIX_FMT_NONE && final(self).rejected,
                Some(list) => {
                    let seen = looked_at(list@);
                    if offers(seen, old(self).wanted) {
                        &&& format == old(self).wanted
                        &&& final(self).rejected == old(self).rejected
                    } else {
                        &&& format == first_software(seen)
                        &&& final(self).rejected
                    }
                },
            },
    {
        let list: &Vec<OfferedFormat> = match offered {
            Some(list) => list,
            None => {
                self.rejected = true;
                return PIX_FMT_NONE;
            },
        };
        let mut software: i32 = PIX_FMT_NONE;
        let mut i: usize = 0;
        let wanted: i32 = self.wanted;
        let ghost seen = looked_at(list@);
        proof {
            offer_len_bound(list@);
        }
        while i < MAX_ENTRIES && i < list.len() && list[i].format != PIX_FMT_NONE
            invariant
                i <= MAX_ENTRIES,
                i <= list@.len(),
                i <= offer_len(list@) <= list@.len(),
                offer_len(list@) == i + offer_len(list@.skip(i as int)),
                seen == looked_at(list@),
                offered == Some(list),
                wanted == self.wanted,
                self.wanted == old(self).wanted,
                self.rejected == old(self).rejected,
                forall|j: int| 0 <= j < i ==> (#[trigger] list@[j]).format != wanted,
                software == first_software(list@.take(i as int)),
                forall|j: int| 0 <= j < i ==> (#[trigger] list@[j]).format != PIX_FMT_NONE,
            decreases MAX_ENTRIES - i,
        {
            let entry: OfferedFormat = list[i];
            proof {
                assert(list@.skip(i as int).drop_first() =~= list@.skip(i + 1));
                assert(list@.skip(i as int)[0] == list@[i as int]);
                first_software_of_one_more(list@.take(i as int), list@[i as int]);
                assert(list@.take(i + 1) =~= list@.take(i as int).push(list@[i as int]));
            }
            if entry.format == wanted {
                proof {
                    assert(seen[i as int] == list@[i as int]);
                    assert(offers(seen, wanted));
                }
                return entry.format;
            }
            if software == PIX_FMT_NONE && !entry.hardware {
                software = entry.format;
            }
            i += 1;
        }
        proof {
            if i < list@.len() && i < MAX_ENTRIES {
                assert(list@.skip(i as int)[0] == list@[i as int]);
            }
            assert(seen =~= list@.take(i as int));
        }
        self.rejected = true;
        software
    }
}

/// Whether a list was offered without the hardware format — that is, the driver declined
/// this stream. Clears the flag, so a refusal is reported once.
#[must_use]
pub fn take_format_rejected(negotiation: &mut Negotiation) -> (rejected: bool)
    ensures
        rejected == old(negotiation).rejected,
        *final(negotiation) == (Negotiation { rejected: false, ..*old(negotiation) }),
{
    let rejected: bool = negotiation.rejected;
    negotiation.rejected = false;
    rejected
}

proof fn offer_len_bound(offered: Seq<OfferedFormat>)
    ensures
        offer_len(offered) <= offered.len(),
        offered.skip(0) == offered,
    decreases offered.len(),
{
    assert(offered.skip(0) =~= offered);
    if offered.len() > 0 {
        offer_len_bound(offered.drop_first());
    }
}

proof fn first_software_of_one_more(offered: Seq<OfferedFormat>, next: OfferedFormat)
    requires
        forall|j: int| 0 <= j < offered.len() ==> (#[trigger] offered[j]).format != PIX_FMT_NONE,
    ensures
        first_software(offered.push(next)) == if first_software(offered) != PIX_FMT_NONE {
            first_software(offered)
        } else if !next.hardware {
            next.format
        } else {
            PIX_FMT_NONE
        },
    decreases offered.len(),
{
    if offered.len() > 0 {
        assert(offered.push(next).drop_first() =~= offered.drop_first().push(next));
        assert(offered.push(next)[0] == offered[0]);
        assert(offered[0].format != PIX_FMT_NONE);
        assert forall|j: int| 0 <= j < offered.drop_first().len() implies (
        #[trigger] offered.drop_first()[j]).format != PIX_FMT_NONE by {
            assert(offered[j + 1].format != PIX_FMT_NONE);
        }
        first_software_of_one_more(offered.drop_first(), next);
    } else {
        let one = offered.push(next);
        assert(one[0] == next);
        assert(one.drop_first() =~= Seq::<OfferedFormat>::empty());
        assert(first_software(one.drop_first()) == PIX_FMT_NONE);
    }
}

/// One hardware configuration of a decoder.
#[derive(Debug, Clone, Copy, PartialEq, Eq, Structural)]
pub struct HwConfig {
    /// The backend family whose device it is for, where it is one of ours.
    pub device: Option<HwBackendKind>,
    /// Whether it is set up by handing the decoder a device.
    pub by_device_context: bool,
    /// The pixel format its frames carry.
    pub pix_fmt: i32,
}

/// Whether a configuration is the one for a backend.
pub open spec fn config_for(config: HwConfig, kind: HwBackendKind) -> bool {
    config.by_device_context && config.device == Some(kind)
}

/// Whether `format` is that of the first configuration for a backend among the first
/// [`MAX_ENTRIES`], or `None` where there is none.
pub open spec fn is_first_config(
    configs: Seq<HwConfig>,
    kind: HwBackendKind,
    format: Option<i32>,
) -> bool {
    match format {
        Some(format) => exists|i: int|
            {
                &&& 0 <= i < configs.len() && i < MAX_ENTRIES
                &&& config_for(#[trigger] configs[i], kind)
                &&& configs[i].pix_fmt == format
                &&& forall|j: int| 0 <= j < i ==> !config_for(#[trigger] configs[j], kind)
            },
        None => forall|i: int|
            0 <= i < configs.len() && i < MAX_ENTRIES ==> !config_for(#[trigger] configs[i], kind),
    }
}

/// Find the pixel format a decoder's hardware configuration uses, if it has one for `kind`.
pub fn hw_pixel_format(configs: &Vec<HwConfig>, kind: HwBackendKind) -> (format: Option<i32>)
    ensures
        is_first_config(configs@, kind, format),
{
    let mut i: usize = 0;
    while i < MAX_ENTRIES && i < configs.len()
        invariant
            i <= configs@.len(),
            forall|j: int| 0 <= j < i ==> !config_for(#[trigger] configs@[j], kind),
        decreases configs@.len() - i,
    {
        let config: HwConfig = configs[i];
        let ours: bool = match config.device {
            Some(device) => device == kind,
            None => false,
        };
        if config.by_device_context && ours {
            proof {
                assert(config_for(configs@[i as int], kind));
            }
            return Some(config.pix_fmt);
        }
        i += 1;
    }
    None
}

/// Point a decoder at a hardware device: pick its pixel format and set negotiation up to
/// ask for it. `None` stands for a codec with no decoder at all.
pub fn attach(
    negotiation: &mut Negotiation,
    configs: Option<&Vec<HwConfig>>,
    kind: HwBackendKind,
) -> (format: Result<i32, HwGiveUp>)
    ensures
        match format {
            Ok(format) => {
                &&& configs is Some
                &&& is_first_config(configs->0@, kind, Some(format))
                &&& *final(negotiation) == (Negotiation { wanted: format, rejected: false })
            },
            Err(reason) => {
                &&& configs is None || is_first_config(configs->0@, kind, None)
                &&& reason == HwGiveUp::CodecUnsupported(kind)
                &&& *final(negotiation) == *old(negotiation)
            },
        },
{
    match configs {
        None => Err(HwGiveUp::CodecUnsupported(kind)),
        Some(configs) => match hw_pixel_format(configs, kind) {
            Some(format) => {
                negotiation.want(format);
                Ok(format)
            },
            None => Err(HwGiveUp::CodecUnsupported(kind)),
        },
    }
}

/// **The list is looked at up to its end.** What is looked at is how the list begins, none of it
/// is the end itself, and it stops only there, at the end of what there is, or at the most that
/// is ever looked at.
pub proof fn the_list_is_looked_at_up_to_its_end(offered: Seq<OfferedFormat>)
    ensures
        ({
            let seen = looked_at(offered);
            &&& seen.is_prefix_of(offered)
            &&& seen.len() <= MAX_ENTRIES
            &&& forall|i: int| 0 <= i < seen.len() ==> (#[trigger] seen[i]).format != PIX_FMT_NONE
            &&& seen.len() == offered.len() || seen.len() == MAX_ENTRIES || offered[seen.len()
                as int].format == PIX_FMT_NONE
        }),
{
    offer_len_bound(offered);
    the_end_is_the_first(offered);
}

proof fn the_end_is_the_first(offered: Seq<OfferedFormat>)
    ensures
        offer_len(offered) <= offered.len(),
        forall|i: int|
            0 <= i < offer_len(offered) ==> (#[trigger] offered[i]).format != PIX_FMT_NONE,
        offer_len(offered) < offered.len() ==> offered[offer_len(offered) as int].format
            == PIX_FMT_NONE,
    decreases offered.len(),
{
    if offered.len() > 0 && offered[0].format != PIX_FMT_NONE {
        let rest = offered.drop_first();
        the_end_is_the_first(rest);
        assert forall|i: int| 0 <= i < offer_len(offered) implies (#[trigger] offered[i]).format
            != PIX_FMT_NONE by {
            if i > 0 {
                assert(rest[i - 1] == offered[i]);
            }
        }
    }
}

/// **The fallback is the first format in memory.** It is one of the list that is no accelerator's,
/// every one before it is, and there is none only where the list has none.
pub proof fn the_fallback_is_the_first_in_memory(offered: Seq<OfferedFormat>)
    ensures
        (exists|i: int|
            #![trigger offered[i]]
            {
                &&& 0 <= i < offered.len()
                &&& !offered[i].hardware
                &&& offered[i].format == first_software(offered)
                &&& forall|j: int| 0 <= j < i ==> (#[trigger] offered[j]).hardware
            }) || (first_software(offered) == PIX_FMT_NONE && forall|j: int|
            0 <= j < offered.len() ==> (#[trigger] offered[j]).hardware),
    decreases offered.len(),
{
    if offered.len() > 0 {
        if !offered[0].hardware {
            assert(offered[0].format == first_software(offered));
        } else {
            let rest = offered.drop_first();
            the_fallback_is_the_first_in_memory(rest);
            if exists|i: int|
                #![trigger rest[i]]
                {
                    &&& 0 <= i < rest.len()
                    &&& !rest[i].hardware
                    &&& rest[i].format == first_software(rest)
                    &&& forall|j: int| 0 <= j < i ==> (#[trigger] rest[j]).hardware
                } {
                let i = choose|i: int|
                    #![trigger rest[i]]
                    {
                        &&& 0 <= i < rest.len()
                        &&& !rest[i].hardware
                        &&& rest[i].format == first_software(rest)
                        &&& forall|j: int| 0 <= j < i ==> (#[trigger] rest[j]).hardware
                    };
                assert(offered[i + 1] == rest[i]);
                assert forall|j: int| 0 <= j < i + 1 implies (#[trigger] offered[j]).hardware by {
                    if j > 0 {
                        assert(rest[j - 1] == offered[j]);
                    }
                }
            } else {
                assert forall|j: int| 0 <= j < offered.len() implies (
                #[trigger] offered[j]).hardware by {
                    if j > 0 {
                        assert(rest[j - 1] == offered[j]);
                    }
                }
            }
        }
    }
}

/// **A backend has one configuration.** Which one is its first is settled, and so is whether it
/// has one.
pub proof fn a_backend_has_one_configuration(
    configs: Seq<HwConfig>,
    kind: HwBackendKind,
    a: Option<i32>,
    b: Option<i32>,
)
    requires
        is_first_config(configs, kind, a),
        is_first_config(configs, kind, b),
    ensures
        a == b,
{
    if a is Some && b is Some {
        let i = choose|i: int|
            {
                &&& 0 <= i < configs.len() && i < MAX_ENTRIES
                &&& config_for(#[trigger] configs[i], kind)
                &&& configs[i].pix_fmt == a->0
                &&& forall|j: int| 0 <= j < i ==> !config_for(#[trigger] configs[j], kind)
            };
        let k = choose|k: int|
            {
                &&& 0 <= k < configs.len() && k < MAX_ENTRIES
                &&& config_for(#[trigger] configs[k], kind)
                &&& configs[k].pix_fmt == b->0
                &&& forall|j: int| 0 <= j < k ==> !config_for(#[trigger] configs[j], kind)
            };
        assert(i == k);
    }
}

/// **A configuration is for one backend, and only where a device sets it up.**
pub proof fn a_configuration_is_for_one_backend(
    config: HwConfig,
    kind: HwBackendKind,
    other: HwBackendKind,
)
    ensures
        config_for(config, kind) && config_for(config, other) ==> kind == other,
        config_for(config, kind) ==> config.by_device_context,
        config.by_device_context && config.device == Some(kind) ==> config_for(config, kind),
{
}

/// **A tag says what it says and no more.** The three spellings of BT.601 are one matrix and
/// nothing else is; what is not said is not guessed at; and full and limited range are never
/// taken for each other.
pub proof fn a_tag_says_what_it_says(space: StreamSpace, range: StreamRange)
    ensures
        space_of(space) == SignalledSpace::Bt601 <==> space == StreamSpace::Bt470bg || space
            == StreamSpace::Smpte170m || space == StreamSpace::Smpte240m,
        space_of(space) == SignalledSpace::Bt709 <==> space == StreamSpace::Bt709,
        space_of(space) == SignalledSpace::Bt2020Ncl <==> space == StreamSpace::Bt2020Ncl,
        space_of(space) == SignalledSpace::Unspecified <==> space == StreamSpace::Unspecified,
        range_of(range) == SignalledRange::Full <==> range == StreamRange::Jpeg,
        range_of(range) == SignalledRange::Limited <==> range == StreamRange::Mpeg,
{
}

/// **A frame's colours are read off its tags.** Its height is its own, and none where it gives
/// one below zero.
pub proof fn a_frames_colours_are_read_off_its_tags(
    space: StreamSpace,
    range: StreamRange,
    height: i32,
    color: SignalledColor,
)
    requires
        call_ensures(color_of, (space, range, height), color),
    ensures
        color.space == space_of(space) && color.range == range_of(range),
        height >= 0 ==> color.height == height,
        height < 0 ==> color.height == 0,
{
}

/// **A list offers what is on it.** An empty list offers nothing, and one format more offers that
/// format besides.
pub proof fn a_list_offers_what_is_on_it(
    offered: Seq<OfferedFormat>,
    next: OfferedFormat,
    wanted: i32,
)
    ensures
        !offers(Seq::<OfferedFormat>::empty(), wanted),
        offers(offered.push(next), wanted) <==> offers(offered, wanted) || next.format == wanted,
{
    let more = offered.push(next);
    if offers(offered, wanted) {
        let i = choose|i: int| 0 <= i < offered.len() && (#[trigger] offered[i]).format == wanted;
        assert(more[i].format == wanted);
    }
    assert(more[offered.len() as int] == next);
    if offers(more, wanted) {
        let i = choose|i: int| 0 <= i < more.len() && (#[trigger] more[i]).format == wanted;
        if i < offered.len() {
            assert(offered[i] == more[i]);
        }
    }
}

/// **The first configuration for a backend is the one it gets.** What comes before it is for
/// others, what comes after it does not matter, and where there are none it gets none.
pub proof fn the_first_configuration_is_the_one(
    others: Seq<HwConfig>,
    config: HwConfig,
    rest: Seq<HwConfig>,
    kind: HwBackendKind,
)
    requires
        others.len() < MAX_ENTRIES,
        forall|i: int| 0 <= i < others.len() ==> !config_for(#[trigger] others[i], kind),
    ensures
        is_first_config(others, kind, None),
        config_for(config, kind) ==> is_first_config(
            others + seq![config] + rest,
            kind,
            Some(config.pix_fmt),
        ),
{
    let all = others + seq![config] + rest;
    let at = others.len() as int;
    if config_for(config, kind) {
        assert(all[at] == config);
        assert(config_for(all[at], kind));
        assert forall|j: int| 0 <= j < at implies !config_for(#[trigger] all[j], kind) by {
            assert(all[j] == others[j]);
        }
    }
}

} // verus!
