//! The panel's own mark, as the bytes that a window icon and an image encoder take.
//!
//! The renderer stores premultiplied alpha; its consumers want straight.
use resvg::tiny_skia::PremultipliedColorU8;
use vstd::prelude::*;

verus! {

/// The side of the window icon, in pixels: the largest anything asks for without being
/// wasteful to ship in every window.
pub const WINDOW_ICON_SIDE: u32 = 64;

/// One pixel.
#[derive(Debug, Clone, Copy, PartialEq, Eq, Structural)]
pub struct Pixel {
    /// Red.
    pub red: u8,
    /// Green.
    pub green: u8,
    /// Blue.
    pub blue: u8,
    /// How opaque it is.
    pub alpha: u8,
}

impl Pixel {
    /// Whether its colours can have been multiplied by its alpha.
    pub open spec fn is_premultiplied(self) -> bool {
        self.red <= self.alpha && self.green <= self.alpha && self.blue <= self.alpha
    }
}

/// A colour's value before it was multiplied by an alpha.
pub uninterp spec fn straight_value(value: u8, alpha: u8) -> u8;

/// A premultiplied pixel with its alpha taken out of its colours again.
pub open spec fn straightened(pixel: Pixel) -> Pixel {
    Pixel {
        red: straight_value(pixel.red, pixel.alpha),
        green: straight_value(pixel.green, pixel.alpha),
        blue: straight_value(pixel.blue, pixel.alpha),
        alpha: pixel.alpha,
    }
}

/// Take the alpha out of a pixel's colours: `PremultipliedColorU8::demultiply`, which gives
/// every colour a value that depends on that colour and the alpha alone, keeps the alpha, and
/// leaves an opaque pixel as it is. A pixel that cannot have been premultiplied is no
/// `PremultipliedColorU8`.
#[verifier::external_body]
fn demultiply(pixel: Pixel) -> (straight: Option<Pixel>)
    ensures
        match straight {
            Some(straight) => {
                &&& pixel.is_premultiplied()
                &&& straight == (Pixel {
                    red: straight_value(pixel.red, pixel.alpha),
                    green: straight_value(pixel.green, pixel.alpha),
                    blue: straight_value(pixel.blue, pixel.alpha),
                    alpha: pixel.alpha,
                })
                &&& pixel.alpha == 255 ==> straight == pixel
            },
            None => !pixel.is_premultiplied(),
        },
{
    let color =
        PremultipliedColorU8::from_rgba(pixel.red, pixel.green, pixel.blue, pixel.alpha)?
            .demultiply();
    Some(Pixel {
        red: color.red(),
        green: color.green(),
        blue: color.blue(),
        alpha: color.alpha(),
    })
}

/// Pixels as bytes: red, green, blue and alpha of each in turn.
pub open spec fn bytes_of(pixels: Seq<Pixel>) -> Seq<u8>
    decreases pixels.len(),
{
    if pixels.len() == 0 {
        Seq::empty()
    } else {
        let last = pixels.last();
        bytes_of(pixels.drop_last()) + seq![last.red, last.green, last.blue, last.alpha]
    }
}

/// The straight-alpha bytes of what was drawn. `None` where a pixel cannot have been drawn.
pub fn rgba(pixels: &Vec<Pixel>) -> (bytes: Option<Vec<u8>>)
    ensures
        match bytes {
            Some(bytes) => {
                &&& forall|i: int|
                    0 <= i < pixels@.len() ==> (#[trigger] pixels@[i]).is_premultiplied()
                &&& bytes@ == bytes_of(pixels@.map_values(|pixel: Pixel| straightened(pixel)))
                &&& (forall|i: int| 0 <= i < pixels@.len() ==> (#[trigger] pixels@[i]).alpha == 255)
                    ==> bytes@ == bytes_of(pixels@)
            },
            None => exists|i: int|
                0 <= i < pixels@.len() && !(#[trigger] pixels@[i]).is_premultiplied(),
        },
{
    let ghost straight = pixels@.map_values(|pixel: Pixel| straightened(pixel));
    let mut bytes: Vec<u8> = Vec::new();
    let mut i: usize = 0;
    proof {
        assert(straight.take(0) =~= Seq::empty());
        assert(pixels@.take(0) =~= Seq::empty());
    }
    while i < pixels.len()
        invariant
            i <= pixels@.len(),
            straight == pixels@.map_values(|pixel: Pixel| straightened(pixel)),
            forall|k: int| 0 <= k < i ==> (#[trigger] pixels@[k]).is_premultiplied(),
            bytes@ == bytes_of(straight.take(i as int)),
            (forall|k: int| 0 <= k < i ==> (#[trigger] pixels@[k]).alpha == 255) ==> bytes@
                == bytes_of(pixels@.take(i as int)),
        decreases pixels@.len() - i,
    {
        let pixel = pixels[i];
        let ghost held = bytes@;
        match demultiply(pixel) {
            Some(color) => {
                bytes.push(color.red);
                bytes.push(color.green);
                bytes.push(color.blue);
                bytes.push(color.alpha);
                proof {
                    assert(straight.take(i + 1).drop_last() =~= straight.take(i as int));
                    assert(straight.take(i + 1).last() == color);
                    assert(pixels@.take(i + 1).drop_last() =~= pixels@.take(i as int));
                    assert(pixels@.take(i + 1).last() == pixel);
                    assert(bytes@ =~= held + seq![color.red, color.green, color.blue, color.alpha]);
                    assert((forall|k: int| 0 <= k < i + 1 ==> (#[trigger] pixels@[k]).alpha == 255)
                        ==> pixels@[i as int].alpha == 255);
                }
            },
            None => {
                return None;
            },
        }
        i += 1;
    }
    proof {
        assert(straight.take(i as int) =~= straight);
        assert(pixels@.take(i as int) =~= pixels@);
    }
    Some(bytes)
}

/// **A raster is four bytes to a pixel.**
pub proof fn a_raster_is_four_bytes_to_a_pixel(pixels: Seq<Pixel>)
    ensures
        bytes_of(pixels).len() == pixels.len() * 4,
    decreases pixels.len(),
{
    if pixels.len() > 0 {
        a_raster_is_four_bytes_to_a_pixel(pixels.drop_last());
    }
}

/// **Every byte is a colour of its pixel.** The four bytes of a pixel stand together where it
/// stands, red, green, blue and then how opaque it is.
pub proof fn every_byte_is_a_colour_of_its_pixel(pixels: Seq<Pixel>, at: int)
    requires
        0 <= at < pixels.len(),
    ensures
        bytes_of(pixels)[4 * at] == pixels[at].red,
        bytes_of(pixels)[4 * at + 1] == pixels[at].green,
        bytes_of(pixels)[4 * at + 2] == pixels[at].blue,
        bytes_of(pixels)[4 * at + 3] == pixels[at].alpha,
    decreases pixels.len(),
{
    a_raster_is_four_bytes_to_a_pixel(pixels.drop_last());
    if at < pixels.len() - 1 {
        every_byte_is_a_colour_of_its_pixel(pixels.drop_last(), at);
    }
}

/// **Straightening keeps what is not a colour, and treats every colour alike.**
pub proof fn straightening_treats_every_colour_alike(pixel: Pixel)
    ensures
        straightened(pixel).alpha == pixel.alpha,
        pixel.red == pixel.green ==> straightened(pixel).red == straightened(pixel).green,
        pixel.green == pixel.blue ==> straightened(pixel).green == straightened(pixel).blue,
        straightened(pixel).blue == straightened(
            Pixel { red: pixel.blue, green: pixel.red, blue: pixel.green, alpha: pixel.alpha },
        ).red,
{
}

/// **A premultiplied colour is no stronger than its pixel is opaque.** Each of the three is held
/// to that, an opaque pixel always is one, and a clear one only where it is black.
pub proof fn a_premultiplied_colour_is_held_to_its_alpha(pixel: Pixel)
    ensures
        pixel.red > pixel.alpha || pixel.green > pixel.alpha || pixel.blue > pixel.alpha
            ==> !pixel.is_premultiplied(),
        pixel.alpha == 255 ==> pixel.is_premultiplied(),
        pixel.alpha == 0 ==> (pixel.is_premultiplied() <==> pixel.red == 0 && pixel.green == 0
            && pixel.blue == 0),
        pixel.red <= pixel.alpha && pixel.green <= pixel.alpha && pixel.blue <= pixel.alpha
            ==> pixel.is_premultiplied(),
{
}

} // verus!
