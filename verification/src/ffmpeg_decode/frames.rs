//! Decoded pictures on their way out.
use crate::buffers::{bytes_from, held};
use crate::media::{DecodedFrame, PixelFormat};
use crate::span::Span;
use vstd::prelude::*;

verus! {

/// The first `rows` rows of a picture, one straight after the other: of each row the
/// leading `row_bytes`, without the padding up to `stride`.
pub open spec fn packed_rows(src: Seq<u8>, stride: nat, row_bytes: nat, rows: nat) -> Seq<u8>
    decreases rows,
{
    if rows == 0 {
        Seq::empty()
    } else {
        let start = (rows - 1) * stride;
        packed_rows(src, stride, row_bytes, (rows - 1) as nat) + src.subrange(
            start,
            start + row_bytes,
        )
    }
}

/// Whether every row of a picture lies inside its buffer.
pub open spec fn rows_fit(len: nat, stride: nat, row_bytes: nat, rows: nat) -> bool {
    rows > 0 ==> (rows - 1) * stride + row_bytes <= len
}

/// Copy a scaled RGBA picture into a frame of its own, stripping row padding (the scaler
/// may pad the stride past four bytes a pixel).
pub fn to_decoded_frame(width: u32, height: u32, stride: usize, src: &[u8], pts: Span) -> (frame:
    DecodedFrame)
    requires
        width * 4 <= usize::MAX,
        rows_fit(src@.len(), stride as nat, (width * 4) as nat, height as nat),
    ensures
        frame.width == width,
        frame.height == height,
        frame.format == PixelFormat::Rgba8,
        frame.pts == pts,
        held(frame.data) == packed_rows(
            src@,
            stride as nat,
            (width * 4) as nat,
            height as nat,
        ),
{
    let row_bytes: usize = width as usize * 4;
    let mut data: Vec<u8> = Vec::new();
    let len: usize = src.len();
    let mut row: u32 = 0;
    let mut start: usize = 0;
    while row < height
        invariant
            row <= height,
            row < height ==> start == row * stride,
            row_bytes == width * 4,
            len == src@.len(),
            rows_fit(src@.len(), stride as nat, row_bytes as nat, height as nat),
            data@ == packed_rows(src@, stride as nat, row_bytes as nat, row as nat),
        decreases height - row,
    {
        proof {
            assert(row * stride <= (height - 1) * stride) by (nonlinear_arith)
                requires
                    row <= height - 1,
                    stride >= 0,
            ;
        }
        assert(start + row_bytes <= len);
        let ghost before = data@;
        data.extend_from_slice(&src[start..start + row_bytes]);
        proof {
            let line = src@.subrange(start as int, start + row_bytes);
            assert(data@ =~= before + line);
        }
        row += 1;
        if row < height {
            proof {
                assert(row * stride <= (height - 1) * stride) by (nonlinear_arith)
                    requires
                        row <= height - 1,
                        stride >= 0,
                ;
                assert(row * stride == (row - 1) * stride + stride) by (nonlinear_arith);
            }
            assert(start + stride <= len);
            start += stride;
        }
    }
    DecodedFrame { width, height, format: PixelFormat::Rgba8, pts, data: bytes_from(data) }
}

/// **A packed picture is exactly as long as its pixels.** Stripping the padding leaves
/// `row_bytes` for each row and nothing else.
pub proof fn packed_length(src: Seq<u8>, stride: nat, row_bytes: nat, rows: nat)
    requires
        rows_fit(src.len(), stride, row_bytes, rows),
    ensures
        packed_rows(src, stride, row_bytes, rows).len() == row_bytes * rows,
    decreases rows,
{
    if rows > 0 {
        let start = (rows - 1) * stride;
        if rows > 1 {
            assert((rows - 2) * stride + row_bytes <= start + row_bytes) by (nonlinear_arith)
                requires
                    start == (rows - 1) * stride,
                    rows > 1,
                    stride >= 0,
            ;
        }
        packed_length(src, stride, row_bytes, (rows - 1) as nat);
        assert(start >= 0) by (nonlinear_arith)
            requires
                start == (rows - 1) * stride,
                rows > 0,
                stride >= 0,
        ;
        assert(row_bytes * rows == row_bytes * (rows - 1) + row_bytes) by (nonlinear_arith)
            requires
                rows > 0,
        ;
    } else {
        assert(row_bytes * rows == 0) by (nonlinear_arith)
            requires
                rows == 0,
        ;
    }
}

/// **A packed picture holds its pixels where they belong.** Byte `column` of row `row` is what
/// stood there in the padded picture.
pub proof fn a_packed_picture_holds_its_pixels(
    src: Seq<u8>,
    stride: nat,
    row_bytes: nat,
    rows: nat,
    row: nat,
    column: nat,
)
    requires
        rows_fit(src.len(), stride, row_bytes, rows),
        row < rows,
        column < row_bytes,
    ensures
        packed_rows(src, stride, row_bytes, rows)[(row * row_bytes + column) as int] == src[(row
            * stride + column) as int],
    decreases rows,
{
    let fewer = (rows - 1) as nat;
    let start = fewer * stride;
    if rows > 1 {
        assert((rows - 2) * stride + row_bytes <= start + row_bytes) by (nonlinear_arith)
            requires
                start == (rows - 1) * stride,
                rows > 1,
                stride >= 0,
        ;
    }
    packed_length(src, stride, row_bytes, fewer);
    assert(start >= 0) by (nonlinear_arith)
        requires
            start == fewer * stride,
            fewer >= 0,
            stride >= 0,
    ;
    if row < fewer {
        a_packed_picture_holds_its_pixels(src, stride, row_bytes, fewer, row, column);
        assert(row * row_bytes + column < row_bytes * fewer) by (nonlinear_arith)
            requires
                row + 1 <= fewer,
                column < row_bytes,
        ;
    } else {
        assert(row * row_bytes == row_bytes * fewer) by (nonlinear_arith)
            requires
                row == fewer,
        ;
    }
}

/// **A picture fits exactly where its last row does.** Whatever stands behind that row is not
/// needed, and one byte less is too few.
pub proof fn a_picture_fits_where_its_last_row_does(stride: nat, row_bytes: nat, rows: nat, len: nat)
    requires
        rows > 0,
    ensures
        rows_fit(len, stride, row_bytes, rows) <==> ((rows - 1) * stride + row_bytes) <= len,
        rows_fit(((rows - 1) * stride + row_bytes) as nat, stride, row_bytes, rows),
        rows_fit(len, stride, row_bytes, 0),
{
    assert((rows - 1) * stride >= 0) by (nonlinear_arith)
        requires
            rows > 0,
            stride >= 0,
    ;
}

/// **A decoded frame is its picture.** It is as large as it was said to be, is presented when it
/// was said to be, and holds, four bytes to a pixel, what stood at each place of the padded
/// picture.
pub proof fn a_decoded_frame_is_its_picture(
    width: u32,
    height: u32,
    stride: usize,
    src: &[u8],
    pts: Span,
    frame: DecodedFrame,
    row: nat,
    column: nat,
)
    requires
        rows_fit(src@.len(), stride as nat, (width * 4) as nat, height as nat),
        call_ensures(to_decoded_frame, (width, height, stride, src, pts), frame),
        row < height,
        column < width * 4,
    ensures
        frame.width == width && frame.height == height && frame.pts == pts,
        held(frame.data).len() == 4 * width * height,
        held(frame.data)[(row * (width * 4) + column) as int] == src@[(row * stride + column)
            as int],
{
    packed_length(src@, stride as nat, (width * 4) as nat, height as nat);
    a_packed_picture_holds_its_pixels(
        src@,
        stride as nat,
        (width * 4) as nat,
        height as nat,
        row,
        column,
    );
    assert((width * 4) * height == 4 * width * height) by (nonlinear_arith);
}

} // verus!
