//! Pixel layouts: what the encoder takes, and what the placeholder segment keeps.
use crate::frame::byte_count;
use vstd::prelude::*;

verus! {

/// How much of a frame the placeholder segment keeps.
pub const PLACEHOLDER_FRAME_BYTES: usize = 4096;

/// What a placeholder segment begins with.
pub const PLACEHOLDER_HEADER: &'static str = "placeholder mp4 segment\n";

/// The channel of an RGBA pixel that a BGRA pixel has in a given place.
pub open spec fn bgra_channel(channel: int) -> int {
    if channel == 0 {
        2
    } else if channel == 2 {
        0
    } else {
        channel
    }
}

/// The byte at `at` of a buffer with `bytes_per_row` bytes a row, once the first `pixels`
/// pixels of an image `width` pixels wide stand in it in BGRA order: padding keeps what
/// `before` had there.
pub open spec fn bgra_byte(
    rgba: Seq<u8>,
    before: Seq<u8>,
    width: int,
    bytes_per_row: int,
    rows: int,
    at: int,
) -> u8 {
    let row = at / bytes_per_row;
    let column = at % bytes_per_row;
    if row < rows && column < width * 4 {
        rgba[row * (width * 4) + column / 4 * 4 + bgra_channel(column % 4)]
    } else {
        before[at]
    }
}

/// Copies RGBA pixels into a buffer whose rows take `bytes_per_row` bytes each, in BGRA
/// order. Bytes behind the pixels of a row, and behind the last row, stay as they are.
pub fn copy_rgba_as_bgra(
    rgba: &[u8],
    width: u32,
    height: u32,
    bytes_per_row: usize,
    buffer: &mut [u8],
)
    requires
        width * 4 <= bytes_per_row,
        height * bytes_per_row <= old(buffer)@.len(),
        byte_count(width, height, 4) <= rgba@.len(),
    ensures
        final(buffer)@.len() == old(buffer)@.len(),
        bytes_per_row > 0 ==> forall|at: int|
            0 <= at < old(buffer)@.len() ==> #[trigger] final(buffer)@[at] == bgra_byte(
                rgba@,
                old(buffer)@,
                width as int,
                bytes_per_row as int,
                height as int,
                at,
            ),
        bytes_per_row == 0 ==> final(buffer)@ == old(buffer)@,
{
    let ghost before = buffer@;
    let buffer_len: usize = buffer.len();
    let ghost stride = bytes_per_row as int;
    let ghost w = width as int;
    let row_bytes: usize = width as usize * 4;
    if row_bytes == 0 {
        proof {
            if bytes_per_row > 0 {
                assert forall|at: int| 0 <= at < before.len() implies #[trigger] buffer@[at]
                    == bgra_byte(rgba@, before, w, stride, height as int, at) by {
                    assert(at % stride >= 0) by (nonlinear_arith)
                        requires
                            stride > 0,
                    ;
                }
            }
        }
        return;
    }
    let mut row: usize = 0;
    let mut src_start: usize = 0;
    let mut dst_start: usize = 0;
    proof {
        assert forall|at: int| 0 <= at < before.len() implies #[trigger] buffer@[at] == bgra_byte(
            rgba@,
            before,
            w,
            stride,
            0,
            at,
        ) by {
            assert(at / stride >= 0) by (nonlinear_arith)
                requires
                    stride > 0,
                    at >= 0,
            ;
        }
    }
    while row < height as usize
        invariant
            row <= height,
            w == width,
            stride == bytes_per_row,
            row_bytes == width * 4,
            0 < row_bytes <= bytes_per_row,
            src_start == row * row_bytes,
            dst_start == row * bytes_per_row,
            height * bytes_per_row <= before.len(),
            byte_count(width, height, 4) <= rgba@.len(),
            buffer@.len() == before.len(),
            before.len() == buffer_len,
            forall|at: int|
                0 <= at < before.len() ==> #[trigger] buffer@[at] == bgra_byte(
                    rgba@,
                    before,
                    w,
                    stride,
                    row as int,
                    at,
                ),
        decreases height - row,
    {
        proof {
            assert(src_start + row_bytes <= rgba@.len()) by (nonlinear_arith)
                requires
                    src_start == row * row_bytes,
                    row + 1 <= height,
                    row_bytes == width * 4,
                    width * height * 4 <= rgba@.len(),
                    row_bytes > 0,
            ;
            assert(dst_start + bytes_per_row <= before.len()) by (nonlinear_arith)
                requires
                    dst_start == row * bytes_per_row,
                    row + 1 <= height,
                    height * bytes_per_row <= before.len(),
                    bytes_per_row > 0,
            ;
        }
        let ghost at_row = buffer@;
        let mut x: usize = 0;
        while x < row_bytes
            invariant
                x <= row_bytes,
                x % 4 == 0,
                row_bytes % 4 == 0,
                row_bytes <= bytes_per_row,
                src_start + row_bytes <= rgba@.len(),
                dst_start + bytes_per_row <= buffer@.len(),
                buffer@.len() == at_row.len(),
                at_row.len() == before.len(),
                rgba@.len() == rgba.len(),
                before.len() == buffer_len,
                forall|at: int|
                    0 <= at < at_row.len() && !(dst_start <= at < dst_start + x)
                        ==> #[trigger] buffer@[at] == at_row[at],
                forall|c: int|
                    0 <= c < x ==> #[trigger] buffer@[dst_start + c] == rgba@[src_start + c / 4 * 4
                        + bgra_channel(c % 4)],
            decreases row_bytes - x,
        {
            let ghost prior = buffer@;
            let red: u8 = rgba[src_start + x];
            let green: u8 = rgba[src_start + x + 1];
            let blue: u8 = rgba[src_start + x + 2];
            let alpha: u8 = rgba[src_start + x + 3];
            buffer[dst_start + x] = blue;
            buffer[dst_start + x + 1] = green;
            buffer[dst_start + x + 2] = red;
            buffer[dst_start + x + 3] = alpha;
            proof {
                assert forall|c: int| 0 <= c < x + 4 implies #[trigger] buffer@[dst_start + c]
                    == rgba@[src_start + c / 4 * 4 + bgra_channel(c % 4)] by {
                    if c < x {
                        assert(buffer@[dst_start + c] == prior[dst_start + c]);
                    }
                }
            }
            x += 4;
        }
        proof {
            assert forall|at: int| 0 <= at < before.len() implies #[trigger] buffer@[at]
                == bgra_byte(rgba@, before, w, stride, row + 1, at) by {
                let column = at - dst_start;
                if dst_start <= at < dst_start + stride {
                    lemma_row_and_column(row as int, column, stride);
                    if column < row_bytes {
                        assert(buffer@[dst_start + column] == rgba@[src_start + column / 4 * 4
                            + bgra_channel(column % 4)]);
                    } else {
                        assert(buffer@[at] == at_row[at]);
                    }
                } else {
                    assert(buffer@[at] == at_row[at]);
                    lemma_other_row(at, row as int, stride);
                }
            }
            assert((row + 1) * row_bytes == src_start + row_bytes) by (nonlinear_arith)
                requires
                    src_start == row * row_bytes,
            ;
            assert((row + 1) * bytes_per_row == dst_start + bytes_per_row) by (nonlinear_arith)
                requires
                    dst_start == row * bytes_per_row,
            ;
        }
        src_start += row_bytes;
        dst_start += bytes_per_row;
        row += 1;
    }
}

proof fn lemma_row_and_column(row: int, column: int, stride: int)
    requires
        0 <= column < stride,
    ensures
        (row * stride + column) / stride == row,
        (row * stride + column) % stride == column,
{
    vstd::arithmetic::div_mod::lemma_fundamental_div_mod_converse(
        row * stride + column,
        stride,
        row,
        column,
    );
}

proof fn lemma_other_row(at: int, row: int, stride: int)
    requires
        stride > 0,
        !(row * stride <= at < row * stride + stride),
    ensures
        at / stride != row,
{
    vstd::arithmetic::div_mod::lemma_fundamental_div_mod(at, stride);
    assert(stride * (at / stride) == (at / stride) * stride) by (nonlinear_arith);
}

/// The frame record of a placeholder segment: the frame's size in bytes, in eight bytes from
/// the lowest, and the frame's first bytes.
pub open spec fn placeholder_record(rgba: Seq<u8>) -> Seq<u8> {
    vstd::bytes::spec_u64_to_le_bytes(rgba.len() as u64) + rgba.take(
        if rgba.len() < PLACEHOLDER_FRAME_BYTES {
            rgba.len() as int
        } else {
            PLACEHOLDER_FRAME_BYTES as int
        },
    )
}

/// What a placeholder segment gets of a frame.
pub fn placeholder_frame(rgba: &[u8]) -> (record: Vec<u8>)
    ensures
        record@ == placeholder_record(rgba@),
{
    let kept: usize = if rgba.len() < PLACEHOLDER_FRAME_BYTES {
        rgba.len()
    } else {
        PLACEHOLDER_FRAME_BYTES
    };
    let mut record: Vec<u8> = vstd::bytes::u64_to_le_bytes(rgba.len() as u64);
    let ghost size = record@;
    for i in 0..kept
        invariant
            kept <= rgba@.len(),
            record@ == size + rgba@.take(i as int),
    {
        record.push(rgba[i]);
        proof {
            assert(size + rgba@.take(i + 1) == (size + rgba@.take(i as int)).push(rgba@[i as int]));
        }
    }
    record
}

// ---------------------------------------------------------------------------------------
// Laws
// ---------------------------------------------------------------------------------------

/// Each pixel stays in its column of its row: the four bytes there are its blue, green, red and
/// alpha, in this order.
pub proof fn each_pixel_keeps_its_place(
    rgba: Seq<u8>,
    before: Seq<u8>,
    width: u32,
    height: u32,
    bytes_per_row: usize,
    x: int,
    y: int,
)
    requires
        0 <= x < width,
        0 <= y < height,
        width * 4 <= bytes_per_row,
    ensures
        ({
            let w = width as int;
            let stride = bytes_per_row as int;
            let rows = height as int;
            let at = y * bytes_per_row + 4 * x;
            let from = (y * width + x) * 4;
            &&& bgra_byte(rgba, before, w, stride, rows, at) == rgba[from + 2]
            &&& bgra_byte(rgba, before, w, stride, rows, at + 1) == rgba[from + 1]
            &&& bgra_byte(rgba, before, w, stride, rows, at + 2) == rgba[from]
            &&& bgra_byte(rgba, before, w, stride, rows, at + 3) == rgba[from + 3]
        }),
{
    let stride = bytes_per_row as int;
    lemma_row_and_column(y, 4 * x, stride);
    lemma_row_and_column(y, 4 * x + 1, stride);
    lemma_row_and_column(y, 4 * x + 2, stride);
    lemma_row_and_column(y, 4 * x + 3, stride);
    assert((y * width + x) * 4 == y * (width * 4) + 4 * x) by (nonlinear_arith);
}

/// What stands behind the pixels of a row, and behind the last row, stays as it was.
pub proof fn other_bytes_are_left_alone(
    rgba: Seq<u8>,
    before: Seq<u8>,
    width: u32,
    height: u32,
    bytes_per_row: usize,
    row: int,
    column: int,
)
    requires
        0 <= row,
        0 <= column < bytes_per_row,
        row >= height || column >= width * 4,
    ensures
        bgra_byte(
            rgba,
            before,
            width as int,
            bytes_per_row as int,
            height as int,
            row * bytes_per_row + column,
        ) == before[row * bytes_per_row + column],
{
    lemma_row_and_column(row, column, bytes_per_row as int);
}

/// A placeholder's frame record tells the frame's size in its first eight bytes, and repeats the
/// frame behind them: all of it, or its first 4096 bytes.
pub proof fn placeholder_record_tells_size_and_beginning(rgba: Seq<u8>)
    requires
        rgba.len() <= u64::MAX,
    ensures
        ({
            let record = placeholder_record(rgba);
            &&& vstd::bytes::spec_u64_from_le_bytes(record.take(8)) == rgba.len()
            &&& record.len() == 8 + (if rgba.len() < 4096 {
                rgba.len() as int
            } else {
                4096
            })
            &&& forall|i: int|
                0 <= i < rgba.len() && i < 4096 ==> record[8 + i] == #[trigger] rgba[i]
        }),
{
    vstd::bytes::lemma_auto_spec_u64_to_from_le_bytes();
    let record = placeholder_record(rgba);
    let size = vstd::bytes::spec_u64_to_le_bytes(rgba.len() as u64);
    assert(size.len() == 8);
    assert(record.take(8) =~= size);
}

/// Copying packed pixels twice, each time exchanging red and blue, restores them.
pub proof fn bgra_is_its_own_inverse(rgba: Seq<u8>, width: u32, height: u32, at: int)
    requires
        rgba.len() == byte_count(width, height, 4),
        0 <= at < rgba.len(),
    ensures
        ({
            let stride = width * 4;
            let copy = Seq::new(
                rgba.len(),
                |i: int| bgra_byte(rgba, rgba, width as int, stride, height as int, i),
            );
            bgra_byte(copy, copy, width as int, stride, height as int, at) == rgba[at]
        }),
{
    let stride = width * 4;
    assert(stride > 0) by (nonlinear_arith)
        requires
            0 <= at < width * height * 4,
            stride == width * 4,
            0 <= width,
    ;
    let row = at / stride;
    let column = at % stride;
    vstd::arithmetic::div_mod::lemma_fundamental_div_mod(at, stride);
    assert(row * stride == stride * row) by (nonlinear_arith);
    assert(0 <= row < height) by (nonlinear_arith)
        requires
            0 <= at < width * height * 4,
            stride == width * 4,
            stride > 0,
            row == at / stride,
    ;
    let other = column / 4 * 4 + bgra_channel(column % 4);
    assert(0 <= other < stride);
    let copy = Seq::new(
        rgba.len(),
        |i: int| bgra_byte(rgba, rgba, width as int, stride, height as int, i),
    );
    assert(0 <= row * stride + other < rgba.len()) by (nonlinear_arith)
        requires
            0 <= row < height,
            0 <= other < stride,
            stride == width * 4,
            rgba.len() == width * height * 4,
    ;
    lemma_row_and_column(row, other, stride);
    assert(other / 4 * 4 + bgra_channel(other % 4) == column);
    assert(copy[row * stride + other] == rgba[row * stride + column]);
}

} // verus!
