//! Captured pixels: four bytes each (red, green, blue, alpha), row by row from the top.
use vstd::prelude::*;

verus! {

/// Quality of the JPEG that shows a segment's latest frame.
pub const LATEST_FRAME_QUALITY: u8 = 85;

/// The outside error of a failed image encoding.
#[verifier::external_type_specification]
#[verifier::external_body]
pub struct ExImageError(image::ImageError);

/// The JPEG file that image's encoder makes of packed RGB pixels of the given size, at the
/// given quality.
pub uninterp spec fn jpeg_file(rgb: Seq<u8>, width: u32, height: u32, quality: u8) -> Seq<u8>;

/// How many bytes an image takes, at `channels` bytes a pixel.
pub open spec fn byte_count(width: u32, height: u32, channels: int) -> int {
    width * height * channels
}

/// The colours of packed RGBA pixels without their alpha bytes.
pub open spec fn without_alpha(rgba: Seq<u8>) -> Seq<u8> {
    Seq::new((rgba.len() / 4 * 3) as nat, |i: int| rgba[i / 3 * 4 + i % 3])
}

/// The sizes that a JPEG file can hold.
pub open spec fn has_jpeg_size(width: u32, height: u32) -> bool {
    1 <= width <= 65535 && 1 <= height <= 65535
}

/// A row of the image can be counted in memory, at four bytes a pixel.
pub open spec fn has_row_size(width: u32) -> bool {
    width * 4 <= usize::MAX
}

/// An image without light: all pixels are zero.
fn blank_pixels(width: u32, height: u32) -> (pixels: Vec<u8>)
    requires
        byte_count(width, height, 4) <= usize::MAX,
    ensures
        pixels@ == Seq::new(byte_count(width, height, 4) as nat, |i: int| 0u8),
{
    let mut pixels: Vec<u8> = Vec::new();
    proof {
        lemma_size(width, height);
    }
    let count: usize = width as usize * height as usize * 4;
    for i in 0..count
        invariant
            pixels@ == Seq::new(i as nat, |j: int| 0u8),
    {
        pixels.push(0);
    }
    pixels
}

proof fn lemma_size(width: u32, height: u32)
    ensures
        0 <= width * height <= byte_count(width, height, 4),
        0 <= byte_count(width, height, 3) <= byte_count(width, height, 4),
        byte_count(width, height, 4) == width * height * 4,
        byte_count(width, height, 3) == width * height * 3,
{
    assert(0 <= width * height) by (nonlinear_arith)
        requires
            0 <= width,
            0 <= height,
    ;
}

/// The colours of RGBA pixels: each pixel keeps its first three bytes.
fn rgb_pixels(rgba: &Vec<u8>) -> (rgb: Vec<u8>)
    requires
        rgba@.len() % 4 == 0,
    ensures
        rgb@ == without_alpha(rgba@),
{
    let mut rgb: Vec<u8> = Vec::new();
    let mut at: usize = 0;
    while at < rgba.len()
        invariant
            at <= rgba.len(),
            at % 4 == 0,
            rgba@.len() % 4 == 0,
            rgb@ == without_alpha(rgba@.take(at as int)),
        decreases rgba@.len() - at,
    {
        let ghost before = rgb@;
        rgb.push(rgba[at]);
        rgb.push(rgba[at + 1]);
        rgb.push(rgba[at + 2]);
        proof {
            let next = rgba@.take(at + 4);
            assert(before.len() == at / 4 * 3);
            assert forall|i: int| 0 <= i < rgb@.len() implies #[trigger] rgb@[i] == without_alpha(
                next,
            )[i] by {
                if i < before.len() {
                    assert(rgb@[i] == before[i]);
                }
            }
            assert(rgb@ =~= without_alpha(next));
        }
        at += 4;
    }
    proof {
        assert(rgba@.take(at as int) == rgba@);
    }
    rgb
}

/// `image::codecs::jpeg::JpegEncoder`, writing to memory. Claimed: an image of 1 to 65535
/// pixels in both directions is encoded, any other is refused, and the file is a function of
/// pixels, size and quality. A buffer of another size, or a row that memory cannot count, would
/// panic and is left out.
#[verifier::external_body]
fn encode_jpeg(
    rgb: &Vec<u8>,
    width: u32,
    height: u32,
    quality: u8,
) -> (file: Result<Vec<u8>, image::ImageError>)
    requires
        rgb@.len() == byte_count(width, height, 3),
        has_row_size(width),
    ensures
        file is Ok == has_jpeg_size(width, height),
        file matches Ok(file) ==> file@ == jpeg_file(rgb@, width, height, quality),
{
    let mut file: Vec<u8> = Vec::new();
    let encoder = image::codecs::jpeg::JpegEncoder::new_with_quality(&mut file, quality);
    image::ImageEncoder::write_image(encoder, rgb, width, height, image::ExtendedColorType::Rgb8)
        .map(|()| file)
}

/// An image as captured from a display.
#[derive(Debug)]
pub struct Frame {
    width: u32,
    height: u32,
    pixels: Vec<u8>,
}

impl Frame {
    #[verifier::type_invariant]
    spec fn complete(&self) -> bool {
        &&& self.pixels@.len() == byte_count(self.width, self.height, 4)
        &&& has_row_size(self.width)
    }

    pub closed spec fn spec_width(&self) -> u32 {
        self.width
    }

    pub closed spec fn spec_height(&self) -> u32 {
        self.height
    }

    pub closed spec fn pixels(&self) -> Seq<u8> {
        self.pixels@
    }

    /// The image with the given bytes, where there are as many as the size asks for and memory
    /// can count a row.
    pub fn from_raw(width: u32, height: u32, pixels: Vec<u8>) -> (frame: Option<Frame>)
        ensures
            match frame {
                Some(frame) => {
                    &&& pixels@.len() == byte_count(width, height, 4)
                    &&& has_row_size(width)
                    &&& frame.spec_width() == width
                    &&& frame.spec_height() == height
                    &&& frame.pixels() == pixels@
                },
                None => pixels@.len() != byte_count(width, height, 4) || !has_row_size(width),
            },
    {
        proof {
            assert(0 <= width * height <= 0xffff_ffff * 0xffff_ffff) by (nonlinear_arith)
                requires
                    0 <= width <= 0xffff_ffff,
                    0 <= height <= 0xffff_ffff,
            ;
        }
        let expected: u128 = width as u128 * height as u128 * 4;
        if pixels.len() as u128 == expected && width as u128 * 4 <= usize::MAX as u128 {
            Some(Frame { width, height, pixels })
        } else {
            None
        }
    }

    pub fn width(&self) -> (width: u32)
        ensures
            width == self.spec_width(),
    {
        self.width
    }

    pub fn height(&self) -> (height: u32)
        ensures
            height == self.spec_height(),
    {
        self.height
    }

    pub fn as_raw(&self) -> (pixels: &Vec<u8>)
        ensures
            pixels@ == self.pixels(),
            pixels@.len() == byte_count(self.spec_width(), self.spec_height(), 4),
            has_row_size(self.spec_width()),
    {
        proof {
            use_type_invariant(self);
        }
        &self.pixels
    }

    /// The pattern that stands in for a screen: red grows with the column, green with the
    /// row.
    pub fn test_pattern(width: u32, height: u32) -> (frame: Frame)
        requires
            byte_count(width, height, 4) <= i32::MAX,
            width <= 0x1000_0000,
            height <= 0x1000_0000,
        ensures
            frame.spec_width() == width,
            frame.spec_height() == height,
            frame.pixels().len() == byte_count(width, height, 4),
            forall|x: int, y: int|
                #![trigger pixel_at(frame.pixels(), width, x, y)]
                0 <= x < width && 0 <= y < height ==> pixel_at(frame.pixels(), width, x, y)
                    == pattern_pixel(x, y),
    {
        let mut pixels: Vec<u8> = blank_pixels(width, height);
        let mut y: u32 = 0;
        while y < height
            invariant
                y <= height,
                width <= 0x1000_0000,
                height <= 0x1000_0000,
                pixels@.len() == byte_count(width, height, 4),
                byte_count(width, height, 4) <= i32::MAX,
                forall|i: int, j: int|
                    #![trigger pixel_at(pixels@, width, i, j)]
                    0 <= i < width && 0 <= j < y ==> pixel_at(pixels@, width, i, j)
                        == pattern_pixel(i, j),
            decreases height - y,
        {
            let green: u8 = ((y * 5) % 255) as u8;
            let mut x: u32 = 0;
            while x < width
                invariant
                    x <= width,
                    y < height,
                    width <= 0x1000_0000,
                    height <= 0x1000_0000,
                    green == (y * 5) % 255,
                    pixels@.len() == byte_count(width, height, 4),
                    byte_count(width, height, 4) <= i32::MAX,
                    forall|i: int, j: int|
                        #![trigger pixel_at(pixels@, width, i, j)]
                        0 <= i < width && 0 <= j && (j < y || (j == y && i < x)) ==> pixel_at(
                            pixels@,
                            width,
                            i,
                            j,
                        ) == pattern_pixel(i, j),
                decreases width - x,
            {
                let red: u8 = ((x * 4) % 255) as u8;
                proof {
                    lemma_pixel_in_bounds(width, height, x as int, y as int);
                }
                let at: usize = (y as usize * width as usize + x as usize) * 4;
                let ghost before = pixels@;
                pixels.set(at, red);
                pixels.set(at + 1, green);
                pixels.set(at + 2, 180);
                pixels.set(at + 3, 255);
                proof {
                    assert forall|i: int, j: int|
                        #![trigger pixel_at(pixels@, width, i, j)]
                        0 <= i < width && 0 <= j && (j < y || (j == y && i < x + 1)) implies pixel_at(
                        pixels@,
                        width,
                        i,
                        j,
                    ) == pattern_pixel(i, j) by {
                        lemma_pixel_in_bounds(width, height, i, j);
                        if j == y && i == x {
                        } else {
                            assert(pixel_at(before, width, i, j) == pattern_pixel(i, j));
                            lemma_pixels_apart(width, i, j, x as int, y as int);
                            assert(pixel_at(pixels@, width, i, j) == pixel_at(before, width, i, j));
                        }
                    }
                }
                x += 1;
            }
            y += 1;
        }
        Frame { width, height, pixels }
    }

    /// The image as a JPEG file, where its size allows one.
    pub fn to_jpeg(&self) -> (file: Result<Vec<u8>, image::ImageError>)
        ensures
            file is Ok == has_jpeg_size(self.spec_width(), self.spec_height()),
            file matches Ok(file) ==> file@ == jpeg_file(
                without_alpha(self.pixels()),
                self.spec_width(),
                self.spec_height(),
                LATEST_FRAME_QUALITY,
            ),
    {
        proof {
            use_type_invariant(self);
            lemma_size(self.width, self.height);
        }
        let rgb: Vec<u8> = rgb_pixels(&self.pixels);
        encode_jpeg(&rgb, self.width, self.height, LATEST_FRAME_QUALITY)
    }
}

impl Clone for Frame {
    fn clone(&self) -> (copy: Self)
        ensures
            copy.spec_width() == self.spec_width(),
            copy.spec_height() == self.spec_height(),
            copy.pixels() == self.pixels(),
    {
        proof {
            use_type_invariant(self);
        }
        let pixels: Vec<u8> = copy_bytes(&self.pixels);
        Frame { width: self.width, height: self.height, pixels }
    }
}

/// A copy of `bytes`.
pub fn copy_bytes(bytes: &Vec<u8>) -> (copy: Vec<u8>)
    ensures
        copy@ == bytes@,
{
    let mut copy: Vec<u8> = Vec::new();
    for i in 0..bytes.len()
        invariant
            copy@ == bytes@.take(i as int),
    {
        copy.push(bytes[i]);
    }
    proof {
        assert(bytes@.take(bytes@.len() as int) == bytes@);
    }
    copy
}

/// The four bytes of the pixel in column `x` of row `y`, in an image `width` pixels wide.
pub open spec fn pixel_at(pixels: Seq<u8>, width: u32, x: int, y: int) -> (u8, u8, u8, u8) {
    let at = (y * width + x) * 4;
    (pixels[at], pixels[at + 1], pixels[at + 2], pixels[at + 3])
}

/// What the test pattern shows in column `x` of row `y`.
pub open spec fn pattern_pixel(x: int, y: int) -> (u8, u8, u8, u8) {
    (((x * 4) % 255) as u8, ((y * 5) % 255) as u8, 180, 255)
}

proof fn lemma_pixel_in_bounds(width: u32, height: u32, x: int, y: int)
    requires
        0 <= x < width,
        0 <= y < height,
    ensures
        0 <= y * width,
        y * width + x < width * height,
        0 <= (y * width + x) * 4,
        (y * width + x) * 4 + 3 < byte_count(width, height, 4),
{
    assert(0 <= y * width && y * width + x < width * height) by (nonlinear_arith)
        requires
            0 <= x < width,
            0 <= y < height,
    ;
}

proof fn lemma_pixels_apart(width: u32, x1: int, y1: int, x2: int, y2: int)
    requires
        0 <= x1 < width,
        0 <= x2 < width,
        x1 != x2 || y1 != y2,
    ensures
        y1 * width + x1 != y2 * width + x2,
{
    assert(y1 * width + x1 != y2 * width + x2) by (nonlinear_arith)
        requires
            0 <= x1 < width,
            0 <= x2 < width,
            x1 != x2 || y1 != y2,
    ;
}

// ---------------------------------------------------------------------------------------
// Laws
// ---------------------------------------------------------------------------------------

/// Without alpha, each pixel keeps its place, and its red, green and blue.
pub proof fn colours_keep_their_pixel(rgba: Seq<u8>, pixel: int)
    requires
        rgba.len() % 4 == 0,
        0 <= pixel < rgba.len() / 4,
    ensures
        without_alpha(rgba).len() == rgba.len() / 4 * 3,
        without_alpha(rgba)[3 * pixel] == rgba[4 * pixel],
        without_alpha(rgba)[3 * pixel + 1] == rgba[4 * pixel + 1],
        without_alpha(rgba)[3 * pixel + 2] == rgba[4 * pixel + 2],
{
}

/// A pixel's four bytes follow those of all pixels before it: of the rows above, and of its own
/// row to its left.
pub proof fn pixels_stand_row_by_row(pixels: Seq<u8>, width: u32, x: int, y: int)
    requires
        0 <= x < width,
        0 <= y,
    ensures
        pixel_at(pixels, width, x, y) == (
            pixels[4 * (y * width) + 4 * x],
            pixels[4 * (y * width) + 4 * x + 1],
            pixels[4 * (y * width) + 4 * x + 2],
            pixels[4 * (y * width) + 4 * x + 3],
        ),
        pattern_pixel(x, y) == ((4 * x % 255) as u8, (5 * y % 255) as u8, 180u8, 255u8),
{
}

} // verus!
