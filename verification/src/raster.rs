use vstd::prelude::*;

use crate::stroke::Rgb8;

verus! {

/// Bytes per pixel: red, green, blue.
pub const CHANNELS: usize = 3;

/// Where the pixel `(x, y)` starts in the bytes of an image `width` pixels
/// wide: rows come one after another, each pixel as three bytes.
pub open spec fn pixel_offset(width: int, x: int, y: int) -> int {
    (y * width + x) * 3
}

/// The colour that the bytes `pixels` hold at offset `at`.
pub open spec fn color_at(pixels: Seq<u8>, at: int) -> Rgb8 {
    Rgb8 { red: pixels[at], green: pixels[at + 1], blue: pixels[at + 2] }
}

/// The bytes of an image of `count` pixels that all have the colour `color`.
pub open spec fn uniform_pixels(count: int, color: Rgb8) -> Seq<u8> {
    Seq::new(
        (3 * count) as nat,
        |i: int|
            if i % 3 == 0 {
                color.red
            } else if i % 3 == 1 {
                color.green
            } else {
                color.blue
            },
    )
}

/// A raster image with three bytes per pixel.
#[derive(Debug)]
pub struct Raster {
    width: u32,
    height: u32,
    data: Vec<u8>,
}

impl Raster {
    #[verifier::type_invariant]
    spec fn holds_every_pixel(self) -> bool {
        self.data@.len() == 3 * (self.width as int * self.height as int)
    }

    /// The bytes of the image, row by row, three for each pixel.
    pub closed spec fn view(&self) -> Seq<u8> {
        self.data@
    }

    /// The width in pixels.
    pub closed spec fn spec_width(&self) -> u32 {
        self.width
    }

    /// The height in pixels.
    pub closed spec fn spec_height(&self) -> u32 {
        self.height
    }

    /// The number of pixels.
    pub open spec fn area(&self) -> int {
        self.spec_width() as int * self.spec_height() as int
    }

    /// The width in pixels.
    #[verifier::when_used_as_spec(spec_width)]
    pub fn width(&self) -> (w: u32)
        ensures
            w == self.spec_width(),
    {
        self.width
    }

    /// The height in pixels.
    #[verifier::when_used_as_spec(spec_height)]
    pub fn height(&self) -> (h: u32)
        ensures
            h == self.spec_height(),
    {
        self.height
    }

    /// An image of `width` by `height` pixels that all have the colour
    /// `color`, or `None` where its bytes would outnumber what a vector can
    /// hold.
    pub fn filled(width: u32, height: u32, color: Rgb8) -> (image: Option<Raster>)
        ensures
            image is Some <==> 3 * (width as int * height as int) <= usize::MAX,
            image matches Some(r) ==> {
                &&& r.spec_width() == width
                &&& r.spec_height() == height
                &&& r@ == uniform_pixels(r.area(), color)
            },
    {
        proof {
            lemma_area_fits(width, height);
        }
        let area: u64 = width as u64 * height as u64;
        if area > (usize::MAX as u64) / 3 {
            return None;
        }
        let count: usize = area as usize;
        let mut data: Vec<u8> = Vec::new();
        let mut done: usize = 0;
        while done < count
            invariant
                done <= count,
                3 * count <= usize::MAX,
                data@ == uniform_pixels(done as int, color),
            decreases count - done,
        {
            data.push(color.red);
            data.push(color.green);
            data.push(color.blue);
            done = done + 1;
            assert(data@ =~= uniform_pixels(done as int, color));
        }
        Some(Raster { width, height, data })
    }

    /// The image of `width` by `height` pixels whose bytes are `data`, row by
    /// row and three for each pixel, or `None` where `data` is not exactly
    /// that long.
    pub fn from_raw(width: u32, height: u32, data: Vec<u8>) -> (image: Option<Raster>)
        ensures
            image is Some <==> data@.len() == 3 * (width as int * height as int),
            image matches Some(r) ==> {
                &&& r.spec_width() == width
                &&& r.spec_height() == height
                &&& r@ == data@
            },
    {
        proof {
            lemma_area_fits(width, height);
        }
        let len: usize = data.len();
        let area: u64 = width as u64 * height as u64;
        if area > (usize::MAX as u64) / 3 {
            return None;
        }
        if len != (area as usize) * 3 {
            return None;
        }
        Some(Raster { width, height, data })
    }

    /// The bytes of the image, row by row and three for each pixel.
    pub fn into_raw(self) -> (data: Vec<u8>)
        ensures
            data@ == self@,
            data@.len() == 3 * self.area(),
    {
        proof {
            use_type_invariant(&self);
        }
        self.data
    }

    /// The bytes of the image, borrowed.
    pub fn as_raw(&self) -> (data: &Vec<u8>)
        ensures
            data@ == self@,
            data@.len() == 3 * self.area(),
    {
        proof {
            use_type_invariant(self);
        }
        &self.data
    }

    /// The colour of the pixel in column `x` and row `y`.
    pub fn get_pixel(&self, x: u32, y: u32) -> (color: Rgb8)
        requires
            x < self.spec_width(),
            y < self.spec_height(),
        ensures
            color == color_at(self@, pixel_offset(self.spec_width() as int, x as int, y as int)),
    {
        proof {
            use_type_invariant(self);
            lemma_pixel_offset_in_range(
                self.width as int,
                self.height as int,
                x as int,
                y as int,
            );
        }
        let len: usize = self.data.len();
        let at: usize = (y as usize * self.width as usize + x as usize) * 3;
        Rgb8 { red: self.data[at], green: self.data[at + 1], blue: self.data[at + 2] }
    }
}

/// The three bytes of a pixel on the canvas lie inside the bytes of the image.
pub proof fn lemma_pixel_offset_in_range(width: int, height: int, x: int, y: int)
    requires
        0 <= x < width,
        0 <= y < height,
    ensures
        0 <= y * width,
        y * width + x < width * height,
        0 <= pixel_offset(width, x, y),
        pixel_offset(width, x, y) + 3 <= 3 * (width * height),
{
    assert(0 <= y * width && y * width + width <= height * width) by (nonlinear_arith)
        requires
            0 <= y < height,
            0 < width,
    ;
    assert(height * width == width * height) by (nonlinear_arith);
}

/// The pixel count of an image fits in 64 bits.
pub proof fn lemma_area_fits(width: u32, height: u32)
    ensures
        0 <= width as int * height as int <= 0xFFFF_FFFE_0000_0001,
{
    assert(0 <= width as int * height as int <= 0xFFFF_FFFF * 0xFFFF_FFFF) by (nonlinear_arith)
        requires
            0 <= width <= 0xFFFF_FFFF,
            0 <= height <= 0xFFFF_FFFF,
    ;
}

} // verus!
