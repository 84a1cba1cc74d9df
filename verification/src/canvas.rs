//! The color buffer: an RGBA8 pixel grid kept in an `image::RgbaImage`.
//!
//! The verifier does not look inside the image. It knows a buffer by its
//! [`Picture`]: its size and the four channels of each pixel. The functions at
//! the end of this file are the only ones that touch the image itself; what
//! they claim of it is taken on trust.
use vstd::prelude::*;

verus! {

/// What a color buffer holds: the channels (red, green, blue, alpha) of each
/// pixel of a `width` by `height` grid, keyed by column and row.
pub struct Picture {
    pub width: nat,
    pub height: nat,
    pub pixels: Map<(int, int), Seq<u8>>,
}

impl Picture {
    /// Whether column `x`, row `y` lies inside the picture.
    pub open spec fn contains(self, x: int, y: int) -> bool {
        0 <= x < self.width && 0 <= y < self.height
    }

    /// The picture of the given size in which every pixel is `color`.
    pub open spec fn filled(width: nat, height: nat, color: Seq<u8>) -> Picture {
        Picture {
            width,
            height,
            pixels: Map::new(
                |pixel: (int, int)| 0 <= pixel.0 < width && 0 <= pixel.1 < height,
                |pixel: (int, int)| color,
            ),
        }
    }

    /// The picture with the pixel at column `x`, row `y` replaced by `color`.
    pub open spec fn with(self, x: int, y: int, color: Seq<u8>) -> Picture {
        Picture { width: self.width, height: self.height, pixels: self.pixels.insert((x, y), color) }
    }

    /// The picture with every pixel of `area` replaced by `color`.
    pub open spec fn painted(self, area: Set<(int, int)>, color: Seq<u8>) -> Picture {
        Picture {
            width: self.width,
            height: self.height,
            pixels: Map::new(
                |pixel: (int, int)| self.pixels.dom().contains(pixel) || area.contains(pixel),
                |pixel: (int, int)|
                    if area.contains(pixel) {
                        color
                    } else {
                        self.pixels[pixel]
                    },
            ),
        }
    }
}

/// Painting nothing changes nothing.
pub proof fn lemma_painted_nothing(picture: Picture, color: Seq<u8>)
    ensures
        picture.painted(Set::empty(), color) == picture,
{
    assert(picture.painted(Set::empty(), color).pixels =~= picture.pixels);
}

/// Painting an area and then one more pixel in the same color paints the area
/// with that pixel added.
pub proof fn lemma_painted_with(
    picture: Picture,
    area: Set<(int, int)>,
    x: int,
    y: int,
    color: Seq<u8>,
)
    ensures
        picture.painted(area, color).with(x, y, color) == picture.painted(
            area.insert((x, y)),
            color,
        ),
{
    assert(picture.painted(area, color).with(x, y, color).pixels =~= picture.painted(
        area.insert((x, y)),
        color,
    ).pixels);
}

/// Painting one area after another in the same color paints both.
pub proof fn lemma_painted_twice(
    picture: Picture,
    first: Set<(int, int)>,
    second: Set<(int, int)>,
    color: Seq<u8>,
)
    ensures
        picture.painted(first, color).painted(second, color) == picture.painted(
            first.union(second),
            color,
        ),
{
    assert(picture.painted(first, color).painted(second, color).pixels =~= picture.painted(
        first.union(second),
        color,
    ).pixels);
}

/// An RGBA8 pixel grid of fixed size. Which corner of the grid the origin is,
/// is up to whoever presents the buffer.
#[derive(Debug)]
#[verifier::external_body]
pub struct ColorBuffer {
    img: image::RgbaImage,
}

/// The width and the height of the image, in pixels.
pub uninterp spec fn image_size(buf: ColorBuffer) -> (nat, nat);

/// The channels of each pixel of the image, keyed by column and row.
pub uninterp spec fn image_pixels(buf: ColorBuffer) -> Map<(int, int), Seq<u8>>;

impl View for ColorBuffer {
    type V = Picture;

    open spec fn view(&self) -> Picture {
        Picture {
            width: image_size(*self).0,
            height: image_size(*self).1,
            pixels: image_pixels(*self),
        }
    }
}

impl ColorBuffer {
    /// The greatest number of channel samples that a buffer can hold.
    pub open spec fn max_samples() -> int {
        isize::MAX as int
    }

    /// A buffer of `width` by `height` pixels, each of them `fill`.
    pub fn new(width: u32, height: u32, fill: [u8; 4]) -> (buf: ColorBuffer)
        requires
            4 * width * height <= Self::max_samples(),
        ensures
            buf@ == Picture::filled(width as nat, height as nat, fill@),
    {
        from_pixel(width, height, fill)
    }

    /// The number of pixel columns.
    pub fn width(&self) -> (w: u32)
        ensures
            w == self@.width,
    {
        width(self)
    }

    /// The number of pixel rows.
    pub fn height(&self) -> (h: u32)
        ensures
            h == self@.height,
    {
        height(self)
    }

    /// The pixel at column `x`, row `y`, or `None` outside the buffer.
    pub fn get_pixel(&self, x: u32, y: u32) -> (color: Option<[u8; 4]>)
        ensures
            match color {
                Some(channels) => self@.contains(x as int, y as int) && channels@
                    == self@.pixels[(x as int, y as int)],
                None => !self@.contains(x as int, y as int),
            },
    {
        if x < width(self) && y < height(self) {
            Some(get_pixel(self, x, y))
        } else {
            None
        }
    }

    /// Overwrites the pixel at column `x`, row `y`, which must lie inside the
    /// buffer.
    pub fn put_pixel(&mut self, x: u32, y: u32, color: [u8; 4])
        requires
            old(self)@.contains(x as int, y as int),
        ensures
            final(self)@ == old(self)@.with(x as int, y as int, color@),
    {
        put_pixel(self, x, y, color)
    }
}

/// `ImageBuffer::from_pixel`: an image of the given size with every pixel
/// equal to `color`. It panics when the number of samples overflows; the bound
/// keeps that number within what a vector can hold.
#[verifier::external_body]
fn from_pixel(width: u32, height: u32, color: [u8; 4]) -> (buf: ColorBuffer)
    requires
        4 * width * height <= isize::MAX,
    ensures
        image_size(buf) == (width as nat, height as nat),
        image_pixels(buf) == Map::new(
            |pixel: (int, int)| 0 <= pixel.0 < width && 0 <= pixel.1 < height,
            |pixel: (int, int)| color@,
        ),
{
    ColorBuffer { img: image::RgbaImage::from_pixel(width, height, image::Rgba(color)) }
}

/// `ImageBuffer::width`: the width that the image was made with.
#[verifier::external_body]
fn width(buf: &ColorBuffer) -> (w: u32)
    ensures
        w == image_size(*buf).0,
{
    buf.img.width()
}

/// `ImageBuffer::height`: the height that the image was made with.
#[verifier::external_body]
fn height(buf: &ColorBuffer) -> (h: u32)
    ensures
        h == image_size(*buf).1,
{
    buf.img.height()
}

/// `ImageBuffer::get_pixel`: panics outside the image; inside it gives the
/// pixel stored at column `x`, row `y`.
#[verifier::external_body]
fn get_pixel(buf: &ColorBuffer, x: u32, y: u32) -> (channels: [u8; 4])
    requires
        x < image_size(*buf).0,
        y < image_size(*buf).1,
    ensures
        channels@ == image_pixels(*buf)[(x as int, y as int)],
{
    buf.img.get_pixel(x, y).0
}

/// `ImageBuffer::put_pixel`: panics outside the image; inside it overwrites
/// the pixel at column `x`, row `y` and leaves every other pixel and the size
/// as they were.
#[verifier::external_body]
fn put_pixel(buf: &mut ColorBuffer, x: u32, y: u32, color: [u8; 4])
    requires
        x < image_size(*old(buf)).0,
        y < image_size(*old(buf)).1,
    ensures
        image_size(*final(buf)) == image_size(*old(buf)),
        image_pixels(*final(buf)) == image_pixels(*old(buf)).insert((x as int, y as int), color@),
{
    buf.img.put_pixel(x, y, image::Rgba(color))
}

} // verus!
