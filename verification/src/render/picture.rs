use vstd::prelude::*;

verus! {

/// A pixel: red, green and blue, each from 0 to 255.
#[derive(Clone, Copy, Debug, PartialEq, Eq)]
pub struct Pixel {
    pub red: u8,
    pub green: u8,
    pub blue: u8,
}

/// A finished image, held as an RGB image buffer of the `image` crate,
/// ready to be encoded by it.
#[verifier::external_body]
pub struct Picture {
    pub buffer: image::RgbImage,
}

/// The channels that a picture holds: red, green and blue of the pixel in
/// column 0 of row 0, then those of column 1, and so on through the rows.
pub uninterp spec fn picture_data(picture: Picture) -> Seq<u8>;

/// The width and the height of a picture, in pixels.
pub uninterp spec fn picture_dimensions(picture: Picture) -> (u32, u32);

/// `ImageBuffer::from_raw`: the image of the given width and height whose
/// channels are `buf`, taken as it is. There is an image exactly where
/// `buf` holds at least three channels for each of the `width * height`
/// pixels.
#[verifier::external_body]
fn buffer_from_raw(width: u32, height: u32, buf: Vec<u8>) -> (r: Option<Picture>)
    ensures
        r is Some <==> 3 * width * height <= buf@.len(),
        r matches Some(picture) ==> picture_data(picture) == buf@ && picture_dimensions(picture)
            == (width, height),
{
    match image::RgbImage::from_raw(width, height, buf) {
        Some(buffer) => Some(Picture { buffer }),
        None => None,
    }
}

/// `ImageBuffer::as_raw`: the channels that the image holds.
#[verifier::external_body]
fn buffer_as_raw(picture: &Picture) -> (r: &Vec<u8>)
    ensures
        r@ == picture_data(*picture),
{
    picture.buffer.as_raw()
}

/// `ImageBuffer::dimensions`: the width and the height of the image.
#[verifier::external_body]
fn buffer_dimensions(picture: &Picture) -> (r: (u32, u32))
    ensures
        r == picture_dimensions(*picture),
{
    picture.buffer.dimensions()
}

impl Picture {
    pub open spec fn width_spec(self) -> u32 {
        picture_dimensions(self).0
    }

    pub open spec fn height_spec(self) -> u32 {
        picture_dimensions(self).1
    }

    /// Where the channels of the pixel in column `x` of row `y` start.
    pub open spec fn offset(self, x: u32, y: u32) -> int {
        3 * (y * self.width_spec() + x)
    }

    /// The picture holds three channels for each of its pixels.
    pub open spec fn wf(self) -> bool {
        3 * self.width_spec() * self.height_spec() <= picture_data(self).len()
    }

    /// The pixel in column `x` of row `y`, where the picture has one.
    pub open spec fn pixel_spec(self, x: u32, y: u32) -> Option<Pixel> {
        let at = self.offset(x, y);
        let data = picture_data(self);
        if x < self.width_spec() && y < self.height_spec() && at + 2 < data.len() {
            Some(Pixel { red: data[at], green: data[at + 1], blue: data[at + 2] })
        } else {
            None
        }
    }

    /// The picture of the given width and height with the channels `buf`.
    /// There is one exactly where `buf` holds at least three channels for
    /// each pixel.
    pub fn from_raw(width: u32, height: u32, buf: Vec<u8>) -> (r: Option<Picture>)
        ensures
            r is Some <==> 3 * width * height <= buf@.len(),
            r matches Some(picture) ==> {
                &&& picture_data(picture) == buf@
                &&& picture_dimensions(picture) == (width, height)
                &&& picture.wf()
            },
    {
        let r = buffer_from_raw(width, height, buf);
        proof {
            if r is Some {
                let picture = r->0;
                assert(3 * picture.width_spec() * picture.height_spec() == 3 * width * height);
            }
        }
        r
    }

    pub fn width(&self) -> (r: u32)
        ensures
            r == self.width_spec(),
    {
        buffer_dimensions(self).0
    }

    pub fn height(&self) -> (r: u32)
        ensures
            r == self.height_spec(),
    {
        buffer_dimensions(self).1
    }

    /// The channels of the picture, row after row.
    pub fn as_raw(&self) -> (r: &Vec<u8>)
        ensures
            r@ == picture_data(*self),
    {
        buffer_as_raw(self)
    }

    /// The pixel in column `x` of row `y`, or `None` where the picture
    /// has no such pixel.
    pub fn pixel(&self, x: u32, y: u32) -> (r: Option<Pixel>)
        ensures
            r == self.pixel_spec(x, y),
            self.wf() && x < self.width_spec() && y < self.height_spec() ==> r is Some,
    {
        let (width, height) = buffer_dimensions(self);
        let data = buffer_as_raw(self);
        proof {
            lemma_offset_in_range(width, height, x, y);
        }
        if x >= width || y >= height {
            return None;
        }
        let at: u128 = 3 * (y as u128 * width as u128 + x as u128);
        if at + 2 < data.len() as u128 {
            let i = at as usize;
            Some(Pixel { red: data[i], green: data[i + 1], blue: data[i + 2] })
        } else {
            None
        }
    }
}

/// The channels of a pixel of the picture lie within the channels of all
/// its pixels.
pub proof fn lemma_offset_in_range(width: u32, height: u32, x: u32, y: u32)
    ensures
        0 <= y * width <= 0xffff_ffff * 0xffff_ffff,
        x < width && y < height ==> 3 * (y * width + x) + 2 < 3 * width * height,
{
    assert(0 <= y * width <= 0xffff_ffff * 0xffff_ffff) by (nonlinear_arith)
        requires
            0 <= y <= 0xffff_ffff,
            0 <= width <= 0xffff_ffff,
    ;
    if x < width && y < height {
        assert((y + 1) * width <= height * width) by (nonlinear_arith)
            requires
                y + 1 <= height,
                0 <= width,
        ;
        assert((y + 1) * width == y * width + width) by (nonlinear_arith);
        assert(3 * width * height == 3 * (height * width)) by (nonlinear_arith);
    }
}

} // verus!
