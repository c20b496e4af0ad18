//! Sprites: small pictures with their own colours, decoded from image files.

use vstd::prelude::*;

verus! {

/// What the image decoder makes of the bytes of an image file: width,
/// height and the pixels as RGBA bytes, or `None` where the bytes are no
/// image that it reads.
pub uninterp spec fn decoded_rgba8(bytes: Seq<u8>) -> Option<(u32, u32, Seq<u8>)>;

/// Decodes an image file held in memory with the `image` crate:
/// `image::io::Reader::new` over a cursor on the bytes,
/// `Reader::with_guessed_format`, `Reader::decode`,
/// `DynamicImage::to_rgba8`, and of the picture that comes out
/// `dimensions` and the bytes as a vector. An error of the reader or the
/// decoder gives `None`.
///
/// Taken on trust: the result is the decoder's, which depends on the bytes
/// alone, and the picture converted to RGBA holds four bytes for each of
/// its `width * height` pixels.
#[verifier::external_body]
fn decode_rgba8(bytes: &[u8]) -> (decoded: Option<(u32, u32, Vec<u8>)>)
    ensures
        decoded is Some <==> decoded_rgba8(bytes@) is Some,
        decoded matches Some(d) ==> {
            &&& decoded_rgba8(bytes@) == Some((d.0, d.1, d.2@))
            &&& d.2@.len() == 4 * d.0 * d.1
        },
{
    let cursor = std::io::Cursor::new(bytes);
    let reader = image::io::Reader::new(cursor).with_guessed_format().ok()?;
    let image = reader.decode().ok()?;
    let image = image.to_rgba8();
    let (width, height) = image.dimensions();
    let data = image.to_vec();
    Some((width, height, data))
}

/// A picture of `width * height` pixels, four bytes each: red, green, blue
/// and alpha, row after row from the top.
pub struct Sprite {
    width: u32,
    height: u32,
    data: Vec<u8>,
}

impl Sprite {
    /// The width in pixels.
    pub closed spec fn spec_width(&self) -> u32 {
        self.width
    }

    /// The height in pixels.
    pub closed spec fn spec_height(&self) -> u32 {
        self.height
    }

    /// The bytes of the pixels.
    pub closed spec fn spec_data(&self) -> Seq<u8> {
        self.data@
    }

    /// There are four bytes for each pixel.
    pub open spec fn wf(&self) -> bool {
        self.spec_data().len() == 4 * self.spec_width() * self.spec_height()
    }

    /// The sprite that an image file holds; `None` where the bytes are not
    /// an image that the decoder reads.
    pub fn from_bytes(bytes: &[u8]) -> (sprite: Option<Self>)
        ensures
            sprite is Some <==> decoded_rgba8(bytes@) is Some,
            sprite matches Some(s) ==> {
                &&& s.wf()
                &&& decoded_rgba8(bytes@) == Some((s.spec_width(), s.spec_height(), s.spec_data()))
            },
    {
        match decode_rgba8(bytes) {
            Some((width, height, data)) => Self::from_rgba(width, height, data),
            None => None,
        }
    }

    /// The sprite of the given measures and pixel bytes; `None` unless there
    /// are four bytes for each pixel.
    pub fn from_rgba(width: u32, height: u32, data: Vec<u8>) -> (sprite: Option<Self>)
        ensures
            sprite is Some <==> data@.len() == 4 * width * height,
            sprite matches Some(s) ==> {
                &&& s.wf()
                &&& s.spec_width() == width
                &&& s.spec_height() == height
                &&& s.spec_data() == data@
            },
    {
        assert(4 * width * height <= 4 * 0x1_0000_0000 * 0x1_0000_0000) by (nonlinear_arith)
            requires
                0 <= width <= 0x1_0000_0000,
                0 <= height <= 0x1_0000_0000,
        ;
        let wanted: u128 = 4 * (width as u128) * (height as u128);
        if data.len() as u128 == wanted {
            Some(Self { width, height, data })
        } else {
            None
        }
    }

    /// The width in pixels.
    #[verifier::when_used_as_spec(spec_width)]
    pub fn width(&self) -> (width: u32)
        ensures
            width == self.spec_width(),
    {
        self.width
    }

    /// The height in pixels.
    #[verifier::when_used_as_spec(spec_height)]
    pub fn height(&self) -> (height: u32)
        ensures
            height == self.spec_height(),
    {
        self.height
    }

    /// The bytes of the pixels, four for each, row after row from the top.
    pub fn data(&self) -> (data: &Vec<u8>)
        ensures
            data@ == self.spec_data(),
    {
        &self.data
    }
}

} // verus!
