//! Textures, and how they come from image files.

use crate::assets::{AssetLoader, AssetLoaderRaw, Assets, AssetsView};
use crate::copied::copied;
use gfx::texture::{AaMode, Kind};
use imagefmt::{ColFmt, Image};
use std::io::Cursor;
use vstd::prelude::*;

verus! {

/// `imagefmt::ColFmt`: the color format of an image.
#[verifier::external_type_specification]
pub struct ExColFmt(imagefmt::ColFmt);

/// `imagefmt::Image`: the dimensions, the color format and the samples of an image.
#[verifier::external_type_specification]
#[verifier::reject_recursive_types(T)]
pub struct ExImage<T>(imagefmt::Image<T>);

/// `imagefmt::Error`, carried as an opaque value.
#[verifier::external_type_specification]
#[verifier::external_body]
pub struct ExImageError(imagefmt::Error);

/// `gfx::texture::AaMode`: the anti-aliasing mode of a texture.
#[verifier::external_type_specification]
pub struct ExAaMode(gfx::texture::AaMode);

/// `gfx::texture::Kind`: the dimensions of a texture.
#[verifier::external_type_specification]
pub struct ExKind(gfx::texture::Kind);

/// What a texture is made from.
pub struct TextureLoadData {
    pub kind: Kind,
    /// The pixels of each mipmap level.
    pub raw: Vec<Vec<[u8; 4]>>,
}

/// A texture. It is part of a `Renderable`
pub struct Texture {
    pub kind: Kind,
    /// The pixels of each mipmap level.
    pub levels: Vec<Vec<[u8; 4]>>,
}

impl Clone for Texture {
    fn clone(&self) -> (texture: Texture)
        ensures
            texture.kind == self.kind,
            texture.levels@.len() == self.levels@.len(),
            forall|i: int|
                0 <= i < self.levels@.len() ==> (#[trigger] texture.levels@[i])@
                    == self.levels@[i]@,
    {
        let mut levels: Vec<Vec<[u8; 4]>> = Vec::new();
        let mut i: usize = 0;
        while i < self.levels.len()
            invariant
                i <= self.levels@.len(),
                levels@.len() == i,
                forall|k: int| 0 <= k < i ==> (#[trigger] levels@[k])@ == self.levels@[k]@,
            decreases self.levels@.len() - i,
        {
            levels.push(copied(&self.levels[i]));
            i = i + 1;
        }
        Texture { kind: self.kind, levels }
    }
}

/// What an image holds.
#[verifier::ext_equal]
pub struct ImageView {
    pub w: usize,
    pub h: usize,
    pub fmt: ColFmt,
    pub buf: Seq<u8>,
}

pub open spec fn image_view(image: Image<u8>) -> ImageView {
    ImageView { w: image.w, h: image.h, fmt: image.fmt, buf: image.buf@ }
}

impl ImageView {
    /// Whether there are four samples for each pixel.
    pub open spec fn is_rgba(self) -> bool {
        self.fmt is RGBA && self.buf.len() == 4 * (self.w * self.h)
    }

    /// Whether the samples can be grouped into pixels.
    pub open spec fn has_pixels(self) -> bool {
        self.buf.len() % 4 == 0
    }

    /// Whether `pixels` are the samples, grouped by four.
    pub open spec fn groups_into(self, pixels: Seq<[u8; 4]>) -> bool {
        &&& 4 * pixels.len() == self.buf.len()
        &&& forall|i: int|
            0 <= i < pixels.len() ==> (#[trigger] pixels[i])@ == self.buf.subrange(4 * i, 4 * i + 4)
    }

    /// The dimensions as those of a texture, which has 16 bits for each.
    pub open spec fn kind(self) -> Kind {
        Kind::D2(
            (self.w as int % 0x1_0000) as u16,
            (self.h as int % 0x1_0000) as u16,
            AaMode::Single,
        )
    }
}

/// The pixels of an image.
fn pixels(image: &Image<u8>) -> (pixels: Vec<[u8; 4]>)
    requires
        image_view(*image).has_pixels(),
    ensures
        image_view(*image).groups_into(pixels@),
{
    let mut pixels: Vec<[u8; 4]> = Vec::new();
    let mut i: usize = 0;
    while i < image.buf.len()
        invariant
            image.buf@.len() % 4 == 0,
            i <= image.buf@.len(),
            i == 4 * pixels@.len(),
            forall|k: int|
                0 <= k < pixels@.len() ==> (#[trigger] pixels@[k])@ == image.buf@.subrange(
                    4 * k,
                    4 * k + 4,
                ),
        decreases image.buf@.len() - i,
    {
        let pixel = [image.buf[i], image.buf[i + 1], image.buf[i + 2], image.buf[i + 3]];
        assert(pixel@ =~= image.buf@.subrange(i as int, i + 4));
        pixels.push(pixel);
        i = i + 4;
    }
    pixels
}

/// Makes an image into what a texture is made from: a single level with the pixels of the image.
pub fn texture_data(image: &Image<u8>) -> (data: TextureLoadData)
    requires
        image_view(*image).has_pixels(),
    ensures
        data.kind == image_view(*image).kind(),
        data.raw@.len() == 1,
        image_view(*image).groups_into(data.raw@[0]@),
{
    let w: usize = image.w;
    let h: usize = image.h;
    assert(w as u16 == (w % 0x1_0000) as u16) by (bit_vector);
    assert(h as u16 == (h % 0x1_0000) as u16) by (bit_vector);
    let mut raw: Vec<Vec<[u8; 4]>> = Vec::new();
    raw.push(pixels(image));
    TextureLoadData {
        kind: Kind::D2(
            #[verifier::truncate]
            (w as u16),
            #[verifier::truncate]
            (h as u16),
            AaMode::Single,
        ),
        raw,
    }
}

/// What comes of decoding image data.
pub enum Decoding {
    /// The decoder panics.
    Panics,
    /// The decoder returns an error.
    Fails,
    /// The decoder returns this image.
    Reads(ImageView),
}

/// Whether data starts as no PNG, JPEG or BMP file does: then it is read as a TGA image, or as
/// nothing.
pub open spec fn at_most_tga(data: Seq<u8>) -> bool {
    data.len() > 0 ==> data[0] != 0x89 && data[0] != 0xff && data[0] != 0x42
}

/// What comes of `imagefmt::read_from` for given data and a requested color format.
pub uninterp spec fn image_decoding(data: Seq<u8>, fmt: ColFmt) -> Decoding;

/// Calls `imagefmt::read_from`, whose outcome contracts call `image_decoding`. An image that was
/// requested as `RGBA` has that format, with four samples for each pixel.
///
/// The decoders of PNG, JPEG and BMP images panic on some data, such as an index beyond the end
/// of a palette. `requires` leaves such data out, without saying which data that is. The decoder
/// of TGA images does not panic where the size of the largest one fits in `usize`.
#[verifier::external_body]
fn read_image(data: &[u8], fmt: ColFmt) -> (result: Result<Image<u8>, imagefmt::Error>)
    requires
        usize::BITS == 64 && at_most_tga(data@) || !(image_decoding(data@, fmt) is Panics),
    ensures
        match result {
            Ok(image) => image_decoding(data@, fmt) == Decoding::Reads(image_view(image)) && (
            fmt is RGBA ==> image_view(image).is_rgba()),
            Err(_) => image_decoding(data@, fmt) is Fails,
        },
{
    imagefmt::read_from(&mut Cursor::new(data), fmt)
}

impl AssetLoaderRaw for Image<u8> {
    /// The decoder does not panic.
    open spec fn readable(assets: AssetsView, data: Seq<u8>) -> bool {
        ||| usize::BITS == 64 && at_most_tga(data)
        ||| !(image_decoding(data, ColFmt::RGBA) is Panics)
    }

    /// The decoder reads this image, with four samples for each pixel.
    open spec fn decodes(assets: AssetsView, data: Seq<u8>, result: Option<Image<u8>>) -> bool {
        match result {
            Some(image) => {
                &&& image_decoding(data, ColFmt::RGBA) == Decoding::Reads(image_view(image))
                &&& image_view(image).is_rgba()
            },
            None => image_decoding(data, ColFmt::RGBA) is Fails,
        }
    }

    /// # Panics
    /// Panics if the decoder does.
    fn from_raw(assets: &Assets, data: &[u8]) -> (result: Option<Image<u8>>) {
        match read_image(data, ColFmt::RGBA) {
            Ok(image) => Some(image),
            Err(_) => None,
        }
    }
}

impl AssetLoader<Texture> for Image<u8> {
    /// The samples can be grouped into pixels.
    open spec fn loadable(assets: AssetsView, data: Image<u8>) -> bool {
        image_view(data).has_pixels()
    }

    /// The texture has a single level with the pixels of the image, and the assets stay as they
    /// are.
    open spec fn loads(
        before: AssetsView,
        data: Image<u8>,
        after: AssetsView,
        result: Option<Texture>,
    ) -> bool {
        &&& after == before
        &&& result matches Some(texture) && {
            &&& texture.kind == image_view(data).kind()
            &&& texture.levels@.len() == 1
            &&& image_view(data).groups_into(texture.levels@[0]@)
        }
    }

    /// # Panics
    /// Panics if the last pixel is not complete.
    fn from_data(assets: &mut Assets, image: Image<u8>) -> (result: Option<Texture>) {
        let data = texture_data(&image);
        <TextureLoadData as AssetLoader<Texture>>::from_data(assets, data)
    }
}

impl AssetLoader<Texture> for TextureLoadData {
    /// Any pixels make a texture.
    open spec fn loadable(assets: AssetsView, data: TextureLoadData) -> bool {
        true
    }

    /// The texture has these dimensions and pixels, and the assets stay as they are.
    open spec fn loads(
        before: AssetsView,
        data: TextureLoadData,
        after: AssetsView,
        result: Option<Texture>,
    ) -> bool {
        &&& after == before
        &&& result == Some(Texture { kind: data.kind, levels: data.raw })
    }

    fn from_data(assets: &mut Assets, data: TextureLoadData) -> (result: Option<Texture>) {
        Some(Texture { kind: data.kind, levels: data.raw })
    }
}

/// What the decoder reads can always be made into a texture, which has as many pixels as the
/// dimensions of the image say.
pub proof fn law_decoded_image_loads(
    assets: AssetsView,
    data: Seq<u8>,
    image: Image<u8>,
    texture: Texture,
)
    requires
        <Image<u8> as AssetLoaderRaw>::decodes(assets, data, Some(image)),
    ensures
        <Image<u8> as AssetLoader<Texture>>::loadable(assets, image),
        <Image<u8> as AssetLoader<Texture>>::loads(assets, image, assets, Some(texture))
            ==> texture.levels@[0]@.len() == image.w * image.h,
{
}

} // verus!
