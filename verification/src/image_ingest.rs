//! Intake of uploaded images: every upload is decoded, fitted into a fixed
//! box and written anew as JPEG before anything else sees it.
//!
//! The intake is the one place where bytes from outside are taken for an
//! image. It works from buffer to buffer and never touches a file.

use vstd::prelude::*;

use crate::error::Error;

verus! {

/// `image::ImageError`, carried as it is.
#[verifier::external_type_specification]
#[verifier::external_body]
pub struct ExImageError(image::ImageError);

/// The most bytes an upload may hold: 10 MiB.
pub const MAX_UPLOAD_BYTES: usize = 10485760;

/// The side of the box that a stored image fits in, in pixels.
pub const MAX_SIDE: u32 = 1000;

/// The quality of the JPEG that is stored, out of 100.
pub const JPEG_QUALITY: u8 = 90;

/// The mathematical value of a [`Picture`].
pub struct PictureView {
    pub width: nat,
    pub height: nat,
    pub rgb: Seq<u8>,
}

impl PictureView {
    /// The pixels fill the picture: three bytes for each of them.
    pub open spec fn valid(self) -> bool {
        self.rgb.len() == 3 * self.width * self.height
    }
}

/// A decoded image: pixels of three bytes, red, green and blue, row by row.
pub struct Picture {
    width: u32,
    height: u32,
    rgb: Vec<u8>,
}

impl View for Picture {
    type V = PictureView;

    closed spec fn view(&self) -> PictureView {
        PictureView { width: self.width as nat, height: self.height as nat, rgb: self.rgb@ }
    }
}

impl Picture {
    #[verifier::type_invariant]
    spec fn inv(self) -> bool {
        self@.valid()
    }

    /// A picture of this size with these pixels, if they fill it.
    pub fn new(width: u32, height: u32, rgb: Vec<u8>) -> (r: Option<Picture>)
        ensures
            match r {
                Some(p) => p@ == (PictureView { width: width as nat, height: height as nat, rgb: rgb@ })
                    && p@.valid(),
                None => rgb@.len() != 3 * width * height,
            },
    {
        assert((width as int) * (height as int) <= 0xFFFF_FFFF * 0xFFFF_FFFF) by (nonlinear_arith)
            requires
                0 <= width <= 0xFFFF_FFFF,
                0 <= height <= 0xFFFF_FFFF,
        ;
        let area: u128 = (width as u128) * (height as u128);
        let wanted: u128 = 3 * area;
        assert(wanted == 3 * width * height) by (nonlinear_arith)
            requires
                wanted == 3 * area,
                area == width * height,
        ;
        if rgb.len() as u128 == wanted {
            Some(Picture { width, height, rgb })
        } else {
            None
        }
    }

    /// The width in pixels.
    pub fn width(&self) -> (r: u32)
        ensures
            r == self@.width,
    {
        self.width
    }

    /// The height in pixels.
    pub fn height(&self) -> (r: u32)
        ensures
            r == self@.height,
    {
        self.height
    }

    /// The pixels.
    pub fn rgb(&self) -> (r: &Vec<u8>)
        ensures
            r@ == self@.rgb,
            self@.valid(),
    {
        proof {
            use_type_invariant(self);
        }
        &self.rgb
    }
}

/// The picture that `image::load_from_memory_with_format` makes of these
/// bytes, for the format that `image::guess_format` sees in their first
/// bytes, converted to 8-bit RGB: width, height and pixels. `None` where the
/// format is not recognised or the bytes do not decode.
pub uninterp spec fn decoded(raw: Seq<u8>) -> Option<(nat, nat, Seq<u8>)>;

/// What `image::DynamicImage::resize`, with the Catmull-Rom filter, makes of
/// an 8-bit RGB picture for a bounding box: width, height and pixels.
pub uninterp spec fn fitted(width: nat, height: nat, rgb: Seq<u8>, bound_width: nat, bound_height: nat) -> (
    nat,
    nat,
    Seq<u8>,
);

/// The JPEG file that `image::codecs::jpeg::JpegEncoder` writes for an 8-bit
/// RGB picture at this quality, or `None` where it reports an error.
pub uninterp spec fn encoded_jpeg(width: nat, height: nat, rgb: Seq<u8>, quality: nat) -> Option<Seq<u8>>;

/// Whether a size is another size scaled into a box with its aspect ratio
/// kept, as far as whole pixels allow: one side is as long as the box, and
/// the other is off what the ratio asks for by one pixel at most.
pub open spec fn scaled_into(
    width: nat,
    height: nat,
    scaled_width: nat,
    scaled_height: nat,
    bound_width: nat,
    bound_height: nat,
) -> bool {
    ||| scaled_width == bound_width && -(width as int) <= scaled_height * width - height
        * bound_width <= width
    ||| scaled_height == bound_height && -(height as int) <= scaled_width * height - width
        * bound_height <= height
}

/// The plain value of a decoder's answer.
pub open spec fn decoded_view(r: Result<(u32, u32, Vec<u8>), image::ImageError>) -> Option<
    (nat, nat, Seq<u8>),
> {
    match r {
        Ok(picture) => Some((picture.0 as nat, picture.1 as nat, picture.2@)),
        Err(_) => None,
    }
}

/// The plain value of an encoder's answer.
pub open spec fn encoded_view(r: Result<Vec<u8>, image::ImageError>) -> Option<Seq<u8>> {
    match r {
        Ok(bytes) => Some(bytes@),
        Err(_) => None,
    }
}

/// Calls `image::guess_format`, which goes by the signature at the start of
/// the bytes, then `image::load_from_memory_with_format` with the built-in
/// decoder of that format, and `image::DynamicImage::to_rgb8`. The result
/// depends on the bytes alone. The buffer that `to_rgb8` makes holds three
/// bytes for each pixel and no more.
#[verifier::external_body]
fn decode(raw: &[u8]) -> (r: Result<(u32, u32, Vec<u8>), image::ImageError>)
    ensures
        decoded_view(r) == decoded(raw@),
        r is Ok ==> r->Ok_0.2@.len() == 3 * r->Ok_0.0 * r->Ok_0.1,
{
    let format = image::guess_format(raw)?;
    let pixels = image::load_from_memory_with_format(raw, format)?.to_rgb8();
    Ok((pixels.width(), pixels.height(), pixels.into_raw()))
}

/// Calls `image::DynamicImage::resize` with the Catmull-Rom filter on an
/// 8-bit RGB picture built with `image::ImageBuffer::from_raw`.
///
/// `from_raw` takes every buffer that is long enough for the size. The crate
/// documents the result of `resize` as the image scaled, with its aspect
/// ratio kept, to the largest size that fits within the bounds; so neither
/// side of it exceeds its bound, and of a picture that has pixels one side
/// reaches its bound while the other is rounded to whole pixels. No side
/// comes out shorter than one pixel, hence the bounds of at least one, and
/// the buffer that comes out holds three bytes for each pixel and no more.
#[verifier::external_body]
fn fit(width: u32, height: u32, rgb: &[u8], bound_width: u32, bound_height: u32) -> (r: Option<
    (u32, u32, Vec<u8>),
>)
    requires
        rgb@.len() == 3 * width * height,
        bound_width >= 1,
        bound_height >= 1,
    ensures
        r is Some,
        (r->Some_0.0 as nat, r->Some_0.1 as nat, r->Some_0.2@) == fitted(
            width as nat,
            height as nat,
            rgb@,
            bound_width as nat,
            bound_height as nat,
        ),
        1 <= r->Some_0.0 <= bound_width,
        1 <= r->Some_0.1 <= bound_height,
        r->Some_0.2@.len() == 3 * r->Some_0.0 * r->Some_0.1,
        width >= 1 && height >= 1 ==> scaled_into(
            width as nat,
            height as nat,
            r->Some_0.0 as nat,
            r->Some_0.1 as nat,
            bound_width as nat,
            bound_height as nat,
        ),
{
    let picture = image::DynamicImage::ImageRgb8(image::RgbImage::from_raw(width, height, rgb.to_vec())?);
    let scaled = picture.resize(bound_width, bound_height, image::imageops::FilterType::CatmullRom);
    let pixels = scaled.to_rgb8();
    Some((pixels.width(), pixels.height(), pixels.into_raw()))
}

/// Calls `image::codecs::jpeg::JpegEncoder::encode` on an encoder of the
/// given quality. The bytes depend on the picture and the quality alone.
/// `encode` panics unless the pixels fill the picture exactly. It refuses a
/// picture with a side of 0 or of more than 65535 pixels and no other, since
/// writing into memory does not fail.
#[verifier::external_body]
fn encode_jpeg(width: u32, height: u32, rgb: &[u8], quality: u8) -> (r: Result<Vec<u8>, image::ImageError>)
    requires
        rgb@.len() == 3 * width * height,
    ensures
        encoded_view(r) == encoded_jpeg(width as nat, height as nat, rgb@, quality as nat),
        1 <= width <= 65535 && 1 <= height <= 65535 ==> r is Ok,
{
    let mut out = Vec::new();
    let mut encoder = image::codecs::jpeg::JpegEncoder::new_with_quality(&mut out, quality);
    encoder.encode(rgb, width, height, image::ExtendedColorType::Rgb8).map(|_| out)
}

/// Whether an upload of this many bytes is within the cap.
pub open spec fn within_cap(len: nat) -> bool {
    len <= MAX_UPLOAD_BYTES
}

/// A decoded upload fitted into the box.
pub open spec fn boxed(picture: PictureView) -> (nat, nat, Seq<u8>) {
    fitted(picture.width, picture.height, picture.rgb, MAX_SIDE as nat, MAX_SIDE as nat)
}

/// The image that is stored for a decoded upload: the upload fitted into
/// the box and written as JPEG. `None` where its pixels do not fill the
/// fitted picture or the encoder fails.
pub open spec fn normalized_picture(picture: PictureView) -> Option<Seq<u8>> {
    let fit = boxed(picture);
    if fit.2.len() == 3 * fit.0 * fit.1 {
        encoded_jpeg(fit.0, fit.1, fit.2, JPEG_QUALITY as nat)
    } else {
        None
    }
}

/// The image that is stored for an upload, or `None` where the upload is
/// refused: it is above the cap, it is no image, or it cannot be written.
pub open spec fn normalized(raw: Seq<u8>) -> Option<Seq<u8>> {
    if !within_cap(raw.len()) {
        None
    } else {
        match decoded(raw) {
            Some((width, height, rgb)) => if rgb.len() == 3 * width * height {
                normalized_picture(PictureView { width, height, rgb })
            } else {
                None
            },
            None => None,
        }
    }
}

/// Fits a picture into the box and writes it as JPEG. That succeeds for
/// every picture, and the picture that is written exceeds the box on
/// neither side.
pub fn normalize(picture: &Picture) -> (r: Result<Vec<u8>, Error>)
    ensures
        match normalized_picture(picture@) {
            Some(bytes) => r is Ok && r->Ok_0@ == bytes,
            None => r == Err::<Vec<u8>, Error>(Error::ImageUploadFailed),
        },
        r is Ok,
        1 <= boxed(picture@).0 <= MAX_SIDE,
        1 <= boxed(picture@).1 <= MAX_SIDE,
        picture@.width >= 1 && picture@.height >= 1 ==> scaled_into(
            picture@.width,
            picture@.height,
            boxed(picture@).0,
            boxed(picture@).1,
            MAX_SIDE as nat,
            MAX_SIDE as nat,
        ),
{
    let scaled = fit(picture.width(), picture.height(), picture.rgb().as_slice(), MAX_SIDE, MAX_SIDE);
    let fitted = match scaled {
        Some((width, height, rgb)) => Picture::new(width, height, rgb),
        None => None,
    };
    match fitted {
        Some(small) => match encode_jpeg(
            small.width(),
            small.height(),
            small.rgb().as_slice(),
            JPEG_QUALITY,
        ) {
            Ok(bytes) => Ok(bytes),
            Err(_) => Err(Error::ImageUploadFailed),
        },
        None => Err(Error::ImageUploadFailed),
    }
}

/// The width and height of the picture that is written for an upload that
/// decodes: the size of the decoded upload fitted into the box.
pub open spec fn stored_size(raw: Seq<u8>) -> (nat, nat) {
    let picture = decoded(raw)->Some_0;
    let fit = boxed(PictureView { width: picture.0, height: picture.1, rgb: picture.2 });
    (fit.0, fit.1)
}

/// Whether the picture that is written for an upload is the decoded upload
/// scaled into the box with its aspect ratio kept. An upload without pixels
/// has no ratio to keep.
pub open spec fn ratio_kept(raw: Seq<u8>) -> bool {
    let picture = decoded(raw)->Some_0;
    picture.0 >= 1 && picture.1 >= 1 ==> scaled_into(
        picture.0,
        picture.1,
        stored_size(raw).0,
        stored_size(raw).1,
        MAX_SIDE as nat,
        MAX_SIDE as nat,
    )
}

/// Turns uploaded bytes into the image that is stored.
///
/// An upload above the cap is refused whole, never cut short, and before
/// any of it is decoded; so is one that does not decode. Every other upload
/// is accepted. Every failure is of the one kind. What is stored is a
/// function of the upload alone, and the picture that is written is the
/// upload scaled into the box with its aspect ratio kept.
pub fn ingest(raw: &[u8]) -> (r: Result<Vec<u8>, Error>)
    ensures
        match normalized(raw@) {
            Some(bytes) => r is Ok && r->Ok_0@ == bytes,
            None => r == Err::<Vec<u8>, Error>(Error::ImageUploadFailed),
        },
        r is Ok <==> within_cap(raw@.len()) && decoded(raw@) is Some,
        r is Ok ==> 1 <= stored_size(raw@).0 <= MAX_SIDE && 1 <= stored_size(raw@).1 <= MAX_SIDE,
        r is Ok ==> ratio_kept(raw@),
{
    if raw.len() > MAX_UPLOAD_BYTES {
        return Err(Error::ImageUploadFailed);
    }
    let picture = match decode(raw) {
        Ok((width, height, rgb)) => Picture::new(width, height, rgb),
        Err(_) => None,
    };
    match picture {
        Some(p) => normalize(&p),
        None => Err(Error::ImageUploadFailed),
    }
}

} // verus!
