use vstd::prelude::*;

use crate::codec::{decode_base64, standard_base64_decode};

verus! {

#[verifier::external_type_specification]
#[verifier::external_body]
pub struct ExImage(krilla::image::Image);

/// The two bitmap formats an image element can be decoded as.
#[derive(Clone, Copy, Debug, PartialEq, Eq, Structural)]
pub enum ImageFormat {
    Png,
    Jpeg,
}

/// `"jpeg"` and `"jpg"` name JPEG; every other format name, known or not, is read as PNG.
pub open spec fn format_of(name: Seq<char>) -> ImageFormat {
    if name == "jpeg"@ || name == "jpg"@ {
        ImageFormat::Jpeg
    } else {
        ImageFormat::Png
    }
}

/// Only the names "jpeg" and "jpg" select JPEG, both of them do, and every other name
/// (other spellings and capitalisations included) selects PNG.
pub proof fn lemma_only_jpeg_names_select_jpeg(name: Seq<char>)
    ensures
        (format_of(name) == ImageFormat::Jpeg) <==> (name == "jpeg"@ || name == "jpg"@),
        !(name == "jpeg"@ || name == "jpg"@) ==> format_of(name) == ImageFormat::Png,
        format_of("jpeg"@) == ImageFormat::Jpeg,
        format_of("jpg"@) == ImageFormat::Jpeg,
{
}

/// The bitmap format an image element's `format` field selects.
pub fn image_format(name: &String) -> (format: ImageFormat)
    ensures
        format == format_of(name@),
{
    let jpeg = "jpeg".to_owned();
    let jpg = "jpg".to_owned();
    proof {
        reveal_strlit("jpeg");
        reveal_strlit("jpg");
    }
    if *name == jpeg || *name == jpg {
        ImageFormat::Jpeg
    } else {
        ImageFormat::Png
    }
}

/// Whether `krilla::image::Image::from_png` accepts `data`.
pub uninterp spec fn png_loads(data: Seq<u8>, interpolate: bool) -> bool;

/// Whether `krilla::image::Image::from_jpeg` accepts `data`.
pub uninterp spec fn jpeg_loads(data: Seq<u8>, interpolate: bool) -> bool;

/// A krilla image together with what it was read from: the file's bytes, the format it
/// was read as, and whether it is drawn with interpolation.
pub struct LoadedImage {
    image: krilla::image::Image,
    source: Ghost<(Seq<u8>, ImageFormat, bool)>,
}

impl LoadedImage {
    /// The bytes, format and interpolation flag this image was read with.
    pub closed spec fn source(&self) -> (Seq<u8>, ImageFormat, bool) {
        self.source@
    }

    /// The krilla image.
    pub closed spec fn spec_image(&self) -> krilla::image::Image {
        self.image
    }

    /// The krilla image, for drawing.
    pub fn into_image(self) -> (image: krilla::image::Image)
        ensures
            image == self.spec_image(),
    {
        self.image
    }
}

/// Calls `krilla::image::Image::from_png`, which reads the PNG header and reports an error
/// where it cannot, and otherwise gives an image of these bytes with this interpolation
/// flag. The contract claims that the outcome is `Some` exactly when `png_loads` holds of
/// the bytes and the flag, and records bytes, format and flag as the image's source;
/// nothing else is said of the image's contents.
#[verifier::external_body]
pub(crate) fn png_image(data: Vec<u8>, interpolate: bool) -> (image: Option<LoadedImage>)
    ensures
        image is Some <==> png_loads(data@, interpolate),
        image matches Some(i) ==> i.source() == (data@, ImageFormat::Png, interpolate),
{
    let source = Ghost((data@, ImageFormat::Png, interpolate));
    match krilla::image::Image::from_png(std::sync::Arc::new(data).into(), interpolate) {
        Ok(image) => Some(LoadedImage { image, source }),
        Err(_) => None,
    }
}

/// Calls `krilla::image::Image::from_jpeg`, which reads the JPEG header and reports an error
/// where it cannot, and otherwise gives an image of these bytes with this interpolation
/// flag. The contract claims that the outcome is `Some` exactly when `jpeg_loads` holds of
/// the bytes and the flag, and records bytes, format and flag as the image's source;
/// nothing else is said of the image's contents.
#[verifier::external_body]
pub(crate) fn jpeg_image(data: Vec<u8>, interpolate: bool) -> (image: Option<LoadedImage>)
    ensures
        image is Some <==> jpeg_loads(data@, interpolate),
        image matches Some(i) ==> i.source() == (data@, ImageFormat::Jpeg, interpolate),
{
    let source = Ghost((data@, ImageFormat::Jpeg, interpolate));
    match krilla::image::Image::from_jpeg(std::sync::Arc::new(data).into(), interpolate) {
        Ok(image) => Some(LoadedImage { image, source }),
        Err(_) => None,
    }
}

/// Whether image bytes load in the format a format name selects, with interpolation on.
pub open spec fn image_bytes_load(bytes: Seq<u8>, format: Seq<char>) -> bool {
    match format_of(format) {
        ImageFormat::Jpeg => jpeg_loads(bytes, true),
        ImageFormat::Png => png_loads(bytes, true),
    }
}

/// Whether an image element with this Base64 text and format name yields an image: the text
/// must decode, and the bytes must load in the selected format (with interpolation on).
pub open spec fn image_loads(data: Seq<char>, format: Seq<char>) -> bool {
    match standard_base64_decode(data) {
        Some(bytes) => image_bytes_load(bytes, format),
        None => false,
    }
}

/// Reads decoded image bytes in the format the `format` name selects, with interpolation on;
/// `None` where they do not load in that format.
pub fn load_image_bytes(bytes: Vec<u8>, format: &String) -> (image: Option<LoadedImage>)
    ensures
        image is Some <==> image_bytes_load(bytes@, format@),
        image matches Some(i) ==> i.source() == (bytes@, format_of(format@), true),
{
    match image_format(format) {
        ImageFormat::Jpeg => jpeg_image(bytes, true),
        ImageFormat::Png => png_image(bytes, true),
    }
}

/// Decodes an image element's Base64 data and loads it in the format its `format` field
/// selects, with interpolation on; `None` where either step fails (the element is then
/// not drawn). The image is read from the decoded bytes.
pub fn load_image(data: &String, format: &String) -> (image: Option<LoadedImage>)
    ensures
        image is Some <==> image_loads(data@, format@),
        image matches Some(i) ==> {
            &&& standard_base64_decode(data@) == Some(i.source().0)
            &&& i.source().1 == format_of(format@)
            &&& i.source().2
        },
{
    match decode_base64(data) {
        Some(bytes) => load_image_bytes(bytes, format),
        None => None,
    }
}

} // verus!
