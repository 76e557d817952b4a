//! The thumbnail cache: which requests it serves, under which key a
//! thumbnail is kept, when one is made, and the making itself.

use vstd::prelude::*;
use vstd::string::StringExecFns;
use crate::paths::{is_safe_path_segment, is_safe_segment, is_separator};
use crate::text::same_text;

verus! {

/// The longest side of a small thumbnail, in pixels.
pub const SMALL_SIZE: u32 = 400;

/// The longest side of a medium thumbnail, in pixels.
pub const MEDIUM_SIZE: u32 = 1200;

/// The sizes in which thumbnails are kept.
#[derive(Clone, Copy, PartialEq, Eq, Debug, Structural)]
pub enum SizeVariant {
    Small,
    Medium,
}

/// The size that a name stands for: `small` and `medium` name the two
/// sizes, no other name does.
pub open spec fn size_named(name: Seq<char>) -> Option<SizeVariant> {
    if name == "small"@ {
        Some(SizeVariant::Small)
    } else if name == "medium"@ {
        Some(SizeVariant::Medium)
    } else {
        None
    }
}

impl SizeVariant {
    /// The greatest width and height of a thumbnail of this size.
    pub open spec fn limit(self) -> u32 {
        match self {
            SizeVariant::Small => SMALL_SIZE,
            SizeVariant::Medium => MEDIUM_SIZE,
        }
    }

    /// The name of this size in requests and in the cache.
    pub open spec fn name_text(self) -> Seq<char> {
        match self {
            SizeVariant::Small => "small"@,
            SizeVariant::Medium => "medium"@,
        }
    }

    /// The greatest width and height of a thumbnail of this size.
    pub fn max_dimension(self) -> (max: u32)
        ensures
            max == self.limit(),
    {
        match self {
            SizeVariant::Small => SMALL_SIZE,
            SizeVariant::Medium => MEDIUM_SIZE,
        }
    }

    /// The name of this size in requests and in the cache.
    pub fn name(self) -> (name: &'static str)
        ensures
            name@ == self.name_text(),
    {
        match self {
            SizeVariant::Small => "small",
            SizeVariant::Medium => "medium",
        }
    }

    /// The size that `name` stands for, if it stands for one.
    pub fn from_name(name: &str) -> (size: Option<SizeVariant>)
        ensures
            size == size_named(name@),
    {
        if same_text(name, "small") {
            Some(SizeVariant::Small)
        } else if same_text(name, "medium") {
            Some(SizeVariant::Medium)
        } else {
            None
        }
    }
}

/// Why a request is turned down.
#[derive(Clone, Copy, PartialEq, Eq, Debug, Structural)]
pub enum RequestError {
    /// The request names nothing that is there.
    NotFound,
    /// The request asks for a size that is not kept.
    BadRequest,
}

/// A request for a thumbnail that has passed the checks on its names.
#[derive(Clone, Debug)]
pub struct ThumbnailRequest {
    pub album: String,
    pub size: SizeVariant,
    pub filename: String,
}

/// What is to be done for a request, once it is known whether the original
/// and the thumbnail are there.
#[derive(Clone, Copy, PartialEq, Eq, Debug, Structural)]
pub enum ThumbnailStep {
    /// The original is missing: the request names nothing.
    NotFound,
    /// The thumbnail is in the cache and is served as it is.
    ServeCached,
    /// The thumbnail is made with this greatest width and height, kept, and
    /// served.
    Generate(u32),
}

/// The step that a request of size `size` calls for.
pub open spec fn step_for(size: SizeVariant, original_is_file: bool, cached_is_file: bool)
    -> ThumbnailStep {
    if !original_is_file {
        ThumbnailStep::NotFound
    } else if cached_is_file {
        ThumbnailStep::ServeCached
    } else {
        ThumbnailStep::Generate(size.limit())
    }
}

/// The key under which a thumbnail is kept, as the components of its path
/// below the cache directory: album, size and file name.
pub open spec fn cache_key_of(album: Seq<char>, size: SizeVariant, filename: Seq<char>) -> Seq<
    Seq<char>,
> {
    seq![album, size.name_text(), filename]
}

impl ThumbnailRequest {
    /// Whether album and file name are plain path components.
    pub open spec fn is_valid(&self) -> bool {
        is_safe_segment(self.album@) && is_safe_segment(self.filename@)
    }

    /// Checks the names of a request for a thumbnail.
    ///
    /// An album or a file name that is no plain path component is not found,
    /// whatever the size. With both in order, a size other than `small` and
    /// `medium` is a bad request.
    pub fn parse(album: &str, size: &str, filename: &str) -> (request: Result<
        ThumbnailRequest,
        RequestError,
    >)
        ensures
            match request {
                Ok(request) => {
                    &&& is_safe_segment(album@) && is_safe_segment(filename@)
                    &&& size_named(size@) == Some(request.size)
                    &&& request.album@ == album@
                    &&& request.filename@ == filename@
                    &&& request.is_valid()
                },
                Err(error) => if is_safe_segment(album@) && is_safe_segment(filename@) {
                    size_named(size@) is None && error == RequestError::BadRequest
                } else {
                    error == RequestError::NotFound
                },
            },
    {
        if !is_safe_path_segment(album) || !is_safe_path_segment(filename) {
            return Err(RequestError::NotFound);
        }
        match SizeVariant::from_name(size) {
            Some(size) => Ok(
                ThumbnailRequest {
                    album: String::from_str(album),
                    size,
                    filename: String::from_str(filename),
                },
            ),
            None => Err(RequestError::BadRequest),
        }
    }

    /// The components of the original's path below the photo directory:
    /// album and file name.
    pub fn original_key(&self) -> (key: Vec<String>)
        ensures
            key.deep_view() == seq![self.album@, self.filename@],
    {
        let mut key: Vec<String> = Vec::new();
        key.push(self.album.clone());
        key.push(self.filename.clone());
        assert(key.deep_view() =~= seq![self.album@, self.filename@]);
        key
    }

    /// The components of the thumbnail's path below the cache directory:
    /// album, size and file name.
    pub fn cache_key(&self) -> (key: Vec<String>)
        ensures
            key.deep_view() == cache_key_of(self.album@, self.size, self.filename@),
    {
        let mut key: Vec<String> = Vec::new();
        key.push(self.album.clone());
        key.push(String::from_str(self.size.name()));
        key.push(self.filename.clone());
        assert(key.deep_view() =~= cache_key_of(self.album@, self.size, self.filename@));
        key
    }

    /// Decides what is to be done, given whether the original is a file and
    /// whether the thumbnail is one already.
    ///
    /// Without the original nothing is found. A thumbnail that is there is
    /// served as it is, and not held against the original. Otherwise the
    /// thumbnail is made, with the greatest side of the request's size.
    pub fn step(&self, original_is_file: bool, cached_is_file: bool) -> (step: ThumbnailStep)
        ensures
            step == step_for(self.size, original_is_file, cached_is_file),
    {
        if !original_is_file {
            ThumbnailStep::NotFound
        } else if cached_is_file {
            ThumbnailStep::ServeCached
        } else {
            ThumbnailStep::Generate(self.size.max_dimension())
        }
    }
}

/// The names of the sizes are plain path components.
pub proof fn lemma_size_names_are_safe(size: SizeVariant)
    ensures
        is_safe_segment(size.name_text()),
{
    reveal_strlit("small");
    reveal_strlit("medium");
    let name = size.name_text();
    assert(name.len() > 1);
    assert(name[0] != '.');
    assert(seq!['.'].len() == 1);
    assert(seq!['.', '.'][0] == '.');
    assert forall|i: int| 0 <= i < name.len() implies !is_separator(#[trigger] name[i]) by {}
}

/// The key of a valid request is made of plain path components only, so a
/// path built from it stays below the cache directory.
pub proof fn lemma_cache_key_is_safe(album: Seq<char>, size: SizeVariant, filename: Seq<char>)
    requires
        is_safe_segment(album),
        is_safe_segment(filename),
    ensures
        cache_key_of(album, size, filename).len() == 3,
        forall|i: int|
            0 <= i < 3 ==> is_safe_segment(#[trigger] cache_key_of(album, size, filename)[i]),
{
    lemma_size_names_are_safe(size);
}

/// Thumbnails that differ in album, size or file name have different keys:
/// two albums with a photo of one name do not share a thumbnail.
pub proof fn lemma_cache_key_is_injective(
    album: Seq<char>,
    size: SizeVariant,
    filename: Seq<char>,
    other_album: Seq<char>,
    other_size: SizeVariant,
    other_filename: Seq<char>,
)
    requires
        cache_key_of(album, size, filename) == cache_key_of(
            other_album,
            other_size,
            other_filename,
        ),
    ensures
        album == other_album,
        size == other_size,
        filename == other_filename,
{
    let key = cache_key_of(album, size, filename);
    let other = cache_key_of(other_album, other_size, other_filename);
    assert(key[0] == other[0]);
    assert(key[1] == other[1]);
    assert(key[2] == other[2]);
    reveal_strlit("small");
    reveal_strlit("medium");
    assert("small"@.len() != "medium"@.len());
}

/// The name of a size stands for that size, and for no other.
pub proof fn lemma_size_name_round_trip(size: SizeVariant)
    ensures
        size_named(size.name_text()) == Some(size),
{
    reveal_strlit("small");
    reveal_strlit("medium");
    assert("small"@.len() != "medium"@.len());
}

/// A decoded image, as the `image` crate holds it.
#[verifier::external_type_specification]
#[verifier::external_body]
pub struct ExDynamicImage(image::DynamicImage);

/// A file format of images, as the `image` crate names it.
#[verifier::external_type_specification]
#[verifier::external_body]
pub struct ExImageFormat(image::ImageFormat);

/// An error of the `image` crate.
#[verifier::external_type_specification]
#[verifier::external_body]
pub struct ExImageError(image::ImageError);

/// The format that `image::ImageFormat::from_path` reads off a file name, or
/// nothing where it knows none for the name's extension.
pub uninterp spec fn format_of_name(filename: Seq<char>) -> Option<image::ImageFormat>;

/// The image that `image::load_from_memory_with_format` decodes from the
/// bytes of a file in the given format, or nothing where it reports an error.
pub uninterp spec fn decoded_image(bytes: Seq<u8>, format: image::ImageFormat) -> Option<
    image::DynamicImage,
>;

/// The image that `image::DynamicImage::resize` makes of `image` for the
/// bounds `max` by `max`, with the Lanczos filter of window 3.
pub uninterp spec fn fitted_image(image: image::DynamicImage, max: u32) -> image::DynamicImage;

/// The bytes that `image::DynamicImage::write_to` writes for `image` in the
/// given format, or nothing where it reports an error.
pub uninterp spec fn encoded_image(image: image::DynamicImage, format: image::ImageFormat)
    -> Option<Seq<u8>>;

/// The width of an image in pixels, as `image::DynamicImage::width` gives it.
pub uninterp spec fn image_width(image: image::DynamicImage) -> u32;

/// The height of an image in pixels, as `image::DynamicImage::height` gives
/// it.
pub uninterp spec fn image_height(image: image::DynamicImage) -> u32;

/// Reads the format off the extension of a file name with
/// `image::ImageFormat::from_path`. The outcome is a function of the name
/// alone; an extension that the crate does not know is an error.
#[verifier::external_body]
fn format_by_name(filename: &str) -> (format: Result<image::ImageFormat, image::ImageError>)
    ensures
        match format {
            Ok(format) => format_of_name(filename@) == Some(format),
            Err(_) => format_of_name(filename@) is None,
        },
{
    image::ImageFormat::from_path(filename)
}

/// Decodes an image from the bytes of a file with
/// `image::load_from_memory_with_format`. The outcome is a function of the
/// bytes and the format alone.
#[verifier::external_body]
fn decode(bytes: &[u8], format: image::ImageFormat) -> (image: Result<
    image::DynamicImage,
    image::ImageError,
>)
    ensures
        match image {
            Ok(image) => decoded_image(bytes@, format) == Some(image),
            Err(_) => decoded_image(bytes@, format) is None,
        },
{
    image::load_from_memory_with_format(bytes, format)
}

/// Scales an image with `image::DynamicImage::resize` to the largest size
/// that fits within `max` by `max`, keeping the ratio of its sides. The
/// outcome is a function of the image and the bound alone, and neither of its
/// sides is longer than the bound.
#[verifier::external_body]
fn fit_within(image: &image::DynamicImage, max: u32) -> (fitted: image::DynamicImage)
    requires
        max >= 1,
    ensures
        fitted == fitted_image(*image, max),
        image_width(fitted) <= max,
        image_height(fitted) <= max,
{
    image.resize(max, max, image::imageops::FilterType::Lanczos3)
}

/// Encodes an image in the given format with `image::DynamicImage::write_to`,
/// into memory. The outcome is a function of the image and the format alone.
#[verifier::external_body]
fn encode(image: &image::DynamicImage, format: image::ImageFormat) -> (bytes: Result<
    Vec<u8>,
    image::ImageError,
>)
    ensures
        match bytes {
            Ok(bytes) => encoded_image(*image, format) == Some(bytes@),
            Err(_) => encoded_image(*image, format) is None,
        },
{
    let mut bytes = Vec::new();
    image.write_to(&mut std::io::Cursor::new(&mut bytes), format)?;
    Ok(bytes)
}

/// Why a thumbnail could not be made.
#[derive(Clone, Copy, PartialEq, Eq, Debug, Structural)]
pub enum ThumbnailError {
    /// The file name has no extension of a known image format.
    UnknownFormat,
    /// The original could not be decoded.
    Decode,
    /// The thumbnail could not be encoded.
    Encode,
}

/// The thumbnail of an original: its format is read off the file name, the
/// original is decoded in that format, scaled to fit within `max` by `max`,
/// and encoded in the same format. Each step may fail with its error.
pub open spec fn thumbnail_of(original: Seq<u8>, filename: Seq<char>, max: u32) -> Result<
    Seq<u8>,
    ThumbnailError,
> {
    match format_of_name(filename) {
        None => Err(ThumbnailError::UnknownFormat),
        Some(format) => match decoded_image(original, format) {
            None => Err(ThumbnailError::Decode),
            Some(image) => match encoded_image(fitted_image(image, max), format) {
                None => Err(ThumbnailError::Encode),
                Some(bytes) => Ok(bytes),
            },
        },
    }
}

/// Whether `bytes` are the encoding, in the format of `filename`, of some
/// image with no side longer than `max`.
pub open spec fn encodes_image_within(bytes: Seq<u8>, filename: Seq<char>, max: u32) -> bool {
    exists|image: image::DynamicImage|
        {
            &&& image_width(image) <= max
            &&& image_height(image) <= max
            &&& format_of_name(filename) is Some
            &&& #[trigger] encoded_image(image, format_of_name(filename)->0) == Some(bytes)
        }
}

/// Makes the thumbnail of an original in the given size.
///
/// `original` holds the bytes of the original file and `filename` its name,
/// by whose extension the format is known. The thumbnail fits within the
/// limit of the size in both directions and has the format of the original.
/// A failure is handed back and leaves nothing behind, so that the next
/// request tries again.
pub fn render_thumbnail(original: &[u8], filename: &str, size: SizeVariant) -> (thumbnail: Result<
    Vec<u8>,
    ThumbnailError,
>)
    ensures
        match thumbnail {
            Ok(bytes) => {
                &&& thumbnail_of(original@, filename@, size.limit()) == Ok::<
                    Seq<u8>,
                    ThumbnailError,
                >(bytes@)
                &&& encodes_image_within(bytes@, filename@, size.limit())
            },
            Err(error) => thumbnail_of(original@, filename@, size.limit()) == Err::<
                Seq<u8>,
                ThumbnailError,
            >(error),
        },
{
    let format = match format_by_name(filename) {
        Ok(format) => format,
        Err(_) => {
            return Err(ThumbnailError::UnknownFormat);
        },
    };
    let image = match decode(original, format) {
        Ok(image) => image,
        Err(_) => {
            return Err(ThumbnailError::Decode);
        },
    };
    let fitted = fit_within(&image, size.max_dimension());
    match encode(&fitted, format) {
        Ok(bytes) => {
            assert(encoded_image(fitted, format_of_name(filename@)->0) == Some(bytes@));
            Ok(bytes)
        },
        Err(_) => Err(ThumbnailError::Encode),
    }
}

} // verus!
