//! Thumbnail generation: decode image bytes into an RGB raster, shrink the
//! raster to fit a bounding box, and re-encode it as JPEG.
//!
//! Decoding, resampling and encoding are performed by the `image` crate
//! behind trusted wrappers; everything that decides — the size guard, the
//! decode/fallback chain and the assembly of the result — is verified.

use vstd::prelude::*;

verus! {

/// Maximum size of a source file when no explicit limit is configured
/// (32 MiB).
pub const DEFAULT_MAX_IMAGE_FILE_SIZE: u64 = 32 * 1024 * 1024;

/// JPEG quality used when re-encoding a thumbnail.
pub const THUMBNAIL_JPEG_QUALITY: u8 = 90;

/// A generated preview: pixel dimensions plus the compressed payload.  The
/// payload is self-describing; [`Thumbnail::wf`] says its recorded
/// dimensions match the fields.
#[derive(Debug)]
pub struct Thumbnail {
    pub height: u32,
    pub width: u32,
    pub pixels: Vec<u8>,
}

impl Thumbnail {
    /// The payload's own header records exactly the dimensions carried
    /// alongside it.  Generation establishes this; the cache relies on it
    /// to recover dimensions from a stored payload.
    pub open spec fn wf(self) -> bool {
        image_dims(self.pixels@) == Some((self.width, self.height))
    }
}

/// One unit of renderable input: either a filesystem path, or an in-memory
/// buffer (an archive member) paired with its synthetic display path.
pub enum Source {
    Path(String),
    Mem(Vec<u8>, String),
}

impl Source {
    /// The display path: used for cache keys, hyperlinks and error reports.
    pub open spec fn spec_path(self) -> Seq<char> {
        match self {
            Source::Path(p) => p@,
            Source::Mem(_, p) => p@,
        }
    }

    pub fn path(&self) -> (p: &String)
        ensures
            p@ == self.spec_path(),
    {
        match self {
            Source::Path(path) => path,
            Source::Mem(_, path) => path,
        }
    }

    pub fn into_path_buf(self) -> (p: String)
        ensures
            p@ == self.spec_path(),
    {
        match self {
            Source::Path(path) => path,
            Source::Mem(_, path) => path,
        }
    }
}

/// Why a source failed to produce a thumbnail.  Each failure travels with
/// its display path to the end-of-run report.
#[derive(PartialEq, Eq, Structural, Clone, Copy, Debug)]
pub enum ThumbError {
    /// The file is larger than the configured maximum; carries the file
    /// size and the limit it exceeded.
    SizeExceeded { len: u64, max: u64 },
    /// The path exists but is not a regular file.
    NotARegularFile,
    /// The bytes could not be decoded as a still image.
    DecodeFailed,
    /// The resized raster could not be re-encoded.
    EncodeFailed,
    /// Reading the file or its metadata failed.
    IoFailure,
}

/// The decimal digits of a number, most significant first, as characters.
pub open spec fn spec_decimal_chars(n: nat) -> Seq<char>
    decreases n,
{
    if n < 10 {
        seq![((48 + n) as u8) as char]
    } else {
        spec_decimal_chars(n / 10) + seq![((48 + n % 10) as u8) as char]
    }
}

fn push_decimal_chars(out: &mut String, n: u64)
    ensures
        final(out)@ == old(out)@ + spec_decimal_chars(n as nat),
    decreases n,
{
    let digits = "0123456789";
    proof {
        reveal_strlit("0123456789");
        assert(vstd::string::is_ascii(digits)) by {
            assert(forall|i: int|
                0 <= i < digits@.len() ==> '\0' <= #[trigger] digits@[i] <= '\u{7f}');
        }
    }
    if n < 10 {
        let d = digits.substring_ascii(n as usize, n as usize + 1);
        out.append(d);
        proof {
            assert(digits@[n as int] == ((48 + n) as u8) as char);
            assert(final(out)@ =~= old(out)@ + spec_decimal_chars(n as nat));
        }
    } else {
        push_decimal_chars(out, n / 10);
        let d = digits.substring_ascii((n % 10) as usize, (n % 10) as usize + 1);
        out.append(d);
        proof {
            assert(digits@[(n % 10) as int] == ((48 + n % 10) as u8) as char);
            assert(final(out)@ =~= old(out)@ + spec_decimal_chars(n as nat));
        }
    }
}

impl ThumbError {
    /// The diagnostic line's text for this failure.
    pub open spec fn spec_message(self) -> Seq<char> {
        match self {
            ThumbError::SizeExceeded { len, max } => "File exceeds the maximum size ("@
                + spec_decimal_chars(len as nat) + " > "@ + spec_decimal_chars(max as nat)
                + ")"@,
            ThumbError::NotARegularFile => "Expected a regular file"@,
            ThumbError::DecodeFailed => "Can't decode the file as an image"@,
            ThumbError::EncodeFailed => "Can't encode the thumbnail"@,
            ThumbError::IoFailure => "Can't read the file"@,
        }
    }

    /// A human-readable description of the failure, carrying the byte
    /// counts where a size limit was exceeded.
    pub fn message(&self) -> (r: String)
        ensures
            r@ == self.spec_message(),
    {
        match self {
            ThumbError::SizeExceeded { len, max } => {
                let mut r = String::new();
                r.append("File exceeds the maximum size (");
                push_decimal_chars(&mut r, *len);
                r.append(" > ");
                push_decimal_chars(&mut r, *max);
                r.append(")");
                proof {
                    assert(r@ =~= self.spec_message());
                }
                r
            },
            ThumbError::NotARegularFile => String::from_str("Expected a regular file"),
            ThumbError::DecodeFailed => String::from_str("Can't decode the file as an image"),
            ThumbError::EncodeFailed => String::from_str("Can't encode the thumbnail"),
            ThumbError::IoFailure => String::from_str("Can't read the file"),
        }
    }
}

/// A decoded image: tightly packed RGB, 3 bytes per pixel, row-major.
/// This is the in-library model of what the decoder returns.
pub struct Raster {
    pub width: u32,
    pub height: u32,
    pub data: Vec<u8>,
}

impl Raster {
    pub open spec fn wf(self) -> bool {
        self.data@.len() == 3 * self.width * self.height
    }

    /// The raster as a plain value, for relating it to named decoder
    /// results.
    pub open spec fn model(self) -> (u32, u32, Seq<u8>) {
        (self.width, self.height, self.data@)
    }
}

/// What `image::load_from_memory` followed by `into_rgb8` yields for given
/// bytes: `None` when the bytes are not a decodable image, otherwise the
/// pixel dimensions and the packed RGB data.  Decoding is a function of the
/// input bytes alone.
pub uninterp spec fn image_decoded(data: Seq<u8>) -> Option<(u32, u32, Seq<u8>)>;

/// What `DynamicImage::thumbnail(bound_w, bound_h)` yields for a given RGB
/// raster: the aspect-preserving scale fitted to the bounds.  A function
/// of its arguments alone.
pub uninterp spec fn resized_fit(
    width: u32,
    height: u32,
    data: Seq<u8>,
    bound_w: u32,
    bound_h: u32,
) -> (u32, u32, Seq<u8>);

/// The dimensions recorded in an encoded image's own header, as
/// `image::ImageReader::into_dimensions` reads them without decoding
/// pixels; `None` when the bytes carry no recognizable image header.
pub uninterp spec fn image_dims(data: Seq<u8>) -> Option<(u32, u32)>;

/// What `JpegEncoder` (quality 90, no chroma subsampling) produces for a
/// tightly packed RGB raster of the given dimensions: the JPEG bytes, or
/// nothing when the dimensions cannot be encoded.  Encoding is a function
/// of its arguments alone.
pub uninterp spec fn jpeg_encoded(width: u32, height: u32, data: Seq<u8>) -> Option<Seq<u8>>;

/// Relies on `image::load_from_memory` and `DynamicImage::into_rgb8`:
/// decoding is deterministic in the input bytes, and an RGB8 buffer holds
/// exactly 3 bytes per pixel.
#[verifier::external_body]
fn decode_rgb(data: &[u8]) -> (r: Option<Raster>)
    ensures
        match r {
            Some(img) => image_decoded(data@) == Some(img.model()) && img.wf(),
            None => image_decoded(data@) is None,
        },
{
    match image::load_from_memory(data) {
        Ok(decoded) => {
            let rgb = decoded.into_rgb8();
            let (width, height) = rgb.dimensions();
            Some(Raster { width, height, data: rgb.into_raw() })
        },
        Err(_) => None,
    }
}

/// Relies on `image::DynamicImage::thumbnail`: an aspect-preserving
/// scale to fit the bounds that is deterministic in the raster and the
/// bounds, returns RGB8 for RGB8 input, and never fails.  Each result
/// dimension is at least 1 and at most the corresponding bound (or 1 for
/// a zero bound), as `resize_dimensions` computes it.  Bounds no larger
/// than the source keep the result no larger than the source, so its
/// buffer cannot outgrow an allocatable length.
#[verifier::external_body]
fn resize_to_fit(img: &Raster, bound_w: u32, bound_h: u32) -> (r: Raster)
    requires
        img.wf(),
        bound_w <= vstd::math::max(img.width as int, 1),
        bound_h <= vstd::math::max(img.height as int, 1),
    ensures
        r.model() == resized_fit(img.width, img.height, img.data@, bound_w, bound_h),
        r.wf(),
        1 <= r.width && 1 <= r.height,
        r.width <= vstd::math::max(bound_w as int, 1),
        r.height <= vstd::math::max(bound_h as int, 1),
{
    let buf = image::RgbImage::from_raw(img.width, img.height, img.data.clone())
        .expect("raster holds 3 bytes per pixel");
    let resized = image::DynamicImage::ImageRgb8(buf).thumbnail(bound_w, bound_h);
    let rgb = resized.into_rgb8();
    let (width, height) = rgb.dimensions();
    Raster { width, height, data: rgb.into_raw() }
}

/// Relies on `image::codecs::jpeg::JpegEncoder` and
/// `image::ImageReader::into_dimensions`: encoding into a `Vec` (whose
/// writes cannot fail) is deterministic in the raster and succeeds
/// exactly when both dimensions lie in `1..=65535`, the range a JPEG
/// frame header can record; a produced JPEG's header reads back as
/// exactly the encoded dimensions.
#[verifier::external_body]
fn encode_jpeg(img: &Raster) -> (r: Option<Vec<u8>>)
    requires
        img.wf(),
    ensures
        match r {
            Some(v) => jpeg_encoded(img.width, img.height, img.data@) == Some(v@) && image_dims(
                v@,
            ) == Some((img.width, img.height)),
            None => jpeg_encoded(img.width, img.height, img.data@) is None,
        },
        r is Some <==> (1 <= img.width <= 65535 && 1 <= img.height <= 65535),
{
    let buf = image::RgbImage::from_raw(img.width, img.height, img.data.clone())
        .expect("raster holds 3 bytes per pixel");
    let mut out: Vec<u8> = Vec::new();
    let mut encoder = image::codecs::jpeg::JpegEncoder::new_with_quality(
        &mut out,
        THUMBNAIL_JPEG_QUALITY,
    );
    match encoder.encode_image(&buf) {
        Ok(()) => Some(out),
        Err(_) => None,
    }
}

/// Relies on `image::ImageReader::with_guessed_format` and
/// `into_dimensions`: reading the recorded dimensions from an in-memory
/// buffer is deterministic in the bytes and decodes no pixel data.
#[verifier::external_body]
pub(crate) fn read_image_dims(data: &[u8]) -> (r: Option<(u32, u32)>)
    ensures
        r == image_dims(data@),
{
    let reader = match image::ImageReader::new(std::io::Cursor::new(data)).with_guessed_format() {
        Ok(reader) => reader,
        Err(_) => return None,
    };
    match reader.into_dimensions() {
        Ok(dims) => Some(dims),
        Err(_) => None,
    }
}

/// The size limit in force: the configured maximum, or the default.
pub open spec fn spec_effective_max(max_size: Option<u64>) -> u64 {
    match max_size {
        Some(m) => m,
        None => DEFAULT_MAX_IMAGE_FILE_SIZE,
    }
}

/// Decide from a file's metadata whether it may be read at all: a file
/// over the size limit is rejected before any of its contents are read,
/// and only regular files are read.
pub fn size_guard(len: u64, is_regular: bool, max_size: Option<u64>) -> (r: Result<
    (),
    ThumbError,
>)
    ensures
        match r {
            Ok(()) => len <= spec_effective_max(max_size) && is_regular,
            Err(e) => match e {
                ThumbError::SizeExceeded { len: l, max: m } => l == len && m
                    == spec_effective_max(max_size) && len > m,
                ThumbError::NotARegularFile => !is_regular && len <= spec_effective_max(max_size),
                _ => false,
            },
        },
{
    let max = match max_size {
        Some(m) => m,
        None => DEFAULT_MAX_IMAGE_FILE_SIZE,
    };
    if len > max {
        Err(ThumbError::SizeExceeded { len, max })
    } else if !is_regular {
        Err(ThumbError::NotARegularFile)
    } else {
        Ok(())
    }
}

/// The smaller of a requested bound and the source's own dimension: the
/// box handed to the resizer never asks for an upscale beyond the source.
pub open spec fn spec_clamped(bound: u32, orig: u32) -> u32 {
    if bound < orig {
        bound
    } else {
        orig
    }
}

/// The resized raster for a source raster model under the requested box,
/// after clamping the box against upscaling.  The first bound limits the
/// result's width and the second its height, as the callers hand them on.
pub open spec fn spec_resized(m: (u32, u32, Seq<u8>), height: u32, width: u32) -> (
    u32,
    u32,
    Seq<u8>,
) {
    resized_fit(m.0, m.1, m.2, spec_clamped(height, m.0), spec_clamped(width, m.1))
}

/// Whether bytes yield a thumbnail at the given box: they decode as a
/// still image, and the clamped, resized dimensions fit a JPEG frame
/// header.
pub open spec fn spec_mem_ok(data: Seq<u8>, height: u32, width: u32) -> bool {
    match image_decoded(data) {
        Some(m) => {
            let d = spec_resized(m, height, width);
            1 <= d.0 <= 65535 && 1 <= d.1 <= 65535
        },
        None => false,
    }
}

/// Shrink a decoded raster to fit the box — never upscaling beyond the
/// source dimensions — and re-encode it.  Succeeds exactly when the
/// resized dimensions fit a JPEG frame header; the result carries the
/// post-resize dimensions and the (named) deterministic encoding of the
/// resized pixels, whose header records those dimensions.
pub fn thumbnail_from_raster(img: &Raster, height: u32, width: u32) -> (r: Result<
    Thumbnail,
    ThumbError,
>)
    requires
        img.wf(),
    ensures
        ({
            let m = spec_resized(img.model(), height, width);
            match r {
                Ok(t) => t.wf() && t.width == m.0 && t.height == m.1 && jpeg_encoded(
                    m.0,
                    m.1,
                    m.2,
                ) == Some(t.pixels@) && 1 <= t.width <= 65535 && 1 <= t.height <= 65535
                    && t.width <= vstd::math::max(img.width as int, 1) && t.height
                    <= vstd::math::max(img.height as int, 1) && t.width <= vstd::math::max(
                    height as int,
                    1,
                ) && t.height <= vstd::math::max(width as int, 1),
                Err(e) => e == ThumbError::EncodeFailed && (m.0 > 65535 || m.1 > 65535),
            }
        }),
{
    let bound_w = if height < img.width {
        height
    } else {
        img.width
    };
    let bound_h = if width < img.height {
        width
    } else {
        img.height
    };
    let resized = resize_to_fit(img, bound_w, bound_h);
    match encode_jpeg(&resized) {
        Some(pixels) => Ok(Thumbnail { height: resized.height, width: resized.width, pixels }),
        None => Err(ThumbError::EncodeFailed),
    }
}

/// Produce a thumbnail from in-memory image bytes: decode, shrink to fit
/// the box without upscaling, re-encode.  The result depends on the bytes
/// and the box alone: it is `Ok` exactly when [`spec_mem_ok`] holds, with
/// dimensions and payload pinned by the named decode, resize and encode
/// results; `DecodeFailed` exactly when the bytes decode to no image; and
/// `EncodeFailed` exactly when they decode but the resized dimensions
/// cannot be encoded.
pub fn thumbnail_from_mem(data: &[u8], height: u32, width: u32) -> (r: Result<
    Thumbnail,
    ThumbError,
>)
    ensures
        r is Ok <==> spec_mem_ok(data@, height, width),
        match r {
            Ok(t) => image_decoded(data@) matches Some(m) && ({
                let d = spec_resized(m, height, width);
                t.wf() && t.width == d.0 && t.height == d.1 && jpeg_encoded(d.0, d.1, d.2)
                    == Some(t.pixels@) && t.width <= vstd::math::max(m.0 as int, 1) && t.height
                    <= vstd::math::max(m.1 as int, 1) && t.width <= vstd::math::max(
                    height as int,
                    1,
                ) && t.height <= vstd::math::max(width as int, 1)
            }),
            Err(e) => match e {
                ThumbError::DecodeFailed => image_decoded(data@) is None,
                ThumbError::EncodeFailed => image_decoded(data@) is Some,
                _ => false,
            },
        },
{
    match decode_rgb(data) {
        Some(img) => thumbnail_from_raster(&img, height, width),
        None => Err(ThumbError::DecodeFailed),
    }
}

/// Whether a failed attempt should fall back to extracting a video frame:
/// only a still-image decode failure is worth retrying, and only for a
/// source backed by a real path.
pub fn wants_frame_fallback(e: &ThumbError, is_path_source: bool) -> (b: bool)
    ensures
        b == (is_path_source && *e == ThumbError::DecodeFailed),
{
    is_path_source && match e {
        ThumbError::DecodeFailed => true,
        _ => false,
    }
}

/// Finish a failed generation with an optionally extracted video frame.
/// A frame that decodes and encodes yields its thumbnail — success is
/// owed exactly then; everything else surfaces the original still-image
/// error, never the frame extraction's own failure.
pub fn finish_with_frame(
    still_err: ThumbError,
    frame: Option<Vec<u8>>,
    height: u32,
    width: u32,
) -> (r: Result<Thumbnail, ThumbError>)
    ensures
        r is Ok <==> (frame matches Some(f) && spec_mem_ok(f@, height, width)),
        match r {
            Ok(t) => frame matches Some(f) && (image_decoded(f@) matches Some(m) && ({
                let d = spec_resized(m, height, width);
                t.wf() && t.width == d.0 && t.height == d.1 && jpeg_encoded(d.0, d.1, d.2)
                    == Some(t.pixels@)
            })),
            Err(e) => e == still_err,
        },
{
    match frame {
        Some(f) => match thumbnail_from_mem(f.as_slice(), height, width) {
            Ok(t) => Ok(t),
            Err(_) => Err(still_err),
        },
        None => Err(still_err),
    }
}

} // verus!
