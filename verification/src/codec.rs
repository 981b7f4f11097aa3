//! Frame codec: sizing a captured display image to a bound, resampling it and
//! compressing it to JPEG.

use vstd::prelude::*;

verus! {

/// Largest width or height, in pixels, of an image that can be compressed.
pub const MAX_ENCODED_SIDE: u32 = 65535;

/// How a frame is resampled when it is scaled down.
#[derive(Clone, Copy, Debug, PartialEq, Eq, Structural)]
pub enum ResampleFilter {
    /// Linear interpolation, the cheaper filter of the live stream.
    Triangle,
    /// Windowed sinc over three lobes, the filter of the periodic snapshot.
    Lanczos3,
}

/// Why a frame could not be encoded.
#[derive(Clone, Copy, Debug, PartialEq, Eq, Structural)]
pub enum EncodeError {
    /// The image to compress would be `width` by `height`, and one of the two
    /// is 0 or above `MAX_ENCODED_SIDE`.
    InvalidSize { width: u32, height: u32 },
    /// A working buffer would be larger than the machine can address.
    TooLarge,
}

/// One captured display image: `width * height` pixels in rows, four bytes
/// (red, green, blue, alpha) each.
#[derive(Debug, PartialEq, Eq)]
pub struct Frame {
    width: u32,
    height: u32,
    pixels: Vec<u8>,
}

/// The mathematical model of a frame.
pub struct FrameView {
    pub width: u32,
    pub height: u32,
    pub pixels: Seq<u8>,
}

/// The length in bytes of a `width` by `height` image of four bytes a pixel.
pub open spec fn rgba_len(width: u32, height: u32) -> int {
    4 * (width * height)
}

/// The length in bytes of a `width` by `height` image of three bytes a pixel.
pub open spec fn rgb_len(width: u32, height: u32) -> int {
    3 * (width * height)
}

impl FrameView {
    /// The buffer holds exactly four bytes for each pixel.
    pub open spec fn wf(self) -> bool {
        self.pixels.len() == rgba_len(self.width, self.height)
    }
}

impl View for Frame {
    type V = FrameView;

    closed spec fn view(&self) -> FrameView {
        FrameView { width: self.width, height: self.height, pixels: self.pixels@ }
    }
}

/// The number of pixels of a `width` by `height` image.
pub fn pixel_count(width: u32, height: u32) -> (count: u64)
    ensures
        count == width * height,
{
    assert(width * height <= 0xFFFF_FFFF * 0xFFFF_FFFF) by (nonlinear_arith)
        requires
            width <= 0xFFFF_FFFF,
            height <= 0xFFFF_FFFF,
    ;
    (width as u64) * (height as u64)
}

impl Clone for Frame {
    fn clone(&self) -> (copy: Self)
        ensures
            copy@ == self@,
    {
        proof {
            use_type_invariant(self);
        }
        Frame { width: self.width, height: self.height, pixels: self.pixels.clone() }
    }
}

impl Frame {
    #[verifier::type_invariant]
    spec fn inv(self) -> bool {
        self.pixels@.len() == rgba_len(self.width, self.height)
    }

    /// Builds a frame from raw bytes. The buffer must hold at least four bytes
    /// for each pixel; what lies beyond them is dropped.
    pub fn from_raw(width: u32, height: u32, pixels: Vec<u8>) -> (frame: Option<Frame>)
        ensures
            frame is Some <==> rgba_len(width, height) <= pixels@.len(),
            frame matches Some(f) ==> f@ == (FrameView {
                width,
                height,
                pixels: pixels@.subrange(0, rgba_len(width, height)),
            }),
    {
        let needed: u128 = 4 * (pixel_count(width, height) as u128);
        if needed > pixels.len() as u128 {
            return None;
        }
        let mut pixels = pixels;
        pixels.truncate(needed as usize);
        Some(Frame { width, height, pixels })
    }

    /// Width in pixels.
    pub fn width(&self) -> (w: u32)
        ensures
            w == self@.width,
    {
        self.width
    }

    /// Height in pixels.
    pub fn height(&self) -> (h: u32)
        ensures
            h == self@.height,
    {
        self.height
    }

    /// The pixel bytes, row by row.
    pub fn pixels(&self) -> (p: &Vec<u8>)
        ensures
            p@ == self@.pixels,
            self@.wf(),
    {
        proof {
            use_type_invariant(self);
        }
        &self.pixels
    }
}

/// The length of the shorter side after scaling: `side * max_dimension /
/// longest` rounded down, but never 0 where `max_dimension` is not.
pub open spec fn scaled_side(side: u32, longest: u32, max_dimension: u32) -> int {
    let exact = (side * max_dimension) / (longest as int);
    if exact == 0 && max_dimension > 0 {
        1
    } else {
        exact
    }
}

/// The size to which a `width` by `height` image is brought for the bound
/// `max_dimension`: its own size if neither side exceeds the bound; otherwise
/// the longer side becomes the bound and the other is scaled by the same ratio.
pub open spec fn target_size(width: u32, height: u32, max_dimension: u32) -> (u32, u32) {
    if width <= max_dimension && height <= max_dimension {
        (width, height)
    } else if width >= height {
        (max_dimension, scaled_side(height, width, max_dimension) as u32)
    } else {
        (scaled_side(width, height, max_dimension) as u32, max_dimension)
    }
}

/// The scaled shorter side is within the bound and within one pixel of the
/// exact ratio.
pub proof fn lemma_scaled_side(side: u32, longest: u32, max_dimension: u32)
    requires
        side <= longest,
        0 < longest,
    ensures
        0 <= scaled_side(side, longest, max_dimension) <= max_dimension,
        max_dimension > 0 ==> scaled_side(side, longest, max_dimension) >= 1,
        -longest <= scaled_side(side, longest, max_dimension) * longest - side * max_dimension
            <= longest,
        max_dimension < longest && side >= 1 ==> scaled_side(side, longest, max_dimension) <= side,
{
    let a = side * max_dimension;
    let b = longest as int;
    let exact = a / b;
    assert(0 <= a) by (nonlinear_arith)
        requires
            a == side * max_dimension,
    ;
    assert(a <= max_dimension * b) by (nonlinear_arith)
        requires
            a == side * max_dimension,
            side <= b,
            0 <= max_dimension,
    ;
    vstd::arithmetic::div_mod::lemma_fundamental_div_mod(a, b);
    vstd::arithmetic::div_mod::lemma_mod_bound(a, b);
    vstd::arithmetic::div_mod::lemma_div_pos_is_pos(a, b);
    assert(exact * b == b * exact) by (nonlinear_arith);
    if exact > max_dimension {
        assert(exact * b >= max_dimension * b + b) by (nonlinear_arith)
            requires
                exact >= max_dimension + 1,
                b > 0,
        ;
    }
    if exact == 0 && max_dimension > 0 {
        assert(a == a % b);
        assert(scaled_side(side, longest, max_dimension) * longest == b);
    } else {
        assert(scaled_side(side, longest, max_dimension) * longest == exact * b);
        assert(exact * b - a == -(a % b));
    }
    if max_dimension < longest && side >= 1 {
        assert(a < side * b) by (nonlinear_arith)
            requires
                a == side * max_dimension,
                max_dimension < b,
                side >= 1,
        ;
        if exact >= side {
            assert(exact * b >= side * b) by (nonlinear_arith)
                requires
                    exact >= side,
                    b > 0,
            ;
        }
    }
}

/// The longer of two sides.
pub open spec fn longer(a: u32, b: u32) -> u32 {
    if a >= b {
        a
    } else {
        b
    }
}

/// An image within the bound keeps its size. One that exceeds it on either
/// axis gets a size whose longer side is exactly the bound, and whose sides
/// stand in the ratio of the image's own to within one pixel.
pub proof fn law_target_size(width: u32, height: u32, max_dimension: u32)
    ensures
        ({
            let (w, h) = target_size(width, height, max_dimension);
            &&& width <= max_dimension && height <= max_dimension ==> w == width && h == height
            &&& width > max_dimension || height > max_dimension ==> {
                &&& longer(w, h) == max_dimension
                &&& width >= height ==> -width <= h * width - height * w <= width
                &&& width < height ==> -height <= w * height - width * h <= height
            }
        }),
{
    if width > max_dimension || height > max_dimension {
        if width >= height {
            lemma_scaled_side(height, width, max_dimension);
        } else {
            lemma_scaled_side(width, height, max_dimension);
        }
    }
}

/// Computes the size to which an image is brought for the bound
/// `max_dimension`. An image within the bound keeps its size. Of any other the
/// longer side becomes the bound, and the sides keep their ratio to within one
/// pixel.
pub fn target_dimensions(width: u32, height: u32, max_dimension: u32) -> (size: (u32, u32))
    ensures
        size == target_size(width, height, max_dimension),
        width <= max_dimension && height <= max_dimension ==> size == (width, height),
        width > max_dimension || height > max_dimension ==> {
            &&& longer(size.0, size.1) == max_dimension
            &&& width >= height ==> -width <= size.1 * width - height * size.0 <= width
            &&& width < height ==> -height <= size.0 * height - width * size.1 <= height
        },
{
    proof {
        law_target_size(width, height, max_dimension);
    }
    if width <= max_dimension && height <= max_dimension {
        (width, height)
    } else if width >= height {
        (max_dimension, scale_side(height, width, max_dimension))
    } else {
        (scale_side(width, height, max_dimension), max_dimension)
    }
}

/// Scales the shorter side by the ratio of the bound to the longer one.
fn scale_side(side: u32, longest: u32, max_dimension: u32) -> (scaled: u32)
    requires
        side <= longest,
        0 < longest,
    ensures
        scaled == scaled_side(side, longest, max_dimension),
{
    proof {
        lemma_scaled_side(side, longest, max_dimension);
    }
    assert(side * max_dimension <= 0xFFFF_FFFF * 0xFFFF_FFFF) by (nonlinear_arith)
        requires
            side <= 0xFFFF_FFFF,
            max_dimension <= 0xFFFF_FFFF,
    ;
    let exact: u64 = (side as u64) * (max_dimension as u64) / (longest as u64);
    if exact == 0 && max_dimension > 0 {
        1
    } else {
        exact as u32
    }
}

/// Both sides are between 1 and `MAX_ENCODED_SIDE`, the sizes that the JPEG
/// format can record.
pub open spec fn encodable_size(width: u32, height: u32) -> bool {
    1 <= width <= MAX_ENCODED_SIDE && 1 <= height <= MAX_ENCODED_SIDE
}

/// The pixels of an image resampled with the triangle filter, as
/// `DynamicImage::resize_exact` of the image crate computes them.
pub uninterp spec fn triangle_resampled(
    pixels: Seq<u8>,
    width: u32,
    height: u32,
    new_width: u32,
    new_height: u32,
) -> Seq<u8>;

/// The bytes of the JPEG file that the image crate's encoder writes for an
/// image of three bytes a pixel at the given quality.
pub uninterp spec fn jpeg_bytes(rgb: Seq<u8>, width: u32, height: u32, quality: u8) -> Seq<u8>;

/// The image crate's error type, carried from the encoder to where it is
/// mapped to `EncodeError`.
#[verifier::external_type_specification]
#[verifier::external_body]
pub struct ExImageError(image::ImageError);

/// Calls `DynamicImage::resize_exact` on an image of four bytes a pixel.
/// Trusted: the result has exactly the requested size, and for the triangle
/// filter, whose arithmetic is exact IEEE arithmetic, its bytes are a function
/// of the arguments, named `triangle_resampled`. The requirements keep the
/// call clear of the crate's allocation panics.
#[verifier::external_body]
fn resample(
    pixels: Vec<u8>,
    width: u32,
    height: u32,
    new_width: u32,
    new_height: u32,
    filter: ResampleFilter,
) -> (out: Vec<u8>)
    requires
        pixels@.len() == rgba_len(width, height),
        width >= 1,
        height >= 1,
        new_width >= 1,
        new_height >= 1,
        16 * (width * new_height) <= isize::MAX,
        rgba_len(new_width, new_height) <= isize::MAX,
    ensures
        out@.len() == rgba_len(new_width, new_height),
        filter == ResampleFilter::Triangle ==> out@ == triangle_resampled(
            pixels@,
            width,
            height,
            new_width,
            new_height,
        ),
{
    let kind = match filter {
        ResampleFilter::Triangle => image::imageops::FilterType::Triangle,
        ResampleFilter::Lanczos3 => image::imageops::FilterType::Lanczos3,
    };
    let source = image::RgbaImage::from_raw(width, height, pixels).unwrap();
    image::DynamicImage::ImageRgba8(source).resize_exact(new_width, new_height, kind)
        .into_rgba8().into_raw()
}

/// Calls `JpegEncoder::new_with_quality` and `JpegEncoder::encode` on an image
/// of three bytes a pixel, writing into memory. Trusted: the encoder fails
/// exactly when a side is 0 or above 65535, and otherwise writes a file that is
/// a function of the arguments, named `jpeg_bytes`. The requirement excludes
/// the encoder's panic on a buffer of the wrong length.
#[verifier::external_body]
fn jpeg_encode(
    rgb: &Vec<u8>,
    width: u32,
    height: u32,
    quality: u8,
) -> (encoded: Result<Vec<u8>, image::ImageError>)
    requires
        rgb@.len() == rgb_len(width, height),
    ensures
        (encoded is Ok) == encodable_size(width, height),
        encoded matches Ok(bytes) ==> bytes@ == jpeg_bytes(rgb@, width, height, quality),
{
    let mut out: Vec<u8> = Vec::new();
    image::codecs::jpeg::JpegEncoder::new_with_quality(&mut out, quality).encode(
        rgb,
        width,
        height,
        image::ExtendedColorType::Rgb8,
    )?;
    Ok(out)
}

/// The red, green and blue bytes of each pixel, the alpha byte left out.
pub open spec fn without_alpha(pixels: Seq<u8>) -> Seq<u8> {
    Seq::new((pixels.len() / 4 * 3) as nat, |i: int| pixels[i / 3 * 4 + i % 3])
}

/// Drops the alpha byte of every pixel.
pub fn drop_alpha(pixels: &Vec<u8>) -> (rgb: Vec<u8>)
    ensures
        rgb@ == without_alpha(pixels@),
{
    let count = pixels.len() / 4;
    let mut rgb: Vec<u8> = Vec::new();
    let mut p: usize = 0;
    while p < count
        invariant
            p <= count,
            4 * count <= pixels@.len() <= usize::MAX,
            count == pixels@.len() / 4,
            rgb@.len() == 3 * p,
            forall|i: int| 0 <= i < 3 * p ==> rgb@[i] == pixels@[i / 3 * 4 + i % 3],
        decreases count - p,
    {
        rgb.push(pixels[4 * p]);
        rgb.push(pixels[4 * p + 1]);
        rgb.push(pixels[4 * p + 2]);
        p += 1;
    }
    assert(rgb@ =~= without_alpha(pixels@));
    rgb
}

/// Neither side of the frame exceeds the bound.
pub open spec fn within_bounds(frame: FrameView, max_dimension: u32) -> bool {
    frame.width <= max_dimension && frame.height <= max_dimension
}

/// The frame can be brought within the bound: it is within it already, or it
/// has pixels, the bound is not 0, and the resampler's working buffer can be
/// addressed.
pub open spec fn can_scale(frame: FrameView, max_dimension: u32) -> bool {
    within_bounds(frame, max_dimension) || {
        &&& frame.width >= 1
        &&& frame.height >= 1
        &&& max_dimension >= 1
        &&& 16 * (frame.width * target_size(frame.width, frame.height, max_dimension).1)
            <= isize::MAX
    }
}

/// The error that scaling reports for a frame that cannot be scaled.
pub open spec fn scale_error(frame: FrameView, max_dimension: u32) -> EncodeError {
    if frame.width == 0 || frame.height == 0 {
        EncodeError::InvalidSize { width: frame.width, height: frame.height }
    } else if max_dimension == 0 {
        EncodeError::InvalidSize { width: 0, height: 0 }
    } else {
        EncodeError::TooLarge
    }
}

/// `out` is `frame` brought within the bound: it has the target size and a
/// buffer of that size; it is `frame` itself where that was within the bound;
/// and where the triangle filter resampled it, its pixels are the named
/// result of that.
pub open spec fn is_scaled(
    frame: FrameView,
    max_dimension: u32,
    filter: ResampleFilter,
    out: FrameView,
) -> bool {
    let size = target_size(frame.width, frame.height, max_dimension);
    &&& out.width == size.0
    &&& out.height == size.1
    &&& out.wf()
    &&& within_bounds(frame, max_dimension) ==> out == frame
    &&& !within_bounds(frame, max_dimension) && filter == ResampleFilter::Triangle ==> out.pixels
        == triangle_resampled(frame.pixels, frame.width, frame.height, size.0, size.1)
}

/// Brings a frame within the bound `max_dimension`, keeping its aspect ratio.
/// A frame within the bound is returned as it is. Any other is resampled to
/// `target_size`, so that its longer side is exactly the bound.
pub fn scale_to_fit(
    frame: Frame,
    max_dimension: u32,
    filter: ResampleFilter,
) -> (scaled: Result<Frame, EncodeError>)
    ensures
        match scaled {
            Ok(out) => can_scale(frame@, max_dimension) && is_scaled(
                frame@,
                max_dimension,
                filter,
                out@,
            ),
            Err(e) => !can_scale(frame@, max_dimension) && e == scale_error(frame@, max_dimension),
        },
        scaled matches Ok(out) ==> (if within_bounds(frame@, max_dimension) {
            out@ == frame@
        } else {
            longer(out@.width, out@.height) == max_dimension
        }),
{
    proof {
        use_type_invariant(&frame);
        law_target_size(frame@.width, frame@.height, max_dimension);
    }
    let (new_width, new_height) = target_dimensions(frame.width, frame.height, max_dimension);
    if frame.width <= max_dimension && frame.height <= max_dimension {
        return Ok(frame);
    }
    if frame.width == 0 || frame.height == 0 {
        return Err(EncodeError::InvalidSize { width: frame.width, height: frame.height });
    }
    if max_dimension == 0 {
        return Err(EncodeError::InvalidSize { width: 0, height: 0 });
    }
    proof {
        if frame.width >= frame.height {
            lemma_scaled_side(frame.height, frame.width, max_dimension);
        } else {
            lemma_scaled_side(frame.width, frame.height, max_dimension);
        }
    }
    let working: u128 = 16 * (pixel_count(frame.width, new_height) as u128);
    if working > isize::MAX as u128 {
        return Err(EncodeError::TooLarge);
    }
    assert(new_width * new_height <= frame.width * new_height) by (nonlinear_arith)
        requires
            new_width <= frame.width,
            0 <= new_height,
    ;
    let pixels = resample(frame.pixels, frame.width, frame.height, new_width, new_height, filter);
    Ok(Frame { width: new_width, height: new_height, pixels })
}

/// The frame can be compressed: both sides are between 1 and
/// `MAX_ENCODED_SIDE`.
pub open spec fn can_compress(frame: FrameView) -> bool {
    encodable_size(frame.width, frame.height)
}

/// The JPEG file of a frame at a quality: that of its pixels without alpha.
pub open spec fn compressed(frame: FrameView, quality: u8) -> Seq<u8> {
    jpeg_bytes(without_alpha(frame.pixels), frame.width, frame.height, quality)
}

/// Compresses a frame to JPEG at `quality` (1 is the worst, 100 the best; the
/// encoder takes a value outside that range as the nearest end of it). The
/// alpha channel is left out.
pub fn compress(frame: &Frame, quality: u8) -> (encoded: Result<Vec<u8>, EncodeError>)
    ensures
        match encoded {
            Ok(bytes) => can_compress(frame@) && bytes@ == compressed(frame@, quality),
            Err(e) => !can_compress(frame@) && e == (EncodeError::InvalidSize {
                width: frame@.width,
                height: frame@.height,
            }),
        },
{
    proof {
        use_type_invariant(frame);
    }
    let rgb = drop_alpha(&frame.pixels);
    match jpeg_encode(&rgb, frame.width, frame.height, quality) {
        Ok(bytes) => Ok(bytes),
        Err(_) => Err(EncodeError::InvalidSize { width: frame.width, height: frame.height }),
    }
}

/// The frame can be encoded for the bound: it can be brought within it, and
/// at its target size it can be compressed.
pub open spec fn can_encode(frame: FrameView, max_dimension: u32) -> bool {
    let size = target_size(frame.width, frame.height, max_dimension);
    can_scale(frame, max_dimension) && encodable_size(size.0, size.1)
}

/// The error that encoding reports for a frame that cannot be encoded.
pub open spec fn encode_error(frame: FrameView, max_dimension: u32) -> EncodeError {
    let size = target_size(frame.width, frame.height, max_dimension);
    if can_scale(frame, max_dimension) {
        EncodeError::InvalidSize { width: size.0, height: size.1 }
    } else {
        scale_error(frame, max_dimension)
    }
}

/// `bytes` is an encoding of `frame`: the JPEG file, at `quality`, of the
/// frame brought within the bound.
pub open spec fn is_encoding(
    frame: FrameView,
    quality: u8,
    max_dimension: u32,
    filter: ResampleFilter,
    bytes: Seq<u8>,
) -> bool {
    exists|scaled: FrameView| #[trigger]
        is_scaled(frame, max_dimension, filter, scaled) && bytes == compressed(scaled, quality)
}

/// Encodes a frame: scales it down, keeping its aspect ratio, only if a side
/// exceeds `max_dimension`, then compresses it to JPEG at `quality`.
pub fn encode(
    frame: Frame,
    quality: u8,
    max_dimension: u32,
    filter: ResampleFilter,
) -> (encoded: Result<Vec<u8>, EncodeError>)
    ensures
        match encoded {
            Ok(bytes) => can_encode(frame@, max_dimension) && is_encoding(
                frame@,
                quality,
                max_dimension,
                filter,
                bytes@,
            ),
            Err(e) => !can_encode(frame@, max_dimension) && e == encode_error(
                frame@,
                max_dimension,
            ),
        },
{
    match scale_to_fit(frame, max_dimension, filter) {
        Ok(scaled) => compress(&scaled, quality),
        Err(e) => Err(e),
    }
}

/// Encoding is a function of its arguments wherever the frame is within the
/// bound or the triangle filter is used: two encodings of one frame with the
/// same parameters are then the same bytes.
pub proof fn law_encoding_repeats(
    frame: FrameView,
    quality: u8,
    max_dimension: u32,
    filter: ResampleFilter,
    first: Seq<u8>,
    second: Seq<u8>,
)
    requires
        within_bounds(frame, max_dimension) || filter == ResampleFilter::Triangle,
        is_encoding(frame, quality, max_dimension, filter, first),
        is_encoding(frame, quality, max_dimension, filter, second),
    ensures
        first == second,
{
    let a = choose|scaled: FrameView| #[trigger]
        is_scaled(frame, max_dimension, filter, scaled) && first == compressed(scaled, quality);
    let b = choose|scaled: FrameView| #[trigger]
        is_scaled(frame, max_dimension, filter, scaled) && second == compressed(scaled, quality);
    assert(a.pixels == b.pixels);
    assert(a == b);
}

/// A frame within the bound is encoded as it stands: its encoding is its own
/// JPEG file.
pub proof fn law_within_bounds_unchanged(
    frame: FrameView,
    quality: u8,
    max_dimension: u32,
    filter: ResampleFilter,
    bytes: Seq<u8>,
)
    requires
        within_bounds(frame, max_dimension),
        is_encoding(frame, quality, max_dimension, filter, bytes),
    ensures
        bytes == compressed(frame, quality),
{
}

/// The encoding of a frame with the triangle filter: the JPEG file of the
/// frame itself where it is within the bound, and else of the frame resampled
/// to its target size.
pub open spec fn triangle_encoding(frame: FrameView, quality: u8, max_dimension: u32) -> Seq<u8> {
    let size = target_size(frame.width, frame.height, max_dimension);
    if within_bounds(frame, max_dimension) {
        compressed(frame, quality)
    } else {
        compressed(
            FrameView {
                width: size.0,
                height: size.1,
                pixels: triangle_resampled(
                    frame.pixels,
                    frame.width,
                    frame.height,
                    size.0,
                    size.1,
                ),
            },
            quality,
        )
    }
}

/// With the triangle filter a frame has one encoding, `triangle_encoding`.
pub proof fn lemma_triangle_encoding(
    frame: FrameView,
    quality: u8,
    max_dimension: u32,
    bytes: Seq<u8>,
)
    requires
        is_encoding(frame, quality, max_dimension, ResampleFilter::Triangle, bytes),
    ensures
        bytes == triangle_encoding(frame, quality, max_dimension),
{
    let scaled = choose|scaled: FrameView| #[trigger]
        is_scaled(frame, max_dimension, ResampleFilter::Triangle, scaled) && bytes == compressed(
            scaled,
            quality,
        );
    let size = target_size(frame.width, frame.height, max_dimension);
    if !within_bounds(frame, max_dimension) {
        assert(scaled == FrameView {
            width: size.0,
            height: size.1,
            pixels: triangle_resampled(frame.pixels, frame.width, frame.height, size.0, size.1),
        });
    }
}

} // verus!
