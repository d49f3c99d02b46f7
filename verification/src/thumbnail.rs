//! One-shot, low-res thumbnail snapshots for the target-picker UI. Static
//! snapshots only, so browsing the picker doesn't add ongoing capture or
//! encode load.
use vstd::arithmetic::power2::{lemma2_to64, lemma_pow2_adds, lemma_pow2_unfold, pow2};
use vstd::prelude::*;

use crate::rounding::{
    find_power_from, halvings, lemma_nearest, lemma_nearest_at_most, lemma_nearest_bits,
    lemma_nearest_keeps_order, lemma_nearest_of_few_bits, lemma_nearest_quotient, lemma_power_from,
    lemma_power_from_is_power,
    lemma_quotient_at_most, nearest, nearest_quotient, power_from, round_bits, round_quotient,
    TWO_23, TWO_24,
};
use crate::text::join;

verus! {

/// Thumbnails are for a small picker card, not full quality: bound the
/// longer side so capture and transfer stay cheap.
pub const THUMBNAIL_MAX_DIM: u32 = 240;

/// The smallest size that an icon is rendered at.
pub const MIN_ICON_DIM: u32 = 16;

// ---------------------------------------------------------------------
// Sizes
// ---------------------------------------------------------------------

/// A number in single precision.
pub open spec fn single(n: u32) -> nat {
    nearest(n as nat, TWO_24 as nat)
}

/// The factor, as a numerator and a denominator, that shrinks a side of
/// `larger` pixels to `max_dim` pixels, in single precision: their quotient
/// rounded to 24 significant bits, but no more than 1.
pub open spec fn shrink_factor(larger: u32, max_dim: u32) -> (nat, nat) {
    let a = single(max_dim);
    let b = single(larger);
    if a >= b {
        (1, 1)
    } else if a == 0 {
        (0, 1)
    } else {
        let parts = power_from((TWO_23 as nat * b + a - 1) as nat / a);
        (nearest_quotient(parts * a, b), parts)
    }
}

/// A side times a factor, in single precision: the whole part of the product,
/// and at least 1.
pub open spec fn shrunk(side: u32, factor: (nat, nat)) -> u32 {
    let whole = nearest(single(side) * factor.0, TWO_24 as nat) / factor.1;
    if whole > u32::MAX {
        u32::MAX
    } else if whole < 1 {
        1
    } else {
        whole as u32
    }
}

/// The larger of two.
pub open spec fn larger_of(a: u32, b: u32) -> u32 {
    if a > b {
        a
    } else {
        b
    }
}

/// The size of an image shrunk to fit within `max_dim` by `max_dim`, keeping
/// its proportions. Images that fit already keep their size.
pub open spec fn fitted(width: u32, height: u32, max_dim: u32) -> (u32, u32) {
    let factor = shrink_factor(larger_of(width, height), max_dim);
    (shrunk(width, factor), shrunk(height, factor))
}

/// Finds the factor that shrinks a side of `larger` pixels to `max_dim`.
fn find_shrink_factor(larger: u32, max_dim: u32) -> (factor: (u128, u128))
    ensures
        (factor.0 as nat, factor.1 as nat) == shrink_factor(larger, max_dim),
        factor.1 > 0,
        factor.0 < 0x100_0000_0000_0000_0000,
{
    proof {
        lemma_nearest(max_dim as nat, TWO_24 as nat);
        lemma_nearest(larger as nat, TWO_24 as nat);
    }
    let a: u128 = round_bits(max_dim as u128, TWO_24);
    let b: u128 = round_bits(larger as u128, TWO_24);
    if a >= b {
        (1, 1)
    } else if a == 0 {
        (0, 1)
    } else {
        let least: u128 = (TWO_23 * b + (a - 1)) / a;
        proof {
            assert(1 <= least <= TWO_23 * b + a) by (nonlinear_arith)
                requires
                    a >= 1,
                    b >= a,
                    least == (0x80_0000 * b + (a - 1)) / (a as int),
            ;
        }
        let parts: u128 = find_power_from(least);
        proof {
            assert(parts * a < 0x100_0000_0000_0000_0000) by (nonlinear_arith)
                requires
                    parts < 2 * least,
                    least == (0x80_0000 * b + (a - 1)) / (a as int),
                    1 <= a <= 0x2_0000_0000,
                    1 <= b <= 0x2_0000_0000,
            {
                assert(least * a <= 0x80_0000 * b + (a - 1));
                assert(parts * a <= 2 * (least * a));
            }
            lemma_nearest_quotient((parts * a) as nat, b as nat);
        }
        let mant: u128 = round_quotient(parts * a, b);
        (mant, parts)
    }
}

/// Shrinks a side.
fn shrink(side: u32, factor: (u128, u128)) -> (r: u32)
    requires
        factor.1 > 0,
        factor.0 < 0x100_0000_0000_0000_0000,
    ensures
        r == shrunk(side, (factor.0 as nat, factor.1 as nat)),
{
    proof {
        lemma_nearest(side as nat, TWO_24 as nat);
    }
    let x: u128 = round_bits(side as u128, TWO_24);
    proof {
        assert(x * factor.0 < 0x4000_0000_0000_0000_0000_0000_0000_0000) by (nonlinear_arith)
            requires
                x <= 0x2_0000_0000,
                factor.0 < 0x100_0000_0000_0000_0000,
        ;
    }
    let whole: u128 = round_bits(x * factor.0, TWO_24) / factor.1;
    if whole > u32::MAX as u128 {
        u32::MAX
    } else if whole < 1 {
        1
    } else {
        whole as u32
    }
}

/// The size of an image shrunk to fit within `max_dim` by `max_dim`.
pub fn fit(width: u32, height: u32, max_dim: u32) -> (size: (u32, u32))
    ensures
        size == fitted(width, height, max_dim),
{
    let larger: u32 = if width > height {
        width
    } else {
        height
    };
    let factor = find_shrink_factor(larger, max_dim);
    (shrink(width, factor), shrink(height, factor))
}

/// A width or height given by its ends; at least 1.
pub open spec fn span(from: i32, to: i32) -> u32 {
    if to - from >= 1 {
        (to - from) as u32
    } else {
        1
    }
}

/// The width or height of a screen rectangle, given by its ends.
pub fn rect_span(from: i32, to: i32) -> (n: u32)
    requires
        i32::MIN <= to - from <= i32::MAX,
    ensures
        n == span(from, to),
{
    let n: i32 = to - from;
    if n >= 1 {
        n as u32
    } else {
        1
    }
}

/// The number of bytes of an image with four bytes per pixel.
pub fn pixel_bytes(width: u32, height: u32) -> (len: u32)
    requires
        width * height * 4 <= u32::MAX,
    ensures
        len == width * height * 4,
{
    proof {
        assert(width * height <= width * height * 4) by (nonlinear_arith);
    }
    width * height * 4
}

/// Every thumbnail fits: no side is longer than `max_dim` or shorter than 1.
pub proof fn law_thumbnail_fits(width: u32, height: u32, max_dim: u32)
    requires
        1 <= max_dim < TWO_23,
    ensures
        1 <= fitted(width, height, max_dim).0 <= max_dim,
        1 <= fitted(width, height, max_dim).1 <= max_dim,
{
    lemma_side_fits(width, larger_of(width, height), max_dim);
    lemma_side_fits(height, larger_of(width, height), max_dim);
}

/// A thumbnail is never larger than the image: each side that has a pixel is
/// as long as before or shorter. Single precision may round a side of more
/// than 2^24 pixels up; of such a side it holds where the bound is below
/// 2^23.
pub proof fn law_thumbnail_is_never_enlarged(width: u32, height: u32, max_dim: u32)
    ensures
        1 <= width && (width <= TWO_24 || max_dim < TWO_23) ==> fitted(width, height, max_dim).0
            <= width,
        1 <= height && (height <= TWO_24 || max_dim < TWO_23) ==> fitted(width, height, max_dim).1
            <= height,
{
    lemma_side_shrinks(width, larger_of(width, height), max_dim);
    lemma_side_shrinks(height, larger_of(width, height), max_dim);
    if 1 <= max_dim < TWO_23 {
        law_thumbnail_fits(width, height, max_dim);
    }
}

proof fn lemma_times_one(n: nat, factor: (nat, nat))
    by (nonlinear_arith)
    requires
        factor == (1nat, 1nat),
    ensures
        n * factor.0 == n,
        n / factor.1 == n,
{
}

/// An image that fits keeps its size.
pub proof fn law_small_image_keeps_its_size(width: u32, height: u32, max_dim: u32)
    requires
        1 <= width <= max_dim,
        1 <= height <= max_dim,
        width < TWO_24,
        height < TWO_24,
    ensures
        fitted(width, height, max_dim) == (width, height),
{
    lemma_nearest_keeps_order(
        larger_of(width, height) as nat,
        max_dim as nat,
        TWO_24 as nat,
    );
    lemma_nearest(width as nat, TWO_24 as nat);
    lemma_nearest(height as nat, TWO_24 as nat);
    let factor = shrink_factor(larger_of(width, height), max_dim);
    assert(factor == (1nat, 1nat));
    lemma_times_one(single(width), factor);
    lemma_times_one(single(height), factor);
}

/// A shrinking factor: at most 1, over a power of two, and times the longer
/// side no more than a half above the bound.
proof fn lemma_shrink_factor(larger: u32, max_dim: u32) -> (e: nat)
    requires
        0 < single(max_dim) < single(larger),
    ensures
        ({
            let (m, parts) = shrink_factor(larger, max_dim);
            &&& parts == pow2(e)
            &&& parts >= 1
            &&& m <= parts
            &&& 2 * (m * single(larger)) <= 2 * (parts * single(max_dim)) + single(larger)
            &&& single(max_dim) < TWO_23 ==> single(larger) < parts
        }),
{
    let a = single(max_dim);
    let b = single(larger);
    let least = (TWO_23 as nat * b + a - 1) as nat / a;
    let parts = power_from(least);
    lemma_power_from(least);
    let e = lemma_power_from_is_power(least);
    let t = parts * a;
    assert(t >= 0x80_0000 * b) by (nonlinear_arith)
        requires
            a >= 1,
            least == (0x80_0000 * b + a - 1) as nat / a,
            parts >= least,
            t == parts * a,
    {
        assert(least * a >= 0x80_0000 * b + a - 1 - (a - 1));
        assert(parts * a >= least * a);
    }
    assert(t <= parts * b) by (nonlinear_arith)
        requires
            t == parts * a,
            a < b,
    ;
    lemma_quotient_at_most(t, b, parts);
    lemma_nearest_quotient(t, b);
    if a < TWO_23 {
        assert(b < parts) by (nonlinear_arith)
            requires
                t >= 0x80_0000 * b,
                t == parts * a,
                0 < a < 0x80_0000,
                b > 0,
        ;
    }
    e
}

proof fn lemma_side_fits(side: u32, larger: u32, max_dim: u32)
    requires
        side <= larger,
        1 <= max_dim < TWO_23,
    ensures
        1 <= shrunk(side, shrink_factor(larger, max_dim)) <= max_dim,
{
    let limit = TWO_24 as nat;
    let a = single(max_dim);
    let b = single(larger);
    let x = single(side);
    lemma_nearest(max_dim as nat, limit);
    lemma_nearest(larger as nat, limit);
    lemma_nearest(side as nat, limit);
    assert(a == max_dim);
    if a >= b {
        assert(larger < TWO_24);
        lemma_times_one(x, shrink_factor(larger, max_dim));
    } else {
        let e = lemma_shrink_factor(larger, max_dim);
        let (m, parts) = shrink_factor(larger, max_dim);
        lemma_nearest_keeps_order(side as nat, larger as nat, limit);
        assert(x * m <= m * b) by (nonlinear_arith)
            requires
                x <= b,
        ;
        lemma2_to64();
        assert(e > 0);
        lemma_pow2_unfold(e);
        let half = pow2((e - 1) as nat);
        let most = 2 * a + 1;
        assert(most * half == parts * a + half) by (nonlinear_arith)
            requires
                parts == 2 * half,
                most == 2 * a + 1,
        ;
        lemma_nearest_at_most(x * m, limit, most, (e - 1) as nat);
        let near = nearest(x * m, limit);
        assert(near / parts <= a) by (nonlinear_arith)
            requires
                near <= parts * a + half,
                parts == 2 * half,
                parts >= 1,
        ;
    }
}

proof fn lemma_side_shrinks(side: u32, larger: u32, max_dim: u32)
    requires
        side <= larger,
    ensures
        1 <= side <= TWO_24 || (1 <= side && max_dim == 0) ==> shrunk(
            side,
            shrink_factor(larger, max_dim),
        ) <= side,
{
    let limit = TWO_24 as nat;
    let a = single(max_dim);
    let b = single(larger);
    let x = single(side);
    lemma_nearest(side as nat, limit);
    lemma_nearest(larger as nat, limit);
    lemma_nearest(max_dim as nat, limit);
    lemma2_to64();
    if side <= TWO_24 {
        lemma_nearest_at_most(side as nat, limit, side as nat, 0);
    }
    let k = halvings(side as nat, limit);
    let q = lemma_nearest_bits(side as nat, limit);
    if a >= b {
        lemma_times_one(x, shrink_factor(larger, max_dim));
        lemma_nearest_at_most(x, limit, q, k);
    } else if a == 0 {
        assert(x * 0 == 0 && 0nat / 1 == 0);
    } else {
        let e = lemma_shrink_factor(larger, max_dim);
        let (m, parts) = shrink_factor(larger, max_dim);
        lemma_pow2_adds(k, e);
        assert(x * m <= x * parts && x * parts == q * pow2(k + e)) by (nonlinear_arith)
            requires
                m <= parts,
                x == q * pow2(k),
                parts == pow2(e),
                pow2(k + e) == pow2(k) * pow2(e),
        ;
        lemma_nearest_at_most(x * m, limit, q, k + e);
        let near = nearest(x * m, limit);
        assert(near / parts <= x) by (nonlinear_arith)
            requires
                near <= x * parts,
                parts >= 1,
        ;
    }
}

// ---------------------------------------------------------------------
// Pixels
// ---------------------------------------------------------------------

/// The bytes of an image with the first and third byte of every pixel
/// exchanged. Bytes that make up no whole pixel stay as they are.
pub open spec fn swapped(bytes: Seq<u8>) -> Seq<u8> {
    Seq::new(
        bytes.len(),
        |i: int|
            if i / 4 * 4 + 3 < bytes.len() && i % 4 == 0 {
                bytes[i + 2]
            } else if i / 4 * 4 + 3 < bytes.len() && i % 4 == 2 {
                bytes[i - 2]
            } else {
                bytes[i]
            },
    )
}

/// Of a whole pixel, the first and the third byte are exchanged.
proof fn lemma_swapped_pixel(bytes: Seq<u8>, at: int)
    requires
        0 <= at,
        at % 4 == 0,
        at + 3 < bytes.len(),
    ensures
        swapped(bytes)[at] == bytes[at + 2],
        swapped(bytes)[at + 1] == bytes[at + 1],
        swapped(bytes)[at + 2] == bytes[at],
        swapped(bytes)[at + 3] == bytes[at + 3],
{
    assert(at / 4 * 4 == at && (at + 1) / 4 * 4 == at && (at + 2) / 4 * 4 == at && (at + 3) / 4 * 4
        == at);
}

/// Behind the last whole pixel nothing is exchanged.
proof fn lemma_swapped_rest(bytes: Seq<u8>, at: int, i: int)
    requires
        0 <= at,
        at % 4 == 0,
        at <= i < bytes.len() < at + 4,
    ensures
        swapped(bytes)[i] == bytes[i],
{
    assert(i / 4 * 4 == at);
}

/// Turns BGRA pixels, as GDI has them, into RGBA pixels, as PNG wants them.
#[verifier::spinoff_prover]
pub fn bgra_to_rgba(bytes: &mut Vec<u8>)
    ensures
        final(bytes)@ == swapped(old(bytes)@),
{
    let ghost before = bytes@;
    let ghost after = swapped(before);
    let mut i: usize = 0;
    while bytes.len() - i >= 4
        invariant
            i <= bytes@.len(),
            i % 4 == 0,
            before == old(bytes)@,
            after == swapped(before),
            bytes@.len() == before.len(),
            forall|j: int| 0 <= j < i ==> #[trigger] bytes@[j] == after[j],
            forall|j: int| i <= j < bytes@.len() ==> #[trigger] bytes@[j] == before[j],
        decreases bytes@.len() - i,
    {
        let first: u8 = bytes[i];
        let third: u8 = bytes[i + 2];
        bytes.set(i, third);
        bytes.set(i + 2, first);
        proof {
            lemma_swapped_pixel(before, i as int);
        }
        i = i + 4;
    }
    proof {
        assert forall|j: int| i <= j < bytes@.len() implies #[trigger] bytes@[j] == after[j] by {
            lemma_swapped_rest(before, i as int, j);
        }
        assert(bytes@ =~= after);
    }
}

/// Exchanging twice changes nothing.
pub proof fn law_swapping_twice(bytes: Seq<u8>)
    ensures
        swapped(swapped(bytes)) == bytes,
{
    assert forall|i: int| 0 <= i < bytes.len() implies #[trigger] swapped(swapped(bytes))[i]
        == bytes[i] by {
        if i / 4 * 4 + 3 < bytes.len() && i % 4 == 0 {
            assert((i + 2) / 4 == i / 4 && (i + 2) % 4 == 2);
        }
        if i / 4 * 4 + 3 < bytes.len() && i % 4 == 2 {
            assert((i - 2) / 4 == i / 4 && (i - 2) % 4 == 0);
        }
    }
    assert(swapped(swapped(bytes)) =~= bytes);
}

// ---------------------------------------------------------------------
// Icons
// ---------------------------------------------------------------------

/// Where a window's icon may come from, in order of preference. Unlike a
/// screenshot, an icon never goes stale or blank.
#[derive(Debug, Clone, Copy, PartialEq, Eq, Structural)]
pub enum IconSource {
    /// The large app icon.
    Big,
    /// The small one.
    Small,
    /// The window class's icon.
    Class,
}

/// What to do once a source has been asked.
#[derive(Debug, Clone, Copy, PartialEq, Eq, Structural)]
pub enum IconStep {
    Use,
    Ask(IconSource),
    /// The window has no icon.
    NoIcon,
}

/// What to do once `source` has been asked and gave `handle`, 0 if it has no
/// icon.
pub fn window_icon(source: IconSource, handle: isize) -> (step: IconStep)
    ensures
        step == if handle != 0 {
            IconStep::Use
        } else {
            match source {
                IconSource::Big => IconStep::Ask(IconSource::Small),
                IconSource::Small => IconStep::Ask(IconSource::Class),
                IconSource::Class => IconStep::NoIcon,
            }
        },
{
    if handle != 0 {
        return IconStep::Use;
    }
    match source {
        IconSource::Big => IconStep::Ask(IconSource::Small),
        IconSource::Small => IconStep::Ask(IconSource::Class),
        IconSource::Class => IconStep::NoIcon,
    }
}

/// The size of an icon whose bitmap has the given size: its longer side, at
/// least 1. Without a color bitmap, color and mask are stacked in one bitmap.
pub open spec fn native_dim(width: i32, height: i32, has_color: bool) -> int {
    let tall = if has_color || height <= 0 {
        height as int
    } else {
        height as int / 2
    };
    if width >= tall && width >= 1 {
        width as int
    } else if tall >= 1 {
        tall
    } else {
        1
    }
}

/// The size to render an icon at: its own, but no more than `max_dim` and no
/// less than [`MIN_ICON_DIM`].
pub fn icon_size(width: i32, height: i32, has_color: bool, max_dim: u32) -> (size: u32)
    ensures
        size == ({
            let native = native_dim(width, height, has_color);
            let bounded = if native < max_dim {
                native
            } else {
                max_dim as int
            };
            if bounded > MIN_ICON_DIM {
                bounded
            } else {
                MIN_ICON_DIM as int
            }
        }),
{
    let tall: i32 = if has_color || height <= 0 {
        height
    } else {
        (height as u32 / 2) as i32
    };
    let native: u32 = if width >= tall && width >= 1 {
        width as u32
    } else if tall >= 1 {
        tall as u32
    } else {
        1
    };
    let bounded: u32 = if native < max_dim {
        native
    } else {
        max_dim
    };
    if bounded > MIN_ICON_DIM {
        bounded
    } else {
        MIN_ICON_DIM
    }
}

// ---------------------------------------------------------------------
// PNG
// ---------------------------------------------------------------------

/// What went wrong in handling an image.
#[verifier::external_type_specification]
#[verifier::external_body]
pub struct ExImageError(image::ImageError);

/// The PNG file of an image of the given width, height and bytes; `None` if
/// there is none.
pub uninterp spec fn png_of(width: u32, height: u32, rgba: Seq<u8>) -> Option<Seq<u8>>;

/// `ImageBuffer::from_raw`, then `write_to` with `ImageFormat::Png` and a
/// buffer in memory. The first gives an image exactly where there are enough
/// bytes for its size; the second writes that image out, and both what it
/// writes and whether it fails depend on the image alone.
#[verifier::external_body]
fn write_png(width: u32, height: u32, rgba: Vec<u8>) -> (png: Option<
    Result<Vec<u8>, image::ImageError>,
>)
    ensures
        png is None <==> rgba@.len() < width * height * 4,
        match png {
            Some(Ok(bytes)) => png_of(width, height, rgba@) == Some(bytes@),
            Some(Err(_)) => png_of(width, height, rgba@) is None,
            None => true,
        },
{
    let image = image::ImageBuffer::<image::Rgba<u8>, Vec<u8>>::from_raw(width, height, rgba)?;
    let mut out = Vec::new();
    let written = image.write_to(&mut std::io::Cursor::new(&mut out), image::ImageFormat::Png);
    Some(written.map(|()| out))
}

/// Why there is no thumbnail.
pub enum ThumbnailError {
    /// There are fewer bytes than the size asks for.
    InvalidBuffer,
    /// The image could not be written.
    Image(image::ImageError),
}

/// The PNG file of an image.
pub fn encode_png(width: u32, height: u32, rgba: Vec<u8>) -> (png: Result<Vec<u8>, ThumbnailError>)
    ensures
        rgba@.len() < width * height * 4 <==> png == Err::<Vec<u8>, ThumbnailError>(
            ThumbnailError::InvalidBuffer,
        ),
        rgba@.len() >= width * height * 4 ==> match png {
            Ok(bytes) => png_of(width, height, rgba@) == Some(bytes@),
            Err(_) => png_of(width, height, rgba@) is None,
        },
{
    match write_png(width, height, rgba) {
        Some(Ok(bytes)) => Ok(bytes),
        Some(Err(error)) => Err(ThumbnailError::Image(error)),
        None => Err(ThumbnailError::InvalidBuffer),
    }
}

/// The base64 spelling of some bytes, in the standard alphabet and with
/// padding.
pub uninterp spec fn base64_of(bytes: Seq<u8>) -> Seq<char>;

/// `base64::engine::general_purpose::STANDARD.encode`: the base64 spelling
/// of some bytes, which depends on the bytes alone.
#[verifier::external_body]
fn base64(bytes: &Vec<u8>) -> (text: String)
    ensures
        text@ == base64_of(bytes@),
{
    base64::Engine::encode(&base64::engine::general_purpose::STANDARD, bytes)
}

/// What the URL of a PNG image starts with.
pub const PNG_URL_PREFIX: &'static str = "data:image/png;base64,";

/// A URL that holds a PNG file.
pub fn to_data_url(png: &Vec<u8>) -> (url: String)
    ensures
        url@ == PNG_URL_PREFIX@ + base64_of(png@),
{
    join(PNG_URL_PREFIX, base64(png).as_str())
}

// ---------------------------------------------------------------------
// Laws
// ---------------------------------------------------------------------

/// A shrunk side is the side times the bound over the longer side, to within
/// a pixel and the last bits of single precision.
proof fn lemma_proportion(side: u32, larger: u32, max_dim: u32)
    requires
        1 <= max_dim < larger <= TWO_24,
        side <= larger,
    ensures
        ({
            let s = shrunk(side, shrink_factor(larger, max_dim));
            &&& s == 1 || s * larger * 0x40_0000 <= side * max_dim * 0x40_0001
            &&& (s + 1) * larger * 0x40_0000 >= side * max_dim * 0x3f_ffff
        }),
{
    let limit = TWO_24 as nat;
    lemma2_to64();
    lemma_nearest_of_few_bits(side as nat, limit, side as nat, 0);
    lemma_nearest_of_few_bits(larger as nat, limit, larger as nat, 0);
    lemma_nearest_of_few_bits(max_dim as nat, limit, max_dim as nat, 0);
    let a = max_dim as int;
    let b = larger as int;
    let x = side as int;
    let e = lemma_shrink_factor(larger, max_dim);
    let (mm, pp) = shrink_factor(larger, max_dim);
    let m = mm as int;
    let parts = pp as int;
    let t = parts * a;
    let least = (TWO_23 as nat * b as nat + a as nat - 1) as nat / a as nat;
    lemma_power_from(least);
    assert(t >= 0x80_0000 * b) by (nonlinear_arith)
        requires
            a >= 1,
            least == (0x80_0000 * b + a - 1) as nat / a as nat,
            b >= 0,
            parts >= least,
            t == parts * a,
    {
        assert(least * a >= 0x80_0000 * b + a - 1 - (a - 1));
        assert(parts * a >= least * a);
    }
    lemma_nearest_quotient(t as nat, b as nat);
    let mb = m * b;
    assert(2 * mb <= 2 * t + b && 2 * mb + b >= 2 * t);
    let p = x * m;
    assert(p >= 0) by (nonlinear_arith)
        requires
            p == x * m,
            x >= 0,
            m >= 0,
    ;
    lemma_nearest(p as nat, limit);
    let near = nearest(p as nat, limit) as int;
    let whole = near / parts;
    assert(whole * parts <= near < (whole + 1) * parts && whole >= 0) by (nonlinear_arith)
        requires
            whole == near / parts,
            parts >= 1,
            near >= 0,
    ;
    let xa = x * a;
    // Both sides times the denominator.
    assert(near * b * 0x100_0000 <= p * b * 0x100_0001 && near * b * 0x100_0000 >= p * b
        * 0xff_ffff) by (nonlinear_arith)
        requires
            near * 0x100_0000 <= p * 0x100_0000 + p,
            near * 0x100_0000 + p >= p * 0x100_0000,
            b >= 0,
    {
        assert((near * 0x100_0000) * b <= (p * 0x100_0001) * b);
        assert((near * 0x100_0000) * b >= (p * 0xff_ffff) * b);
    }
    let pb = p * b;
    assert(pb == x * mb) by (nonlinear_arith)
        requires
            pb == p * b,
            p == x * m,
            mb == m * b,
    ;
    let pxa = parts * xa;
    assert(pxa == x * t) by (nonlinear_arith)
        requires
            pxa == parts * xa,
            xa == x * a,
            t == parts * a,
    ;
    assert(pb * 0x100_0000 <= pxa * 0x100_0001 && pb * 0x100_0000 >= pxa * 0xff_ffff)
        by (nonlinear_arith)
        requires
            pb == x * mb,
            pxa == x * t,
            2 * mb <= 2 * t + b,
            2 * mb + b >= 2 * t,
            t >= 0x80_0000 * b,
            x >= 0,
    {
        assert(mb * 0x100_0000 <= t * 0x100_0001);
        assert(mb * 0x100_0000 >= t * 0xff_ffff);
        assert(x * (mb * 0x100_0000) <= x * (t * 0x100_0001));
        assert(x * (mb * 0x100_0000) >= x * (t * 0xff_ffff));
    }
    let nb = near * b;
    assert(pxa >= 0) by (nonlinear_arith)
        requires
            pxa == x * t,
            x >= 0,
            t >= 0,
    ;
    assert(nb * 0x40_0000 <= pxa * 0x40_0001);
    assert(nb * 0x40_0000 >= pxa * 0x3f_ffff);
    let wb = whole * b;
    assert(parts * wb <= nb && parts * (wb + b) >= nb) by (nonlinear_arith)
        requires
            wb == whole * b,
            nb == near * b,
            whole * parts <= near,
            near <= (whole + 1) * parts,
            b >= 0,
    {
        assert((whole * parts) * b <= near * b);
        assert(near * b <= ((whole + 1) * parts) * b);
        assert((whole * parts) * b == parts * (whole * b));
        assert(((whole + 1) * parts) * b == parts * (whole * b + b));
    }
    assert(wb * 0x40_0000 <= xa * 0x40_0001 && (wb + b) * 0x40_0000 >= xa * 0x3f_ffff)
        by (nonlinear_arith)
        requires
            parts * wb <= nb,
            parts * (wb + b) >= nb,
            nb * 0x40_0000 <= pxa * 0x40_0001,
            nb * 0x40_0000 >= pxa * 0x3f_ffff,
            pxa == parts * xa,
            parts >= 1,
    {
        assert(parts * (wb * 0x40_0000) <= parts * (xa * 0x40_0001));
        assert(parts * ((wb + b) * 0x40_0000) >= parts * (xa * 0x3f_ffff));
    }
    let s = shrunk(side, shrink_factor(larger, max_dim)) as int;
    lemma_side_shrinks(side, larger, max_dim);
    assert(s == whole || (s == 1 && whole == 0)) by {
        if side == 0 {
            assert(whole <= 0) by (nonlinear_arith)
                requires
                    whole == near / parts,
                    near * 0x100_0000 <= p * 0x100_0000 + p,
                    p == x * m,
                    x == 0,
                    parts >= 1,
            {
                assert(p == 0);
                assert(near <= 0);
            }
        } else if whole > u32::MAX {
            assert(false) by (nonlinear_arith)
                requires
                    wb == whole * b,
                    wb * 0x40_0000 <= xa * 0x40_0001,
                    xa == x * a,
                    0 <= x <= b,
                    1 <= a < b,
                    b <= 0x100_0000,
                    whole > 0xffff_ffff,
            {
                assert(x * a <= b * 0x100_0000);
                assert(whole * b >= 0xffff_ffff * b);
            }
        }
    }
    assert(s * b == wb || s == 1);
    assert((s + 1) * b >= wb + b) by (nonlinear_arith)
        requires
            s >= whole,
            wb == whole * b,
            b >= 0,
    ;
}

/// A thumbnail fits into its bound and is no larger than the image; an image
/// that fits already stays as it is.
pub proof fn law_fit(width: u32, height: u32, max_dim: u32, size: (u32, u32))
    requires
        1 <= width <= TWO_24,
        1 <= height <= TWO_24,
        1 <= max_dim < TWO_23,
        call_ensures(fit, (width, height, max_dim), size),
    ensures
        1 <= size.0 <= max_dim && size.0 <= width,
        1 <= size.1 <= max_dim && size.1 <= height,
        width <= max_dim && height <= max_dim ==> size == (width, height),
{
    law_thumbnail_fits(width, height, max_dim);
    law_thumbnail_is_never_enlarged(width, height, max_dim);
    if width <= max_dim && height <= max_dim {
        law_small_image_keeps_its_size(width, height, max_dim);
    }
}

/// A thumbnail keeps the proportions of the image: both sides are scaled by
/// the bound over the longer side, rounded down to whole pixels but never
/// below one.
pub proof fn law_proportions_are_kept(width: u32, height: u32, max_dim: u32, size: (u32, u32))
    requires
        width <= TWO_24,
        height <= TWO_24,
        1 <= max_dim,
        max_dim < width || max_dim < height,
        call_ensures(fit, (width, height, max_dim), size),
    ensures
        ({
            let longer = if width > height {
                width
            } else {
                height
            };
            &&& size.0 == 1 || size.0 * longer * 0x40_0000 <= width * max_dim * 0x40_0001
            &&& (size.0 + 1) * longer * 0x40_0000 >= width * max_dim * 0x3f_ffff
            &&& size.1 == 1 || size.1 * longer * 0x40_0000 <= height * max_dim * 0x40_0001
            &&& (size.1 + 1) * longer * 0x40_0000 >= height * max_dim * 0x3f_ffff
        }),
{
    lemma_proportion(width, larger_of(width, height), max_dim);
    lemma_proportion(height, larger_of(width, height), max_dim);
}

/// A rectangle on the screen is as wide as its ends are apart, but at least
/// one pixel; and an image has four bytes for each of its pixels.
pub proof fn law_rectangles(
    from: i32,
    to: i32,
    n: u32,
    width: u32,
    height: u32,
    len: u32,
)
    requires
        i32::MIN <= to - from <= i32::MAX,
        call_ensures(rect_span, (from, to), n),
        width * height * 4 <= u32::MAX,
        call_ensures(pixel_bytes, (width, height), len),
    ensures
        n >= 1,
        to > from ==> from + n == to,
        to <= from ==> n == 1,
        len == 4 * (width * height),
{
}

/// Of every whole pixel the first and the third byte change places and the
/// other two stay; bytes behind the last whole pixel stay too. Doing it twice
/// changes nothing.
pub proof fn law_blue_and_red_change_places(
    bytes: &mut Vec<u8>,
    again: &mut Vec<u8>,
    pixel: int,
)
    requires
        call_ensures(bgra_to_rgba, (bytes,), ()),
        old(again)@ == final(bytes)@,
        call_ensures(bgra_to_rgba, (again,), ()),
    ensures
        final(bytes)@.len() == old(bytes)@.len(),
        0 <= pixel && 4 * pixel + 3 < old(bytes)@.len() ==> {
            &&& final(bytes)@[4 * pixel] == old(bytes)@[4 * pixel + 2]
            &&& final(bytes)@[4 * pixel + 1] == old(bytes)@[4 * pixel + 1]
            &&& final(bytes)@[4 * pixel + 2] == old(bytes)@[4 * pixel]
            &&& final(bytes)@[4 * pixel + 3] == old(bytes)@[4 * pixel + 3]
        },
        0 <= pixel && 4 * pixel < old(bytes)@.len() <= 4 * pixel + 3 ==> forall|i: int|
            4 * pixel <= i < old(bytes)@.len() ==> #[trigger] final(bytes)@[i] == old(bytes)@[i],
        final(again)@ == old(bytes)@,
{
    law_swapping_twice(old(bytes)@);
    let s = swapped(old(bytes)@);
    if 0 <= pixel && 4 * pixel + 3 < old(bytes)@.len() {
        assert((4 * pixel) / 4 == pixel && (4 * pixel) % 4 == 0);
        assert((4 * pixel + 1) / 4 == pixel && (4 * pixel + 1) % 4 == 1);
        assert((4 * pixel + 2) / 4 == pixel && (4 * pixel + 2) % 4 == 2);
        assert((4 * pixel + 3) / 4 == pixel && (4 * pixel + 3) % 4 == 3);
    }
    if 0 <= pixel && 4 * pixel < old(bytes)@.len() <= 4 * pixel + 3 {
        assert forall|i: int| 4 * pixel <= i < old(bytes)@.len() implies #[trigger] final(bytes)@[i]
            == old(bytes)@[i] by {
            assert(i / 4 == pixel);
        }
    }
}

/// A window's icon is the large one if it has that, or else the small one, or
/// else its class's, or else there is none.
pub proof fn law_icon_sources(
    big: isize,
    small: isize,
    class: isize,
    first: IconStep,
    second: IconStep,
    third: IconStep,
)
    requires
        call_ensures(window_icon, (IconSource::Big, big), first),
        call_ensures(window_icon, (IconSource::Small, small), second),
        call_ensures(window_icon, (IconSource::Class, class), third),
    ensures
        first is Use <==> big != 0,
        big == 0 ==> first == IconStep::Ask(IconSource::Small),
        second is Use <==> small != 0,
        small == 0 ==> second == IconStep::Ask(IconSource::Class),
        third is Use <==> class != 0,
        class == 0 ==> third is NoIcon,
{
}

/// An icon is rendered at its own size, which is its longer side, within 16
/// pixels and the bound. The bitmap of an icon without colors is twice as
/// high as the icon.
pub proof fn law_icon_size(width: i32, height: i32, max_dim: u32, color: u32, stacked: u32)
    requires
        call_ensures(icon_size, (width, height, true, max_dim), color),
        call_ensures(icon_size, (width, height, false, max_dim), stacked),
    ensures
        color >= 16 && stacked >= 16,
        color <= max_dim || color == 16,
        stacked <= max_dim || stacked == 16,
        16 <= width <= max_dim && height <= width ==> color == width,
        16 <= height <= max_dim && width <= height ==> color == height,
        16 <= width <= max_dim && height / 2 <= width ==> stacked == width,
        16 <= height / 2 <= max_dim && width <= height / 2 ==> stacked == height / 2,
        width > max_dim && max_dim >= 16 ==> color == max_dim && stacked == max_dim,
        width < 16 && height < 16 ==> color == 16 && stacked == 16,
{
}

/// An image is written out exactly as it is, and only if there are enough
/// bytes for its size: four for each pixel.
pub proof fn law_png(width: u32, height: u32, rgba: Vec<u8>, png: Result<Vec<u8>, ThumbnailError>)
    requires
        call_ensures(encode_png, (width, height, rgba), png),
    ensures
        rgba@.len() < 4 * (width * height) <==> (png matches Err(error) && error is InvalidBuffer),
        png matches Ok(bytes) ==> png_of(width, height, rgba@) == Some(bytes@),
        rgba@.len() >= 4 * (width * height) && png is Err ==> png_of(width, height, rgba@) is None,
{
}

/// The URL of an image says what it is and then holds the file.
pub proof fn law_data_url(png: Vec<u8>, url: String)
    requires
        call_ensures(to_data_url, (&png,), url),
    ensures
        url@.take(22) == "data:image/png;base64,"@,
        url@.skip(22) == base64_of(png@),
{
    reveal_strlit("data:image/png;base64,");
    assert(url@.take(22) =~= "data:image/png;base64,"@);
    assert(url@.skip(22) =~= base64_of(png@));
}

} // verus!
