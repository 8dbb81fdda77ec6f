//! Turning a window's icon bitmap into the PNG data URL shown next to it.
use vstd::prelude::*;
use crate::text::string_from_chars;
use base64::Engine;

verus! {

/// Icons are converted only when both sides measure between 1 and 256 pixels.
pub open spec fn spec_icon_dimensions_ok(width: i32, height: i32) -> bool {
    0 < width <= 256 && 0 < height <= 256
}

/// Is a bitmap of this size converted? (Negative sizes are read as huge unsigned values
/// and rejected with the rest.)
pub fn icon_dimensions_ok(width: i32, height: i32) -> (b: bool)
    ensures
        b == spec_icon_dimensions_ok(width, height),
{
    0 < width && width <= 256 && 0 < height && height <= 256
}

/// The four bytes of pixel `c`.
pub open spec fn pixel(px: Seq<u8>, c: int) -> (u8, u8, u8, u8) {
    (px[4 * c], px[4 * c + 1], px[4 * c + 2], px[4 * c + 3])
}

/// Some pixel of the BGRA buffer has a nonzero alpha byte.
pub open spec fn has_alpha(px: Seq<u8>) -> bool {
    exists|c: int| 0 <= c < px.len() / 4 && (#[trigger] pixel(px, c)).3 != 0
}

/// The RGBA form of a BGRA buffer (whole 4-byte pixels only; trailing bytes kept):
/// blue and red swapped, and when no pixel has any alpha, every pixel made opaque.
pub open spec fn spec_bgra_to_rgba(old_px: Seq<u8>, new_px: Seq<u8>) -> bool {
    let n = old_px.len() / 4;
    &&& new_px.len() == old_px.len()
    &&& forall|c: int|
        0 <= c < n ==> #[trigger] pixel(new_px, c) == (
            pixel(old_px, c).2,
            pixel(old_px, c).1,
            pixel(old_px, c).0,
            if has_alpha(old_px) {
                pixel(old_px, c).3
            } else {
                255u8
            },
        )
    &&& forall|k: int| 4 * n <= k < old_px.len() ==> new_px[k] == old_px[k]
}

/// Converts the bitmap bytes read from the icon (BGRA) into RGBA in place.
pub fn bgra_to_rgba(px: &mut Vec<u8>)
    ensures
        spec_bgra_to_rgba(old(px)@, final(px)@),
{
    let ghost orig = px@;
    let n = px.len() / 4;
    assert(4 * n <= orig.len() < 4 * n + 4) by (nonlinear_arith)
        requires
            n == orig.len() / 4,
    ;
    let mut alpha = false;
    let mut c: usize = 0;
    while c < n
        invariant
            n == orig.len() / 4,
            4 * n <= orig.len() < 4 * n + 4,
            c <= n,
            px@.len() == orig.len(),
            alpha == exists|d: int| 0 <= d < c && (#[trigger] pixel(orig, d)).3 != 0,
            forall|d: int|
                0 <= d < c ==> #[trigger] pixel(px@, d) == (
                    pixel(orig, d).2,
                    pixel(orig, d).1,
                    pixel(orig, d).0,
                    pixel(orig, d).3,
                ),
            forall|k: int| 4 * c <= k < orig.len() ==> px@[k] == orig[k],
        decreases n - c,
    {
        let ghost before = px@;
        let len = px.len();
        assert(4 * c + 3 < len);
        let i = 4 * c;
        let b = px[i];
        let r = px[i + 2];
        px.set(i, r);
        px.set(i + 2, b);
        let a = px[i + 3];
        proof {
            assert(pixel(orig, c as int) == (orig[4 * c], orig[4 * c + 1], orig[4 * c + 2], orig[4
                * c + 3]));
            assert(pixel(px@, c as int) == (pixel(orig, c as int).2, pixel(orig, c as int).1, pixel(
                orig,
                c as int,
            ).0, pixel(orig, c as int).3));
            assert forall|d: int| 0 <= d < c implies #[trigger] pixel(px@, d) == pixel(before, d) by {
                assert(4 * d + 3 < 4 * c);
            }
        }
        if a != 0 {
            alpha = true;
        }
        proof {
            assert(a == pixel(orig, c as int).3);
        }
        c = c + 1;
    }
    if !alpha {
        let mut d: usize = 0;
        while d < n
            invariant
                n == orig.len() / 4,
                4 * n <= orig.len() < 4 * n + 4,
                d <= n,
                px@.len() == orig.len(),
                !has_alpha(orig),
                forall|e: int|
                    0 <= e < n ==> #[trigger] pixel(px@, e) == (
                        pixel(orig, e).2,
                        pixel(orig, e).1,
                        pixel(orig, e).0,
                        if e < d {
                            255u8
                        } else {
                            pixel(orig, e).3
                        },
                    ),
                forall|k: int| 4 * n <= k < orig.len() ==> px@[k] == orig[k],
            decreases n - d,
        {
            let ghost before = px@;
            let len = px.len();
            assert(4 * d + 3 < len);
            px.set(4 * d + 3, 255u8);
            proof {
                assert forall|e: int| 0 <= e < n implies #[trigger] pixel(px@, e) == (
                    pixel(orig, e).2,
                    pixel(orig, e).1,
                    pixel(orig, e).0,
                    if e < d + 1 {
                        255u8
                    } else {
                        pixel(orig, e).3
                    },
                ) by {
                    assert(pixel(before, e) == pixel(px@, e) || e == d);
                    if e != d {
                        assert(4 * e + 3 != 4 * d + 3);
                        assert(pixel(px@, e) == pixel(before, e));
                    }
                }
            }
            d = d + 1;
        }
    }
}

/// What the `image` crate's PNG encoder makes of an RGBA buffer of the given size
/// (`None` when the buffer is too small for the size, or encoding fails).
pub uninterp spec fn png_encoding(width: u32, height: u32, rgba: Seq<u8>) -> Option<Seq<u8>>;

/// `image::RgbaImage::from_raw` and `ImageBuffer::write_to` with `ImageFormat::Png`:
/// the result is named `png_encoding` of the size and bytes.
#[verifier::external_body]
fn encode_png(width: u32, height: u32, rgba: Vec<u8>) -> (r: Option<Vec<u8>>)
    ensures
        match r {
            Some(b) => png_encoding(width, height, rgba@) == Some(b@),
            None => png_encoding(width, height, rgba@) is None,
        },
{
    let img = image::RgbaImage::from_raw(width, height, rgba)?;
    let mut out: Vec<u8> = Vec::new();
    img.write_to(&mut std::io::Cursor::new(&mut out), image::ImageFormat::Png).ok()?;
    Some(out)
}

/// The character of the standard Base64 alphabet for a 6-bit value.
pub open spec fn base64_char(n: int) -> char {
    if n < 26 {
        ('A' as int + n) as char
    } else if n < 52 {
        ('a' as int + n - 26) as char
    } else if n < 62 {
        ('0' as int + n - 52) as char
    } else if n == 62 {
        '+'
    } else {
        '/'
    }
}

/// The standard Base64 encoding (with `=` padding) of the bytes: each group of three
/// bytes becomes four characters; a last group of two bytes becomes three characters and
/// `=`, of one byte two characters and `==`.
pub open spec fn base64_standard(bytes: Seq<u8>) -> Seq<char>
    decreases bytes.len(),
{
    let b0 = bytes[0] as int;
    let b1 = bytes[1] as int;
    let b2 = bytes[2] as int;
    if bytes.len() == 0 {
        Seq::empty()
    } else if bytes.len() == 1 {
        seq![base64_char(b0 / 4), base64_char((b0 % 4) * 16), '=', '=']
    } else if bytes.len() == 2 {
        seq![base64_char(b0 / 4), base64_char((b0 % 4) * 16 + b1 / 16), base64_char((b1 % 16) * 4), '=']
    } else {
        seq![
            base64_char(b0 / 4),
            base64_char((b0 % 4) * 16 + b1 / 16),
            base64_char((b1 % 16) * 4 + b2 / 64),
            base64_char(b2 % 64),
        ] + base64_standard(bytes.skip(3))
    }
}

/// `base64::engine::general_purpose::STANDARD.encode` (standard alphabet, padding on):
/// the result is `base64_standard` of the bytes. It panics only when the encoded length
/// overflows, which the bound rules out.
#[verifier::external_body]
fn encode_base64(bytes: &Vec<u8>) -> (r: String)
    requires
        bytes.len() <= usize::MAX / 2,
    ensures
        r@ == base64_standard(bytes@),
{
    base64::engine::general_purpose::STANDARD.encode(bytes)
}

/// The data URL of an icon bitmap (BGRA bytes of a `width` x `height` image): `None` for
/// a size outside 1..=256, or when PNG encoding fails, or when the PNG is too long for its
/// Base64 text to fit in memory; otherwise the PNG of the RGBA conversion, Base64-encoded,
/// after `data:image/png;base64,`.
pub fn icon_data_url(width: i32, height: i32, pixels: Vec<u8>) -> (r: Option<String>)
    ensures
        !spec_icon_dimensions_ok(width, height) ==> r is None,
        spec_icon_dimensions_ok(width, height) ==> exists|rgba: Seq<u8>|
            #![trigger png_encoding(width as u32, height as u32, rgba)]
            spec_bgra_to_rgba(pixels@, rgba) && match png_encoding(width as u32, height as u32, rgba) {
                Some(png) => if png.len() <= usize::MAX / 2 {
                    r matches Some(s) && s@ == "data:image/png;base64,"@ + base64_standard(png)
                } else {
                    r is None
                },
                None => r is None,
            },
{
    if !icon_dimensions_ok(width, height) {
        return None;
    }
    let mut px = pixels;
    bgra_to_rgba(&mut px);
    let ghost rgba = px@;
    let png = match encode_png(width as u32, height as u32, px) {
        Some(p) => p,
        None => {
            return None;
        },
    };
    if png.len() > usize::MAX / 2 {
        // a byte vector never holds this many bytes; the check makes the bound visible
        return None;
    }
    let mut s = String::from_str("data:image/png;base64,");
    let b64 = encode_base64(&png);
    s.append(b64.as_str());
    Some(s)
}

/// Which icon `ExtractIconExW` gave to use: the large one when there is one (the small
/// one is then released), else the small one.
pub struct ExtractedIconChoice {
    pub icon: Option<usize>,
    pub release_small: bool,
}

pub fn choose_extracted_icon(count: u32, large: usize, small: usize) -> (c: ExtractedIconChoice)
    ensures
        count == 0 ==> c.icon is None && !c.release_small,
        count > 0 && large != 0 ==> c.icon == Some(large) && c.release_small == (small != 0),
        count > 0 && large == 0 && small != 0 ==> c.icon == Some(small) && !c.release_small,
        count > 0 && large == 0 && small == 0 ==> c.icon is None && !c.release_small,
{
    if count > 0 {
        if large != 0 {
            return ExtractedIconChoice { icon: Some(large), release_small: small != 0 };
        } else if small != 0 {
            return ExtractedIconChoice { icon: Some(small), release_small: false };
        }
    }
    ExtractedIconChoice { icon: None, release_small: false }
}

/// Converting twice swaps the colour channels back: for an icon with some alpha, the
/// conversion applied to its own result gives back the bytes it started from.
pub proof fn law_bgra_swap_is_involution(a: Seq<u8>, b: Seq<u8>, c: Seq<u8>)
    requires
        spec_bgra_to_rgba(a, b),
        spec_bgra_to_rgba(b, c),
        has_alpha(a),
    ensures
        c == a,
{
    let n = a.len() / 4;
    let w = choose|x: int| 0 <= x < a.len() / 4 && (#[trigger] pixel(a, x)).3 != 0;
    assert(pixel(b, w).3 == pixel(a, w).3);
    assert(has_alpha(b));
    assert(4 * n <= a.len() < 4 * n + 4) by (nonlinear_arith)
        requires
            n == a.len() / 4,
    ;
    assert forall|k: int| 0 <= k < a.len() implies c[k] == a[k] by {
        if k < 4 * n {
            let q = k / 4;
            assert(0 <= q < n && 4 * q <= k < 4 * q + 4) by (nonlinear_arith)
                requires
                    q == k / 4,
                    0 <= k < 4 * n,
            ;
            assert(pixel(c, q) == pixel(a, q));
            assert(k == 4 * q || k == 4 * q + 1 || k == 4 * q + 2 || k == 4 * q + 3);
        }
    }
    assert(c =~= a);
}

} // verus!
