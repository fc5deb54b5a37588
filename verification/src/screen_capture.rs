//! Turning a screen grab into what the model is shown: the size of the
//! virtual screen is checked, the grabbed BGRA pixels become opaque RGBA,
//! the image is encoded as PNG and the PNG as base64 text.
use vstd::prelude::*;
use base64::Engine;
use crate::text::{signed_padded, signed_padded_chars, string_of};

verus! {

broadcast use vstd::string::group_string_axioms;

/// `format!("{}", n)` of a signed number.
pub open spec fn signed_text(n: int) -> Seq<char> {
    signed_padded(n, 0)
}

/// The message for a virtual screen whose size is not positive.
pub open spec fn invalid_screen_size_text(x: i32, y: i32, w: i32, h: i32) -> Seq<char> {
    "Invalid virtual screen size: "@ + signed_text(w as int) + "x"@ + signed_text(h as int)
        + " at ("@ + signed_text(x as int) + ","@ + signed_text(y as int) + ")"@
}

/// The message for virtual screen bounds whose size is not positive.
pub open spec fn invalid_screen_bounds_text(x: i32, y: i32, w: i32, h: i32) -> Seq<char> {
    "Invalid virtual screen: "@ + signed_text(w as int) + "x"@ + signed_text(h as int) + " at ("@
        + signed_text(x as int) + ","@ + signed_text(y as int) + ")"@
}

fn size_message(prefix: &str, x: i32, y: i32, w: i32, h: i32) -> (s: String)
    ensures
        s@ == prefix@ + signed_text(w as int) + "x"@ + signed_text(h as int) + " at ("@
            + signed_text(x as int) + ","@ + signed_text(y as int) + ")"@,
{
    let mut s = prefix.to_owned();
    s.append(string_of(&signed_padded_chars(w as i64, 0)).as_str());
    s.append("x");
    s.append(string_of(&signed_padded_chars(h as i64, 0)).as_str());
    s.append(" at (");
    s.append(string_of(&signed_padded_chars(x as i64, 0)).as_str());
    s.append(",");
    s.append(string_of(&signed_padded_chars(y as i64, 0)).as_str());
    s.append(")");
    s
}

/// The size of the virtual screen at (`x`, `y`) to grab: its width and
/// height when both are positive, else the message that refuses it.
pub fn screen_size(x: i32, y: i32, w: i32, h: i32) -> (r: Result<(u32, u32), String>)
    ensures
        w > 0 && h > 0 ==> r == Ok::<(u32, u32), String>((w as u32, h as u32)),
        !(w > 0 && h > 0) ==> (r matches Err(e) && e@ == invalid_screen_size_text(x, y, w, h)),
{
    if w <= 0 || h <= 0 {
        return Err(size_message("Invalid virtual screen size: ", x, y, w, h));
    }
    Ok((w as u32, h as u32))
}

/// The bounds (x, y, width, height) of the virtual screen when its size is
/// positive, else the message that refuses them.
pub fn screen_bounds(x: i32, y: i32, w: i32, h: i32) -> (r: Result<(i32, i32, i32, i32), String>)
    ensures
        w > 0 && h > 0 ==> r == Ok::<(i32, i32, i32, i32), String>((x, y, w, h)),
        !(w > 0 && h > 0) ==> (r matches Err(e) && e@ == invalid_screen_bounds_text(x, y, w, h)),
{
    if w <= 0 || h <= 0 {
        return Err(size_message("Invalid virtual screen: ", x, y, w, h));
    }
    Ok((x, y, w, h))
}

/// Grabbed pixels as opaque RGBA: in each whole 4-byte BGRA pixel the blue
/// and red bytes trade places and the alpha byte becomes 255; bytes after
/// the last whole pixel stay as they are.
pub open spec fn opaque_rgba(bgra: Seq<u8>) -> Seq<u8> {
    Seq::new(
        bgra.len(),
        |i: int|
            {
                let base = i - i % 4;
                if base + 4 <= bgra.len() {
                    if i % 4 == 0 {
                        bgra[base + 2]
                    } else if i % 4 == 2 {
                        bgra[base]
                    } else if i % 4 == 3 {
                        255u8
                    } else {
                        bgra[i]
                    }
                } else {
                    bgra[i]
                }
            },
    )
}

/// Turns grabbed BGRA pixels into opaque RGBA, in place.
pub fn bgra_to_rgba(pixels: &mut Vec<u8>)
    ensures
        final(pixels)@ == opaque_rgba(old(pixels)@),
{
    let ghost src = pixels@;
    let whole: usize = pixels.len() / 4 * 4;
    let mut i: usize = 0;
    while i < whole
        invariant
            src == old(pixels)@,
            whole == src.len() / 4 * 4,
            i % 4 == 0,
            i <= whole,
            pixels@.len() == src.len(),
            forall|k: int| 0 <= k < i ==> #[trigger] pixels@[k] == opaque_rgba(src)[k],
            forall|k: int| i <= k < src.len() ==> #[trigger] pixels@[k] == src[k],
        decreases whole - i,
    {
        let b = pixels[i];
        let r = pixels[i + 2];
        pixels.set(i, r);
        pixels.set(i + 2, b);
        pixels.set(i + 3, 255u8);
        proof {
            assert forall|k: int| 0 <= k < i + 4 implies #[trigger] pixels@[k] == opaque_rgba(src)[k] by {
                if k >= i {
                    assert(k - k % 4 == i);
                }
            }
        }
        i = i + 4;
    }
    proof {
        assert forall|k: int| whole <= k < src.len() implies #[trigger] pixels@[k] == opaque_rgba(src)[k] by {
            assert(k - k % 4 + 4 > src.len());
        }
        assert(pixels@ =~= opaque_rgba(src));
    }
}

/// What `png::Encoder` writes for an 8-bit RGBA image of `width` ×
/// `height` pixels: the PNG bytes, or the stage that failed (`true` for
/// the header) and the text of its error.
pub uninterp spec fn png_rgba8(width: u32, height: u32, data: Seq<u8>) -> Result<Seq<u8>, (bool, Seq<char>)>;

/// Encodes an 8-bit RGBA image with `png::Encoder` (default filter and
/// compression): `write_header`, then `write_image_data`. The outcome is
/// named `png_rgba8` of the three inputs; the bytes, as those of any
/// `Vec`, are at most `isize::MAX`. The size product is bounded so that the
/// crate's buffer-size arithmetic does not overflow.
#[verifier::external_body]
fn png_encode_rgba8(width: u32, height: u32, data: &[u8]) -> (r: Result<Vec<u8>, (bool, String)>)
    requires
        4 * width * height + height <= usize::MAX,
    ensures
        match r {
            Ok(b) => png_rgba8(width, height, data@) == Ok::<Seq<u8>, (bool, Seq<char>)>(b@) && b@.len() <= isize::MAX,
            Err((h, e)) => png_rgba8(width, height, data@) == Err::<Seq<u8>, (bool, Seq<char>)>((h, e@)),
        },
{
    let mut buf = Vec::new();
    {
        let mut encoder = png::Encoder::new(&mut buf, width, height);
        encoder.set_color(png::ColorType::Rgba);
        encoder.set_depth(png::BitDepth::Eight);
        let mut writer = encoder.write_header().map_err(|e| (true, e.to_string()))?;
        writer.write_image_data(data).map_err(|e| (false, e.to_string()))?;
    }
    Ok(buf)
}

/// The character of a 6-bit value in the standard base64 alphabet.
pub open spec fn base64_digit(v: int) -> char {
    if v < 26 {
        (65 + v) as char
    } else if v < 52 {
        (97 + v - 26) as char
    } else if v < 62 {
        (48 + v - 52) as char
    } else if v == 62 {
        '+'
    } else {
        '/'
    }
}

/// Standard base64 (RFC 4648) with `=` padding: each group of three bytes
/// becomes four characters; a last group of one or two bytes is padded.
pub open spec fn base64_standard(b: Seq<u8>) -> Seq<char>
    decreases b.len(),
{
    if b.len() == 0 {
        Seq::empty()
    } else {
        let x = b[0] as int;
        let y = if b.len() > 1 { b[1] as int } else { 0 };
        let z = if b.len() > 2 { b[2] as int } else { 0 };
        let c0 = base64_digit(x / 4);
        let c1 = base64_digit((x % 4) * 16 + y / 16);
        let c2 = base64_digit((y % 16) * 4 + z / 64);
        let c3 = base64_digit(z % 64);
        if b.len() == 1 {
            seq![c0, c1, '=', '=']
        } else if b.len() == 2 {
            seq![c0, c1, c2, '=']
        } else {
            seq![c0, c1, c2, c3] + base64_standard(b.skip(3))
        }
    }
}

/// `base64::engine::general_purpose::STANDARD.encode`: standard base64
/// with padding. The length bound keeps the crate's output-size
/// computation from overflowing.
#[verifier::external_body]
fn base64_encode(bytes: &[u8]) -> (s: String)
    requires
        bytes@.len() <= isize::MAX,
    ensures
        s@ == base64_standard(bytes@),
{
    base64::engine::general_purpose::STANDARD.encode(bytes)
}

/// The message for an image that could not be encoded.
pub open spec fn png_error_text(header: bool, e: Seq<char>) -> Seq<char> {
    if header {
        "PNG header error: "@ + e
    } else {
        "PNG data error: "@ + e
    }
}

/// A grab of `width` × `height` BGRA pixels as the base64 text of an
/// opaque RGBA PNG, or the message of the encoding stage that failed.
pub fn screenshot_png_base64(width: u32, height: u32, bgra: Vec<u8>) -> (r: Result<String, String>)
    requires
        4 * width * height + height <= usize::MAX,
    ensures
        match png_rgba8(width, height, opaque_rgba(bgra@)) {
            Ok(png) => r matches Ok(s) && s@ == base64_standard(png),
            Err((h, e)) => r matches Err(m) && m@ == png_error_text(h, e),
        },
{
    let mut pixels = bgra;
    bgra_to_rgba(&mut pixels);
    match png_encode_rgba8(width, height, pixels.as_slice()) {
        Ok(png) => Ok(base64_encode(png.as_slice())),
        Err((header, e)) => {
            let mut m = if header {
                "PNG header error: ".to_owned()
            } else {
                "PNG data error: ".to_owned()
            };
            m.append(e.as_str());
            Err(m)
        },
    }
}

} // verus!
