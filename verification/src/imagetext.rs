use vstd::prelude::*;
use vstd::string::StringExecFns;

use crate::types::EngineError;

verus! {

/// The glyph ramp, sparsest to densest.  Index `i` must stay below
/// `ramp_len()`.
pub open spec fn ramp_char(i: nat) -> char {
    if i == 0 {
        ' '
    } else if i == 1 {
        '`'
    } else if i == 2 {
        '.'
    } else if i == 3 {
        '!'
    } else if i == 4 {
        '|'
    } else if i == 5 {
        ':'
    } else if i == 6 {
        '-'
    } else if i == 7 {
        '='
    } else if i == 8 {
        'm'
    } else if i == 9 {
        '+'
    } else if i == 10 {
        '*'
    } else if i == 11 {
        '#'
    } else {
        if i == 12 {
            '%'
        } else {
            '@'
        }
    }
}

/// Number of glyphs in the ramp.
pub open spec fn ramp_len() -> nat {
    14
}

/// Quantizes a luminance value (0 to 255) onto a ramp index: the closed
/// form `floor(p * (ramp_len - 1) / 255)`, so 0 maps to the sparsest glyph
/// and 255 to the densest.
pub open spec fn quant(p: nat) -> nat {
    (p * 13) / 255
}

/// The glyph a luminance value is drawn with.
pub open spec fn glyph_of(p: nat) -> char {
    ramp_char(quant(p))
}

/// One ramp glyph as a one-character string.
fn glyph_str(p: u8) -> (r: &'static str)
    ensures
        r@ == seq![glyph_of(p as nat)],
{
    proof {
        reveal_strlit(" ");
        reveal_strlit("`");
        reveal_strlit(".");
        reveal_strlit("!");
        reveal_strlit("|");
        reveal_strlit(":");
        reveal_strlit("-");
        reveal_strlit("=");
        reveal_strlit("m");
        reveal_strlit("+");
        reveal_strlit("*");
        reveal_strlit("#");
        reveal_strlit("%");
        reveal_strlit("@");
    }
    let idx: usize = (p as usize * 13) / 255;
    let r = match idx {
        0 => " ",
        1 => "`",
        2 => ".",
        3 => "!",
        4 => "|",
        5 => ":",
        6 => "-",
        7 => "=",
        8 => "m",
        9 => "+",
        10 => "*",
        11 => "#",
        12 => "%",
        _ => "@",
    };
    proof {
        assert(idx == quant(p as nat));
        assert(quant(p as nat) <= 13) by {
            assert(p as nat * 13 <= 255 * 13);
        }
        assert(r@ =~= seq![glyph_of(p as nat)]);
    }
    r
}

/// A grid quantizes a row-major pixel sequence at width `w` when every
/// character is the ramp glyph of the matching luminance value.
pub open spec fn grid_quantizes(pix: Seq<u8>, g: Seq<String>, w: int) -> bool {
    &&& pix.len() == g.len() * w
    &&& forall|y: int, x: int|
        0 <= y < g.len() && 0 <= x < w ==> #[trigger] g[y]@[x] == glyph_of(pix[y * w + x] as nat)
}

/// Turns a row-major luminance buffer into `h` rows of `w` ramp glyphs:
/// row `y`, column `x` holds the glyph of pixel `y * w + x`.
pub fn luma_grid(pixels: &Vec<u8>, w: usize, h: usize) -> (r: Vec<String>)
    requires
        pixels@.len() == w * h,
    ensures
        r@.len() == h,
        forall|y: int| 0 <= y < h ==> #[trigger] r@[y]@.len() == w,
        grid_quantizes(pixels@, r@, w as int),
{
    let plen: usize = pixels.len();
    let mut out: Vec<String> = Vec::new();
    let mut y: usize = 0;
    while y < h
        invariant
            0 <= y <= h,
            pixels@.len() == w * h,
            pixels@.len() <= usize::MAX,
            out@.len() == y,
            forall|i: int| 0 <= i < y ==> #[trigger] out@[i]@.len() == w,
            forall|i: int, x: int|
                0 <= i < y && 0 <= x < w ==> #[trigger] out@[i]@[x] == glyph_of(
                    pixels@[i * w + x] as nat,
                ),
        decreases h - y,
    {
        let mut row = String::new();
        let mut x: usize = 0;
        while x < w
            invariant
                0 <= x <= w,
                0 <= y < h,
                pixels@.len() == w * h,
                pixels@.len() <= usize::MAX,
                row@.len() == x,
                forall|k: int|
                    0 <= k < x ==> #[trigger] row@[k] == glyph_of(pixels@[y * w + k] as nat),
            decreases w - x,
        {
            proof {
                assert(y * w + x < w * h) by (nonlinear_arith)
                    requires
                        0 <= y < h,
                        0 <= x < w,
                ;
                assert(y * w + x <= usize::MAX);
            }
            let p = pixels[y * w + x];
            row.append(glyph_str(p));
            x = x + 1;
        }
        out.push(row);
        y = y + 1;
    }
    proof {
        assert(out@.len() * w == w * h) by (nonlinear_arith)
            requires
                out@.len() == h as int,
        ;
        assert(pixels@.len() == out@.len() * w);
    }
    out
}

/// Declares image's decoded-image type; the engine only carries it from
/// the decoder to the resizer.
#[verifier::external_type_specification]
#[verifier::external_body]
pub struct ExDynamicImage(image::DynamicImage);

/// Declares image's error type, so a wrapper can hand it back.
#[verifier::external_type_specification]
#[verifier::external_body]
pub struct ExImageError(image::ImageError);

/// Whether a byte sequence decodes as a raster image, and at which pixel
/// dimensions (width, height).  Decoding depends on the bytes alone.
pub uninterp spec fn image_meta(bytes: Seq<u8>) -> Option<(int, int)>;

/// Relies on image::load_from_memory, which decodes a raster image from
/// bytes or fails, deterministically, and on
/// image::GenericImageView::dimensions, which reports its width and height.
#[verifier::external_body]
fn decode_image(bytes: &[u8]) -> (r: Result<(image::DynamicImage, u32, u32), image::ImageError>)
    ensures
        r matches Ok(t) ==> image_meta(bytes@) == Some((t.1 as int, t.2 as int)),
        r is Err ==> image_meta(bytes@) is None,
{
    let img = image::load_from_memory(bytes)?;
    let (w, h) = image::GenericImageView::dimensions(&img);
    Ok((img, w, h))
}

/// Relies on image::DynamicImage::resize_exact, which samples the image
/// down to exactly `w` by `h` pixels (nearest-neighbour here), on
/// DynamicImage::to_luma8, which converts it to one luminance byte per
/// pixel at the same dimensions, and on ImageBuffer::into_raw, which hands
/// the buffer out row-major, so with exactly `w * h` bytes.
#[verifier::external_body]
fn resized_luma(img: &image::DynamicImage, w: u32, h: u32) -> (r: Vec<u8>)
    requires
        1 <= w,
        1 <= h,
        w as int * h as int <= usize::MAX,
    ensures
        r@.len() == w as int * h as int,
{
    let resized = img.resize_exact(w, h, image::imageops::FilterType::Nearest);
    resized.to_luma8().into_raw()
}

/// The row count of a preview: the width scaled by the image's aspect
/// ratio, halved because terminal cells are taller than wide, rounded to
/// the nearest integer, and capped at the tallest drawable grid.
pub open spec fn preview_height(w0: int, h0: int, tw: int) -> int {
    let ideal = (tw * h0 + w0) / (2 * w0);
    if ideal > 0xFFFF {
        0xFFFF
    } else {
        ideal
    }
}

/// A decodable image with at least one pixel column, whose preview at
/// width `tw` has exactly `rows` rows.
pub open spec fn meta_rows(bytes: Seq<u8>, tw: int, rows: int) -> bool {
    match image_meta(bytes) {
        Some(d) => d.0 > 0 && rows == preview_height(d.0, d.1, tw),
        None => false,
    }
}

/// Bytes the converter rejects: not a decodable image, or one without
/// pixel columns.
pub open spec fn meta_rejected(bytes: Seq<u8>) -> bool {
    match image_meta(bytes) {
        Some(d) => d.0 <= 0,
        None => true,
    }
}

/// Turns raster image bytes into rows of ramp glyphs approximating
/// luminance, exactly `target_width` columns wide; bytes that are not a
/// decodable raster image (or describe an image without pixels) are
/// rejected with a decode error and nothing else is.
pub fn image_to_text(bytes: &[u8], target_width: usize) -> (r: Result<Vec<String>, EngineError>)
    requires
        1 <= target_width <= 0xFFFF,
    ensures
        match r {
            Ok(g) => {
                &&& meta_rows(bytes@, target_width as int, g@.len() as int)
                &&& forall|y: int| 0 <= y < g@.len() ==> #[trigger] g@[y]@.len() == target_width
                &&& exists|pix: Seq<u8>| grid_quantizes(pix, g@, target_width as int)
            },
            Err(e) => e is Decode && meta_rejected(bytes@),
        },
{
    let (img, w, h) = match decode_image(bytes) {
        Ok(t) => t,
        Err(_) => {
            return Err(EngineError::Decode);
        },
    };
    if w == 0 {
        return Err(EngineError::Decode);
    }
    let tw64: u64 = target_width as u64;
    let w64: u64 = w as u64;
    let h64: u64 = h as u64;
    proof {
        assert(tw64 * h64 <= 0xFFFF * 0xFFFFFFFFu64) by (nonlinear_arith)
            requires
                tw64 <= 0xFFFF,
                h64 <= 0xFFFFFFFFu64,
                0 <= tw64,
                0 <= h64,
        ;
    }
    let ideal: u64 = (tw64 * h64 + w64) / (2 * w64);
    let new_h: u64 = if ideal > 0xFFFF {
        0xFFFF
    } else {
        ideal
    };
    proof {
        assert(new_h as int == preview_height(w as int, h as int, target_width as int));
    }
    if new_h == 0 {
        let g: Vec<String> = Vec::new();
        proof {
            assert(g@.len() * (target_width as int) == 0) by (nonlinear_arith)
                requires
                    g@.len() == 0,
            ;
            assert(grid_quantizes(Seq::<u8>::empty(), g@, target_width as int));
        }
        return Ok(g);
    }
    let twu: u32 = target_width as u32;
    let nhu: u32 = new_h as u32;
    let nhz: usize = new_h as usize;
    proof {
        assert(twu as int == target_width as int);
        assert(nhu as int == new_h as int);
        assert(nhz as int == new_h as int);
        assert(twu as int * nhu as int <= 0xFFFF * 0xFFFF) by (nonlinear_arith)
            requires
                0 <= twu as int <= 0xFFFF,
                0 <= nhu as int <= 0xFFFF,
        ;
    }
    let pixels = resized_luma(&img, twu, nhu);
    proof {
        assert(pixels@.len() == target_width * nhz) by (nonlinear_arith)
            requires
                pixels@.len() == twu as int * nhu as int,
                twu as int == target_width as int,
                nhu as int == nhz as int,
        ;
    }
    let g = luma_grid(&pixels, target_width, nhz);
    proof {
        assert(grid_quantizes(pixels@, g@, target_width as int));
    }
    Ok(g)
}

} // verus!
