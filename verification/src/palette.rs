//! Palette extraction: the target is cut into a grid of equal blocks, and
//! each block contributes one representative color.
//!
//! The representative is a running pairwise blend, not a true mean: starting
//! from neutral gray, every pixel of the block (in row-major order) replaces
//! the running color with the component-wise average of the two. Later
//! pixels therefore weigh more than earlier ones; the quirk is kept on
//! purpose, as the palette's look depends on it.

use crate::color::Rgb;
use crate::raster;
use vstd::arithmetic::div_mod::lemma_fundamental_div_mod;
use vstd::arithmetic::div_mod::lemma_fundamental_div_mod_converse;
use vstd::prelude::*;

verus! {

/// The ordered list of representative colors, one per block, in row-major
/// block order.
pub struct Palette {
    pub colors: Vec<Rgb>,
}

/// One blend step: the component-wise average, rounded down.
pub open spec fn spec_blend(c: Rgb, p: Rgb) -> Rgb {
    Rgb {
        r: ((c.r + p.r) / 2) as u8,
        g: ((c.g + p.g) / 2) as u8,
        b: ((c.b + p.b) / 2) as u8,
    }
}

/// The running blend after the first `k` pixels of the block whose top-left
/// pixel is `(x0, y0)` and whose width is `bw`, visited in row-major order
/// from the neutral gray seed.
pub open spec fn spec_block_blend(buf: Seq<u8>, w: int, x0: int, y0: int, bw: int, k: int) -> Rgb
    decreases k,
{
    if k <= 0 {
        Rgb { r: 127, g: 127, b: 127 }
    } else {
        spec_blend(
            spec_block_blend(buf, w, x0, y0, bw, k - 1),
            raster::spec_pixel(buf, w, x0 + (k - 1) % bw, y0 + (k - 1) / bw),
        )
    }
}

/// The representative color of the whole block at block row `row`, block
/// column `col`.
pub open spec fn spec_block_color(
    buf: Seq<u8>,
    w: int,
    row: int,
    col: int,
    bw: int,
    bh: int,
) -> Rgb {
    spec_block_blend(buf, w, col * bw, row * bh, bw, bw * bh)
}

/// Computes `spec_blend` exactly.
pub fn blend(c: Rgb, p: Rgb) -> (r: Rgb)
    ensures
        r == spec_blend(c, p),
{
    Rgb {
        r: ((c.r as u16 + p.r as u16) / 2) as u8,
        g: ((c.g as u16 + p.g as u16) / 2) as u8,
        b: ((c.b as u16 + p.b as u16) / 2) as u8,
    }
}

/// Builds the palette of a source image: one entry per full block, in
/// row-major block order. Partial blocks at the right and bottom edges are
/// dropped, not padded.
#[verifier::loop_isolation(false)]
pub fn init_palette(pixels: &Vec<u8>, width: u32, height: u32, block_w: u32, block_h: u32) -> (p:
    Palette)
    requires
        block_w >= 1,
        block_h >= 1,
        raster::spec_buffer_sized(pixels@, width as int, height as int),
        width as int * height as int <= u32::MAX as int,
    ensures
        p.colors.len() == (height as int / block_h as int) * (width as int / block_w as int),
        forall|bi: int|
            0 <= bi < p.colors.len() ==> p.colors@[bi] == spec_block_color(
                pixels@,
                width as int,
                bi / (width as int / block_w as int),
                bi % (width as int / block_w as int),
                block_w as int,
                block_h as int,
            ),
{
    let cols: u32 = width / block_w;
    let rows: u32 = height / block_h;
    proof {
        lemma_fundamental_div_mod(width as int, block_w as int);
        lemma_fundamental_div_mod(height as int, block_h as int);
        vstd::arithmetic::div_mod::lemma_mod_bound(width as int, block_w as int);
        vstd::arithmetic::div_mod::lemma_mod_bound(height as int, block_h as int);
        assert(cols as int * block_w as int <= width as int) by (nonlinear_arith)
            requires
                width as int == block_w as int * cols as int + width as int % block_w as int,
                width as int % block_w as int >= 0,
        ;
        assert(rows as int * block_h as int <= height as int) by (nonlinear_arith)
            requires
                height as int == block_h as int * rows as int + height as int % block_h as int,
                height as int % block_h as int >= 0,
        ;
        assert(cols <= width && rows <= height) by (nonlinear_arith)
            requires
                cols as int * block_w as int <= width as int,
                rows as int * block_h as int <= height as int,
                block_w >= 1,
                block_h >= 1,
                cols >= 0,
                rows >= 0,
        ;
        assert(rows as int * cols as int <= width as int * height as int) by (nonlinear_arith)
            requires
                0 <= cols <= width,
                0 <= rows <= height,
        ;
    }
    let mut colors: Vec<Rgb> = Vec::new();
    let mut row: u32 = 0;
    while row < rows
        invariant
            row <= rows,
            colors.len() == row as int * cols as int,
            forall|bi: int|
                0 <= bi < colors.len() ==> colors@[bi] == spec_block_color(
                    pixels@,
                    width as int,
                    bi / cols as int,
                    bi % cols as int,
                    block_w as int,
                    block_h as int,
                ),
        decreases rows - row,
    {
        proof {
            assert(row as int * cols as int <= rows as int * cols as int && (row as int + 1)
                * cols as int <= rows as int * cols as int) by (nonlinear_arith)
                requires
                    0 <= row < rows,
                    cols >= 0,
            ;
        }
        let mut col: u32 = 0;
        while col < cols
            invariant
                col <= cols,
                colors.len() == row as int * cols as int + col as int,
                forall|bi: int|
                    0 <= bi < colors.len() ==> colors@[bi] == spec_block_color(
                        pixels@,
                        width as int,
                        bi / cols as int,
                        bi % cols as int,
                        block_w as int,
                        block_h as int,
                    ),
            decreases cols - col,
        {
            proof {
                assert(col as int * block_w as int + block_w as int <= width as int
                    && row as int * block_h as int + block_h as int <= height as int)
                    by (nonlinear_arith)
                    requires
                        0 <= col < cols,
                        0 <= row < rows,
                        cols as int * block_w as int <= width as int,
                        rows as int * block_h as int <= height as int,
                ;
            }
            let x0: u32 = col * block_w;
            let y0: u32 = row * block_h;
            let mut c = Rgb { r: 127, g: 127, b: 127 };
            let mut y: u32 = 0;
            proof {
                assert(block_h as int * block_w as int <= height as int * width as int)
                    by (nonlinear_arith)
                    requires
                        1 <= block_w <= width,
                        1 <= block_h <= height,
                ;
            }
            while y < block_h
                invariant
                    y <= block_h,
                    c == spec_block_blend(
                        pixels@,
                        width as int,
                        x0 as int,
                        y0 as int,
                        block_w as int,
                        y as int * block_w as int,
                    ),
                decreases block_h - y,
            {
                proof {
                    assert(y as int * block_w as int <= block_h as int * block_w as int && (
                    y as int + 1) * block_w as int <= block_h as int * block_w as int)
                        by (nonlinear_arith)
                        requires
                            0 <= y < block_h,
                            block_w >= 0,
                    ;
                }
                let mut x: u32 = 0;
                while x < block_w
                    invariant
                        x <= block_w,
                        c == spec_block_blend(
                            pixels@,
                            width as int,
                            x0 as int,
                            y0 as int,
                            block_w as int,
                            y as int * block_w as int + x as int,
                        ),
                    decreases block_w - x,
                {
                    let p = raster::pixel_at(pixels, width, height, x0 + x, y0 + y);
                    proof {
                        lemma_fundamental_div_mod_converse(
                            y as int * block_w as int + x as int,
                            block_w as int,
                            y as int,
                            x as int,
                        );
                    }
                    c = blend(c, p);
                    x = x + 1;
                }
                proof {
                    assert((y as int + 1) * block_w as int == y as int * block_w as int
                        + block_w as int) by (nonlinear_arith);
                }
                y = y + 1;
            }
            proof {
                assert(block_h as int * block_w as int == block_w as int * block_h as int)
                    by (nonlinear_arith);
                assert(c == spec_block_color(
                    pixels@,
                    width as int,
                    row as int,
                    col as int,
                    block_w as int,
                    block_h as int,
                ));
            }
            colors.push(c);
            proof {
                let bi = row as int * cols as int + col as int;
                lemma_fundamental_div_mod_converse(bi, cols as int, row as int, col as int);
                assert(colors@[bi] == spec_block_color(
                    pixels@,
                    width as int,
                    bi / cols as int,
                    bi % cols as int,
                    block_w as int,
                    block_h as int,
                ));
            }
            col = col + 1;
        }
        proof {
            assert((row as int + 1) * cols as int == row as int * cols as int + cols as int)
                by (nonlinear_arith);
        }
        row = row + 1;
    }
    Palette { colors }
}

} // verus!
