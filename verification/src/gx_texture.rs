//! Tiled texture decoding: expanding the console pixel formats into flat
//! RGBA bytes. Every source pixel sits at a computable slot inside a
//! fixed-size tile, so each read is addressed directly from the block
//! index and proved in bounds.

use vstd::prelude::*;

use vstd::arithmetic::mul::lemma_mul_inequality;

verus! {

/// A narrow channel value widened to eight bits by repeating its high
/// bits: `(n << (8 - v)) | (n >> ((2 * v) % 8))`.
pub open spec fn expand_bits(v: u8, n: u8) -> u8 {
    ((n << ((8 - v) as u8)) | (n >> (((2 * v) % 8) as u8))) as u8
}

/// Widens a `v`-bit channel to eight bits. Width 8 is left out: it would
/// need a masked left shift, and no pixel format stores an 8-bit channel
/// this way.
pub fn expand_n_to_8(v: u8, n: u8) -> (r: u8)
    requires
        1 <= v <= 7,
    ensures
        r == expand_bits(v, n),
{
    (n << (8 - v)) | (n >> ((2 * v) % 8))
}

/// The big-endian 16-bit value at `src[i], src[i + 1]`.
pub open spec fn be16_at(b: Seq<u8>, i: int) -> u16 {
    (b[i] * 0x100 + b[i + 1]) as u16
}

pub fn get_u16_be(src: &[u8], i: usize) -> (r: u16)
    requires
        i + 2 <= src@.len(),
    ensures
        r == be16_at(src@, i as int),
{
    (src[i] as u16) * 0x100 + (src[i + 1] as u16)
}

/// The 3:5 gradient blend used between the two anchor colors:
/// `(3a + 5b) / 8`.
pub open spec fn s3tc_blend(a: u8, b: u8) -> u8 {
    ((3 * a + 5 * b) / 8) as u8
}

pub fn s3tcblend(a: u8, b: u8) -> (r: u8)
    ensures
        r == s3tc_blend(a, b),
{
    let wide: u32 = 3 * (a as u32) + 5 * (b as u32);
    (wide / 8) as u8
}

/// The even blend between the two anchor colors: `(a + b) / 2`.
pub open spec fn half_blend(a: u8, b: u8) -> u8 {
    (((a + b) as int) / 2) as u8
}

pub fn halfblend(a: u8, b: u8) -> (r: u8)
    ensures
        r == half_blend(a, b),
{
    let wide: u32 = (a as u32) + (b as u32);
    (wide / 2) as u8
}

/// The tiled source pixel formats.
#[derive(Debug, Clone, Copy, PartialEq, Eq, Structural)]
pub enum PixelFormat {
    I4,
    I8,
    IA4,
    IA8,
    RGB565,
    RGB5A3,
    RGBA8,
    CMPR,
}

/// Tile width in pixels.
pub open spec fn block_w(fmt: PixelFormat) -> int {
    match fmt {
        PixelFormat::I4 => 8,
        PixelFormat::I8 => 8,
        PixelFormat::IA4 => 8,
        PixelFormat::IA8 => 4,
        PixelFormat::RGB565 => 4,
        PixelFormat::RGB5A3 => 4,
        PixelFormat::RGBA8 => 4,
        PixelFormat::CMPR => 8,
    }
}

/// Tile height in pixels.
pub open spec fn block_h(fmt: PixelFormat) -> int {
    match fmt {
        PixelFormat::I4 => 8,
        PixelFormat::I8 => 4,
        PixelFormat::IA4 => 4,
        PixelFormat::IA8 => 4,
        PixelFormat::RGB565 => 4,
        PixelFormat::RGB5A3 => 4,
        PixelFormat::RGBA8 => 4,
        PixelFormat::CMPR => 8,
    }
}

/// Bytes one whole tile occupies in the source stream.
pub open spec fn block_bytes(fmt: PixelFormat) -> int {
    match fmt {
        PixelFormat::RGBA8 => 64,
        _ => 32,
    }
}

/// How many source bytes a `w` by `h` image needs: full tiles cover the
/// image, and the tile columns of the hand-coded wide-pixel format follow
/// the image height (its source interleaves two passes per tile).
pub open spec fn src_len_needed(fmt: PixelFormat, w: int, h: int) -> int {
    let cols = if fmt is RGBA8 {
        (h + block_w(fmt) - 1) / block_w(fmt)
    } else {
        (w + block_w(fmt) - 1) / block_w(fmt)
    };
    let rows = (h + block_h(fmt) - 1) / block_h(fmt);
    rows * cols * block_bytes(fmt)
}

} // verus!

// The per-pixel meaning of each format, and the decoders proved against it.

use vstd::arithmetic::div_mod::lemma_fundamental_div_mod;
use vstd::arithmetic::div_mod::lemma_multiply_divide_lt;
use vstd::arithmetic::mul::lemma_mul_is_commutative;
use vstd::arithmetic::mul::lemma_mul_is_distributive_add_other_way;
use vstd::arithmetic::mul::lemma_mul_upper_bound;

verus! {

/// The four output bytes of pixel `(x, y)` in a flat RGBA image of width
/// `w`.
pub open spec fn pixel_at(dst: Seq<u8>, w: int, x: int, y: int) -> Seq<u8> {
    dst.subrange((y * w + x) * 4, (y * w + x) * 4 + 4)
}

/// The source slot of pixel `(x, y)` in a uniform tiled format: tiles walk
/// the image row-major, pixels row-major inside each tile.
pub open spec fn pixel_slot(fmt: PixelFormat, w: int, x: int, y: int) -> int {
    let bw = block_w(fmt);
    let bh = block_h(fmt);
    let nbc = (w + bw - 1) / bw;
    ((y / bh) * nbc + x / bw) * (bw * bh) + (y % bh) * bw + (x % bw)
}

/// The four RGBA bytes a uniform-format slot decodes to: intensity slots
/// replicate into all channels, paired formats carry alpha, and the
/// 16-bit formats expand their packed channels.
pub open spec fn tiled_pixel(fmt: PixelFormat, src: Seq<u8>, slot: int) -> Seq<u8> {
    match fmt {
        PixelFormat::I4 => {
            let ii = src[slot / 2];
            let nib = if slot % 2 != 0 {
                (ii & 0x0F) as u8
            } else {
                ((ii >> 4) & 0x0F) as u8
            };
            let i = expand_bits(4, nib);
            seq![i, i, i, i]
        },
        PixelFormat::I8 => {
            let i = src[slot];
            seq![i, i, i, i]
        },
        PixelFormat::IA4 => {
            let ia = src[slot];
            let a = expand_bits(4, (ia >> 4) as u8);
            let i = expand_bits(4, (ia & 0x0F) as u8);
            seq![i, i, i, a]
        },
        PixelFormat::IA8 => {
            let a = src[2 * slot];
            let i = src[2 * slot + 1];
            seq![i, i, i, a]
        },
        PixelFormat::RGB565 => {
            let p = be16_at(src, 2 * slot);
            seq![
                expand_bits(5, ((p >> 11) & 0x1F) as u8),
                expand_bits(6, ((p >> 5) & 0x3F) as u8),
                expand_bits(5, (p & 0x1F) as u8),
                0xFFu8,
            ]
        },
        PixelFormat::RGB5A3 => {
            let p = be16_at(src, 2 * slot);
            if p & 0x8000 != 0 {
                seq![
                    expand_bits(5, ((p >> 10) & 0x1F) as u8),
                    expand_bits(5, ((p >> 5) & 0x1F) as u8),
                    expand_bits(5, (p & 0x1F) as u8),
                    0xFFu8,
                ]
            } else {
                seq![
                    expand_bits(4, ((p >> 11) & 0x0F) as u8),
                    expand_bits(4, ((p >> 5) & 0x0F) as u8),
                    expand_bits(4, (p & 0x0F) as u8),
                    expand_bits(3, ((p >> 12) & 0x07) as u8),
                ]
            }
        },
        _ => seq![0u8, 0u8, 0u8, 0u8],
    }
}

/// The four RGBA bytes of pixel `(x, y)` in the wide-pixel format: each
/// tile stores sixteen alpha/red byte pairs, then sixteen green/blue
/// pairs, and tile columns follow the image height.
pub open spec fn rgba8_pixel(src: Seq<u8>, h: int, x: int, y: int) -> Seq<u8> {
    let nbc = (h + 3) / 4;
    let base = ((y / 4) * nbc + x / 4) * 64;
    let o = 2 * ((y % 4) * 4 + x % 4);
    seq![src[base + o + 1], src[base + 32 + o], src[base + 32 + o + 1], src[base + o]]
}

/// The source cell of pixel `(x, y)` in the compressed format: tiles walk
/// the image row-major, the four cells of a tile sit in a two-by-two
/// grid, eight bytes each.
pub open spec fn cmpr_cell(w: int, x: int, y: int) -> int {
    let nbc = (w + 7) / 8;
    ((y / 8) * nbc + x / 8) * 32 + (((y % 8) / 4) * 2 + (x % 8) / 4) * 8
}

/// The two-bit table pick of pixel `(x, y)`, most significant bits first
/// within its row byte.
pub open spec fn cmpr_code(src: Seq<u8>, w: int, x: int, y: int) -> int {
    let bits = src[cmpr_cell(w, x, y) + 4 + (y % 4)];
    ((bits >> ((6 - 2 * (x % 4)) as u8)) & 0x03) as int
}

/// Entry `code` of a cell's four-color table: the two expanded anchor
/// colors, then either the two 3:5 gradient blends (first anchor larger)
/// or the even blend with a transparent fourth entry.
pub open spec fn cmpr_entry(src: Seq<u8>, cell: int, code: int) -> Seq<u8> {
    let c1 = be16_at(src, cell);
    let c2 = be16_at(src, cell + 2);
    let r0 = expand_bits(5, ((c1 >> 11) & 0x1F) as u8);
    let g0 = expand_bits(6, ((c1 >> 5) & 0x3F) as u8);
    let b0 = expand_bits(5, (c1 & 0x1F) as u8);
    let r1 = expand_bits(5, ((c2 >> 11) & 0x1F) as u8);
    let g1 = expand_bits(6, ((c2 >> 5) & 0x3F) as u8);
    let b1 = expand_bits(5, (c2 & 0x1F) as u8);
    if code == 0 {
        seq![r0, g0, b0, 0xFFu8]
    } else if code == 1 {
        seq![r1, g1, b1, 0xFFu8]
    } else if c1 > c2 {
        if code == 2 {
            seq![s3tc_blend(r1, r0), s3tc_blend(g1, g0), s3tc_blend(b1, b0), 0xFFu8]
        } else {
            seq![s3tc_blend(r0, r1), s3tc_blend(g0, g1), s3tc_blend(b0, b1), 0xFFu8]
        }
    } else {
        let r2 = half_blend(r0, r1);
        let g2 = half_blend(g0, g1);
        let b2 = half_blend(b0, b1);
        if code == 2 {
            seq![r2, g2, b2, 0xFFu8]
        } else {
            seq![r2, g2, b2, 0x00u8]
        }
    }
}

/// The four RGBA bytes of pixel `(x, y)` in the compressed format.
pub open spec fn cmpr_pixel(src: Seq<u8>, w: int, x: int, y: int) -> Seq<u8> {
    cmpr_entry(src, cmpr_cell(w, x, y), cmpr_code(src, w, x, y))
}

/// The four RGBA bytes of pixel `(x, y)` of a whole decoded texture. In
/// the wide-pixel format the tile columns follow the image height, so an
/// image wider than its covered columns keeps zero pixels there.
pub open spec fn texture_pixel(
    fmt: PixelFormat,
    src: Seq<u8>,
    w: int,
    h: int,
    x: int,
    y: int,
) -> Seq<u8> {
    if fmt is RGBA8 {
        if x < 4 * ((h + 3) / 4) {
            rgba8_pixel(src, h, x, y)
        } else {
            seq![0u8, 0u8, 0u8, 0u8]
        }
    } else if fmt is CMPR {
        cmpr_pixel(src, w, x, y)
    } else {
        tiled_pixel(fmt, src, pixel_slot(fmt, w, x, y))
    }
}

/// Ceil-division covers: `ceil(n / b) * b >= n`.
proof fn lemma_ceil_cover(n: int, b: int)
    requires
        1 <= b,
        0 <= n,
    ensures
        ((n + b - 1) / b) * b >= n,
{
    lemma_fundamental_div_mod(n + b - 1, b);
    lemma_mul_is_commutative((n + b - 1) / b, b);
}

/// A coordinate inside the image lands in a tile index below the tile
/// count, with in-tile offsets below the tile size.
proof fn lemma_coord_tile(c: int, n: int, b: int)
    requires
        1 <= b,
        0 <= c < n,
    ensures
        0 <= c / b < (n + b - 1) / b,
        0 <= c % b < b,
{
    lemma_ceil_cover(n, b);
    lemma_mul_is_commutative((n + b - 1) / b, b);
    lemma_multiply_divide_lt(c, b, (n + b - 1) / b);
    vstd::arithmetic::div_mod::lemma_mod_bound(c, b);
    vstd::arithmetic::div_mod::lemma_div_pos_is_pos(c, b);
}

/// Pushing one pixel's four bytes keeps every earlier pixel and makes the
/// new pixel exactly those bytes.
proof fn lemma_pixel_push(dpre: Seq<u8>, dnew: Seq<u8>, w: int, x: int, y: int)
    requires
        0 <= x < w,
        0 <= y,
        dpre.len() == (y * w + x) * 4,
        dnew.len() == dpre.len() + 4,
        forall|i: int| 0 <= i < dpre.len() ==> dnew[i] == dpre[i],
    ensures
        forall|yy: int, xx: int|
            ((0 <= yy < y && 0 <= xx < w) || (yy == y && 0 <= xx < x)) ==> pixel_at(dnew, w, xx, yy)
                == pixel_at(dpre, w, xx, yy),
        pixel_at(dnew, w, x, y) == seq![
            dnew[(y * w + x) * 4],
            dnew[(y * w + x) * 4 + 1],
            dnew[(y * w + x) * 4 + 2],
            dnew[(y * w + x) * 4 + 3],
        ],
{
    assert forall|yy: int, xx: int|
        ((0 <= yy < y && 0 <= xx < w) || (yy == y && 0 <= xx < x)) implies pixel_at(dnew, w, xx, yy)
        == pixel_at(dpre, w, xx, yy) by {
        if yy < y {
            lemma_mul_inequality(yy + 1, y, w);
            lemma_mul_is_distributive_add_other_way(w, yy, 1);
        }
        assert(yy * w + xx + 1 <= y * w + x);
        lemma_mul_inequality(yy * w + xx + 1, y * w + x, 4);
        lemma_mul_is_distributive_add_other_way(4, yy * w + xx, 1);
        assert(pixel_at(dnew, w, xx, yy) =~= pixel_at(dpre, w, xx, yy));
    }
    assert(pixel_at(dnew, w, x, y) =~= seq![
        dnew[(y * w + x) * 4],
        dnew[(y * w + x) * 4 + 1],
        dnew[(y * w + x) * 4 + 2],
        dnew[(y * w + x) * 4 + 3],
    ]);
}

} // verus!

verus! {

/// Decodes one of the uniform tiled formats into flat RGBA bytes: every
/// pixel of the image equals the decoding of its tile slot.
fn decode_tiled(fmt: PixelFormat, src: &[u8], w: usize, h: usize) -> (dst: Vec<u8>)
    requires
        !(fmt is RGBA8),
        !(fmt is CMPR),
        w <= 0x1000,
        h <= 0x1000,
        src@.len() >= src_len_needed(fmt, w as int, h as int),
    ensures
        dst@.len() == w * h * 4,
        forall|x: int, y: int|
            0 <= x < w && 0 <= y < h ==> pixel_at(dst@, w as int, x, y) == tiled_pixel(
                fmt,
                src@,
                pixel_slot(fmt, w as int, x, y),
            ),
{
    let (bw, bh): (usize, usize) = match fmt {
        PixelFormat::I4 => (8, 8),
        PixelFormat::I8 => (8, 4),
        PixelFormat::IA4 => (8, 4),
        _ => (4, 4),
    };
    let nbc: usize = (w + bw - 1) / bw;
    let nbr: usize = (h + bh - 1) / bh;
    proof {
        assert(nbc <= 0x402 && nbr <= 0x402) by (nonlinear_arith)
            requires
                nbc == (w + bw - 1) as int / (bw as int),
                nbr == (h + bh - 1) as int / (bh as int),
                w <= 0x1000,
                h <= 0x1000,
                bw >= 4,
                bh >= 4,
        ;
        lemma_mul_upper_bound(nbr as int, 0x402, nbc as int, 0x402);
    }
    let nb: usize = nbr * nbc;
    let tslots: usize = nb * (bw * bh);
    proof {
        lemma_mul_upper_bound(nb as int, 0x102004int, (bw * bh) as int, 64);
        assert(src@.len() >= nb * 32) by (nonlinear_arith)
            requires
                src@.len() >= src_len_needed(fmt, w as int, h as int),
                src_len_needed(fmt, w as int, h as int) == nbr as int * nbc as int * 32,
                nb == nbr as int * nbc as int,
        ;
        assert(fmt is I4 ==> tslots == 2 * (nb * 32)) by (nonlinear_arith)
            requires
                tslots == nb as int * (bw as int * bh as int),
                fmt is I4 ==> bw as int * bh as int == 64,
        ;
        assert((fmt is I8 || fmt is IA4) ==> tslots == nb * 32) by (nonlinear_arith)
            requires
                tslots == nb as int * (bw as int * bh as int),
                (fmt is I8 || fmt is IA4) ==> bw as int * bh as int == 32,
        ;
        assert((fmt is IA8 || fmt is RGB565 || fmt is RGB5A3) ==> 2 * tslots == nb * 32) by (
        nonlinear_arith)
            requires
                tslots == nb as int * (bw as int * bh as int),
                (fmt is IA8 || fmt is RGB565 || fmt is RGB5A3) ==> bw as int * bh as int == 16,
        ;
    }
    let mut dst: Vec<u8> = Vec::new();
    let mut y: usize = 0;
    while y < h
        invariant
            y <= h,
            w <= 0x1000,
            h <= 0x1000,
            bw == block_w(fmt),
            bh == block_h(fmt),
            4 <= bw <= 8,
            4 <= bh <= 8,
            !(fmt is RGBA8),
            !(fmt is CMPR),
            nbc == (w + bw - 1) as int / (bw as int),
            nbr == (h + bh - 1) as int / (bh as int),
            nbr <= 0x402,
            nbc <= 0x402,
            nb == nbr * nbc,
            tslots == nb * (bw * bh),
            tslots <= 0x402 * 0x402 * 64,
            src@.len() >= nb * 32,
            fmt is I4 ==> tslots == 2 * (nb * 32),
            (fmt is I8 || fmt is IA4) ==> tslots == nb * 32,
            (fmt is IA8 || fmt is RGB565 || fmt is RGB5A3) ==> 2 * tslots == nb * 32,
            dst@.len() == y * w * 4,
            forall|xx: int, yy: int|
                0 <= xx < w && 0 <= yy < y ==> pixel_at(dst@, w as int, xx, yy) == tiled_pixel(
                    fmt,
                    src@,
                    pixel_slot(fmt, w as int, xx, yy),
                ),
        decreases h - y,
    {
        let mut x: usize = 0;
        while x < w
            invariant
                x <= w,
                y < h,
                w <= 0x1000,
                h <= 0x1000,
                bw == block_w(fmt),
                bh == block_h(fmt),
                4 <= bw <= 8,
                4 <= bh <= 8,
                !(fmt is RGBA8),
                !(fmt is CMPR),
                nbc == (w + bw - 1) as int / (bw as int),
                nbr == (h + bh - 1) as int / (bh as int),
                nbr <= 0x402,
                nbc <= 0x402,
                nb == nbr * nbc,
                tslots == nb * (bw * bh),
                tslots <= 0x402 * 0x402 * 64,
                src@.len() >= nb * 32,
                fmt is I4 ==> tslots == 2 * (nb * 32),
                (fmt is I8 || fmt is IA4) ==> tslots == nb * 32,
                (fmt is IA8 || fmt is RGB565 || fmt is RGB5A3) ==> 2 * tslots == nb * 32,
                dst@.len() == (y * w + x) * 4,
                forall|xx: int, yy: int|
                    0 <= xx < w && 0 <= yy < y ==> pixel_at(dst@, w as int, xx, yy) == tiled_pixel(
                        fmt,
                        src@,
                        pixel_slot(fmt, w as int, xx, yy),
                    ),
                forall|xx: int|
                    0 <= xx < x ==> pixel_at(dst@, w as int, xx, y as int) == tiled_pixel(
                        fmt,
                        src@,
                        pixel_slot(fmt, w as int, xx, y as int),
                    ),
            decreases w - x,
        {
            let by: usize = y / bh;
            let iy: usize = y % bh;
            let bx: usize = x / bw;
            let ix: usize = x % bw;
            proof {
                lemma_coord_tile(y as int, h as int, bh as int);
                lemma_coord_tile(x as int, w as int, bw as int);
                lemma_mul_upper_bound(by as int, 0x401, nbc as int, 0x402);
                lemma_mul_inequality(by as int, nbr as int - 1, nbc as int);
                vstd::arithmetic::mul::lemma_mul_is_distributive_sub_other_way(
                    nbc as int,
                    nbr as int,
                    1,
                );
                lemma_mul_inequality(
                    by as int * nbc as int + bx + 1,
                    nb as int,
                    bw as int * bh as int,
                );
                lemma_mul_is_distributive_add_other_way(
                    bw as int * bh as int,
                    by as int * nbc as int + bx,
                    1,
                );
                lemma_mul_upper_bound(iy as int, 7, bw as int, 8);
                assert(iy * bw + ix < bw * bh) by (nonlinear_arith)
                    requires
                        iy < bh,
                        ix < bw,
                        bw >= 1,
                ;
            }
            let slot: usize = (by * nbc + bx) * (bw * bh) + iy * bw + ix;
            proof {
                assert(slot < tslots);
                assert(slot == pixel_slot(fmt, w as int, x as int, y as int));
            }
            let ghost dpre = dst@;
            match fmt {
                PixelFormat::I4 => {
                    proof {
                        assert(slot / 2 < src@.len()) by (nonlinear_arith)
                            requires
                                slot < tslots,
                                tslots == 2 * (nb * 32),
                                src@.len() >= nb * 32,
                        ;
                    }
                    let ii: u8 = src[slot / 2];
                    let nib: u8 = if slot % 2 != 0 {
                        ii & 0x0F
                    } else {
                        (ii >> 4) & 0x0F
                    };
                    let i: u8 = expand_n_to_8(4, nib);
                    dst.push(i);
                    dst.push(i);
                    dst.push(i);
                    dst.push(i);
                },
                PixelFormat::I8 => {
                    let i: u8 = src[slot];
                    dst.push(i);
                    dst.push(i);
                    dst.push(i);
                    dst.push(i);
                },
                PixelFormat::IA4 => {
                    let ia: u8 = src[slot];
                    let a: u8 = expand_n_to_8(4, ia >> 4);
                    let i: u8 = expand_n_to_8(4, ia & 0x0F);
                    dst.push(i);
                    dst.push(i);
                    dst.push(i);
                    dst.push(a);
                },
                PixelFormat::IA8 => {
                    let a: u8 = src[2 * slot];
                    let i: u8 = src[2 * slot + 1];
                    dst.push(i);
                    dst.push(i);
                    dst.push(i);
                    dst.push(a);
                },
                PixelFormat::RGB565 => {
                    let p: u16 = get_u16_be(src, 2 * slot);
                    dst.push(expand_n_to_8(5, ((p >> 11) & 0x1F) as u8));
                    dst.push(expand_n_to_8(6, ((p >> 5) & 0x3F) as u8));
                    dst.push(expand_n_to_8(5, (p & 0x1F) as u8));
                    dst.push(0xFF);
                },
                PixelFormat::RGB5A3 => {
                    let p: u16 = get_u16_be(src, 2 * slot);
                    if p & 0x8000 != 0 {
                        dst.push(expand_n_to_8(5, ((p >> 10) & 0x1F) as u8));
                        dst.push(expand_n_to_8(5, ((p >> 5) & 0x1F) as u8));
                        dst.push(expand_n_to_8(5, (p & 0x1F) as u8));
                        dst.push(0xFF);
                    } else {
                        dst.push(expand_n_to_8(4, ((p >> 11) & 0x0F) as u8));
                        dst.push(expand_n_to_8(4, ((p >> 5) & 0x0F) as u8));
                        dst.push(expand_n_to_8(4, (p & 0x0F) as u8));
                        dst.push(expand_n_to_8(3, ((p >> 12) & 0x07) as u8));
                    }
                },
                _ => {
                    proof {
                        assert(false);
                    }
                },
            }
            proof {
                lemma_pixel_push(dpre, dst@, w as int, x as int, y as int);
                assert(pixel_at(dst@, w as int, x as int, y as int) =~= tiled_pixel(
                    fmt,
                    src@,
                    pixel_slot(fmt, w as int, x as int, y as int),
                ));
            }
            x = x + 1;
        }
        proof {
            lemma_mul_is_distributive_add_other_way(w as int, y as int, 1);
        }
        y = y + 1;
    }
    proof {
        lemma_mul_is_commutative(h as int, w as int);
    }
    dst
}

} // verus!

verus! {

/// Decodes the wide-pixel format row-major: every covered pixel gets its
/// routed alpha/red and green/blue bytes, and the columns the height-driven
/// tiling never covers stay zero.
fn decode_rgba8(src: &[u8], w: usize, h: usize) -> (dst: Vec<u8>)
    requires
        w <= 0x1000,
        h <= 0x1000,
        src@.len() >= src_len_needed(PixelFormat::RGBA8, w as int, h as int),
    ensures
        dst@.len() == w * h * 4,
        forall|x: int, y: int|
            0 <= x < w && 0 <= y < h ==> pixel_at(dst@, w as int, x, y) == if x < 4 * ((h + 3)
                / 4) {
                rgba8_pixel(src@, h as int, x, y)
            } else {
                seq![0u8, 0u8, 0u8, 0u8]
            },
{
    let nbc: usize = (h + 3) / 4;
    let nbr: usize = (h + 3) / 4;
    proof {
        lemma_mul_upper_bound(nbr as int, 0x401, nbc as int, 0x401);
    }
    let nb: usize = nbr * nbc;
    proof {
        lemma_mul_inequality(nb as int, 0x100801, 64);
        assert(src@.len() >= nb * 64) by (nonlinear_arith)
            requires
                src@.len() >= src_len_needed(PixelFormat::RGBA8, w as int, h as int),
                src_len_needed(PixelFormat::RGBA8, w as int, h as int) == nbr as int * nbc as int
                    * 64,
                nb == nbr as int * nbc as int,
        ;
    }
    let mut dst: Vec<u8> = Vec::new();
    let mut y: usize = 0;
    while y < h
        invariant
            y <= h,
            w <= 0x1000,
            h <= 0x1000,
            nbc == (h + 3) as int / 4,
            nbr == nbc,
            nbr <= 0x401,
            nb == nbr * nbc,
            nb <= 0x100801,
            nb * 64 <= 0x4020040,
            src@.len() >= nb * 64,
            dst@.len() == y * w * 4,
            forall|xx: int, yy: int|
                0 <= xx < w && 0 <= yy < y ==> pixel_at(dst@, w as int, xx, yy) == if xx < 4 * ((h
                    + 3) / 4) {
                    rgba8_pixel(src@, h as int, xx, yy)
                } else {
                    seq![0u8, 0u8, 0u8, 0u8]
                },
        decreases h - y,
    {
        let mut x: usize = 0;
        while x < w
            invariant
                x <= w,
                y < h,
                w <= 0x1000,
                h <= 0x1000,
                nbc == (h + 3) as int / 4,
                nbr == nbc,
                nbr <= 0x401,
                nb == nbr * nbc,
                nb <= 0x100801,
                nb * 64 <= 0x4020040,
                src@.len() >= nb * 64,
                dst@.len() == (y * w + x) * 4,
                forall|xx: int, yy: int|
                    0 <= xx < w && 0 <= yy < y ==> pixel_at(dst@, w as int, xx, yy) == if xx < 4 * (
                    (h + 3) / 4) {
                        rgba8_pixel(src@, h as int, xx, yy)
                    } else {
                        seq![0u8, 0u8, 0u8, 0u8]
                    },
                forall|xx: int|
                    0 <= xx < x ==> pixel_at(dst@, w as int, xx, y as int) == if xx < 4 * ((h + 3)
                        / 4) {
                        rgba8_pixel(src@, h as int, xx, y as int)
                    } else {
                        seq![0u8, 0u8, 0u8, 0u8]
                    },
            decreases w - x,
        {
            let ghost dpre = dst@;
            if x < 4 * nbc {
                let by: usize = y / 4;
                let iy: usize = y % 4;
                let bx: usize = x / 4;
                let ix: usize = x % 4;
                proof {
                    lemma_coord_tile(y as int, h as int, 4);
                    lemma_multiply_divide_lt(x as int, 4, nbc as int);
                    lemma_mul_upper_bound(by as int, 0x400, nbc as int, 0x401);
                    lemma_mul_inequality(by as int, nbr as int - 1, nbc as int);
                    vstd::arithmetic::mul::lemma_mul_is_distributive_sub_other_way(
                        nbc as int,
                        nbr as int,
                        1,
                    );
                    lemma_mul_inequality(by as int * nbc as int + bx + 1, nb as int, 64);
                    lemma_mul_is_distributive_add_other_way(
                        64,
                        by as int * nbc as int + bx,
                        1,
                    );
                }
                let base: usize = (by * nbc + bx) * 64;
                let o: usize = 2 * (iy * 4 + ix);
                proof {
                    assert(base + 64 <= nb * 64);
                    assert(o + 2 <= 32);
                }
                dst.push(src[base + o + 1]);
                dst.push(src[base + 32 + o]);
                dst.push(src[base + 32 + o + 1]);
                dst.push(src[base + o]);
            } else {
                dst.push(0);
                dst.push(0);
                dst.push(0);
                dst.push(0);
            }
            proof {
                lemma_pixel_push(dpre, dst@, w as int, x as int, y as int);
                if x < 4 * nbc {
                    assert(pixel_at(dst@, w as int, x as int, y as int) =~= rgba8_pixel(
                        src@,
                        h as int,
                        x as int,
                        y as int,
                    ));
                } else {
                    assert(pixel_at(dst@, w as int, x as int, y as int) =~= seq![
                        0u8,
                        0u8,
                        0u8,
                        0u8,
                    ]);
                }
            }
            x = x + 1;
        }
        proof {
            lemma_mul_is_distributive_add_other_way(w as int, y as int, 1);
        }
        y = y + 1;
    }
    proof {
        lemma_mul_is_commutative(h as int, w as int);
    }
    dst
}

/// Decodes the compressed format row-major: every pixel equals the entry
/// of its cell's four-color table that its two-bit code picks.
#[verifier::rlimit(60)]
fn decode_cmpr(src: &[u8], w: usize, h: usize) -> (dst: Vec<u8>)
    requires
        w <= 0x1000,
        h <= 0x1000,
        src@.len() >= src_len_needed(PixelFormat::CMPR, w as int, h as int),
    ensures
        dst@.len() == w * h * 4,
        forall|x: int, y: int|
            0 <= x < w && 0 <= y < h ==> pixel_at(dst@, w as int, x, y) == cmpr_pixel(
                src@,
                w as int,
                x,
                y,
            ),
{
    let nbc: usize = (w + 7) / 8;
    let nbr: usize = (h + 7) / 8;
    proof {
        lemma_mul_upper_bound(nbr as int, 0x201, nbc as int, 0x201);
    }
    let nb: usize = nbr * nbc;
    proof {
        lemma_mul_inequality(nb as int, 0x40401, 32);
        assert(src@.len() >= nb * 32) by (nonlinear_arith)
            requires
                src@.len() >= src_len_needed(PixelFormat::CMPR, w as int, h as int),
                src_len_needed(PixelFormat::CMPR, w as int, h as int) == nbr as int * nbc as int
                    * 32,
                nb == nbr as int * nbc as int,
        ;
    }
    let mut dst: Vec<u8> = Vec::new();
    let mut y: usize = 0;
    while y < h
        invariant
            y <= h,
            w <= 0x1000,
            h <= 0x1000,
            nbc == (w + 7) as int / 8,
            nbr == (h + 7) as int / 8,
            nbr <= 0x201,
            nbc <= 0x201,
            nb == nbr * nbc,
            nb <= 0x40401,
            nb * 32 <= 0x808020,
            src@.len() >= nb * 32,
            dst@.len() == y * w * 4,
            forall|xx: int, yy: int|
                0 <= xx < w && 0 <= yy < y ==> pixel_at(dst@, w as int, xx, yy) == cmpr_pixel(
                    src@,
                    w as int,
                    xx,
                    yy,
                ),
        decreases h - y,
    {
        let mut x: usize = 0;
        while x < w
            invariant
                x <= w,
                y < h,
                w <= 0x1000,
                h <= 0x1000,
                nbc == (w + 7) as int / 8,
                nbr == (h + 7) as int / 8,
                nbr <= 0x201,
                nbc <= 0x201,
                nb == nbr * nbc,
                nb <= 0x40401,
                nb * 32 <= 0x808020,
                src@.len() >= nb * 32,
                dst@.len() == (y * w + x) * 4,
                forall|xx: int, yy: int|
                    0 <= xx < w && 0 <= yy < y ==> pixel_at(dst@, w as int, xx, yy) == cmpr_pixel(
                        src@,
                        w as int,
                        xx,
                        yy,
                    ),
                forall|xx: int|
                    0 <= xx < x ==> pixel_at(dst@, w as int, xx, y as int) == cmpr_pixel(
                        src@,
                        w as int,
                        xx,
                        y as int,
                    ),
            decreases w - x,
        {
            let by: usize = y / 8;
            let bx: usize = x / 8;
            let q: usize = ((y % 8) / 4) * 2 + (x % 8) / 4;
            proof {
                lemma_coord_tile(y as int, h as int, 8);
                lemma_coord_tile(x as int, w as int, 8);
                lemma_mul_upper_bound(by as int, 0x200, nbc as int, 0x201);
                lemma_mul_inequality(by as int, nbr as int - 1, nbc as int);
                vstd::arithmetic::mul::lemma_mul_is_distributive_sub_other_way(
                    nbc as int,
                    nbr as int,
                    1,
                );
                lemma_mul_inequality(by as int * nbc as int + bx + 1, nb as int, 32);
                lemma_mul_is_distributive_add_other_way(32, by as int * nbc as int + bx, 1);
            }
            let cell: usize = (by * nbc + bx) * 32 + q * 8;
            proof {
                assert(cell + 8 <= nb * 32);
                assert(cell == cmpr_cell(w as int, x as int, y as int));
            }
            let c1: u16 = get_u16_be(src, cell);
            let c2: u16 = get_u16_be(src, cell + 2);
            let r0: u8 = expand_n_to_8(5, ((c1 >> 11) & 0x1F) as u8);
            let g0: u8 = expand_n_to_8(6, ((c1 >> 5) & 0x3F) as u8);
            let b0: u8 = expand_n_to_8(5, (c1 & 0x1F) as u8);
            let r1: u8 = expand_n_to_8(5, ((c2 >> 11) & 0x1F) as u8);
            let g1: u8 = expand_n_to_8(6, ((c2 >> 5) & 0x3F) as u8);
            let b1: u8 = expand_n_to_8(5, (c2 & 0x1F) as u8);
            let bits: u8 = src[cell + 4 + (y % 4)];
            let sh: usize = 6 - 2 * (x % 4);
            let code: u8 = (bits >> (sh as u8)) & 0x03;
            let ghost dpre = dst@;
            if code == 0 {
                dst.push(r0);
                dst.push(g0);
                dst.push(b0);
                dst.push(0xFF);
            } else if code == 1 {
                dst.push(r1);
                dst.push(g1);
                dst.push(b1);
                dst.push(0xFF);
            } else if c1 > c2 {
                if code == 2 {
                    dst.push(s3tcblend(r1, r0));
                    dst.push(s3tcblend(g1, g0));
                    dst.push(s3tcblend(b1, b0));
                    dst.push(0xFF);
                } else {
                    dst.push(s3tcblend(r0, r1));
                    dst.push(s3tcblend(g0, g1));
                    dst.push(s3tcblend(b0, b1));
                    dst.push(0xFF);
                }
            } else {
                dst.push(halfblend(r0, r1));
                dst.push(halfblend(g0, g1));
                dst.push(halfblend(b0, b1));
                if code == 2 {
                    dst.push(0xFF);
                } else {
                    dst.push(0x00);
                }
            }
            proof {
                lemma_pixel_push(dpre, dst@, w as int, x as int, y as int);
                assert(code == cmpr_code(src@, w as int, x as int, y as int));
                assert(pixel_at(dst@, w as int, x as int, y as int) =~= cmpr_pixel(
                    src@,
                    w as int,
                    x as int,
                    y as int,
                ));
            }
            x = x + 1;
        }
        proof {
            lemma_mul_is_distributive_add_other_way(w as int, y as int, 1);
        }
        y = y + 1;
    }
    proof {
        lemma_mul_is_commutative(h as int, w as int);
    }
    dst
}

/// Decodes a whole texture into flat RGBA bytes, four per pixel, rows
/// top-down: every pixel equals `texture_pixel` of the inputs, so equal
/// inputs give equal outputs byte for byte.
///
/// The source must hold every full tile that covers the image — the
/// block-padded size `src_len_needed` — even where only part of the last
/// tile is in view; this padded footprint is the container's layout for
/// these formats. Sizes are capped at 0x1000 a side so all verified
/// indexing stays in machine range.
pub fn decode_texture(fmt: PixelFormat, src: &[u8], w: usize, h: usize) -> (dst: Vec<u8>)
    requires
        w <= 0x1000,
        h <= 0x1000,
        src@.len() >= src_len_needed(fmt, w as int, h as int),
    ensures
        dst@.len() == w * h * 4,
        forall|x: int, y: int|
            0 <= x < w && 0 <= y < h ==> pixel_at(dst@, w as int, x, y) == texture_pixel(
                fmt,
                src@,
                w as int,
                h as int,
                x,
                y,
            ),
{
    match fmt {
        PixelFormat::RGBA8 => decode_rgba8(src, w, h),
        PixelFormat::CMPR => decode_cmpr(src, w, h),
        _ => decode_tiled(fmt, src, w, h),
    }
}

} // verus!
