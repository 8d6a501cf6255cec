use animrt::gx_texture::PixelFormat;
use animrt::gx_texture::decode_texture;
use animrt::gx_texture::expand_n_to_8;
use animrt::gx_texture::get_u16_be;
use animrt::gx_texture::halfblend;
use animrt::gx_texture::s3tcblend;

#[test]
fn expand_widens_by_repeating_high_bits() {
    assert_eq!(expand_n_to_8(5, 0x1F), 0xFF);
    assert_eq!(expand_n_to_8(5, 0x01), 0x08);
    assert_eq!(expand_n_to_8(6, 0x3F), 0xFF);
    assert_eq!(expand_n_to_8(4, 0x0F), 0xFF);
    assert_eq!(expand_n_to_8(4, 0x0A), 0xAA);
    assert_eq!(expand_n_to_8(3, 0x07), 0xE0);
}

#[test]
fn blends_match_their_formulas() {
    assert_eq!(s3tcblend(8, 16), (3 * 8 + 5 * 16) / 8);
    assert_eq!(s3tcblend(0, 0), 0);
    assert_eq!(s3tcblend(255, 255), 255);
    assert_eq!(halfblend(10, 20), 15);
    assert_eq!(halfblend(255, 254), 254);
    assert_eq!(get_u16_be(&[0x12, 0x34], 0), 0x1234);
}

#[test]
fn i8_tile_is_row_major_grayscale() {
    let src: Vec<u8> = (0..32).collect();
    let dst = decode_texture(PixelFormat::I8, &src, 8, 4);
    assert_eq!(dst.len(), 8 * 4 * 4);
    assert_eq!(&dst[0..4], &[0, 0, 0, 0]);
    assert_eq!(&dst[4..8], &[1, 1, 1, 1]);
    let last = (3 * 8 + 7) * 4;
    assert_eq!(&dst[last..last + 4], &[31, 31, 31, 31]);
}

#[test]
fn i4_tile_unpacks_nibbles_high_first() {
    let mut src = vec![0u8; 32];
    src[0] = 0xAB;
    let dst = decode_texture(PixelFormat::I4, &src, 8, 8);
    assert_eq!(&dst[0..4], &[0xAA, 0xAA, 0xAA, 0xAA]);
    assert_eq!(&dst[4..8], &[0xBB, 0xBB, 0xBB, 0xBB]);
}

#[test]
fn rgb565_pixel_expands_channels() {
    let mut src = vec![0u8; 32];
    src[0] = 0xF8; // first pixel: full red, big-endian
    let dst = decode_texture(PixelFormat::RGB565, &src, 4, 4);
    assert_eq!(&dst[0..4], &[255, 0, 0, 255]);
    assert_eq!(&dst[4..8], &[0, 0, 0, 255]);
}

#[test]
fn rgb5a3_switches_on_high_bit() {
    let mut src = vec![0u8; 32];
    // First pixel 0xFC00: high bit set, five-bit red channel full.
    src[0] = 0xFC;
    src[1] = 0x00;
    // Second pixel 0x7000: high bit clear, three-bit alpha field full.
    src[2] = 0x70;
    src[3] = 0x00;
    let dst = decode_texture(PixelFormat::RGB5A3, &src, 4, 4);
    assert_eq!(&dst[0..4], &[255, 0, 0, 255]);
    assert_eq!(dst[7], expand_n_to_8(3, 0x07));
}

#[test]
fn rgba8_tile_interleaves_two_passes() {
    let mut src = vec![0u8; 64];
    src[0] = 0xAA; // alpha of pixel 0
    src[1] = 0x11; // red of pixel 0
    src[32] = 0x22; // green of pixel 0
    src[33] = 0x33; // blue of pixel 0
    let dst = decode_texture(PixelFormat::RGBA8, &src, 4, 4);
    assert_eq!(&dst[0..4], &[0x11, 0x22, 0x33, 0xAA]);
}

#[test]
fn cmpr_uniform_cell_paints_anchor_color() {
    // Every cell: anchor one is full red, anchor two black, all picks 0.
    let mut src = vec![0u8; 32];
    for cell in 0..4 {
        src[cell * 8] = 0xF8;
    }
    let dst = decode_texture(PixelFormat::CMPR, &src, 8, 8);
    assert_eq!(dst.len(), 8 * 8 * 4);
    for px in 0..64 {
        assert_eq!(&dst[px * 4..px * 4 + 4], &[255, 0, 0, 255]);
    }
}

#[test]
fn cmpr_low_anchor_order_uses_even_blend_and_transparency() {
    // color1 (black) <= color2 (full red): table entry two is the even
    // blend and entry three is transparent.
    let mut src = vec![0u8; 32];
    src[2] = 0xF8; // color2 big-endian: 0xF800
    src[4] = 0b10_11_10_11; // first row picks: 2, 3, 2, 3
    let dst = decode_texture(PixelFormat::CMPR, &src, 8, 8);
    let even = halfblend(0, 255);
    assert_eq!(&dst[0..4], &[even, 0, 0, 255]);
    assert_eq!(&dst[4..8], &[even, 0, 0, 0]);
}

#[test]
fn rgba8_columns_beyond_height_tiling_stay_zero() {
    // Tile columns follow the image height: a 8x4 image has one covered
    // 4-pixel column block; everything at x >= 4 stays zero.
    let mut src = vec![0u8; 64];
    src[1] = 0x55; // red of pixel (0, 0)
    let dst = decode_texture(PixelFormat::RGBA8, &src, 8, 4);
    assert_eq!(dst.len(), 8 * 4 * 4);
    assert_eq!(dst[0], 0x55);
    for y in 0..4 {
        for x in 4..8 {
            let p = (y * 8 + x) * 4;
            assert_eq!(&dst[p..p + 4], &[0, 0, 0, 0]);
        }
    }
}

#[test]
fn expand_handles_widest_narrow_channel() {
    assert_eq!(expand_n_to_8(7, 0x7F), 0xFF);
    assert_eq!(expand_n_to_8(1, 1), 0b1000_0000 | (1 >> 2));
}
