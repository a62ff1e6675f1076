//! Tests of the dot-matrix glyph rasterizer on concrete buffers.

use dot_matrix::kanji::{GlyphError, Kanji, PixelCommand};

/// A 32-byte (16 by 16) glyph buffer with a single byte set.
fn glyph_32(pos: usize, value: u8) -> Vec<u8> {
    let mut d = vec![0u8; 32];
    d[pos] = value;
    d
}

fn commands(x: i32, y: i32, d: &[u8]) -> Vec<PixelCommand> {
    Kanji::dot_matrix(x, y, d)
        .pixel_commands()
        .expect("valid glyph buffer")
}

#[test]
fn bit_zero_maps_to_band_top() {
    // Bit 0 of the first byte is the topmost row of the first column.
    let d = glyph_32(0, 0x01);
    assert_eq!(commands(0, 0, &d), vec![PixelCommand { x: 0, y: 0 }]);
}

#[test]
fn bit_seven_maps_to_band_bottom() {
    // Bit 7 of the first byte is the bottom row of the first 8-row band.
    let d = glyph_32(0, 0x80);
    assert_eq!(commands(0, 0, &d), vec![PixelCommand { x: 0, y: 7 }]);
}

#[test]
fn band_advance_resets_column_and_bumps_rows() {
    // Byte 16 is the first column of the second band: 8 rows down.
    let d = glyph_32(16, 0x01);
    assert_eq!(commands(0, 0, &d), vec![PixelCommand { x: 0, y: 8 }]);
}

#[test]
fn last_column_of_first_band() {
    let d = glyph_32(15, 0x01);
    assert_eq!(commands(0, 0, &d), vec![PixelCommand { x: 15, y: 0 }]);
}

#[test]
fn placement_offsets_every_command() {
    let d = glyph_32(0, 0x01);
    assert_eq!(commands(80, 48, &d), vec![PixelCommand { x: 80, y: 48 }]);
    let d = glyph_32(16, 0x01);
    assert_eq!(commands(80, 48, &d), vec![PixelCommand { x: 80, y: 56 }]);
}

#[test]
fn bits_emit_top_to_bottom_within_a_byte() {
    let d = glyph_32(0, 0x03);
    assert_eq!(
        commands(0, 0, &d),
        vec![PixelCommand { x: 0, y: 0 }, PixelCommand { x: 0, y: 1 }]
    );
}

#[test]
fn bytes_emit_in_buffer_order() {
    let mut d = vec![0u8; 32];
    d[0] = 0x01;
    d[1] = 0x01;
    d[17] = 0x02;
    assert_eq!(
        commands(0, 0, &d),
        vec![
            PixelCommand { x: 0, y: 0 },
            PixelCommand { x: 1, y: 0 },
            PixelCommand { x: 1, y: 9 },
        ]
    );
}

#[test]
fn three_band_buffer_is_supported() {
    // The block-advance step generalizes to any whole number of bands:
    // byte 32 starts the third band, 16 rows down.
    let mut d = vec![0u8; 48];
    d[32] = 0x01;
    assert_eq!(commands(0, 0, &d), vec![PixelCommand { x: 0, y: 16 }]);
}

#[test]
fn command_count_equals_set_bit_count() {
    // A real 16 by 16 glyph: one command per set bit, never more than 256.
    let d: Vec<u8> = vec![
        0x00, 0x00, 0xfe, 0x82, 0x82, 0x82, 0x82, 0xfe, 0x82, 0x82, 0x82,
        0x82, 0xfe, 0x00, 0x00, 0x00, 0x00, 0x00, 0x7f, 0x20, 0x20, 0x20,
        0x20, 0x3f, 0x20, 0x20, 0x20, 0x20, 0x7f, 0x00, 0x00, 0x00,
    ];
    let set_bits: u32 = d.iter().map(|b| b.count_ones()).sum();
    let cmds = commands(0, 0, &d);
    assert_eq!(cmds.len() as u32, set_bits);
    assert!(cmds.len() <= 256);
}

#[test]
fn rendering_twice_gives_equal_sequences() {
    let d: Vec<u8> = (0..32).map(|i| (i * 37 + 11) as u8).collect();
    let first = commands(3, 5, &d);
    let second = commands(3, 5, &d);
    assert_eq!(first, second);
}

#[test]
fn all_zero_buffers_emit_nothing() {
    for len in [0usize, 16, 32, 48, 160] {
        let d = vec![0u8; len];
        assert_eq!(commands(7, -3, &d), vec![]);
    }
}

#[test]
fn negative_origin_is_forwarded_unchecked() {
    // Out-of-range coordinates are the draw surface's concern.
    let d = glyph_32(0, 0x01);
    assert_eq!(commands(-5, -9, &d), vec![PixelCommand { x: -5, y: -9 }]);
}

#[test]
fn length_not_a_multiple_of_16_is_rejected() {
    for len in [1usize, 15, 17, 31, 33] {
        let d = vec![0xffu8; len];
        let r = Kanji::dot_matrix(0, 0, &d).pixel_commands();
        assert_eq!(r, Err(GlyphError::InvalidGlyphLength));
    }
}
