use quantaos::bootloader::console::{get_font_glyph, EarlyConsole};
use quantaos::bootloader::{FramebufferInfo, PixelFormatInfo};

const BOX: [u8; 16] = [0x00, 0xFF, 0xFF, 0xFF, 0xFF, 0xFF, 0xFF, 0xFF, 0, 0, 0, 0, 0, 0, 0, 0];

#[test]
fn printable_characters_have_their_own_glyph() {
    for code in 32u8..=126 {
        let g = get_font_glyph(code as char);
        assert_ne!(g, BOX, "glyph of {}", code);
        assert_eq!(g[0], 0);
        assert!(g[9..].iter().all(|&r| r == 0));
    }
    assert_eq!(get_font_glyph(' '), [0u8; 16]);
    assert_eq!(get_font_glyph('\u{e9}'), BOX);
    assert_eq!(get_font_glyph('A')[1], 0x18);
}

#[test]
fn carriage_return_redraws_at_line_start() {
    let fb = FramebufferInfo {
        address: 0,
        width: 16,
        height: 32,
        pitch: 64,
        bpp: 32,
        pixel_format: PixelFormatInfo {
            red_mask_size: 8,
            red_mask_shift: 16,
            green_mask_size: 8,
            green_mask_shift: 8,
            blue_mask_size: 8,
            blue_mask_shift: 0,
            reserved_mask_size: 8,
            reserved_mask_shift: 24,
        },
        size: 16 * 32 * 4,
    };
    let mut con = EarlyConsole::new();
    con.init(fb);
    con.set_color(1, 0);
    con.write_char('I');
    con.write_char('\r');
    con.write_char(' ');
    // the space drew over the I: the first cell is blank again
    assert!(con.pixels()[..16 * 16].iter().all(|&p| p == 0));
}
