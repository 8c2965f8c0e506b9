//! Early boot console: text drawn with an 8x16 bitmap font into a
//! framebuffer whose pixels the console holds, scan line after scan line of
//! `pitch / 4` pixels, for the caller to show on the screen.
use vstd::prelude::*;
use vstd::arithmetic::div_mod::{lemma_fundamental_div_mod, lemma_fundamental_div_mod_converse};
use vstd::string::StrSliceExecFns;
use super::FramebufferInfo;

verus! {

// =============================================================================
// FONT
// =============================================================================

/// Rows 1 to 8 of the glyphs of the printable ASCII characters, from `' '`
/// to `'~'`, each packed into a `u64` with row 1 in the most significant
/// byte; rows 0 and 9 to 15 of every glyph are blank.
pub open spec fn font_rows() -> Seq<u64> {
    seq![
        0x0000000000000000u64, 0x1818181818180018, 0x6666240000000000, 0x36367F367F363600,
        0x183E603C067C1800, 0x62660C1830664600, 0x3C663C3867663F00, 0x1818300000000000,
        0x0C18303030180C00, 0x30180C0C0C183000, 0x00663CFF3C660000, 0x0018187E18180000,
        0x0000000000181830, 0x0000007E00000000, 0x0000000000181800, 0x02060C1830604000,
        0x3C666E7666663C00, 0x1838181818187E00, 0x3C66060C18307E00, 0x3C66061C06663C00,
        0x0C1C3C6C7E0C0C00, 0x7E607C0606663C00, 0x1C30607C66663C00, 0x7E060C1830303000,
        0x3C66663C66663C00, 0x3C66663E060C3800, 0x0018180018180000, 0x0018180018183000,
        0x060C1830180C0600, 0x00007E007E000000, 0x6030180C18306000, 0x3C66060C18001800,
        0x3C666E6A6E603E00, 0x183C66667E666600, 0x7C66667C66667C00, 0x3C66606060663C00,
        0x786C6666666C7800, 0x7E60607C60607E00, 0x7E60607C60606000, 0x3C66606E66663E00,
        0x6666667E66666600, 0x7E18181818187E00, 0x1E06060606663C00, 0x666C7870786C6600,
        0x6060606060607E00, 0x63777F6B63636300, 0x66767E7E6E666600, 0x3C66666666663C00,
        0x7C66667C60606000, 0x3C6666666A6C3600, 0x7C66667C6C666600, 0x3C66603C06663C00,
        0x7E18181818181800, 0x6666666666663C00, 0x66666666663C1800, 0x6363636B7F776300,
        0x66663C183C666600, 0x6666663C18181800, 0x7E060C1830607E00, 0x3C30303030303C00,
        0x406030180C060200, 0x3C0C0C0C0C0C3C00, 0x183C660000000000, 0x000000000000007E,
        0x30180C0000000000, 0x00003C063E663E00, 0x60607C6666667C00, 0x00003C6660663C00,
        0x06063E6666663E00, 0x00003C667E603C00, 0x1C30307C30303000, 0x00003E66663E063C,
        0x60607C6666666600, 0x1800381818183C00, 0x0C001C0C0C0C0C78, 0x6060666C786C6600,
        0x3818181818183C00, 0x0000767F6B6B6300, 0x00007C6666666600, 0x00003C6666663C00,
        0x00007C66667C6060, 0x00003E66663E0606, 0x00006C7660606000, 0x00003E603C067C00,
        0x30307C3030301C00, 0x0000666666663E00, 0x00006666663C1800, 0x0000636B6B7F3600,
        0x0000663C183C6600, 0x00006666663E063C, 0x00007E0C18307E00, 0x0E18187018180E00,
        0x1818181818181800, 0x7018180E18187000, 0x324C000000000000,
    ]
}

/// The packed rows of the filled box drawn for characters without a glyph.
pub open spec fn box_rows() -> u64 {
    0xFFFF_FFFF_FFFF_FF00
}

/// The packed rows of the glyph of `c`.
pub open spec fn glyph_bits(c: char) -> u64 {
    if 32 <= (c as u32) && (c as u32) <= 126 { font_rows()[(c as u32) - 32] } else { box_rows() }
}

/// Row `r` of the glyph whose rows 1 to 8 are packed in `bits`.
pub open spec fn glyph_row(bits: u64, r: int) -> u8 {
    if 1 <= r <= 8 { ((bits >> ((8 * (8 - r)) as u64)) & 0xff) as u8 } else { 0 }
}

/// The 16 rows of the glyph of `c`; bit 7 of a row is its leftmost pixel.
pub open spec fn glyph(c: char) -> Seq<u8> {
    Seq::new(16, |r: int| glyph_row(glyph_bits(c), r))
}

/// The 16 rows of the filled box.
pub open spec fn box_glyph() -> Seq<u8> {
    Seq::new(16, |r: int| glyph_row(box_rows(), r))
}

/// Rows 1 to 8 of a glyph give back the packed rows they came from.
proof fn lemma_rows_determine_bits(a: u64, b: u64)
    requires
        forall|r: int| 1 <= r <= 8 ==> #[trigger] glyph_row(a, r) == glyph_row(b, r),
    ensures
        a == b,
{
    assert(glyph_row(a, 1) == glyph_row(b, 1));
    assert(glyph_row(a, 2) == glyph_row(b, 2));
    assert(glyph_row(a, 3) == glyph_row(b, 3));
    assert(glyph_row(a, 4) == glyph_row(b, 4));
    assert(glyph_row(a, 5) == glyph_row(b, 5));
    assert(glyph_row(a, 6) == glyph_row(b, 6));
    assert(glyph_row(a, 7) == glyph_row(b, 7));
    assert(glyph_row(a, 8) == glyph_row(b, 8));
    assert(a == b) by (bit_vector)
        requires
            ((a >> 56u64) & 0xff) as u8 == ((b >> 56u64) & 0xff) as u8,
            ((a >> 48u64) & 0xff) as u8 == ((b >> 48u64) & 0xff) as u8,
            ((a >> 40u64) & 0xff) as u8 == ((b >> 40u64) & 0xff) as u8,
            ((a >> 32u64) & 0xff) as u8 == ((b >> 32u64) & 0xff) as u8,
            ((a >> 24u64) & 0xff) as u8 == ((b >> 24u64) & 0xff) as u8,
            ((a >> 16u64) & 0xff) as u8 == ((b >> 16u64) & 0xff) as u8,
            ((a >> 8u64) & 0xff) as u8 == ((b >> 8u64) & 0xff) as u8,
            ((a >> 0u64) & 0xff) as u8 == ((b >> 0u64) & 0xff) as u8;
}

/// The glyphs of characters 32 to 55 are not the box.
proof fn lemma_font_not_box_0()
    ensures
        forall|k: int| 0 <= k < 24 ==> #[trigger] font_rows()[k] != box_rows(),
{
    assert(font_rows()[0] != box_rows());
    assert(font_rows()[1] != box_rows());
    assert(font_rows()[2] != box_rows());
    assert(font_rows()[3] != box_rows());
    assert(font_rows()[4] != box_rows());
    assert(font_rows()[5] != box_rows());
    assert(font_rows()[6] != box_rows());
    assert(font_rows()[7] != box_rows());
    assert(font_rows()[8] != box_rows());
    assert(font_rows()[9] != box_rows());
    assert(font_rows()[10] != box_rows());
    assert(font_rows()[11] != box_rows());
    assert(font_rows()[12] != box_rows());
    assert(font_rows()[13] != box_rows());
    assert(font_rows()[14] != box_rows());
    assert(font_rows()[15] != box_rows());
    assert(font_rows()[16] != box_rows());
    assert(font_rows()[17] != box_rows());
    assert(font_rows()[18] != box_rows());
    assert(font_rows()[19] != box_rows());
    assert(font_rows()[20] != box_rows());
    assert(font_rows()[21] != box_rows());
    assert(font_rows()[22] != box_rows());
    assert(font_rows()[23] != box_rows());
    assert forall|k: int| 0 <= k < 24 implies #[trigger] font_rows()[k] != box_rows() by {
        assert(k == 0 || k == 1 || k == 2 || k == 3 || k == 4 || k == 5 || k == 6 || k == 7 || k == 8 || k == 9 || k == 10 || k == 11 || k == 12 || k == 13 || k == 14 || k == 15 || k == 16 || k == 17 || k == 18 || k == 19 || k == 20 || k == 21 || k == 22 || k == 23);
    }
}

/// The glyphs of characters 56 to 79 are not the box.
proof fn lemma_font_not_box_24()
    ensures
        forall|k: int| 24 <= k < 48 ==> #[trigger] font_rows()[k] != box_rows(),
{
    assert(font_rows()[24] != box_rows());
    assert(font_rows()[25] != box_rows());
    assert(font_rows()[26] != box_rows());
    assert(font_rows()[27] != box_rows());
    assert(font_rows()[28] != box_rows());
    assert(font_rows()[29] != box_rows());
    assert(font_rows()[30] != box_rows());
    assert(font_rows()[31] != box_rows());
    assert(font_rows()[32] != box_rows());
    assert(font_rows()[33] != box_rows());
    assert(font_rows()[34] != box_rows());
    assert(font_rows()[35] != box_rows());
    assert(font_rows()[36] != box_rows());
    assert(font_rows()[37] != box_rows());
    assert(font_rows()[38] != box_rows());
    assert(font_rows()[39] != box_rows());
    assert(font_rows()[40] != box_rows());
    assert(font_rows()[41] != box_rows());
    assert(font_rows()[42] != box_rows());
    assert(font_rows()[43] != box_rows());
    assert(font_rows()[44] != box_rows());
    assert(font_rows()[45] != box_rows());
    assert(font_rows()[46] != box_rows());
    assert(font_rows()[47] != box_rows());
    assert forall|k: int| 24 <= k < 48 implies #[trigger] font_rows()[k] != box_rows() by {
        assert(k == 24 || k == 25 || k == 26 || k == 27 || k == 28 || k == 29 || k == 30 || k == 31 || k == 32 || k == 33 || k == 34 || k == 35 || k == 36 || k == 37 || k == 38 || k == 39 || k == 40 || k == 41 || k == 42 || k == 43 || k == 44 || k == 45 || k == 46 || k == 47);
    }
}

/// The glyphs of characters 80 to 103 are not the box.
proof fn lemma_font_not_box_48()
    ensures
        forall|k: int| 48 <= k < 72 ==> #[trigger] font_rows()[k] != box_rows(),
{
    assert(font_rows()[48] != box_rows());
    assert(font_rows()[49] != box_rows());
    assert(font_rows()[50] != box_rows());
    assert(font_rows()[51] != box_rows());
    assert(font_rows()[52] != box_rows());
    assert(font_rows()[53] != box_rows());
    assert(font_rows()[54] != box_rows());
    assert(font_rows()[55] != box_rows());
    assert(font_rows()[56] != box_rows());
    assert(font_rows()[57] != box_rows());
    assert(font_rows()[58] != box_rows());
    assert(font_rows()[59] != box_rows());
    assert(font_rows()[60] != box_rows());
    assert(font_rows()[61] != box_rows());
    assert(font_rows()[62] != box_rows());
    assert(font_rows()[63] != box_rows());
    assert(font_rows()[64] != box_rows());
    assert(font_rows()[65] != box_rows());
    assert(font_rows()[66] != box_rows());
    assert(font_rows()[67] != box_rows());
    assert(font_rows()[68] != box_rows());
    assert(font_rows()[69] != box_rows());
    assert(font_rows()[70] != box_rows());
    assert(font_rows()[71] != box_rows());
    assert forall|k: int| 48 <= k < 72 implies #[trigger] font_rows()[k] != box_rows() by {
        assert(k == 48 || k == 49 || k == 50 || k == 51 || k == 52 || k == 53 || k == 54 || k == 55 || k == 56 || k == 57 || k == 58 || k == 59 || k == 60 || k == 61 || k == 62 || k == 63 || k == 64 || k == 65 || k == 66 || k == 67 || k == 68 || k == 69 || k == 70 || k == 71);
    }
}

/// The glyphs of characters 104 to 126 are not the box.
proof fn lemma_font_not_box_72()
    ensures
        forall|k: int| 72 <= k < 95 ==> #[trigger] font_rows()[k] != box_rows(),
{
    assert(font_rows()[72] != box_rows());
    assert(font_rows()[73] != box_rows());
    assert(font_rows()[74] != box_rows());
    assert(font_rows()[75] != box_rows());
    assert(font_rows()[76] != box_rows());
    assert(font_rows()[77] != box_rows());
    assert(font_rows()[78] != box_rows());
    assert(font_rows()[79] != box_rows());
    assert(font_rows()[80] != box_rows());
    assert(font_rows()[81] != box_rows());
    assert(font_rows()[82] != box_rows());
    assert(font_rows()[83] != box_rows());
    assert(font_rows()[84] != box_rows());
    assert(font_rows()[85] != box_rows());
    assert(font_rows()[86] != box_rows());
    assert(font_rows()[87] != box_rows());
    assert(font_rows()[88] != box_rows());
    assert(font_rows()[89] != box_rows());
    assert(font_rows()[90] != box_rows());
    assert(font_rows()[91] != box_rows());
    assert(font_rows()[92] != box_rows());
    assert(font_rows()[93] != box_rows());
    assert(font_rows()[94] != box_rows());
    assert forall|k: int| 72 <= k < 95 implies #[trigger] font_rows()[k] != box_rows() by {
        assert(k == 72 || k == 73 || k == 74 || k == 75 || k == 76 || k == 77 || k == 78 || k == 79 || k == 80 || k == 81 || k == 82 || k == 83 || k == 84 || k == 85 || k == 86 || k == 87 || k == 88 || k == 89 || k == 90 || k == 91 || k == 92 || k == 93 || k == 94);
    }
}

/// Every glyph has a blank top row and blank rows 9 to 15; the space is
/// blank throughout; and every printable ASCII character has a glyph of
/// its own, never the box drawn for characters without one.
pub proof fn lemma_glyph_shape(c: char)
    ensures
        glyph(c)[0] == 0,
        forall|r: int| 9 <= r < 16 ==> #[trigger] glyph(c)[r] == 0,
        glyph(' ') == Seq::new(16, |r: int| 0u8),
        32 <= (c as u32) <= 126 ==> glyph(c) != box_glyph(),
{
    assert(font_rows()[0] == 0);
    assert(glyph(' ') =~= Seq::new(16, |r: int| 0u8)) by {
        assert forall|r: int| 0 <= r < 16 implies glyph_row(0u64, r) == 0u8 by {
            if 1 <= r <= 8 {
                let k: u64 = (8 * (8 - r)) as u64;
                assert(((0u64 >> k) & 0xff) as u8 == 0u8) by (bit_vector);
            }
        }
    }
    if 32 <= (c as u32) <= 126 {
        lemma_font_not_box_0();
        lemma_font_not_box_24();
        lemma_font_not_box_48();
        lemma_font_not_box_72();
        let k = (c as u32) - 32;
        assert(font_rows()[k as int] != box_rows());
        if glyph(c) == box_glyph() {
            assert forall|r: int| 1 <= r <= 8 implies #[trigger] glyph_row(glyph_bits(c), r) == glyph_row(box_rows(), r) by {
                assert(glyph(c)[r] == box_glyph()[r]);
            }
            lemma_rows_determine_bits(glyph_bits(c), box_rows());
        }
    }
}

/// The 8x16 bitmap of `c`: its glyph for the printable ASCII characters,
/// a filled box for any other character.
pub fn get_font_glyph(c: char) -> (g: [u8; 16])
    ensures
        g@ == glyph(c),
{
    let table: [u64; 95] = [
        0x0000000000000000, 0x1818181818180018, 0x6666240000000000, 0x36367F367F363600,
        0x183E603C067C1800, 0x62660C1830664600, 0x3C663C3867663F00, 0x1818300000000000,
        0x0C18303030180C00, 0x30180C0C0C183000, 0x00663CFF3C660000, 0x0018187E18180000,
        0x0000000000181830, 0x0000007E00000000, 0x0000000000181800, 0x02060C1830604000,
        0x3C666E7666663C00, 0x1838181818187E00, 0x3C66060C18307E00, 0x3C66061C06663C00,
        0x0C1C3C6C7E0C0C00, 0x7E607C0606663C00, 0x1C30607C66663C00, 0x7E060C1830303000,
        0x3C66663C66663C00, 0x3C66663E060C3800, 0x0018180018180000, 0x0018180018183000,
        0x060C1830180C0600, 0x00007E007E000000, 0x6030180C18306000, 0x3C66060C18001800,
        0x3C666E6A6E603E00, 0x183C66667E666600, 0x7C66667C66667C00, 0x3C66606060663C00,
        0x786C6666666C7800, 0x7E60607C60607E00, 0x7E60607C60606000, 0x3C66606E66663E00,
        0x6666667E66666600, 0x7E18181818187E00, 0x1E06060606663C00, 0x666C7870786C6600,
        0x6060606060607E00, 0x63777F6B63636300, 0x66767E7E6E666600, 0x3C66666666663C00,
        0x7C66667C60606000, 0x3C6666666A6C3600, 0x7C66667C6C666600, 0x3C66603C06663C00,
        0x7E18181818181800, 0x6666666666663C00, 0x66666666663C1800, 0x6363636B7F776300,
        0x66663C183C666600, 0x6666663C18181800, 0x7E060C1830607E00, 0x3C30303030303C00,
        0x406030180C060200, 0x3C0C0C0C0C0C3C00, 0x183C660000000000, 0x000000000000007E,
        0x30180C0000000000, 0x00003C063E663E00, 0x60607C6666667C00, 0x00003C6660663C00,
        0x06063E6666663E00, 0x00003C667E603C00, 0x1C30307C30303000, 0x00003E66663E063C,
        0x60607C6666666600, 0x1800381818183C00, 0x0C001C0C0C0C0C78, 0x6060666C786C6600,
        0x3818181818183C00, 0x0000767F6B6B6300, 0x00007C6666666600, 0x00003C6666663C00,
        0x00007C66667C6060, 0x00003E66663E0606, 0x00006C7660606000, 0x00003E603C067C00,
        0x30307C3030301C00, 0x0000666666663E00, 0x00006666663C1800, 0x0000636B6B7F3600,
        0x0000663C183C6600, 0x00006666663E063C, 0x00007E0C18307E00, 0x0E18187018180E00,
        0x1818181818181800, 0x7018180E18187000, 0x324C000000000000,
    ];
    proof {
        assert(table@ =~= font_rows());
    }
    let code = c as u32;
    let bits: u64 = if 32 <= code && code <= 126 { table[(code - 32) as usize] } else { 0xFFFF_FFFF_FFFF_FF00 };
    let mut g: [u8; 16] = [0u8, 0, 0, 0, 0, 0, 0, 0, 0, 0, 0, 0, 0, 0, 0, 0];
    let mut r: usize = 1;
    while r <= 8
        invariant
            1 <= r <= 9,
            bits == glyph_bits(c),
            g@.len() == 16,
            forall|k: int| 0 <= k < 16 ==> #[trigger] g@[k] == (if k < r { glyph_row(bits, k) } else { 0u8 }),
        decreases 9 - r,
    {
        let byte = ((bits >> (8 * (8 - r as u64))) & 0xff) as u8;
        g.set(r, byte);
        r = r + 1;
    }
    assert(g@ =~= glyph(c));
    g
}

// =============================================================================
// CONSOLE
// =============================================================================

/// Early boot console for debugging
pub struct EarlyConsole {
    framebuffer: Option<FramebufferInfo>,
    pixels: Vec<u32>,
    cursor_x: u32,
    cursor_y: u32,
    fg_color: u32,
    bg_color: u32,
}

/// What a console holds: its framebuffer, the pixels drawn into it, the
/// cursor (in pixels) and the colours.
pub struct ConsoleView {
    pub framebuffer: Option<FramebufferInfo>,
    pub pixels: Seq<u32>,
    pub cursor_x: u32,
    pub cursor_y: u32,
    pub fg_color: u32,
    pub bg_color: u32,
}

impl View for EarlyConsole {
    type V = ConsoleView;

    closed spec fn view(&self) -> ConsoleView {
        ConsoleView {
            framebuffer: self.framebuffer,
            pixels: self.pixels@,
            cursor_x: self.cursor_x,
            cursor_y: self.cursor_y,
            fg_color: self.fg_color,
            bg_color: self.bg_color,
        }
    }
}

/// A framebuffer the console can draw into: its scan lines hold at least
/// its width (else drawing would run past its memory), its pixels can be
/// held, and the 32-bit arithmetic of clearing (`width * height`) and of
/// pixel offsets (`y * stride + x` inside the visible area) does not
/// overflow.
pub open spec fn fb_fits(fb: FramebufferInfo) -> bool {
    &&& fb.width <= fb.stride()
    &&& fb.stride() * fb.height <= usize::MAX
    &&& fb.width * fb.height <= u32::MAX
    &&& (fb.height == 0 || (fb.height - 1) * fb.stride() + fb.width <= u32::MAX + 1)
}

/// The last pixel offset inside the visible area fits in 32 bits.
proof fn lemma_offset_fits(fb: FramebufferInfo, y: int, x: int)
    requires
        fb_fits(fb),
        0 <= y < fb.height,
        0 <= x < fb.width,
    ensures
        y * fb.stride() + x <= u32::MAX,
        y * fb.stride() + x < fb.stride() * fb.height,
{
    let s = fb.stride();
    assert(y * s <= (fb.height - 1) * s) by (nonlinear_arith)
        requires y <= fb.height - 1, s >= 0;
    assert(y * s + s <= fb.height * s) by (nonlinear_arith)
        requires y + 1 <= fb.height, s >= 0;
    assert(fb.height * s == s * fb.height) by (nonlinear_arith);
}

/// The console's invariant: with a framebuffer, the pixels cover its scan
/// lines and the cursor stays inside it.
pub open spec fn console_wf(v: ConsoleView) -> bool {
    match v.framebuffer {
        None => true,
        Some(fb) => fb_fits(fb) && v.pixels.len() == fb.stride() * fb.height && v.cursor_x <= fb.width && (
        v.cursor_y == 0 || v.cursor_y + 16 <= fb.height),
    }
}

/// Whether bit `col` (counted from the left) of a glyph row is set.
pub open spec fn glyph_pixel(row: u8, col: int) -> bool {
    (row >> ((7 - col) as u8)) & 1u8 != 0
}

/// The pixels after drawing glyph `g` in the colours `fg` on `bg`, with its
/// top left corner at (`cx`, `cy`), clipped to the framebuffer's width and
/// height.
pub open spec fn drawn(px: Seq<u32>, fb: FramebufferInfo, cx: int, cy: int, g: Seq<u8>, fg: u32, bg: u32) -> Seq<u32> {
    Seq::new(
        px.len(),
        |i: int|
            {
                let y = i / fb.stride();
                let x = i % fb.stride();
                if cy <= y < cy + 16 && y < fb.height && cx <= x < cx + 8 && x < fb.width {
                    if glyph_pixel(g[y - cy], x - cx) { fg } else { bg }
                } else {
                    px[i]
                }
            },
    )
}

/// The pixels after moving the visible text up by one character row and
/// filling the freed bottom row with `bg`.
pub open spec fn scrolled(px: Seq<u32>, fb: FramebufferInfo, bg: u32) -> Seq<u32> {
    Seq::new(
        px.len(),
        |i: int|
            {
                let y = i / fb.stride();
                let x = i % fb.stride();
                if x < fb.width {
                    if y + 16 < fb.height { px[i + 16 * fb.stride()] } else { bg }
                } else {
                    px[i]
                }
            },
    )
}

/// The pixels after filling the first `width * height` of them with `bg`.
pub open spec fn cleared(px: Seq<u32>, fb: FramebufferInfo, bg: u32) -> Seq<u32> {
    Seq::new(px.len(), |i: int| if i < fb.width * fb.height { bg } else { px[i] })
}

/// The console after writing character `c`: a line feed moves to the start
/// of the next line, a carriage return to the start of this one, a tab to
/// the next multiple of 32 pixels; any other character is drawn and the
/// cursor advances one cell. Past the right edge the cursor wraps; past the
/// bottom the text scrolls up one row.
pub open spec fn put_char(v: ConsoleView, c: char) -> ConsoleView {
    match v.framebuffer {
        None => v,
        Some(fb) => {
            let x0 = v.cursor_x as int;
            let y0 = v.cursor_y as int;
            let x1: int = if c == '\n' || c == '\r' {
                0
            } else if c == '\t' {
                (((v.cursor_x + 32) as u32) & !31u32) as int
            } else {
                x0 + 8
            };
            let y1: int = if c == '\n' { y0 + 16 } else { y0 };
            let px1 = if c == '\n' || c == '\r' || c == '\t' {
                v.pixels
            } else {
                drawn(v.pixels, fb, x0, y0, glyph(c), v.fg_color, v.bg_color)
            };
            let x2: int = if x1 >= fb.width { 0 } else { x1 };
            let y2: int = if x1 >= fb.width { y1 + 16 } else { y1 };
            if y2 + 16 > fb.height {
                ConsoleView {
                    pixels: scrolled(px1, fb, v.bg_color),
                    cursor_x: x2 as u32,
                    cursor_y: (fb.height - 16) as u32,
                    ..v
                }
            } else {
                ConsoleView { pixels: px1, cursor_x: x2 as u32, cursor_y: y2 as u32, ..v }
            }
        },
    }
}

/// The console after writing the characters of `s` in order.
pub open spec fn put_str(v: ConsoleView, s: Seq<char>) -> ConsoleView
    decreases s.len(),
{
    if s.len() == 0 { v } else { put_str(put_char(v, s[0]), s.drop_first()) }
}

/// A console that can write text: without a framebuffer, or with one at
/// least a character cell high.
pub open spec fn can_write(v: ConsoleView) -> bool {
    console_wf(v) && (v.framebuffer matches Some(fb) ==> fb.height >= 16
        && fb.height + (if fb.width == 0 { 32int } else { 16int }) <= u32::MAX)
}

/// Whether a console can be set up on `fb` and write text there: the
/// framebuffer fits (see [`fb_fits`]) and is at least one character cell
/// high, with room above its height for the cursor's 32-bit arithmetic.
pub fn fits_console(fb: &FramebufferInfo) -> (r: bool)
    ensures
        r == (fb_fits(*fb) && fb.height >= 16 && fb.height + (if fb.width == 0 { 32int } else { 16int }) <= u32::MAX),
{
    let w = fb.width as u64;
    let h = fb.height as u64;
    let st = (fb.pitch / 4) as u64;
    assert(st as int == fb.stride());
    proof {
        assert(st * h <= 0xFFFF_FFFFu64 * 0xFFFF_FFFFu64) by (nonlinear_arith)
            requires st <= 0xFFFF_FFFFu64, h <= 0xFFFF_FFFFu64;
        assert(w * h <= 0xFFFF_FFFFu64 * 0xFFFF_FFFFu64) by (nonlinear_arith)
            requires w <= 0xFFFF_FFFFu64, h <= 0xFFFF_FFFFu64;
        if h > 0 {
            assert((h - 1) * st <= 0xFFFF_FFFFu64 * 0xFFFF_FFFFu64) by (nonlinear_arith)
                requires st <= 0xFFFF_FFFFu64, h - 1 <= 0xFFFF_FFFFu64;
        }
    }
    if w > st {
        return false;
    }
    if st * h > usize::MAX as u64 {
        return false;
    }
    if w * h > 0xFFFF_FFFF {
        return false;
    }
    if h > 0 && (h - 1) * st + w > 0x1_0000_0000 {
        return false;
    }
    let room: u64 = if w == 0 { 32 } else { 16 };
    h >= 16 && h + room <= 0xFFFF_FFFF
}

/// Writing a character keeps the console's invariant.
pub proof fn lemma_put_char_wf(v: ConsoleView, c: char)
    requires
        can_write(v),
    ensures
        can_write(put_char(v, c)),
{
    if let Some(fb) = v.framebuffer {
        assert(fb.stride() * fb.height >= 16 * fb.stride()) by (nonlinear_arith)
            requires fb.height >= 16, fb.stride() >= 0;
    }
}

/// After any character on a console that can write, the cursor is inside
/// the framebuffer with a whole character cell below it; a line feed or a
/// carriage return puts it at the start of a line, and a carriage return
/// keeps its line. Without a framebuffer nothing changes.
pub proof fn lemma_put_char_cursor(v: ConsoleView, c: char)
    requires
        can_write(v),
    ensures
        v.framebuffer is None ==> put_char(v, c) == v,
        v.framebuffer matches Some(fb) ==> ({
            let w = put_char(v, c);
            &&& fb.width > 0 ==> w.cursor_x < fb.width
            &&& w.cursor_y + 16 <= fb.height
            &&& (c == '\n' || c == '\r') && fb.width > 0 ==> w.cursor_x == 0
            &&& c == '\r' && fb.width > 0 ==> w.cursor_y == v.cursor_y
        }),
{
}

/// Writing two strings one after the other is writing them joined.
pub proof fn lemma_put_str_append(v: ConsoleView, a: Seq<char>, b: Seq<char>)
    ensures
        put_str(v, a + b) == put_str(put_str(v, a), b),
    decreases a.len(),
{
    if a.len() > 0 {
        assert((a + b).drop_first() =~= a.drop_first() + b);
        lemma_put_str_append(put_char(v, a[0]), a.drop_first(), b);
    } else {
        assert(a + b =~= b);
    }
}

/// Writing text keeps the console's invariant.
pub proof fn lemma_put_str_wf(v: ConsoleView, s: Seq<char>)
    requires
        can_write(v),
    ensures
        can_write(put_str(v, s)),
    decreases s.len(),
{
    if s.len() > 0 {
        lemma_put_char_wf(v, s[0]);
        lemma_put_str_wf(put_char(v, s[0]), s.drop_first());
    }
}

/// Index `i` of a grid with `s` pixels per line is pixel (`x`, `y`) exactly
/// when `i == y * s + x`.
proof fn lemma_grid_index(i: int, s: int, y: int, x: int)
    requires
        s > 0,
        0 <= x < s,
        0 <= i,
    ensures
        (i == y * s + x) <==> (i / s == y && i % s == x),
{
    if i == y * s + x {
        lemma_fundamental_div_mod_converse(i, s, y, x);
    }
    lemma_fundamental_div_mod(i, s);
    assert(s * (i / s) == (i / s) * s) by (nonlinear_arith);
}

/// Every index of a grid of `h` lines of `s` pixels lies on one of the lines.
proof fn lemma_row_bound(i: int, s: int, h: int)
    requires
        0 <= i < s * h,
        s > 0,
    ensures
        0 <= i / s < h,
        0 <= i % s < s,
{
    lemma_fundamental_div_mod(i, s);
    let q = i / s;
    let r = i % s;
    assert(0 <= r < s);
    assert(0 <= q < h) by (nonlinear_arith)
        requires
            i == s * q + r,
            0 <= r < s,
            0 <= i < s * h,
            s > 0,
    ;
}

fn glyph_pixel_at(row: u8, col: u32) -> (r: bool)
    requires
        col < 8,
    ensures
        r == glyph_pixel(row, col as int),
{
    (row >> ((7 - col) as u8)) & 1u8 != 0
}

impl EarlyConsole {
    /// Width of a character cell in pixels.
    pub const CHAR_WIDTH: u32 = 8;

    /// Height of a character cell in pixels.
    pub const CHAR_HEIGHT: u32 = 16;

    /// A console without a framebuffer, white on black.
    pub fn new() -> (r: Self)
        ensures
            r@ == (ConsoleView {
                framebuffer: None,
                pixels: Seq::empty(),
                cursor_x: 0,
                cursor_y: 0,
                fg_color: 0x00FFFFFF,
                bg_color: 0,
            }),
    {
        Self {
            framebuffer: None,
            pixels: Vec::new(),
            cursor_x: 0,
            cursor_y: 0,
            fg_color: 0x00FFFFFF,
            bg_color: 0x00000000,
        }
    }

    /// The pixels drawn so far, scan line after scan line.
    pub fn pixels(&self) -> (r: &[u32])
        ensures
            r@ == self@.pixels,
    {
        self.pixels.as_slice()
    }

    /// Draw into `fb` from now on, starting from blank pixels, and clear it.
    pub fn init(&mut self, fb: FramebufferInfo)
        requires
            fb_fits(fb),
        ensures
            final(self)@ == (ConsoleView {
                framebuffer: Some(fb),
                pixels: cleared(Seq::new((fb.stride() * fb.height) as nat, |i: int| 0u32), fb, old(self)@.bg_color),
                cursor_x: 0,
                cursor_y: 0,
                ..old(self)@
            }),
            console_wf(final(self)@),
    {
        assert((fb.pitch / 4) as int == fb.stride());
        let n: usize = (fb.pitch / 4) as usize * fb.height as usize;
        let mut px: Vec<u32> = Vec::new();
        while px.len() < n
            invariant
                px@.len() <= n,
                forall|i: int| 0 <= i < px@.len() ==> px@[i] == 0u32,
            decreases n - px@.len(),
        {
            px.push(0);
        }
        assert(px@ =~= Seq::new((fb.stride() * fb.height) as nat, |i: int| 0u32));
        self.framebuffer = Some(fb);
        self.pixels = px;
        self.cursor_x = 0;
        self.cursor_y = 0;
        self.clear();
    }

    /// Fill the first `width * height` pixels with the background colour and
    /// move the cursor home.
    pub fn clear(&mut self)
        requires
            console_wf(old(self)@),
        ensures
            final(self)@ == (ConsoleView {
                pixels: match old(self)@.framebuffer {
                    Some(fb) => cleared(old(self)@.pixels, fb, old(self)@.bg_color),
                    None => old(self)@.pixels,
                },
                cursor_x: 0,
                cursor_y: 0,
                ..old(self)@
            }),
            console_wf(final(self)@),
    {
        if let Some(fb) = self.framebuffer {
            proof {
                assert(fb.width * fb.height <= fb.stride() * fb.height) by (nonlinear_arith)
                    requires fb.width <= fb.stride(), fb.height >= 0;
            }
            let n: usize = (fb.width * fb.height) as usize;
            let mut px: Vec<u32> = Vec::new();
            std::mem::swap(&mut px, &mut self.pixels);
            let ghost old_px = px@;
            let mut i: usize = 0;
            while i < n
                invariant
                    i <= n,
                    n == fb.width * fb.height,
                    n <= old_px.len(),
                    px@.len() == old_px.len(),
                    forall|k: int| 0 <= k < px@.len() ==> #[trigger] px@[k] == (if k < i { self.bg_color } else { old_px[k] }),
                decreases n - i,
            {
                px.set(i, self.bg_color);
                i = i + 1;
            }
            assert(px@ =~= cleared(old_px, fb, self.bg_color));
            self.pixels = px;
        }
        self.cursor_x = 0;
        self.cursor_y = 0;
    }

    /// Set the foreground and background colours.
    pub fn set_color(&mut self, fg: u32, bg: u32)
        ensures
            final(self)@ == (ConsoleView { fg_color: fg, bg_color: bg, ..old(self)@ }),
    {
        self.fg_color = fg;
        self.bg_color = bg;
    }
}

/// Whether pixel `i` lies in the part of a glyph cell at (`cx`, `cy`) that
/// is drawn by the time `r` rows and `c` more pixels of row `r` are done.
spec fn painted(i: int, fb: FramebufferInfo, cx: int, cy: int, r: int, c: int) -> bool {
    let y = i / fb.stride();
    let x = i % fb.stride();
    cx <= x < cx + 8 && x < fb.width && cy <= y < fb.height && (y < cy + r || (y == cy + r && x < cx + c))
}

/// The colour of pixel `i` in the glyph cell at (`cx`, `cy`).
spec fn cell_color(i: int, fb: FramebufferInfo, cx: int, cy: int, g: Seq<u8>, fg: u32, bg: u32) -> u32 {
    let y = i / fb.stride();
    let x = i % fb.stride();
    if glyph_pixel(g[y - cy], x - cx) { fg } else { bg }
}

/// Whether pixel `i` lies in the first `r` lines, or in the first `c`
/// pixels of line `r`, and inside the visible width.
spec fn visible_before(i: int, fb: FramebufferInfo, r: int, c: int) -> bool {
    let y = i / fb.stride();
    let x = i % fb.stride();
    x < fb.width && (y < r || (y == r && x < c))
}

impl EarlyConsole {
    /// Draw the glyph of `c` at the cursor.
    #[verifier::rlimit(40)]
    fn draw_char(&mut self, c: char)
        requires
            console_wf(old(self)@),
            old(self)@.framebuffer is Some,
        ensures
            final(self)@ == (ConsoleView {
                pixels: drawn(
                    old(self)@.pixels,
                    old(self)@.framebuffer->0,
                    old(self)@.cursor_x as int,
                    old(self)@.cursor_y as int,
                    glyph(c),
                    old(self)@.fg_color,
                    old(self)@.bg_color,
                ),
                ..old(self)@
            }),
    {
        let fb = match self.framebuffer {
            Some(fb) => fb,
            None => {
                return;
            },
        };
        let bitmap = get_font_glyph(c);
        let stride: u32 = fb.pitch / 4;
        let cx = self.cursor_x;
        let cy = self.cursor_y;
        let fg = self.fg_color;
        let bg = self.bg_color;
        let rows: u32 = if fb.height - cy < 16 { fb.height - cy } else { 16 };
        let cols: u32 = if fb.width - cx < 8 { fb.width - cx } else { 8 };
        let mut px: Vec<u32> = Vec::new();
        std::mem::swap(&mut px, &mut self.pixels);
        let ghost old_px = px@;
        let ghost g = bitmap@;
        let mut row: u32 = 0;
        while row < rows
            invariant
                row <= rows,
                rows == (if fb.height - cy < 16 { fb.height - cy } else { 16 }),
                cols == (if fb.width - cx < 8 { fb.width - cx } else { 8 }),
                cy <= fb.height,
                cx <= fb.width,
                stride == fb.stride(),
                fb_fits(fb),
                old_px.len() == stride * fb.height,
                px@.len() == old_px.len(),
                g == bitmap@,
                g == glyph(c),
                forall|i: int|
                    0 <= i < px@.len() ==> #[trigger] px@[i] == (if painted(i, fb, cx as int, cy as int, row as int, 0) {
                        cell_color(i, fb, cx as int, cy as int, g, fg, bg)
                    } else {
                        old_px[i]
                    }),
            decreases rows - row,
        {
            let y = cy + row;
            let glyph_row = bitmap[row as usize];
            let mut col: u32 = 0;
            while col < cols
                invariant
                    row < rows,
                    col <= cols,
                    y == cy + row,
                    rows == (if fb.height - cy < 16 { fb.height - cy } else { 16 }),
                    cols == (if fb.width - cx < 8 { fb.width - cx } else { 8 }),
                    cy <= fb.height,
                    cx <= fb.width,
                    stride == fb.stride(),
                    fb_fits(fb),
                    old_px.len() == stride * fb.height,
                    px@.len() == old_px.len(),
                    g == bitmap@,
                g == glyph(c),
                    glyph_row == g[row as int],
                    forall|i: int|
                        0 <= i < px@.len() ==> #[trigger] px@[i] == (if painted(i, fb, cx as int, cy as int, row as int, col as int) {
                            cell_color(i, fb, cx as int, cy as int, g, fg, bg)
                        } else {
                            old_px[i]
                        }),
                decreases cols - col,
            {
                let x = cx + col;
                proof {
                    lemma_offset_fits(fb, y as int, x as int);
                }
                let pixel_set = glyph_pixel_at(glyph_row, col);
                let color = if pixel_set { fg } else { bg };
                let offset = (y * stride + x) as usize;
                let ghost before = px@;
                px.set(offset, color);
                proof {
                    assert forall|i: int| 0 <= i < px@.len() implies #[trigger] px@[i] == (if painted(
                        i,
                        fb,
                        cx as int,
                        cy as int,
                        row as int,
                        col + 1,
                    ) {
                        cell_color(i, fb, cx as int, cy as int, g, fg, bg)
                    } else {
                        old_px[i]
                    }) by {
                        lemma_grid_index(i, stride as int, y as int, x as int);
                        assert(before[i] == (if painted(i, fb, cx as int, cy as int, row as int, col as int) {
                            cell_color(i, fb, cx as int, cy as int, g, fg, bg)
                        } else {
                            old_px[i]
                        }));
                    }
                }
                col = col + 1;
            }
            row = row + 1;
        }
        assert(px@ =~= drawn(old_px, fb, cx as int, cy as int, glyph(c), fg, bg));
        self.pixels = px;
    }

    /// Move the visible text up one character row, clearing the freed row,
    /// and put the cursor on the bottom row.
    #[verifier::rlimit(40)]
    fn scroll(&mut self)
        requires
            old(self)@.framebuffer matches Some(fb) && fb_fits(fb) && fb.height >= 16 && old(self)@.pixels.len()
                == fb.stride() * fb.height,
        ensures
            final(self)@ == (ConsoleView {
                pixels: scrolled(old(self)@.pixels, old(self)@.framebuffer->0, old(self)@.bg_color),
                cursor_y: (old(self)@.framebuffer->0.height - 16) as u32,
                ..old(self)@
            }),
    {
        let fb = match self.framebuffer {
            Some(fb) => fb,
            None => {
                return;
            },
        };
        let stride: u32 = fb.pitch / 4;
        let rows_to_copy = fb.height - 16;
        let bg = self.bg_color;
        let mut px: Vec<u32> = Vec::new();
        std::mem::swap(&mut px, &mut self.pixels);
        let ghost old_px = px@;
        let mut y: u32 = 0;
        while y < rows_to_copy
            invariant
                y <= rows_to_copy,
                rows_to_copy == fb.height - 16,
                stride == fb.stride(),
                fb_fits(fb),
                old_px.len() == stride * fb.height,
                px@.len() == old_px.len(),
                forall|i: int|
                    0 <= i < px@.len() ==> #[trigger] px@[i] == (if visible_before(i, fb, y as int, 0) {
                        old_px[i + 16 * stride]
                    } else {
                        old_px[i]
                    }),
            decreases rows_to_copy - y,
        {
            let mut x: u32 = 0;
            while x < fb.width
                invariant
                    y < rows_to_copy,
                    x <= fb.width,
                    rows_to_copy == fb.height - 16,
                    stride == fb.stride(),
                    fb_fits(fb),
                    old_px.len() == stride * fb.height,
                    px@.len() == old_px.len(),
                    forall|i: int|
                        0 <= i < px@.len() ==> #[trigger] px@[i] == (if visible_before(i, fb, y as int, x as int) {
                            old_px[i + 16 * stride]
                        } else {
                            old_px[i]
                        }),
                decreases fb.width - x,
            {
                proof {
                    lemma_offset_fits(fb, (y + 16) as int, x as int);
                    assert((y + 16) * stride + x == y * stride + x + 16 * stride) by (nonlinear_arith);
                }
                let src = ((y + 16) * stride + x) as usize;
                let dst = (y * stride + x) as usize;
                proof {
                    lemma_grid_index(src as int, stride as int, (y + 16) as int, x as int);
                }
                let pixel = px[src];
                let ghost before = px@;
                px.set(dst, pixel);
                proof {
                    assert forall|i: int| 0 <= i < px@.len() implies #[trigger] px@[i] == (if visible_before(i, fb, y as int, x + 1) {
                        old_px[i + 16 * stride]
                    } else {
                        old_px[i]
                    }) by {
                        lemma_grid_index(i, stride as int, y as int, x as int);
                        assert(before[i] == (if visible_before(i, fb, y as int, x as int) {
                            old_px[i + 16 * stride]
                        } else {
                            old_px[i]
                        }));
                    }
                }
                x = x + 1;
            }
            y = y + 1;
        }
        let mut y2: u32 = rows_to_copy;
        while y2 < fb.height
            invariant
                rows_to_copy <= y2 <= fb.height,
                rows_to_copy == fb.height - 16,
                stride == fb.stride(),
                fb_fits(fb),
                old_px.len() == stride * fb.height,
                px@.len() == old_px.len(),
                forall|i: int|
                    0 <= i < px@.len() ==> #[trigger] px@[i] == (if visible_before(i, fb, rows_to_copy as int, 0) {
                        old_px[i + 16 * stride]
                    } else if visible_before(i, fb, y2 as int, 0) {
                        bg
                    } else {
                        old_px[i]
                    }),
            decreases fb.height - y2,
        {
            let mut x: u32 = 0;
            while x < fb.width
                invariant
                    rows_to_copy <= y2 < fb.height,
                    x <= fb.width,
                    rows_to_copy == fb.height - 16,
                    stride == fb.stride(),
                    fb_fits(fb),
                    old_px.len() == stride * fb.height,
                    px@.len() == old_px.len(),
                    forall|i: int|
                        0 <= i < px@.len() ==> #[trigger] px@[i] == (if visible_before(i, fb, rows_to_copy as int, 0) {
                            old_px[i + 16 * stride]
                        } else if visible_before(i, fb, y2 as int, x as int) {
                            bg
                        } else {
                            old_px[i]
                        }),
                decreases fb.width - x,
            {
                proof {
                    lemma_offset_fits(fb, y2 as int, x as int);
                }
                let offset = (y2 * stride + x) as usize;
                let ghost before = px@;
                px.set(offset, bg);
                proof {
                    assert forall|i: int| 0 <= i < px@.len() implies #[trigger] px@[i] == (if visible_before(
                        i,
                        fb,
                        rows_to_copy as int,
                        0,
                    ) {
                        old_px[i + 16 * stride]
                    } else if visible_before(i, fb, y2 as int, x + 1) {
                        bg
                    } else {
                        old_px[i]
                    }) by {
                        lemma_grid_index(i, stride as int, y2 as int, x as int);
                        assert(before[i] == (if visible_before(i, fb, rows_to_copy as int, 0) {
                            old_px[i + 16 * stride]
                        } else if visible_before(i, fb, y2 as int, x as int) {
                            bg
                        } else {
                            old_px[i]
                        }));
                    }
                }
                x = x + 1;
            }
            y2 = y2 + 1;
        }
        assert forall|i: int| 0 <= i < px@.len() implies #[trigger] px@[i] == scrolled(old_px, fb, bg)[i] by {
            lemma_row_bound(i, stride as int, fb.height as int);
        }
        assert(px@ =~= scrolled(old_px, fb, bg));
        self.pixels = px;
        self.cursor_y = rows_to_copy;
    }
}

impl EarlyConsole {
    /// Write a character at the cursor.
    pub fn write_char(&mut self, c: char)
        requires
            can_write(old(self)@),
        ensures
            final(self)@ == put_char(old(self)@, c),
            can_write(final(self)@),
    {
        let fb = match self.framebuffer {
            Some(fb) => fb,
            None => {
                return;
            },
        };
        proof {
            lemma_put_char_wf(self@, c);
        }
        let fb_width = fb.width;
        let fb_height = fb.height;
        if c == '\n' {
            self.cursor_x = 0;
            self.cursor_y = self.cursor_y + Self::CHAR_HEIGHT;
        } else if c == '\r' {
            self.cursor_x = 0;
        } else if c == '\t' {
            self.cursor_x = (self.cursor_x + 32) & !31u32;
        } else {
            self.draw_char(c);
            self.cursor_x = self.cursor_x + Self::CHAR_WIDTH;
        }
        if self.cursor_x >= fb_width {
            self.cursor_x = 0;
            self.cursor_y = self.cursor_y + Self::CHAR_HEIGHT;
        }
        if self.cursor_y + Self::CHAR_HEIGHT > fb_height {
            self.scroll();
        }
    }

    /// Write the characters of `s` in order.
    pub fn write_str(&mut self, s: &str)
        requires
            console_wf(old(self)@),
            s@.len() > 0 ==> can_write(old(self)@),
        ensures
            final(self)@ == put_str(old(self)@, s@),
            console_wf(final(self)@),
            can_write(old(self)@) ==> can_write(final(self)@),
    {
        let n = s.unicode_len();
        if n == 0 {
            assert(s@ =~= Seq::<char>::empty());
            return;
        }
        let mut i: usize = 0;
        assert(s@.skip(0) =~= s@);
        while i < n
            invariant
                i <= n,
                n == s@.len(),
                can_write(self@),
                put_str(self@, s@.skip(i as int)) == put_str(old(self)@, s@),
            decreases n - i,
        {
            let c = s.get_char(i);
            assert(s@.skip(i as int).drop_first() =~= s@.skip(i + 1));
            self.write_char(c);
            i = i + 1;
        }
        assert(s@.skip(n as int) =~= Seq::<char>::empty());
    }
}

/// The console with colours `fg` on `bg`.
pub open spec fn with_colors(v: ConsoleView, fg: u32, bg: u32) -> ConsoleView {
    ConsoleView { fg_color: fg, bg_color: bg, ..v }
}

/// The console after drawing the boot splash: the QuantaOS banner in light
/// blue, then the motto and the copyright in white, all on black.
pub open spec fn splash(v: ConsoleView) -> ConsoleView {
    let v1 = with_colors(v, 0x00AAAAFF, 0);
    let v2 = put_str(v1, "\n\n"@);
    let v3 = put_str(v2, "  ██████╗ ██╗   ██╗ █████╗ ███╗   ██╗████████╗ █████╗  ██████╗ ███████╗\n"@);
    let v4 = put_str(v3, " ██╔═══██╗██║   ██║██╔══██╗████╗  ██║╚══██╔══╝██╔══██╗██╔═══██╗██╔════╝\n"@);
    let v5 = put_str(v4, " ██║   ██║██║   ██║███████║██╔██╗ ██║   ██║   ███████║██║   ██║███████╗\n"@);
    let v6 = put_str(v5, " ██║▄▄ ██║██║   ██║██╔══██║██║╚██╗██║   ██║   ██╔══██║██║   ██║╚════██║\n"@);
    let v7 = put_str(v6, " ╚██████╔╝╚██████╔╝██║  ██║██║ ╚████║   ██║   ██║  ██║╚██████╔╝███████║\n"@);
    let v8 = put_str(v7, "  ╚══▀▀═╝  ╚═════╝ ╚═╝  ╚═╝╚═╝  ╚═══╝   ╚═╝   ╚═╝  ╚═╝ ╚═════╝ ╚══════╝\n"@);
    let v9 = put_str(v8, "\n"@);
    let v10 = with_colors(v9, 0x00FFFFFF, 0);
    let v11 = put_str(v10, "                    The Operating System That Evolves\n"@);
    let v12 = put_str(v11, "\n"@);
    let v13 = put_str(v12, "         Copyright 2024-2025 Zain Dana Harper. All Rights Reserved.\n"@);
    put_str(v13, "\n\n"@)
}

/// Draw boot splash screen
pub fn draw_splash(console: &mut EarlyConsole)
    requires
        can_write(old(console)@),
    ensures
        final(console)@ == splash(old(console)@),
        can_write(final(console)@),
{
    console.set_color(0x00AAAAFF, 0x00000000);
    console.write_str("\n\n");
    console.write_str("  ██████╗ ██╗   ██╗ █████╗ ███╗   ██╗████████╗ █████╗  ██████╗ ███████╗\n");
    console.write_str(" ██╔═══██╗██║   ██║██╔══██╗████╗  ██║╚══██╔══╝██╔══██╗██╔═══██╗██╔════╝\n");
    console.write_str(" ██║   ██║██║   ██║███████║██╔██╗ ██║   ██║   ███████║██║   ██║███████╗\n");
    console.write_str(" ██║▄▄ ██║██║   ██║██╔══██║██║╚██╗██║   ██║   ██╔══██║██║   ██║╚════██║\n");
    console.write_str(" ╚██████╔╝╚██████╔╝██║  ██║██║ ╚████║   ██║   ██║  ██║╚██████╔╝███████║\n");
    console.write_str("  ╚══▀▀═╝  ╚═════╝ ╚═╝  ╚═╝╚═╝  ╚═══╝   ╚═╝   ╚═╝  ╚═╝ ╚═════╝ ╚══════╝\n");
    console.write_str("\n");
    console.set_color(0x00FFFFFF, 0x00000000);
    console.write_str("                    The Operating System That Evolves\n");
    console.write_str("\n");
    console.write_str("         Copyright 2024-2025 Zain Dana Harper. All Rights Reserved.\n");
    console.write_str("\n\n");
}

} // verus!
