use gifc::canvas::Canvas;
use gifc::caption::{compute_padding, render_band, CaptionLine};
use gifc::color::{lookup_palette, Px};
use gifc::glyph::{coverage_color, Glyph, TextColor};

const WHITE: Px = Px { r: 255, g: 255, b: 255, a: 255 };

fn glyph(width: usize, height: usize, xmin: i32, ymin: i32, coverage: Vec<u8>) -> Glyph {
    Glyph { width, height, xmin, ymin, coverage }
}

#[test]
fn padding_centers_narrow_caption() {
    // Even margin: 3 + 4 + 3 == 10.
    assert_eq!(compute_padding(10, 4), 3);
    // Odd leftover: margins 3 and 4 differ by one pixel.
    assert_eq!(compute_padding(11, 4), 3);
    // Exact fit and empty line.
    assert_eq!(compute_padding(4, 4), 0);
    assert_eq!(compute_padding(10, 0), 5);
    // Overflowing caption: negative padding, clipped later by the blit.
    assert_eq!(compute_padding(4, 10), -3);
}

#[test]
fn layout_totals_sum_widths_and_max_height() {
    // total_width = sum of width + max(xmin, 0); total_height = max height.
    let g1 = glyph(2, 3, -1, 0, vec![0; 6]);
    let g2 = glyph(1, 5, 2, 0, vec![0; 5]);
    let line = CaptionLine::from_glyphs(vec![g1, g2]).unwrap();
    assert_eq!(line.total_width, 2 + 0 + 1 + 2);
    assert_eq!(line.total_height, 5);
}

#[test]
fn from_glyphs_rejects_wrong_coverage_length() {
    let bad = glyph(2, 2, 0, 0, vec![0; 3]);
    assert!(CaptionLine::from_glyphs(vec![bad]).is_none());
}

#[test]
fn coverage_color_policies() {
    assert_eq!(coverage_color(100, TextColor::Dark), Px { r: 155, g: 155, b: 155, a: 255 });
    assert_eq!(coverage_color(100, TextColor::Light), Px { r: 100, g: 100, b: 100, a: 255 });
    assert_eq!(coverage_color(255, TextColor::Dark), Px { r: 0, g: 0, b: 0, a: 255 });
    assert_eq!(coverage_color(0, TextColor::Dark), WHITE);
}

#[test]
fn render_places_glyph_row_in_band() {
    // One 1x1 glyph on a 3-wide canvas: padding (3-1)/2 = 1, so the glyph
    // lands at text row 48, column 1.
    let line = CaptionLine::from_glyphs(vec![glyph(1, 1, 0, 0, vec![100])]).unwrap();
    let mut canvas = Canvas::new(3, 1);
    render_band(&mut canvas, &line, TextColor::Dark);
    assert_eq!(canvas.px_at(48, 1), Px { r: 155, g: 155, b: 155, a: 255 });
    assert_eq!(canvas.px_at(48, 0), WHITE);
    assert_eq!(canvas.px_at(48, 2), WHITE);
    assert_eq!(canvas.px_at(47, 1), WHITE);
    assert_eq!(canvas.px_at(49, 1), WHITE);
    // Frame rows below the band are untouched.
    assert_eq!(canvas.px_at(128, 0), WHITE);
}

#[test]
fn render_light_policy_uses_coverage_directly() {
    let line = CaptionLine::from_glyphs(vec![glyph(1, 1, 0, 0, vec![100])]).unwrap();
    let mut canvas = Canvas::new(1, 1);
    render_band(&mut canvas, &line, TextColor::Light);
    assert_eq!(canvas.px_at(48, 0), Px { r: 100, g: 100, b: 100, a: 255 });
}

#[test]
fn render_clips_overflowing_glyph() {
    // A 4-wide glyph on a 2-wide canvas: padding (2-4)/2 = -1, so coverage
    // columns 1 and 2 land on canvas columns 0 and 1.
    let line = CaptionLine::from_glyphs(vec![glyph(4, 1, 0, 0, vec![1, 2, 3, 4])]).unwrap();
    let mut canvas = Canvas::new(2, 1);
    render_band(&mut canvas, &line, TextColor::Dark);
    assert_eq!(canvas.px_at(48, 0), Px { r: 253, g: 253, b: 253, a: 255 });
    assert_eq!(canvas.px_at(48, 1), Px { r: 252, g: 252, b: 252, a: 255 });
}

#[test]
fn render_two_glyphs_advance_left_to_right() {
    // Two 1x1 glyphs with zero offsets on a 4-wide canvas: total width 2,
    // padding 1, so they land on columns 1 and 2 in order.
    let line = CaptionLine::from_glyphs(vec![
        glyph(1, 1, 0, 0, vec![255]),
        glyph(1, 1, 0, 0, vec![55]),
    ])
    .unwrap();
    let mut canvas = Canvas::new(4, 1);
    render_band(&mut canvas, &line, TextColor::Dark);
    assert_eq!(canvas.px_at(48, 0), WHITE);
    assert_eq!(canvas.px_at(48, 1), Px { r: 0, g: 0, b: 0, a: 255 });
    assert_eq!(canvas.px_at(48, 2), Px { r: 200, g: 200, b: 200, a: 255 });
    assert_eq!(canvas.px_at(48, 3), WHITE);
}

#[test]
fn taller_glyph_sits_lower_via_line_height() {
    // With line height 2, a 1-tall glyph with ymin 0 maps text row 1 (canvas
    // row 49) to its single coverage row.
    let line = CaptionLine::from_glyphs(vec![
        glyph(1, 2, 0, 0, vec![255, 255]),
        glyph(1, 1, 0, 0, vec![255]),
    ])
    .unwrap();
    assert_eq!(line.total_height, 2);
    let mut canvas = Canvas::new(2, 1);
    render_band(&mut canvas, &line, TextColor::Dark);
    let black = Px { r: 0, g: 0, b: 0, a: 255 };
    assert_eq!(canvas.px_at(48, 0), black);
    assert_eq!(canvas.px_at(49, 0), black);
    assert_eq!(canvas.px_at(48, 1), WHITE);
    assert_eq!(canvas.px_at(49, 1), black);
}

#[test]
fn junk_bytes_are_no_font() {
    // The font parse lives with the caller; junk bytes must be rejected
    // there, before the library is handed a font.
    let junk: Vec<u8> = vec![0, 1, 2, 3, 4, 5, 6, 7];
    let r = fontdue::Font::from_bytes(junk.as_slice(), fontdue::FontSettings::default());
    assert!(r.is_err());
}

#[test]
fn palette_lookup_reads_rgb_triple() {
    let pal = vec![9, 8, 7, 60, 61, 62];
    assert_eq!(lookup_palette(&pal, 1), Px { r: 60, g: 61, b: 62, a: 255 });
}
