//! End-to-end rendering tests: canvas sizing, cursor movement, and
//! the colors painted into cells and glyph placements.

use ansee::color::Color;
use ansee::layout::{GlyphOp, Metrics};
use ansee::render::{draw_image, RenderError};

fn m() -> Metrics {
    Metrics { advance: 8, pitch: 22 }
}

fn rgb(r: u8, g: u8, b: u8) -> Color {
    Color { r, g, b, a: 255 }
}

fn white() -> Color {
    rgb(255, 255, 255)
}

fn black() -> Color {
    rgb(0, 0, 0)
}

#[test]
fn plain_input_sizes_and_default_colors() {
    let out = draw_image("plain", m()).unwrap();
    assert_eq!(out.canvas.width, 5 * 8);
    assert_eq!(out.canvas.height, 22);
    assert_eq!(out.glyphs.len(), 5);
    for (i, g) in out.glyphs.iter().enumerate() {
        assert_eq!(g.x, i * 8);
        assert_eq!(g.y, 0);
        assert_eq!(g.color, white());
        assert!(!g.italic);
    }
    let chars: Vec<char> = out.glyphs.iter().map(|g| g.ch).collect();
    assert_eq!(chars, vec!['p', 'l', 'a', 'i', 'n']);
    // every cell's background is the default black, to the last pixel
    assert_eq!(out.canvas.pixel(0, 0), black());
    assert_eq!(out.canvas.pixel(39, 21), black());
    assert_eq!(out.canvas.pixel(17, 10), black());
}

#[test]
fn red_hello_then_reset() {
    let out = draw_image("\x1b[31mHello\x1b[0m", m()).unwrap();
    assert_eq!(out.canvas.width, 5 * 8);
    assert_eq!(out.canvas.height, 22);
    assert_eq!(out.glyphs.len(), 5);
    for g in &out.glyphs {
        // standard ANSI red foreground over the default background
        assert_eq!(g.color, rgb(128, 0, 0));
    }
    assert_eq!(out.canvas.pixel(0, 0), black());
    assert_eq!(out.canvas.pixel(39, 21), black());
}

#[test]
fn truecolor_single_glyph() {
    let out = draw_image("\x1b[38;2;10;20;30mX", m()).unwrap();
    assert_eq!(out.glyphs.len(), 1);
    let g: GlyphOp = out.glyphs[0];
    assert_eq!(g.ch, 'X');
    assert_eq!(g.x, 0);
    assert_eq!(g.y, 0);
    assert_eq!(g.color, rgb(10, 20, 30));
}

#[test]
fn line_break_moves_cursor_down_and_back() {
    let out = draw_image("AB\nC", m()).unwrap();
    // two lines, the longer of two characters
    assert_eq!(out.canvas.width, 2 * 8);
    assert_eq!(out.canvas.height, 2 * 22);
    assert_eq!(out.glyphs.len(), 3);
    assert_eq!((out.glyphs[0].ch, out.glyphs[0].x, out.glyphs[0].y), ('A', 0, 0));
    assert_eq!((out.glyphs[1].ch, out.glyphs[1].x, out.glyphs[1].y), ('B', 8, 0));
    assert_eq!((out.glyphs[2].ch, out.glyphs[2].x, out.glyphs[2].y), ('C', 0, 22));
}

#[test]
fn empty_input_gives_empty_canvas() {
    let out = draw_image("", m()).unwrap();
    assert_eq!(out.canvas.width, 0);
    assert_eq!(out.canvas.height, 0);
    assert!(out.glyphs.is_empty());
}

#[test]
fn background_color_fills_cell() {
    let out = draw_image("\x1b[41mZ", m()).unwrap();
    assert_eq!(out.canvas.pixel(0, 0), rgb(128, 0, 0));
    assert_eq!(out.canvas.pixel(7, 21), rgb(128, 0, 0));
    assert_eq!(out.glyphs[0].color, white());
}

#[test]
fn reverse_swaps_active_colors_when_processed() {
    let out = draw_image("\x1b[7mZ", m()).unwrap();
    assert_eq!(out.glyphs[0].color, black());
    assert_eq!(out.canvas.pixel(3, 3), white());
}

#[test]
fn italic_flag_recorded_and_cleared_by_reset() {
    let out = draw_image("\x1b[3mI\x1b[0mJ", m()).unwrap();
    assert_eq!(out.glyphs.len(), 2);
    assert!(out.glyphs[0].italic);
    assert!(!out.glyphs[1].italic);
}

#[test]
fn unpainted_cells_stay_transparent() {
    let out = draw_image("A\nBC", m()).unwrap();
    assert_eq!(out.canvas.width, 16);
    assert_eq!(out.canvas.height, 44);
    // the cell right of "A" on the first line was never painted
    assert_eq!(out.canvas.pixel(8, 0), Color { r: 0, g: 0, b: 0, a: 0 });
    assert_eq!(out.canvas.pixel(15, 21), Color { r: 0, g: 0, b: 0, a: 0 });
    // painted cells are opaque
    assert_eq!(out.canvas.pixel(0, 0), black());
    assert_eq!(out.canvas.pixel(8, 22), black());
}

#[test]
fn later_color_set_wins_per_channel() {
    let out = draw_image("\x1b[31m\x1b[32mG", m()).unwrap();
    assert_eq!(out.glyphs[0].color, rgb(0, 128, 0));
}

#[test]
fn color_errors_propagate_as_terminal_failures() {
    assert!(matches!(
        draw_image("ok\x1b[38;6;1mrest", m()),
        Err(RenderError::InvalidColorSpec)
    ));
    assert!(matches!(
        draw_image("\x1b[48;5mrest", m()),
        Err(RenderError::InvalidColorCode)
    ));
}

#[test]
fn reset_foreground_only_restores_one_channel() {
    let out = draw_image("\x1b[31m\x1b[44m\x1b[39mQ", m()).unwrap();
    // foreground back to default, background still blue
    assert_eq!(out.glyphs[0].color, white());
    assert_eq!(out.canvas.pixel(0, 0), rgb(0, 0, 128));
}
