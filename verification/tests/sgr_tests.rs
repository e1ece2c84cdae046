//! Interpreter, color-table, tokenizer and measurement tests.

use ansee::color::{ansi_color, palette_color, Color};
use ansee::command::Command;
use ansee::render::{count_skipped, extract_text, parse_ansi};
use ansee::sgr::{handle_graphics_mode, SgrError};
use ansee::text::measure;
use ansee::tokenizer::{tokenize, Token};

fn rgb(r: u8, g: u8, b: u8) -> Color {
    Color { r, g, b, a: 255 }
}

#[test]
fn sixteen_color_table_foreground_and_background() {
    let expected: [(u32, Color); 16] = [
        (30, rgb(0, 0, 0)),
        (31, rgb(128, 0, 0)),
        (32, rgb(0, 128, 0)),
        (33, rgb(128, 128, 0)),
        (34, rgb(0, 0, 128)),
        (35, rgb(128, 0, 128)),
        (36, rgb(0, 128, 128)),
        (37, rgb(192, 192, 192)),
        (90, rgb(128, 128, 128)),
        (91, rgb(255, 0, 0)),
        (92, rgb(0, 255, 0)),
        (93, rgb(255, 255, 0)),
        (94, rgb(0, 0, 255)),
        (95, rgb(255, 0, 255)),
        (96, rgb(0, 255, 255)),
        (97, rgb(255, 255, 255)),
    ];
    for (code, color) in expected {
        // foreground code
        assert_eq!(ansi_color(code), Some(color));
        let r = handle_graphics_mode(&vec![code]).unwrap().unwrap();
        assert_eq!(r, Command::SetForegroundColor(color));
        // matching background code is ten above
        let bg_code = code + 10;
        assert_eq!(ansi_color(bg_code), Some(color));
        let r = handle_graphics_mode(&vec![bg_code]).unwrap().unwrap();
        assert_eq!(r, Command::SetBackgroundColor(color));
    }
    assert_eq!(ansi_color(29), None);
    assert_eq!(ansi_color(38), None);
    assert_eq!(ansi_color(98), None);
}

#[test]
fn truecolor_resolves_exact_components() {
    let r = handle_graphics_mode(&vec![38, 2, 10, 20, 30]).unwrap().unwrap();
    assert_eq!(r, Command::SetForegroundColor(rgb(10, 20, 30)));
    let r = handle_graphics_mode(&vec![48, 2, 0, 255, 7]).unwrap().unwrap();
    assert_eq!(r, Command::SetBackgroundColor(rgb(0, 255, 7)));
}

#[test]
fn truecolor_malformed_payloads_fail() {
    assert_eq!(
        handle_graphics_mode(&vec![38, 2, 1]),
        Err(SgrError::InvalidColorSpec)
    );
    assert_eq!(
        handle_graphics_mode(&vec![38, 2, 300, 0, 0]),
        Err(SgrError::InvalidColorSpec)
    );
    assert_eq!(
        handle_graphics_mode(&vec![48, 6, 1, 2, 3]),
        Err(SgrError::InvalidColorSpec)
    );
    assert_eq!(handle_graphics_mode(&vec![38]), Err(SgrError::InvalidColorSpec));
}

#[test]
fn indexed_color_resolves_palette_entries() {
    // palette entry 196 sits in the color cube at full red
    let r = handle_graphics_mode(&vec![38, 5, 196]).unwrap().unwrap();
    assert_eq!(r, Command::SetForegroundColor(rgb(255, 0, 0)));
    // first grayscale entry
    let r = handle_graphics_mode(&vec![48, 5, 232]).unwrap().unwrap();
    assert_eq!(r, Command::SetBackgroundColor(rgb(8, 8, 8)));
}

#[test]
fn indexed_color_out_of_range_fails() {
    assert_eq!(
        handle_graphics_mode(&vec![38, 5, 256]),
        Err(SgrError::InvalidColorCode)
    );
    assert_eq!(handle_graphics_mode(&vec![38, 5]), Err(SgrError::InvalidColorCode));
}

#[test]
fn palette_cube_and_grayscale_values() {
    assert_eq!(palette_color(16), rgb(0, 0, 0));
    assert_eq!(palette_color(17), rgb(0, 0, 95));
    assert_eq!(palette_color(21), rgb(0, 0, 255));
    assert_eq!(palette_color(231), rgb(255, 255, 255));
    assert_eq!(palette_color(232), rgb(8, 8, 8));
    assert_eq!(palette_color(255), rgb(238, 238, 238));
}

#[test]
fn palette_low_entries_mirror_ansi_table() {
    for i in 0..8u8 {
        assert_eq!(Some(palette_color(i)), ansi_color(30 + i as u32));
    }
    for i in 8..16u8 {
        assert_eq!(Some(palette_color(i)), ansi_color(90 + (i - 8) as u32));
    }
}

#[test]
fn style_codes_resolve() {
    assert_eq!(handle_graphics_mode(&vec![0]), Ok(Some(Command::Reset)));
    assert_eq!(handle_graphics_mode(&vec![]), Ok(Some(Command::Reset)));
    assert_eq!(handle_graphics_mode(&vec![3]), Ok(Some(Command::SetItalic)));
    assert_eq!(handle_graphics_mode(&vec![7]), Ok(Some(Command::ReverseColor)));
    assert_eq!(
        handle_graphics_mode(&vec![39]),
        Ok(Some(Command::ResetForegroundColor))
    );
    assert_eq!(
        handle_graphics_mode(&vec![49]),
        Ok(Some(Command::ResetBackgroundColor))
    );
    // unsupported codes are silently ignored
    assert_eq!(handle_graphics_mode(&vec![2]), Ok(None));
    assert_eq!(handle_graphics_mode(&vec![99]), Ok(None));
}

#[test]
fn tokenize_plain_text() {
    let toks = tokenize("plain");
    assert_eq!(toks, vec![Token::Text(String::from("plain"))]);
}

#[test]
fn tokenize_sgr_sequences() {
    let toks = tokenize("\x1b[31mHello\x1b[0m");
    assert_eq!(
        toks,
        vec![
            Token::Sgr(vec![31]),
            Token::Text(String::from("Hello")),
            Token::Sgr(vec![0]),
        ]
    );
    let toks = tokenize("\x1b[38;2;10;20;30mX");
    assert_eq!(
        toks,
        vec![Token::Sgr(vec![38, 2, 10, 20, 30]), Token::Text(String::from("X"))]
    );
    // a sequence with an empty parameter body carries no parameters
    assert_eq!(tokenize("\x1b[m"), vec![Token::Sgr(vec![])]);
    // empty pieces between separators count as zero
    assert_eq!(tokenize("\x1b[;5m"), vec![Token::Sgr(vec![0, 5])]);
}

#[test]
fn tokenize_skips_other_and_malformed_escapes() {
    // a recognized non-SGR control sequence renders nothing
    assert_eq!(
        tokenize("a\x1b[2Kb"),
        vec![
            Token::Text(String::from("a")),
            Token::Other,
            Token::Text(String::from("b")),
        ]
    );
    // an escape not opening a control sequence is skipped alone
    assert_eq!(
        tokenize("\x1bZrest"),
        vec![Token::Other, Token::Text(String::from("Zrest"))]
    );
    // input ending inside a sequence is skipped silently
    assert_eq!(tokenize("\x1b[12"), vec![Token::Other]);
    assert_eq!(tokenize("\x1b"), vec![Token::Other]);
    let toks = tokenize("x\x1b[2K\x1bZ");
    assert_eq!(count_skipped(&toks), 2);
}

#[test]
fn parse_ansi_builds_command_stream_in_order() {
    let cmds = parse_ansi("\x1b[31mHi\x1b[49m").unwrap();
    assert_eq!(
        cmds,
        vec![
            Command::SetForegroundColor(rgb(128, 0, 0)),
            Command::Text(String::from("Hi")),
            Command::ResetBackgroundColor,
        ]
    );
}

#[test]
fn parse_ansi_propagates_color_errors() {
    assert_eq!(parse_ansi("ok\x1b[38;6;1mrest"), Err(SgrError::InvalidColorSpec));
    assert_eq!(parse_ansi("\x1b[38;5mrest"), Err(SgrError::InvalidColorCode));
}

#[test]
fn extract_text_concatenates_runs() {
    let cmds = parse_ansi("A\x1b[31mB\x1b[0mC").unwrap();
    assert_eq!(extract_text(&cmds), String::from("ABC"));
}

#[test]
fn measure_counts_lines_and_longest_line() {
    assert_eq!(measure("plain"), (1, 5));
    assert_eq!(measure(""), (0, 0));
    assert_eq!(measure("AB\nC"), (2, 2));
    assert_eq!(measure("AB\n"), (1, 2));
    assert_eq!(measure("\nA"), (2, 1));
    assert_eq!(measure("a\n\nlonger"), (3, 6));
}
