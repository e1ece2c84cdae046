//! The layout state machine: how the command stream, walked once in
//! order, moves the cursor and emits paint operations.
//!
//! Every cell of text paints one background rectangle and places one
//! glyph; a line break paints nothing and returns the cursor to column
//! zero one line further down. Colors follow last-write-wins per
//! channel; `Reset` restores the default pair and clears the italic
//! flag; `ReverseColor` swaps the two channels at the moment it is
//! processed and is not sticky across later explicit sets.

use vstd::prelude::*;

use crate::canvas::transparent;
use crate::color::{default_background, default_foreground, Color};
use crate::command::CommandS;

verus! {

/// Fixed integer metrics of the character grid: the horizontal advance
/// of one character cell and the vertical line pitch, in pixels.
#[derive(Clone, Copy, Debug, PartialEq, Eq, Structural)]
pub struct Metrics {
    pub advance: usize,
    pub pitch: usize,
}

/// The running state of the paint pass: cursor position in pixels and
/// the active style.
pub struct LayoutState {
    pub cx: int,
    pub cy: int,
    pub fg: Color,
    pub bg: Color,
    pub italic: bool,
}

/// The state every paint pass starts from: origin cursor, white on
/// black, no style flags.
pub open spec fn init_state() -> LayoutState {
    LayoutState {
        cx: 0,
        cy: 0,
        fg: default_foreground(),
        bg: default_background(),
        italic: false,
    }
}

/// One background rectangle painted behind a character cell.
pub struct RectS {
    pub x: int,
    pub y: int,
    pub w: int,
    pub h: int,
    pub color: Color,
}

/// One glyph placement, handed to a font engine for rasterization:
/// which character, where, in which color, and whether the italic
/// variant is wanted.
#[derive(Clone, Copy, Debug, PartialEq, Eq, Structural)]
pub struct GlyphOp {
    pub ch: char,
    pub x: usize,
    pub y: usize,
    pub color: Color,
    pub italic: bool,
}

/// The mathematical image of a glyph placement, with exact positions.
pub struct GlyphS {
    pub ch: char,
    pub x: int,
    pub y: int,
    pub color: Color,
    pub italic: bool,
}

/// A concrete glyph op records exactly one spec-level placement.
pub open spec fn glyph_matches(g: GlyphOp, s: GlyphS) -> bool {
    &&& g.ch == s.ch
    &&& g.x as int == s.x
    &&& g.y as int == s.y
    &&& g.color == s.color
    &&& g.italic == s.italic
}

/// A list of concrete glyph ops records a spec-level placement list,
/// element for element.
pub open spec fn glyphs_match(gs: Seq<GlyphOp>, ss: Seq<GlyphS>) -> bool {
    &&& gs.len() == ss.len()
    &&& forall|i: int| 0 <= i < gs.len() ==> glyph_matches(gs[i], ss[i])
}

/// What painting one character does: a line break returns the cursor
/// to column zero one line pitch further down and paints nothing; any
/// other character paints its cell's background rectangle in the
/// active background color, places its glyph in the active foreground
/// color, and advances the cursor by one cell.
pub open spec fn char_step(m: Metrics, st: LayoutState, c: char) -> (
    LayoutState,
    Seq<RectS>,
    Seq<GlyphS>,
) {
    if c == '\n' {
        (LayoutState { cx: 0, cy: st.cy + m.pitch, ..st }, Seq::empty(), Seq::empty())
    } else {
        (
            LayoutState { cx: st.cx + m.advance, ..st },
            seq![
                RectS {
                    x: st.cx,
                    y: st.cy,
                    w: m.advance as int,
                    h: m.pitch as int,
                    color: st.bg,
                },
            ],
            seq![GlyphS { ch: c, x: st.cx, y: st.cy, color: st.fg, italic: st.italic }],
        )
    }
}

/// Painting a whole text run, character by character.
pub open spec fn text_step(m: Metrics, st: LayoutState, t: Seq<char>) -> (
    LayoutState,
    Seq<RectS>,
    Seq<GlyphS>,
)
    decreases t.len(),
{
    if t.len() == 0 {
        (st, Seq::empty(), Seq::empty())
    } else {
        let first = char_step(m, st, t[0]);
        let rest = text_step(m, first.0, t.drop_first());
        (rest.0, first.1 + rest.1, first.2 + rest.2)
    }
}

/// What one command does to the paint state. Only text paints; the
/// other commands adjust the active style and emit nothing.
pub open spec fn cmd_step(m: Metrics, st: LayoutState, c: CommandS) -> (
    LayoutState,
    Seq<RectS>,
    Seq<GlyphS>,
) {
    match c {
        CommandS::Text(t) => text_step(m, st, t),
        CommandS::Reset => (
            LayoutState {
                fg: default_foreground(),
                bg: default_background(),
                italic: false,
                ..st
            },
            Seq::empty(),
            Seq::empty(),
        ),
        CommandS::ResetForegroundColor => (
            LayoutState { fg: default_foreground(), ..st },
            Seq::empty(),
            Seq::empty(),
        ),
        CommandS::ResetBackgroundColor => (
            LayoutState { bg: default_background(), ..st },
            Seq::empty(),
            Seq::empty(),
        ),
        CommandS::ReverseColor => (
            LayoutState { fg: st.bg, bg: st.fg, ..st },
            Seq::empty(),
            Seq::empty(),
        ),
        CommandS::SetForegroundColor(col) => (
            LayoutState { fg: col, ..st },
            Seq::empty(),
            Seq::empty(),
        ),
        CommandS::SetBackgroundColor(col) => (
            LayoutState { bg: col, ..st },
            Seq::empty(),
            Seq::empty(),
        ),
        CommandS::SetItalic => (LayoutState { italic: true, ..st }, Seq::empty(), Seq::empty()),
    }
}

/// Running the commands `cmds[i..]` from a state: the final state and
/// every paint operation emitted, in order.
pub open spec fn run_commands(m: Metrics, st: LayoutState, cmds: Seq<CommandS>, i: int) -> (
    LayoutState,
    Seq<RectS>,
    Seq<GlyphS>,
)
    decreases cmds.len() - i,
{
    if i < 0 || i >= cmds.len() {
        (st, Seq::empty(), Seq::empty())
    } else {
        let first = cmd_step(m, st, cmds[i]);
        let rest = run_commands(m, first.0, cmds, i + 1);
        (rest.0, first.1 + rest.1, first.2 + rest.2)
    }
}

/// A rectangle covers a cell.
pub open spec fn covers(r: RectS, x: int, y: int) -> bool {
    r.x <= x < r.x + r.w && r.y <= y < r.y + r.h
}

/// The color a cell shows after the rectangles are painted, in order,
/// over a blank transparent canvas: the last rectangle covering the
/// cell wins.
pub open spec fn pixel_after(rects: Seq<RectS>, x: int, y: int) -> Color
    decreases rects.len(),
{
    if rects.len() == 0 {
        transparent()
    } else if covers(rects.last(), x, y) {
        rects.last().color
    } else {
        pixel_after(rects.drop_last(), x, y)
    }
}

/// `Reset` restores the same default color pair whatever state came
/// before, clears the italic flag, emits nothing, and is idempotent:
/// applying it twice in a row leaves exactly the state one application
/// leaves.
pub proof fn lemma_reset_restores_defaults(m: Metrics, st: LayoutState)
    ensures
        cmd_step(m, st, CommandS::Reset).0.fg == default_foreground(),
        cmd_step(m, st, CommandS::Reset).0.bg == default_background(),
        !cmd_step(m, st, CommandS::Reset).0.italic,
        cmd_step(m, st, CommandS::Reset).0.cx == st.cx,
        cmd_step(m, st, CommandS::Reset).0.cy == st.cy,
        cmd_step(m, cmd_step(m, st, CommandS::Reset).0, CommandS::Reset).0 == cmd_step(
            m,
            st,
            CommandS::Reset,
        ).0,
        cmd_step(m, st, CommandS::Reset).1 == Seq::<RectS>::empty(),
        cmd_step(m, st, CommandS::Reset).2 == Seq::<GlyphS>::empty(),
{
}

/// A line break paints no glyph and no background rectangle, always
/// returns the cursor to column zero, and moves it down one line pitch.
pub proof fn lemma_line_break(m: Metrics, st: LayoutState)
    ensures
        char_step(m, st, '\n').1 == Seq::<RectS>::empty(),
        char_step(m, st, '\n').2 == Seq::<GlyphS>::empty(),
        char_step(m, st, '\n').0.cx == 0,
        char_step(m, st, '\n').0.cy == st.cy + m.pitch,
        char_step(m, st, '\n').0.fg == st.fg,
        char_step(m, st, '\n').0.bg == st.bg,
{
}

/// Text never changes the active style.
pub proof fn lemma_text_keeps_style(m: Metrics, st: LayoutState, t: Seq<char>)
    ensures
        text_step(m, st, t).0.fg == st.fg,
        text_step(m, st, t).0.bg == st.bg,
        text_step(m, st, t).0.italic == st.italic,
    decreases t.len(),
{
    if t.len() > 0 {
        let first = char_step(m, st, t[0]);
        lemma_text_keeps_style(m, first.0, t.drop_first());
    }
}

/// Every background rectangle a text run paints uses the background
/// color that was active when the run began.
pub proof fn lemma_text_rect_style(m: Metrics, st: LayoutState, t: Seq<char>, i: int)
    requires
        0 <= i < text_step(m, st, t).1.len(),
    ensures
        text_step(m, st, t).1[i].color == st.bg,
    decreases t.len(),
{
    let first = char_step(m, st, t[0]);
    let rest = text_step(m, first.0, t.drop_first());
    if i < first.1.len() {
        assert(text_step(m, st, t).1[i] == first.1[i]);
    } else {
        assert(text_step(m, st, t).1[i] == rest.1[i - first.1.len()]);
        lemma_text_rect_style(m, first.0, t.drop_first(), i - first.1.len());
    }
}

/// Every glyph a text run places uses the foreground color and italic
/// flag that were active when the run began.
pub proof fn lemma_text_glyph_style(m: Metrics, st: LayoutState, t: Seq<char>, i: int)
    requires
        0 <= i < text_step(m, st, t).2.len(),
    ensures
        text_step(m, st, t).2[i].color == st.fg,
        text_step(m, st, t).2[i].italic == st.italic,
    decreases t.len(),
{
    let first = char_step(m, st, t[0]);
    let rest = text_step(m, first.0, t.drop_first());
    if i < first.2.len() {
        let g = GlyphS { ch: t[0], x: st.cx, y: st.cy, color: st.fg, italic: st.italic };
        vstd::seq::axiom_seq_push_len::<GlyphS>(Seq::empty(), g);
        vstd::seq::axiom_seq_push_index_same::<GlyphS>(Seq::empty(), g, 0);
        assert(text_step(m, st, t).2[i] == first.2[i]);
    } else {
        assert(text_step(m, st, t).2[i] == rest.2[i - first.2.len()]);
        lemma_text_glyph_style(m, first.0, t.drop_first(), i - first.2.len());
    }
}

} // verus!
