//! The rendering pipeline: raw text to command stream to painted
//! canvas.
//!
//! `parse_ansi` turns the input into the flat command stream, in input
//! order; `extract_text` concatenates its text runs for the sizing
//! pre-pass; `draw_image` composes both with the layout engine.

use vstd::arithmetic::mul::lemma_mul_inequality;
use vstd::prelude::*;
use vstd::string::StrSliceExecFns;
use vstd::string::StringExecFns;

use crate::canvas::{in_grid, Canvas};
use crate::color::Color;
use crate::command::{Command, CommandS};
use crate::layout::{
    char_step, cmd_step, glyphs_match, init_state, pixel_after, run_commands, text_step, GlyphOp,
    GlyphS, LayoutState, Metrics, RectS,
};
use crate::sgr::{handle_graphics_mode, interpret_sgr_spec, SgrError};
use crate::text::{
    column_after, lemma_column_bounded_by_max_line, lemma_newline_count_prefix,
    lemma_newline_le_line_count, lemma_row_bounded_by_line_count, line_count, max_line_length,
    measure, newline_count,
};
use crate::tokenizer::{tokenize, tokenize_spec, Token, TokenS};

verus! {

broadcast use vstd::seq::group_seq_axioms;

/// The command stream produced by the tokens `toks[i..]`: text runs
/// and interpreted SGR sequences in input order, effect-free escapes
/// dropped. The result is the first color-resolution error if one
/// occurs, processed front to back.
pub open spec fn commands_from(toks: Seq<TokenS>, i: int) -> Result<Seq<CommandS>, SgrError>
    decreases toks.len() - i,
{
    if i < 0 || i >= toks.len() {
        Ok(Seq::empty())
    } else {
        let rest = commands_from(toks, i + 1);
        match toks[i] {
            TokenS::Text(t) => match rest {
                Ok(cs) => Ok(seq![CommandS::Text(t)] + cs),
                Err(e) => Err(e),
            },
            TokenS::Other => rest,
            TokenS::Sgr(ps) => match interpret_sgr_spec(ps) {
                Err(e) => Err(e),
                Ok(None) => rest,
                Ok(Some(c)) => match rest {
                    Ok(cs) => Ok(seq![c] + cs),
                    Err(e) => Err(e),
                },
            },
        }
    }
}

/// The command stream of a whole input text.
pub open spec fn parse_ansi_spec(s: Seq<char>) -> Result<Seq<CommandS>, SgrError> {
    commands_from(tokenize_spec(s), 0)
}

/// Turns raw input into the flat command stream, exactly as
/// [`parse_ansi_spec`] describes: the commands in input order on
/// success, the first color-resolution error otherwise. Escapes with
/// no rendering effect are skipped; they are counted by
/// [`count_skipped`] as diagnostics.
pub fn parse_ansi(text: &str) -> (r: Result<Vec<Command>, SgrError>)
    ensures
        match r {
            Ok(cmds) => parse_ansi_spec(text@) == Ok::<Seq<CommandS>, SgrError>(
                cmds@.map_values(|c: Command| c@),
            ),
            Err(e) => parse_ansi_spec(text@) == Err::<Seq<CommandS>, SgrError>(e),
        },
{
    let tokens = tokenize(text);
    let ghost tv = tokens@.map_values(|t: Token| t@);
    let mut cmds: Vec<Command> = Vec::new();
    let mut i: usize = 0;
    while i < tokens.len()
        invariant
            0 <= i <= tokens.len(),
            tv == tokens@.map_values(|t: Token| t@),
            tv == tokenize_spec(text@),
            commands_from(tv, 0) == (match commands_from(tv, i as int) {
                Ok(rest) => Ok::<Seq<CommandS>, SgrError>(
                    cmds@.map_values(|c: Command| c@) + rest,
                ),
                Err(e) => Err::<Seq<CommandS>, SgrError>(e),
            }),
        decreases tokens.len() - i,
    {
        let ghost done = cmds@.map_values(|c: Command| c@);
        match &tokens[i] {
            Token::Text(s) => {
                cmds.push(Command::Text(s.clone()));
                proof {
                    assert(cmds@.map_values(|c: Command| c@) =~= done.push(CommandS::Text(s@)));
                    if let Ok(rest) = commands_from(tv, i + 1) {
                        assert(done.push(CommandS::Text(s@)) + rest =~= done + (seq![
                            CommandS::Text(s@),
                        ] + rest));
                    }
                }
            },
            Token::Other => {},
            Token::Sgr(ps) => {
                match handle_graphics_mode(ps) {
                    Ok(Some(c)) => {
                        let ghost cv = c@;
                        cmds.push(c);
                        proof {
                            assert(cmds@.map_values(|c: Command| c@) =~= done.push(cv));
                            if let Ok(rest) = commands_from(tv, i + 1) {
                                assert(done.push(cv) + rest =~= done + (seq![cv] + rest));
                            }
                        }
                    },
                    Ok(None) => {},
                    Err(e) => {
                        return Err(e);
                    },
                }
            },
        }
        i = i + 1;
    }
    proof {
        assert(cmds@.map_values(|c: Command| c@) + Seq::<CommandS>::empty() =~= cmds@.map_values(
            |c: Command| c@,
        ));
    }
    Ok(cmds)
}

/// How many tokens of the stream carry no rendering effect: the
/// recoverable anomalies the tokenizer skipped.
pub open spec fn skipped_count(toks: Seq<TokenS>) -> nat
    decreases toks.len(),
{
    if toks.len() == 0 {
        0
    } else {
        skipped_count(toks.drop_last()) + if toks.last() is Other {
            1nat
        } else {
            0nat
        }
    }
}

/// Counts the effect-free escapes of an input: the diagnostics a
/// rendering run records without failing.
pub fn count_skipped(tokens: &Vec<Token>) -> (n: usize)
    ensures
        n == skipped_count(tokens@.map_values(|t: Token| t@)),
{
    let ghost tv = tokens@.map_values(|t: Token| t@);
    let mut n: usize = 0;
    let mut i: usize = 0;
    while i < tokens.len()
        invariant
            0 <= i <= tokens.len(),
            tv == tokens@.map_values(|t: Token| t@),
            n == skipped_count(tv.take(i as int)),
            n <= i,
        decreases tokens.len() - i,
    {
        proof {
            assert(tv.take(i + 1).drop_last() =~= tv.take(i as int));
        }
        match &tokens[i] {
            Token::Other => {
                n = n + 1;
            },
            _ => {},
        }
        i = i + 1;
    }
    proof {
        assert(tv.take(tokens@.len() as int) =~= tv);
    }
    n
}

/// The plain text of a command stream: the contents of its text runs,
/// concatenated in order, styles ignored.
pub open spec fn extracted_text(cmds: Seq<CommandS>) -> Seq<char>
    decreases cmds.len(),
{
    if cmds.len() == 0 {
        Seq::empty()
    } else {
        extracted_text(cmds.drop_last()) + (match cmds.last() {
            CommandS::Text(t) => t,
            _ => Seq::empty(),
        })
    }
}

/// Concatenates the text runs of a command stream, for the sizing
/// pre-pass.
pub fn extract_text(commands: &Vec<Command>) -> (r: String)
    ensures
        r@ == extracted_text(commands@.map_values(|c: Command| c@)),
{
    let ghost cv = commands@.map_values(|c: Command| c@);
    let mut out = String::new();
    let mut i: usize = 0;
    while i < commands.len()
        invariant
            0 <= i <= commands.len(),
            cv == commands@.map_values(|c: Command| c@),
            out@ == extracted_text(cv.take(i as int)),
        decreases commands.len() - i,
    {
        proof {
            assert(cv.take(i + 1).drop_last() =~= cv.take(i as int));
        }
        match &commands[i] {
            Command::Text(t) => {
                out.append(t.as_str());
            },
            _ => {},
        }
        i = i + 1;
    }
    proof {
        assert(cv.take(commands@.len() as int) =~= cv);
    }
    out
}

/// Splitting a command stream anywhere splits its plain text at the
/// same place.
pub proof fn lemma_extracted_append(a: Seq<CommandS>, b: Seq<CommandS>)
    ensures
        extracted_text(a + b) == extracted_text(a) + extracted_text(b),
    decreases b.len(),
{
    if b.len() == 0 {
        assert(a + b =~= a);
        assert(extracted_text(a) + extracted_text(b) =~= extracted_text(a));
    } else {
        lemma_extracted_append(a, b.drop_last());
        assert((a + b).drop_last() =~= a + b.drop_last());
        let tail = (match b.last() {
            CommandS::Text(t) => t,
            _ => Seq::<char>::empty(),
        });
        assert((a + b).last() == b.last());
        assert(extracted_text(a + b) == extracted_text(a) + extracted_text(b.drop_last()) + tail);
        assert(extracted_text(a) + extracted_text(b.drop_last()) + tail =~= extracted_text(a)
            + extracted_text(b));
    }
}

/// Input with no escape sequence at all renders entirely in the
/// default style: its command stream is a single text run (or empty),
/// and every background rectangle and every glyph the layout run emits
/// uses the default background and foreground pair, with no style flag
/// set.
pub proof fn lemma_plain_input_defaults(s: Seq<char>, m: Metrics)
    requires
        forall|k: int| 0 <= k < s.len() ==> !crate::tokenizer::is_escape(s[k]),
    ensures
        parse_ansi_spec(s) is Ok,
        extracted_text(parse_ansi_spec(s)->Ok_0) == s,
        forall|j: int|
            0 <= j < run_commands(m, init_state(), parse_ansi_spec(s)->Ok_0, 0).1.len()
                ==> run_commands(m, init_state(), parse_ansi_spec(s)->Ok_0, 0).1[j].color
                == crate::color::default_background(),
        forall|j: int|
            0 <= j < run_commands(m, init_state(), parse_ansi_spec(s)->Ok_0, 0).2.len() ==> (
            run_commands(m, init_state(), parse_ansi_spec(s)->Ok_0, 0).2[j].color
                == crate::color::default_foreground() && !run_commands(
                m,
                init_state(),
                parse_ansi_spec(s)->Ok_0,
                0,
            ).2[j].italic),
{
    crate::tokenizer::lemma_tokenize_no_escape(s);
    if s.len() == 0 {
        assert(parse_ansi_spec(s) == Ok::<Seq<CommandS>, SgrError>(Seq::empty()));
        assert(extracted_text(Seq::<CommandS>::empty()) =~= s);
    } else {
        let toks = seq![TokenS::Text(s)];
        assert(commands_from(toks, 1) == Ok::<Seq<CommandS>, SgrError>(Seq::empty()));
        let cs = seq![CommandS::Text(s)];
        assert(seq![CommandS::Text(s)] + Seq::<CommandS>::empty() =~= cs);
        assert(parse_ansi_spec(s) == Ok::<Seq<CommandS>, SgrError>(cs));
        vstd::seq::axiom_seq_push_len::<CommandS>(Seq::empty(), CommandS::Text(s));
        vstd::seq::axiom_seq_push_index_same::<CommandS>(Seq::empty(), CommandS::Text(s), 0);
        assert(cs.last() == CommandS::Text(s));
        assert(cs.drop_last() =~= Seq::<CommandS>::empty());
        assert(Seq::<char>::empty() + s =~= s);
        assert(extracted_text(cs.drop_last()) == Seq::<char>::empty());
        assert(extracted_text(cs) == extracted_text(cs.drop_last()) + s);
        assert(extracted_text(cs) =~= s);
        let run = run_commands(m, init_state(), cs, 0);
        let ts = text_step(m, init_state(), s);
        assert(run_commands(m, ts.0, cs, 1).1 == Seq::<RectS>::empty());
        assert(run.1 =~= ts.1);
        assert(run.2 =~= ts.2);
        assert forall|j: int| 0 <= j < run.1.len() implies run.1[j].color
            == crate::color::default_background() by {
            crate::layout::lemma_text_rect_style(m, init_state(), s, j);
        }
        assert forall|j: int| 0 <= j < run.2.len() implies (run.2[j].color
            == crate::color::default_foreground() && !run.2[j].italic) by {
            crate::layout::lemma_text_glyph_style(m, init_state(), s, j);
        }
    }
}

/// Why rendering failed: a malformed extended-color payload, an
/// out-of-range palette index, or a canvas too large for this machine.
#[derive(Debug, Clone, Copy, PartialEq, Eq, Structural)]
pub enum RenderError {
    /// A `38`/`48` payload was malformed; see [`SgrError::InvalidColorSpec`].
    InvalidColorSpec,
    /// An indexed color named no palette entry; see [`SgrError::InvalidColorCode`].
    InvalidColorCode,
    /// The canvas the text asks for does not fit the pixel and buffer
    /// limits of this machine.
    CanvasTooLarge,
}

/// A finished rendering: the canvas with every background cell
/// painted, and the glyph placements for a font engine to rasterize
/// on top of it.
pub struct RenderOutput {
    pub canvas: Canvas,
    pub glyphs: Vec<GlyphOp>,
}

/// The canvas a text asks for fits this machine: both dimensions fit a
/// 32-bit pixel coordinate and the pixel buffer fits in memory.
pub open spec fn canvas_dims_fit(t: Seq<char>, m: Metrics) -> bool {
    &&& max_line_length(t) * m.advance <= u32::MAX
    &&& line_count(t) * m.pitch <= u32::MAX
    &&& (max_line_length(t) * m.advance) * (line_count(t) * m.pitch) <= usize::MAX
}

/// Renders the input: parses it into the command stream, sizes the
/// canvas from its plain text (width the longest line times the
/// advance, height the line count times the pitch), then walks the
/// stream once, painting every character cell's background and
/// collecting every glyph placement. Empty input yields an empty
/// canvas. Fails exactly on a color-resolution error or a canvas this
/// machine cannot hold; every cell of the finished canvas holds the
/// color the layout run prescribes.
pub fn draw_image(input: &str, metrics: Metrics) -> (r: Result<RenderOutput, RenderError>)
    ensures
        match r {
            Ok(out) => {
                &&& parse_ansi_spec(input@) is Ok
                &&& {
                    let cs = parse_ansi_spec(input@)->Ok_0;
                    let t = extracted_text(cs);
                    let run = run_commands(metrics, init_state(), cs, 0);
                    &&& canvas_dims_fit(t, metrics)
                    &&& out.canvas.wf()
                    &&& out.canvas.width == max_line_length(t) * metrics.advance
                    &&& out.canvas.height == line_count(t) * metrics.pitch
                    &&& forall|x: int, y: int|
                        in_grid(out.canvas.width as int, out.canvas.height as int, x, y)
                            ==> out.canvas.color_at(x, y) == pixel_after(run.1, x, y)
                    &&& glyphs_match(out.glyphs@, run.2)
                }
            },
            Err(e) => match e {
                RenderError::InvalidColorSpec => parse_ansi_spec(input@) == Err::<
                    Seq<CommandS>,
                    SgrError,
                >(SgrError::InvalidColorSpec),
                RenderError::InvalidColorCode => parse_ansi_spec(input@) == Err::<
                    Seq<CommandS>,
                    SgrError,
                >(SgrError::InvalidColorCode),
                RenderError::CanvasTooLarge => parse_ansi_spec(input@) is Ok
                    && !canvas_dims_fit(
                    extracted_text(parse_ansi_spec(input@)->Ok_0),
                    metrics,
                ),
            },
        },
{
    let commands = match parse_ansi(input) {
        Ok(c) => c,
        Err(e) => {
            return Err(
                match e {
                    SgrError::InvalidColorSpec => RenderError::InvalidColorSpec,
                    SgrError::InvalidColorCode => RenderError::InvalidColorCode,
                },
            );
        },
    };
    let ghost cv = commands@.map_values(|c: Command| c@);
    let text = extract_text(&commands);
    let ghost t = text@;
    let (lines, maxw) = measure(text.as_str());
    let width = match maxw.checked_mul(metrics.advance) {
        Some(w) => w,
        None => {
            return Err(RenderError::CanvasTooLarge);
        },
    };
    if width > u32::MAX as usize {
        return Err(RenderError::CanvasTooLarge);
    }
    let height = match lines.checked_mul(metrics.pitch) {
        Some(h) => h,
        None => {
            return Err(RenderError::CanvasTooLarge);
        },
    };
    if height > u32::MAX as usize {
        return Err(RenderError::CanvasTooLarge);
    }
    if width.checked_mul(height).is_none() {
        return Err(RenderError::CanvasTooLarge);
    }
    let mut canvas = Canvas::new(width, height);
    let mut glyphs: Vec<GlyphOp> = Vec::new();
    let mut cx: usize = 0;
    let mut cy: usize = 0;
    let mut fg = Color { r: 255, g: 255, b: 255, a: 255 };
    let mut bg = Color { r: 0, g: 0, b: 0, a: 255 };
    let mut italic = false;
    let ghost full = run_commands(metrics, init_state(), cv, 0);
    let ghost mut st = init_state();
    let ghost mut rects: Seq<RectS> = Seq::empty();
    let ghost mut gss: Seq<GlyphS> = Seq::empty();
    let ghost mut done_text: Seq<char> = Seq::empty();
    proof {
        assert(cv.take(0) =~= Seq::<CommandS>::empty());
        assert(column_after(done_text) == 0);
        assert(newline_count(done_text) == 0);
    }
    let mut i: usize = 0;
    while i < commands.len()
        invariant
            0 <= i <= commands.len(),
            cv == commands@.map_values(|c: Command| c@),
            t == extracted_text(cv),
            width == max_line_length(t) * metrics.advance,
            height == line_count(t) * metrics.pitch,
            st.cx == cx as int,
            st.cy == cy as int,
            st.fg == fg,
            st.bg == bg,
            st.italic == italic,
            full == run_commands(metrics, init_state(), cv, 0),
            ({
                let rem = run_commands(metrics, st, cv, i as int);
                full.0 == rem.0 && full.1 == rects + rem.1 && full.2 == gss + rem.2
            }),
            canvas.wf(),
            canvas.width == width,
            canvas.height == height,
            forall|x: int, y: int|
                in_grid(width as int, height as int, x, y) ==> canvas.color_at(x, y)
                    == pixel_after(rects, x, y),
            glyphs_match(glyphs@, gss),
            done_text == extracted_text(cv.take(i as int)),
            cx as int == column_after(done_text) * metrics.advance,
            cy as int == newline_count(done_text) * metrics.pitch,
        decreases commands.len() - i,
    {
        let ghost rem_entry = run_commands(metrics, st, cv, i as int);
        proof {
            assert(cv[i as int] == commands@[i as int]@);
        }
        match &commands[i] {
            Command::Text(s) => {
                let run = s.as_str();
                let n = run.unicode_len();
                let ghost tv = run@;
                let ghost ext_rest = extracted_text(cv.skip(i + 1));
                proof {
                    // decompose the total text around this run
                    assert(cv.take(i + 1) + cv.skip(i + 1) =~= cv);
                    lemma_extracted_append(cv.take(i + 1), cv.skip(i + 1));
                    assert(cv.take(i + 1).drop_last() =~= cv.take(i as int));
                    assert(cv.take(i + 1).last() == cv[i as int]);
                    assert(extracted_text(cv.take(i + 1)) == done_text + tv);
                    assert(t == done_text + tv + ext_rest);
                    assert(tv.skip(0) =~= tv);
                }
                let mut k: usize = 0;
                while k < n
                    invariant
                        0 <= k <= n,
                        n == tv.len(),
                        tv == run@,
                        cv == commands@.map_values(|c: Command| c@),
                        i < commands.len(),
                        cv[i as int] == CommandS::Text(tv),
                        t == extracted_text(cv),
                        width == max_line_length(t) * metrics.advance,
                        height == line_count(t) * metrics.pitch,
                        st.cx == cx as int,
                        st.cy == cy as int,
                        st.fg == fg,
                        st.bg == bg,
                        st.italic == italic,
                        full == run_commands(metrics, init_state(), cv, 0),
                        ({
                            let trem = text_step(metrics, st, tv.skip(k as int));
                            let after = run_commands(metrics, trem.0, cv, i + 1);
                            full.0 == after.0 && full.1 == rects + trem.1 + after.1 && full.2
                                == gss + trem.2 + after.2
                        }),
                        canvas.wf(),
                        canvas.width == width,
                        canvas.height == height,
                        forall|x: int, y: int|
                            in_grid(width as int, height as int, x, y) ==> canvas.color_at(x, y)
                                == pixel_after(rects, x, y),
                        glyphs_match(glyphs@, gss),
                        done_text == extracted_text(cv.take(i as int)) + tv.take(k as int),
                        t == done_text + tv.skip(k as int) + ext_rest,
                        cx as int == column_after(done_text) * metrics.advance,
                        cy as int == newline_count(done_text) * metrics.pitch,
                    decreases n - k,
                {
                    let c = run.get_char(k);
                    let ghost done0 = done_text;
                    let ghost st0 = st;
                    let ghost kk = done_text.len() as int;
                    proof {
                        // this character is the next one of the total text
                        assert(t[kk] == (done_text + tv.skip(k as int) + ext_rest)[kk]);
                        assert((done_text + tv.skip(k as int) + ext_rest)[kk] == tv.skip(
                            k as int,
                        )[0]);
                        assert(c == t[kk]);
                        assert(t.take(kk) =~= done_text);
                        assert(t.take(kk + 1) =~= done_text.push(c));
                        assert(kk < t.len());
                        // unfold the remaining text run by one character
                        assert(tv.skip(k as int).drop_first() =~= tv.skip(k + 1));
                        st = char_step(metrics, st, c).0;
                        done_text = done_text.push(c);
                        assert(done_text.drop_last() =~= done0);
                        assert(done_text.last() == c);
                        assert(done_text.len() == done0.len() + 1);
                    }
                    if c == '\n' {
                        proof {
                            lemma_newline_count_prefix(t, kk + 1);
                            lemma_newline_le_line_count(t);
                            assert(newline_count(done_text) == newline_count(done0) + 1);
                            assert(newline_count(done_text) <= line_count(t));
                            lemma_mul_inequality(
                                newline_count(done_text) as int,
                                line_count(t) as int,
                                metrics.pitch as int,
                            );
                            assert((newline_count(done0) + 1) * metrics.pitch == newline_count(
                                done0,
                            ) * metrics.pitch + metrics.pitch) by (nonlinear_arith);
                            assert(column_after(done_text) == 0);
                            assert(column_after(done_text) * metrics.advance == 0)
                                by (nonlinear_arith)
                                requires
                                    column_after(done_text) == 0,
                            ;
                        }
                        cx = 0;
                        cy = cy + metrics.pitch;
                        proof {
                            let trem0 = text_step(metrics, st0, tv.skip(k as int));
                            let trem1 = text_step(metrics, st, tv.skip(k + 1));
                            assert(trem0.0 == trem1.0);
                            assert(trem0.1 =~= trem1.1);
                            assert(trem0.2 =~= trem1.2);
                        }
                    } else {
                        proof {
                            // column and row bounds for this cell
                            assert(column_after(done_text) == column_after(done0) + 1);
                            lemma_column_bounded_by_max_line(t, kk + 1);
                            assert(column_after(done_text) <= max_line_length(t));
                            lemma_mul_inequality(
                                column_after(done_text) as int,
                                max_line_length(t) as int,
                                metrics.advance as int,
                            );
                            assert((column_after(done0) + 1) * metrics.advance == column_after(
                                done0,
                            ) * metrics.advance + metrics.advance) by (nonlinear_arith);
                            lemma_row_bounded_by_line_count(t, kk);
                            assert(newline_count(done0) + 1 <= line_count(t));
                            lemma_mul_inequality(
                                newline_count(done0) as int + 1,
                                line_count(t) as int,
                                metrics.pitch as int,
                            );
                            assert((newline_count(done0) + 1) * metrics.pitch == newline_count(
                                done0,
                            ) * metrics.pitch + metrics.pitch) by (nonlinear_arith);
                            assert(cx + metrics.advance <= width);
                            assert(cy + metrics.pitch <= height);
                            assert(newline_count(done_text) == newline_count(done0));
                        }
                        let ghost rect = RectS {
                            x: cx as int,
                            y: cy as int,
                            w: metrics.advance as int,
                            h: metrics.pitch as int,
                            color: bg,
                        };
                        let ghost glyph = GlyphS {
                            ch: c,
                            x: cx as int,
                            y: cy as int,
                            color: fg,
                            italic: italic,
                        };
                        canvas.fill_rect(cx, cy, metrics.advance, metrics.pitch, bg);
                        let ghost old_glyphs = glyphs@;
                        glyphs.push(GlyphOp { ch: c, x: cx, y: cy, color: fg, italic: italic });
                        proof {
                            let old_rects = rects;
                            let old_gss = gss;
                            rects = rects.push(rect);
                            gss = gss.push(glyph);
                            assert(rects.drop_last() =~= old_rects);
                            assert(rects.last() == rect);
                            assert forall|x: int, y: int|
                                in_grid(width as int, height as int, x, y) implies canvas.color_at(
                                x,
                                y,
                            ) == pixel_after(rects, x, y) by {}
                            assert(glyphs@ == old_glyphs.push(GlyphOp { ch: c, x: cx, y: cy, color: fg, italic: italic }));
                            assert(glyphs_match(glyphs@, gss)) by {
                                assert forall|j: int| 0 <= j < glyphs@.len() implies
                                    crate::layout::glyph_matches(glyphs@[j], gss[j]) by {
                                    if j < old_gss.len() {
                                        assert(glyphs@[j] == old_glyphs[j]);
                                        assert(gss[j] == old_gss[j]);
                                    }
                                }
                            }
                            // one character of the run becomes one rect and one glyph
                            let trem0 = text_step(metrics, st0, tv.skip(k as int));
                            let trem1 = text_step(metrics, st, tv.skip(k + 1));
                            let after = run_commands(metrics, trem1.0, cv, i + 1);
                            assert(trem0.0 == trem1.0);
                            assert(trem0.1 =~= seq![rect] + trem1.1);
                            assert(trem0.2 =~= seq![glyph] + trem1.2);
                            assert(old_rects + (seq![rect] + trem1.1) + after.1 =~= rects
                                + trem1.1 + after.1);
                            assert(old_gss + (seq![glyph] + trem1.2) + after.2 =~= gss + trem1.2
                                + after.2);
                        }
                        cx = cx + metrics.advance;
                    }
                    k = k + 1;
                }
                proof {
                    assert(tv.skip(n as int) =~= Seq::<char>::empty());
                    assert(tv.take(n as int) =~= tv);
                    let trem = text_step(metrics, st, tv.skip(n as int));
                    assert(trem.0 == st);
                    let after = run_commands(metrics, st, cv, i + 1);
                    assert(rects + trem.1 + after.1 =~= rects + after.1);
                    assert(gss + trem.2 + after.2 =~= gss + after.2);
                    assert(cv.take(i + 1).drop_last() =~= cv.take(i as int));
                    assert(extracted_text(cv.take(i + 1)) == done_text);
                }
            },
            _ => {
                proof {
                    let step = cmd_step(metrics, st, cv[i as int]);
                    let after = run_commands(metrics, step.0, cv, i + 1);
                    assert(step.1 =~= Seq::<RectS>::empty());
                    assert(step.2 =~= Seq::<GlyphS>::empty());
                    assert(rects + step.1 + after.1 =~= rects + after.1);
                    assert(gss + step.2 + after.2 =~= gss + after.2);
                    assert(rem_entry.1 == step.1 + after.1);
                    st = step.0;
                    assert(cv.take(i + 1).drop_last() =~= cv.take(i as int));
                    assert(extracted_text(cv.take(i + 1)) == done_text + Seq::<char>::empty());
                    assert(done_text + Seq::<char>::empty() =~= done_text);
                }
                match &commands[i] {
                    Command::Reset => {
                        fg = Color { r: 255, g: 255, b: 255, a: 255 };
                        bg = Color { r: 0, g: 0, b: 0, a: 255 };
                        italic = false;
                    },
                    Command::ResetForegroundColor => {
                        fg = Color { r: 255, g: 255, b: 255, a: 255 };
                    },
                    Command::ResetBackgroundColor => {
                        bg = Color { r: 0, g: 0, b: 0, a: 255 };
                    },
                    Command::ReverseColor => {
                        let tmp = fg;
                        fg = bg;
                        bg = tmp;
                    },
                    Command::SetForegroundColor(c) => {
                        fg = *c;
                    },
                    Command::SetBackgroundColor(c) => {
                        bg = *c;
                    },
                    Command::SetItalic => {
                        italic = true;
                    },
                    Command::Text(_) => {},
                }
            },
        }
        i = i + 1;
    }
    proof {
        let rem = run_commands(metrics, st, cv, commands@.len() as int);
        assert(full.1 == rects + rem.1);
        assert(rects + rem.1 =~= rects);
        assert(full.2 == gss + rem.2);
        assert(gss + rem.2 =~= gss);
    }
    Ok(RenderOutput { canvas, glyphs })
}

} // verus!
