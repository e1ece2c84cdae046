//! The SGR interpreter: resolves the numeric parameter list of one
//! "Select Graphics Rendition" escape sequence into at most one command.
//!
//! Only the first recognized attribute of a sequence is interpreted; a
//! sequence that groups several attributes yields the command for the
//! first one, a documented limitation of the design. Unknown codes
//! produce no command and no error; a malformed extended-color payload
//! is an error.

use vstd::prelude::*;

use crate::color::{ansi_color, ansi_color_spec, palette_color, palette_color_spec, rgb, Color};
use crate::command::{Command, CommandS};

verus! {

/// Why resolving one SGR parameter list failed.
#[derive(Debug, Clone, Copy, PartialEq, Eq, Structural)]
pub enum SgrError {
    /// A `38`/`48` extended-color payload is malformed: an unknown
    /// sub-mode, fewer than three truecolor components, or a component
    /// above 255.
    InvalidColorSpec,
    /// A `38;5`/`48;5` indexed color names no entry of the 256-entry
    /// palette: the index is missing or above 255.
    InvalidColorCode,
}

/// What the interpreter returns for one SGR parameter list. An empty
/// list counts as the single parameter `0`, as terminals treat it.
pub open spec fn interpret_sgr_spec(params: Seq<u32>) -> Result<Option<CommandS>, SgrError> {
    let code = if params.len() == 0 {
        0
    } else {
        params[0]
    };
    if code == 0 {
        Ok(Some(CommandS::Reset))
    } else if code == 3 {
        Ok(Some(CommandS::SetItalic))
    } else if code == 7 {
        Ok(Some(CommandS::ReverseColor))
    } else if 30 <= code <= 37 || 90 <= code <= 97 {
        Ok(Some(CommandS::SetForegroundColor(ansi_color_spec(code)->Some_0)))
    } else if 40 <= code <= 47 || 100 <= code <= 107 {
        Ok(Some(CommandS::SetBackgroundColor(ansi_color_spec(code)->Some_0)))
    } else if code == 39 {
        Ok(Some(CommandS::ResetForegroundColor))
    } else if code == 49 {
        Ok(Some(CommandS::ResetBackgroundColor))
    } else if code == 38 || code == 48 {
        if params.len() >= 2 && params[1] == 2 {
            if params.len() >= 5 && params[2] <= 255 && params[3] <= 255 && params[4] <= 255 {
                let c = rgb(params[2] as u8, params[3] as u8, params[4] as u8);
                if code == 38 {
                    Ok(Some(CommandS::SetForegroundColor(c)))
                } else {
                    Ok(Some(CommandS::SetBackgroundColor(c)))
                }
            } else {
                Err(SgrError::InvalidColorSpec)
            }
        } else if params.len() >= 2 && params[1] == 5 {
            if params.len() >= 3 && params[2] <= 255 {
                let c = palette_color_spec(params[2] as u8);
                if code == 38 {
                    Ok(Some(CommandS::SetForegroundColor(c)))
                } else {
                    Ok(Some(CommandS::SetBackgroundColor(c)))
                }
            } else {
                Err(SgrError::InvalidColorCode)
            }
        } else {
            Err(SgrError::InvalidColorSpec)
        }
    } else {
        Ok(None)
    }
}

/// Resolves one SGR parameter list into at most one command, exactly as
/// [`interpret_sgr_spec`] describes.
pub fn handle_graphics_mode(params: &Vec<u32>) -> (r: Result<Option<Command>, SgrError>)
    ensures
        match (r, interpret_sgr_spec(params@)) {
            (Ok(Some(c)), Ok(Some(cs))) => c@ == cs,
            (Ok(None), Ok(None)) => true,
            (Err(e), Err(es)) => e == es,
            _ => false,
        },
{
    let code: u32 = if params.len() == 0 {
        0
    } else {
        params[0]
    };
    if code == 0 {
        Ok(Some(Command::Reset))
    } else if code == 3 {
        Ok(Some(Command::SetItalic))
    } else if code == 7 {
        Ok(Some(Command::ReverseColor))
    } else if 30 <= code && code <= 37 || 90 <= code && code <= 97 {
        Ok(Some(Command::SetForegroundColor(ansi_color(code).unwrap())))
    } else if 40 <= code && code <= 47 || 100 <= code && code <= 107 {
        Ok(Some(Command::SetBackgroundColor(ansi_color(code).unwrap())))
    } else if code == 39 {
        Ok(Some(Command::ResetForegroundColor))
    } else if code == 49 {
        Ok(Some(Command::ResetBackgroundColor))
    } else if code == 38 || code == 48 {
        if params.len() >= 2 && params[1] == 2 {
            if params.len() >= 5 && params[2] <= 255 && params[3] <= 255 && params[4] <= 255 {
                let c = Color {
                    r: params[2] as u8,
                    g: params[3] as u8,
                    b: params[4] as u8,
                    a: 255,
                };
                if code == 38 {
                    Ok(Some(Command::SetForegroundColor(c)))
                } else {
                    Ok(Some(Command::SetBackgroundColor(c)))
                }
            } else {
                Err(SgrError::InvalidColorSpec)
            }
        } else if params.len() >= 2 && params[1] == 5 {
            if params.len() >= 3 && params[2] <= 255 {
                let c = palette_color(params[2] as u8);
                if code == 38 {
                    Ok(Some(Command::SetForegroundColor(c)))
                } else {
                    Ok(Some(Command::SetBackgroundColor(c)))
                }
            } else {
                Err(SgrError::InvalidColorCode)
            }
        } else {
            Err(SgrError::InvalidColorSpec)
        }
    } else {
        Ok(None)
    }
}

/// Every valid 16-color code resolves to exactly its fixed table entry:
/// codes 30-37 and 90-97 set the foreground, 40-47 and 100-107 set the
/// background, always to the color the 16-entry table gives.
pub proof fn lemma_sixteen_color_codes(code: u32)
    requires
        30 <= code <= 37 || 90 <= code <= 97 || 40 <= code <= 47 || 100 <= code <= 107,
    ensures
        ansi_color_spec(code) is Some,
        30 <= code <= 37 || 90 <= code <= 97 ==> interpret_sgr_spec(seq![code]) == Ok::<
            Option<CommandS>,
            SgrError,
        >(Some(CommandS::SetForegroundColor(ansi_color_spec(code)->Some_0))),
        40 <= code <= 47 || 100 <= code <= 107 ==> interpret_sgr_spec(seq![code]) == Ok::<
            Option<CommandS>,
            SgrError,
        >(Some(CommandS::SetBackgroundColor(ansi_color_spec(code)->Some_0))),
{
}

/// A truecolor sequence `38;2;R;G;B` always resolves the foreground to
/// exactly `(R, G, B, 255)`, and `48;2;R;G;B` the background, for every
/// `R`, `G`, `B` in `0..=255`.
pub proof fn lemma_truecolor(code: u32, r: u32, g: u32, b: u32)
    requires
        code == 38 || code == 48,
        r <= 255,
        g <= 255,
        b <= 255,
    ensures
        code == 38 ==> interpret_sgr_spec(seq![code, 2, r, g, b]) == Ok::<
            Option<CommandS>,
            SgrError,
        >(Some(CommandS::SetForegroundColor(rgb(r as u8, g as u8, b as u8)))),
        code == 48 ==> interpret_sgr_spec(seq![code, 2, r, g, b]) == Ok::<
            Option<CommandS>,
            SgrError,
        >(Some(CommandS::SetBackgroundColor(rgb(r as u8, g as u8, b as u8)))),
{
}

/// An indexed sequence `38;5;N` (or `48;5;N`) always succeeds for `N` in
/// `0..=255` and returns exactly the fixed palette entry; for `N` above
/// 255 it fails with [`SgrError::InvalidColorCode`].
pub proof fn lemma_indexed_color(code: u32, n: u32)
    requires
        code == 38 || code == 48,
    ensures
        code == 38 && n <= 255 ==> interpret_sgr_spec(seq![code, 5, n]) == Ok::<
            Option<CommandS>,
            SgrError,
        >(Some(CommandS::SetForegroundColor(palette_color_spec(n as u8)))),
        code == 48 && n <= 255 ==> interpret_sgr_spec(seq![code, 5, n]) == Ok::<
            Option<CommandS>,
            SgrError,
        >(Some(CommandS::SetBackgroundColor(palette_color_spec(n as u8)))),
        n > 255 ==> interpret_sgr_spec(seq![code, 5, n]) == Err::<Option<CommandS>, SgrError>(
            SgrError::InvalidColorCode,
        ),
{
}

} // verus!
