//! The command stream: one tagged variant per unit of rendering intent.
//!
//! Commands appear in exactly the order their triggering input appeared;
//! a `Text` run is rendered with whatever style commands preceded it.

use vstd::prelude::*;

use crate::color::Color;

verus! {

/// One unit of rendering intent, produced by the SGR interpreter and
/// consumed in order by the layout engine.
#[derive(Debug, PartialEq)]
pub enum Command {
    /// Restore both colors to the default pair and clear style flags.
    Reset,
    /// Restore only the foreground color to its default.
    ResetForegroundColor,
    /// Restore only the background color to its default.
    ResetBackgroundColor,
    /// Swap the current foreground and background colors.
    ReverseColor,
    /// Set the foreground to an explicit color.
    SetForegroundColor(Color),
    /// Set the background to an explicit color.
    SetBackgroundColor(Color),
    /// Record the italic style flag.
    SetItalic,
    /// Emit a run of literal characters with the currently active style.
    Text(String),
}

/// The mathematical image of a [`Command`], with text as a `Seq<char>`.
pub enum CommandS {
    Reset,
    ResetForegroundColor,
    ResetBackgroundColor,
    ReverseColor,
    SetForegroundColor(Color),
    SetBackgroundColor(Color),
    SetItalic,
    Text(Seq<char>),
}

impl View for Command {
    type V = CommandS;

    open spec fn view(&self) -> CommandS {
        match self {
            Command::Reset => CommandS::Reset,
            Command::ResetForegroundColor => CommandS::ResetForegroundColor,
            Command::ResetBackgroundColor => CommandS::ResetBackgroundColor,
            Command::ReverseColor => CommandS::ReverseColor,
            Command::SetForegroundColor(c) => CommandS::SetForegroundColor(*c),
            Command::SetBackgroundColor(c) => CommandS::SetBackgroundColor(*c),
            Command::SetItalic => CommandS::SetItalic,
            Command::Text(s) => CommandS::Text(s@),
        }
    }
}

} // verus!
