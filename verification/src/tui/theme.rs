//! The colours of the interface.
use vstd::prelude::*;
use crate::text::str_eq;
use crate::tui::styled::Tint;
use crate::tui::tool_block::ToolFamily;

verus! {

pub const PRIMARY: Tint = Tint::Cyan;
pub const SECONDARY: Tint = Tint::Blue;
pub const SUCCESS: Tint = Tint::Green;
pub const WARNING: Tint = Tint::Yellow;
pub const ERROR: Tint = Tint::Red;
pub const TEXT: Tint = Tint::White;
pub const TEXT_DIM: Tint = Tint::DarkGray;
pub const TEXT_MUTED: Tint = Tint::Gray;
pub const SURFACE: Tint = Tint::Black;
pub const BORDER: Tint = Tint::DarkGray;
pub const SPINNER: Tint = Tint::Cyan;

pub const TOOL_CREATE: Tint = Tint::Green;
pub const TOOL_EDIT: Tint = Tint::Yellow;
pub const TOOL_DELETE: Tint = Tint::Red;
pub const TOOL_READ: Tint = Tint::Magenta;
pub const TOOL_RUN: Tint = Tint::Cyan;
pub const TOOL_SEARCH: Tint = Tint::Blue;
pub const TOOL_DEFAULT: Tint = Tint::DarkGray;

/// The colour of a tool by its name.
pub open spec fn tool_tint(name: Seq<char>) -> Tint {
    if name == "file_write"@ {
        TOOL_CREATE
    } else if name == "file_edit"@ {
        TOOL_EDIT
    } else if name == "file_read"@ {
        TOOL_READ
    } else if name == "shell"@ {
        TOOL_RUN
    } else if name == "grep"@ || name == "glob"@ {
        TOOL_SEARCH
    } else if name == "git_commit"@ || name == "git_diff"@ || name == "git_status"@ {
        TOOL_RUN
    } else {
        TOOL_DEFAULT
    }
}

/// The colour of a tool by its name.
pub fn tool_color(tool_name: &str) -> (r: Tint)
    ensures
        r == tool_tint(tool_name@),
{
    if str_eq(tool_name, "file_write") {
        TOOL_CREATE
    } else if str_eq(tool_name, "file_edit") {
        TOOL_EDIT
    } else if str_eq(tool_name, "file_read") {
        TOOL_READ
    } else if str_eq(tool_name, "shell") {
        TOOL_RUN
    } else if str_eq(tool_name, "grep") || str_eq(tool_name, "glob") {
        TOOL_SEARCH
    } else if str_eq(tool_name, "git_commit") || str_eq(tool_name, "git_diff") || str_eq(tool_name, "git_status") {
        TOOL_RUN
    } else {
        TOOL_DEFAULT
    }
}

/// The colour of the context gauge: a warning from 80 percent on, an error
/// from 95 percent on.
pub open spec fn bar_tint(pct: nat) -> Tint {
    if pct >= 95 {
        ERROR
    } else if pct >= 80 {
        WARNING
    } else {
        PRIMARY
    }
}

/// The colour of the context gauge for `pct` percent.
pub fn context_bar_color(pct: u8) -> (r: Tint)
    ensures
        r == bar_tint(pct as nat),
{
    if pct >= 95 {
        ERROR
    } else if pct >= 80 {
        WARNING
    } else {
        PRIMARY
    }
}

/// The colour of a family of tools, as the colours of its tools go.
pub open spec fn family_tint(f: ToolFamily) -> Tint {
    match f {
        ToolFamily::Read => TOOL_READ,
        ToolFamily::Patch => TOOL_EDIT,
        ToolFamily::Run => TOOL_RUN,
        ToolFamily::Find => TOOL_SEARCH,
        _ => TOOL_DEFAULT,
    }
}

/// The colour of a family of tools.
pub fn family_color(f: ToolFamily) -> (r: Tint)
    ensures
        r == family_tint(f),
{
    match f {
        ToolFamily::Read => TOOL_READ,
        ToolFamily::Patch => TOOL_EDIT,
        ToolFamily::Run => TOOL_RUN,
        ToolFamily::Find => TOOL_SEARCH,
        _ => TOOL_DEFAULT,
    }
}

} // verus!
