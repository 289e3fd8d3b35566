//! The terminal commands.
use crate::terminal;
use crate::terminal::TerminalStartOptions;
use vstd::prelude::*;

verus! {

/// The size that a terminal is to have.
#[derive(Debug, Clone, Copy, PartialEq, Eq, Structural)]
pub struct TerminalResizeOptions {
    pub cols: Option<u32>,
    pub rows: Option<u32>,
}

/// What a terminal starts with, where it is asked for without options.
pub fn hermes_terminal_start(options: Option<TerminalStartOptions>) -> (r: TerminalStartOptions)
    ensures
        match options {
            Some(given) => r == given,
            None => r.cwd is None && r.cols is None && r.rows is None,
        },
{
    match options {
        Some(given) => given,
        None => TerminalStartOptions { cwd: None, cols: None, rows: None },
    }
}

/// The columns and rows that a terminal is resized to.
pub fn hermes_terminal_resize(size: Option<TerminalResizeOptions>) -> (r: (u16, u16))
    ensures
        ({
            let (cols, rows) = match size {
                Some(size) => (size.cols, size.rows),
                None => (None, None),
            };
            &&& r.0 == terminal::clamped(cols, terminal::DEFAULT_COLS)
            &&& r.1 == terminal::clamped(rows, terminal::DEFAULT_ROWS)
        }),
{
    let asked = match size {
        Some(size) => size,
        None => TerminalResizeOptions { cols: None, rows: None },
    };
    (
        terminal::clamp_dimension(asked.cols, terminal::DEFAULT_COLS),
        terminal::clamp_dimension(asked.rows, terminal::DEFAULT_ROWS),
    )
}

/// A terminal is started with what it is asked for, and with the defaults where it
/// is asked for nothing.
pub proof fn a_terminal_is_started_with_what_is_asked_for(
    asked: TerminalStartOptions,
    r: TerminalStartOptions,
    none: TerminalStartOptions,
)
    requires
        call_ensures(hermes_terminal_start, (Some(asked),), r),
        call_ensures(hermes_terminal_start, (None::<TerminalStartOptions>,), none),
    ensures
        r == asked,
        none.cwd is None && none.cols is None && none.rows is None,
{
}

/// A terminal is made as large as it is asked to be, its columns and its rows each
/// for themselves, and eighty by twenty-four where it is asked for nothing.
pub proof fn a_terminal_is_resized_as_asked(
    cols: u32,
    rows: u32,
    r: (u16, u16),
    none: (u16, u16),
)
    requires
        call_ensures(
            hermes_terminal_resize,
            (Some(TerminalResizeOptions { cols: Some(cols), rows: Some(rows) }),),
            r,
        ),
        call_ensures(hermes_terminal_resize, (None::<TerminalResizeOptions>,), none),
    ensures
        2 <= cols <= 65535 ==> r.0 == cols,
        2 <= rows <= 65535 ==> r.1 == rows,
        r.0 >= 2 && r.1 >= 2,
        none.0 == 80 && none.1 == 24,
{
    terminal::a_terminal_is_never_too_small(Some(cols), 80);
    terminal::a_terminal_is_never_too_small(Some(rows), 24);
}

} // verus!
