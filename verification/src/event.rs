//! The host-side view of the terminal session: the window size and the one
//! event record that a dispatch pass consumes.

use vstd::prelude::*;

verus! {

/// The size of the hosting terminal window, in character cells.
#[derive(Clone, Copy, Debug, PartialEq, Eq, Structural)]
pub struct Winszed {
    /// Rows of the window.
    pub ws_row: u16,
    /// Columns of the window.
    pub ws_col: u16,
}

impl Winszed {
    /// The number of rows.
    pub fn get_row(&self) -> (r: usize)
        ensures
            r == self.ws_row as usize,
    {
        self.ws_row as usize
    }

    /// The number of columns.
    pub fn get_col(&self) -> (r: usize)
        ensures
            r == self.ws_col as usize,
    {
        self.ws_col as usize
    }
}

impl Default for Winszed {
    /// An empty window size.
    fn default() -> (r: Self)
        ensures
            r.ws_row == 0 && r.ws_col == 0,
    {
        Winszed { ws_row: 0, ws_col: 0 }
    }
}

/// One key-down payload: either a single unicode code or a pasted string.
#[derive(Clone, Debug, PartialEq, Eq)]
pub enum KeyDown {
    /// A single key, as its unicode code.
    Char(u64),
    /// A pasted or composed byte string.
    Str(Vec<u8>),
}

/// One incoming session event, as the record of the payloads it carries.
/// An event that carries none of them is an idle tick.
#[derive(Clone, Debug, Default)]
pub struct Event {
    /// A delivered signal number.
    pub signal: Option<i32>,
    /// A pressed key.
    pub keydown: Option<KeyDown>,
    /// A key-repeat delay.
    pub keyrepeat: Option<u64>,
    /// A key-repeat interval.
    pub keyinterval: Option<i64>,
    /// A mouse action: code, pressed (else released), column, row.
    pub mouse: Option<(u32, bool, u16, u16)>,
    /// The raw bytes read from the terminal input.
    pub input: Option<Vec<u8>>,
    /// The raw bytes last written to the terminal output.
    pub output: Option<Vec<u8>>,
    /// A change of the foreground child task: name bytes and pid.
    pub task: Option<(Vec<u8>, i32)>,
}

impl Event {
    /// An event that carries no payload: an idle tick.
    pub fn idle() -> (r: Event)
        ensures
            r.signal is None,
            r.keydown is None,
            r.keyrepeat is None,
            r.keyinterval is None,
            r.mouse is None,
            r.input is None,
            r.output is None,
            r.task is None,
    {
        Event {
            signal: None,
            keydown: None,
            keyrepeat: None,
            keyinterval: None,
            mouse: None,
            input: None,
            output: None,
            task: None,
        }
    }
}

} // verus!
