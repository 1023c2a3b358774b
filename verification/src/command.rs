//! The administrative command surface: one whitespace-delimited line,
//! opened by the word `neko`, parsed into the operation it asks for. The
//! host reads the line, hands it here, and performs the parsed command.

use vstd::prelude::*;
use crate::persona::{sheet_of_name, Cardinal, Sheet};
use crate::tooltip::Relative;
use crate::text::{
    chars_of, int_grammar, int_value, parse_i64, split_words, string_of, str_eq, words_of,
};

verus! {

/// One administrative command, over character sequences.
pub enum CommandKind {
    Debug,
    Install(Seq<char>),
    Uninstall(Seq<char>),
    Mount(Seq<char>, Option<i64>),
    Unmount(Seq<char>),
    Update(Seq<char>),
    PersonaCoordinates(u16, u16),
    PersonaCardinal(Cardinal),
    PersonaSheet(Sheet),
    TooltipCardinal(Relative),
    TooltipMessage(Seq<char>),
    Invalid,
}

/// What `parse::<i64>().ok()` yields for a word.
pub open spec fn spec_i64_opt(w: Seq<char>) -> Option<i64> {
    if int_grammar(w) && i64::MIN <= int_value(w) <= i64::MAX {
        Some(int_value(w) as i64)
    } else {
        None
    }
}

/// Whether a word reads as a `u16`: unsigned numeral, value at most
/// `u16::MAX`.
pub open spec fn spec_u16_ok(w: Seq<char>) -> bool {
    int_grammar(w) && w[0] != '-' && 0 <= int_value(w) <= 65535
}

/// The compass position a word names.
pub open spec fn cardinal_of_name(w: Seq<char>) -> Option<Cardinal> {
    if w == "UpperLeft"@ {
        Some(Cardinal::UpperLeft)
    } else if w == "UpperMiddle"@ {
        Some(Cardinal::UpperMiddle)
    } else if w == "UpperRight"@ {
        Some(Cardinal::UpperRight)
    } else if w == "MiddleLeft"@ {
        Some(Cardinal::MiddleLeft)
    } else if w == "MiddleCentral"@ {
        Some(Cardinal::MiddleCentral)
    } else if w == "MiddleRight"@ {
        Some(Cardinal::MiddleRight)
    } else if w == "LowerLeft"@ {
        Some(Cardinal::LowerLeft)
    } else if w == "LowerMiddle"@ {
        Some(Cardinal::LowerMiddle)
    } else if w == "LowerRight"@ {
        Some(Cardinal::LowerRight)
    } else {
        None
    }
}

/// The tooltip side a word names.
pub open spec fn relative_of_name(w: Seq<char>) -> Option<Relative> {
    if w == "Top"@ {
        Some(Relative::Top)
    } else if w == "Bottom"@ {
        Some(Relative::Bottom)
    } else if w == "Right"@ {
        Some(Relative::Right)
    } else if w == "Left"@ {
        Some(Relative::Left)
    } else {
        None
    }
}

/// The command a word list asks for: `None` unless it opens with `neko`;
/// `Invalid` for an unknown shape. A `persona` with two arguments moves
/// by coordinates; with one, it names a compass position or a sheet. A
/// `tooltip` with one argument names a side or sets a one-word message.
pub open spec fn spec_command(w: Seq<Seq<char>>) -> Option<CommandKind> {
    if w.len() < 1 || w[0] != "neko"@ {
        None
    } else {
        Some(
            if w.len() == 2 && w[1] == "debug"@ {
                CommandKind::Debug
            } else if w.len() == 3 && w[1] == "install"@ {
                CommandKind::Install(w[2])
            } else if w.len() == 3 && w[1] == "uninstall"@ {
                CommandKind::Uninstall(w[2])
            } else if w.len() == 4 && w[1] == "mount"@ {
                CommandKind::Mount(w[2], spec_i64_opt(w[3]))
            } else if w.len() == 3 && w[1] == "mount"@ {
                CommandKind::Mount(w[2], None)
            } else if w.len() == 3 && w[1] == "unmount"@ {
                CommandKind::Unmount(w[2])
            } else if w.len() == 3 && w[1] == "update"@ {
                CommandKind::Update(w[2])
            } else if w.len() == 4 && w[1] == "persona"@ {
                if spec_u16_ok(w[2]) && spec_u16_ok(w[3]) {
                    CommandKind::PersonaCoordinates(
                        int_value(w[2]) as u16,
                        int_value(w[3]) as u16,
                    )
                } else {
                    CommandKind::Invalid
                }
            } else if w.len() == 3 && w[1] == "persona"@ {
                match cardinal_of_name(w[2]) {
                    Some(c) => CommandKind::PersonaCardinal(c),
                    None => match sheet_of_name(w[2]) {
                        Some(s) => CommandKind::PersonaSheet(s),
                        None => CommandKind::Invalid,
                    },
                }
            } else if w.len() == 3 && w[1] == "tooltip"@ {
                match relative_of_name(w[2]) {
                    Some(rel) => CommandKind::TooltipCardinal(rel),
                    None => CommandKind::TooltipMessage(w[2]),
                }
            } else {
                CommandKind::Invalid
            },
        )
    }
}

/// One administrative command, as the host receives it.
#[derive(Clone, Debug, PartialEq, Eq)]
pub enum AdminCommand {
    /// Show the current persona and tooltip.
    Debug,
    /// Install the plugin at a remote URL.
    Install(String),
    /// Uninstall the named plugin.
    Uninstall(String),
    /// Mount the named plugin, at an explicit priority when one parsed.
    Mount(String, Option<i64>),
    /// Unmount the named plugin.
    Unmount(String),
    /// Update the named plugin.
    Update(String),
    /// Move the persona to an explicit cell.
    PersonaCoordinates(u16, u16),
    /// Move the persona to a compass position.
    PersonaCardinal(Cardinal),
    /// Select the persona's sheet.
    PersonaSheet(Sheet),
    /// Move the tooltip to a side of the persona.
    TooltipCardinal(Relative),
    /// Set the tooltip's message.
    TooltipMessage(String),
    /// A `neko` line that fits no command shape.
    Invalid,
}

/// The `CommandKind` that an `AdminCommand` stands for.
pub open spec fn command_view(c: AdminCommand) -> CommandKind {
    match c {
        AdminCommand::Debug => CommandKind::Debug,
        AdminCommand::Install(s) => CommandKind::Install(s@),
        AdminCommand::Uninstall(s) => CommandKind::Uninstall(s@),
        AdminCommand::Mount(s, p) => CommandKind::Mount(s@, p),
        AdminCommand::Unmount(s) => CommandKind::Unmount(s@),
        AdminCommand::Update(s) => CommandKind::Update(s@),
        AdminCommand::PersonaCoordinates(x, y) => CommandKind::PersonaCoordinates(x, y),
        AdminCommand::PersonaCardinal(c) => CommandKind::PersonaCardinal(c),
        AdminCommand::PersonaSheet(s) => CommandKind::PersonaSheet(s),
        AdminCommand::TooltipCardinal(r) => CommandKind::TooltipCardinal(r),
        AdminCommand::TooltipMessage(s) => CommandKind::TooltipMessage(s@),
        AdminCommand::Invalid => CommandKind::Invalid,
    }
}

/// Reads a `u16` word, as `parse::<u16>().ok()` does.
fn parse_u16(w: &Vec<char>) -> (r: Option<u16>)
    ensures
        r == (if spec_u16_ok(w@) {
            Some(int_value(w@) as u16)
        } else {
            None::<u16>
        }),
{
    if w.len() == 0 {
        return None;
    }
    if w[0] == '-' {
        return None;
    }
    match parse_i64(w) {
        None => None,
        Some(p) => {
            if 0 <= p && p <= 65535 {
                Some(p as u16)
            } else {
                None
            }
        },
    }
}

/// The compass position `name` names.
pub fn cardinal_from_name(name: &str) -> (r: Option<Cardinal>)
    ensures
        r == cardinal_of_name(name@),
{
    if str_eq(name, "UpperLeft") {
        Some(Cardinal::UpperLeft)
    } else if str_eq(name, "UpperMiddle") {
        Some(Cardinal::UpperMiddle)
    } else if str_eq(name, "UpperRight") {
        Some(Cardinal::UpperRight)
    } else if str_eq(name, "MiddleLeft") {
        Some(Cardinal::MiddleLeft)
    } else if str_eq(name, "MiddleCentral") {
        Some(Cardinal::MiddleCentral)
    } else if str_eq(name, "MiddleRight") {
        Some(Cardinal::MiddleRight)
    } else if str_eq(name, "LowerLeft") {
        Some(Cardinal::LowerLeft)
    } else if str_eq(name, "LowerMiddle") {
        Some(Cardinal::LowerMiddle)
    } else if str_eq(name, "LowerRight") {
        Some(Cardinal::LowerRight)
    } else {
        None
    }
}

/// The tooltip side `name` names.
pub fn relative_from_name(name: &str) -> (r: Option<Relative>)
    ensures
        r == relative_of_name(name@),
{
    if str_eq(name, "Top") {
        Some(Relative::Top)
    } else if str_eq(name, "Bottom") {
        Some(Relative::Bottom)
    } else if str_eq(name, "Right") {
        Some(Relative::Right)
    } else if str_eq(name, "Left") {
        Some(Relative::Left)
    } else {
        None
    }
}

/// Parses one command line, as `spec_command` reads its words.
pub fn parse_command(line: &str) -> (r: Option<AdminCommand>)
    ensures
        match r {
            Some(c) => spec_command(words_of(line@)) == Some(command_view(c)),
            None => spec_command(words_of(line@)) is None,
        },
{
    let v: Vec<char> = chars_of(line);
    let words: Vec<Vec<char>> = split_words(&v);
    let ghost w = words@.map_values(|x: Vec<char>| x@);
    let n: usize = words.len();
    if n < 1 {
        return None;
    }
    let w0: String = string_of(&words[0]);
    if !str_eq(w0.as_str(), "neko") {
        return None;
    }
    if n == 2 {
        let w1: String = string_of(&words[1]);
        if str_eq(w1.as_str(), "debug") {
            return Some(AdminCommand::Debug);
        }
        return Some(AdminCommand::Invalid);
    }
    if n == 3 {
        let w1: String = string_of(&words[1]);
        let w2: String = string_of(&words[2]);
        if str_eq(w1.as_str(), "install") {
            return Some(AdminCommand::Install(w2));
        }
        if str_eq(w1.as_str(), "uninstall") {
            return Some(AdminCommand::Uninstall(w2));
        }
        if str_eq(w1.as_str(), "mount") {
            return Some(AdminCommand::Mount(w2, None));
        }
        if str_eq(w1.as_str(), "unmount") {
            return Some(AdminCommand::Unmount(w2));
        }
        if str_eq(w1.as_str(), "update") {
            return Some(AdminCommand::Update(w2));
        }
        if str_eq(w1.as_str(), "persona") {
            match cardinal_from_name(w2.as_str()) {
                Some(c) => {
                    return Some(AdminCommand::PersonaCardinal(c));
                },
                None => {
                    match Sheet::from_name(w2.as_str()) {
                        Some(s) => {
                            return Some(AdminCommand::PersonaSheet(s));
                        },
                        None => {
                            return Some(AdminCommand::Invalid);
                        },
                    }
                },
            }
        }
        if str_eq(w1.as_str(), "tooltip") {
            match relative_from_name(w2.as_str()) {
                Some(rel) => {
                    return Some(AdminCommand::TooltipCardinal(rel));
                },
                None => {
                    return Some(AdminCommand::TooltipMessage(w2));
                },
            }
        }
        return Some(AdminCommand::Invalid);
    }
    if n == 4 {
        let w1: String = string_of(&words[1]);
        if str_eq(w1.as_str(), "mount") {
            let w2: String = string_of(&words[2]);
            let prio: Option<i64> = parse_i64(&words[3]);
            return Some(AdminCommand::Mount(w2, prio));
        }
        if str_eq(w1.as_str(), "persona") {
            let x: Option<u16> = parse_u16(&words[2]);
            let y: Option<u16> = parse_u16(&words[3]);
            match (x, y) {
                (Some(a), Some(b)) => {
                    return Some(AdminCommand::PersonaCoordinates(a, b));
                },
                _ => {
                    return Some(AdminCommand::Invalid);
                },
            }
        }
        return Some(AdminCommand::Invalid);
    }
    Some(AdminCommand::Invalid)
}

} // verus!
