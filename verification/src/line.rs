//! The command-line buffer of the host shell: the characters typed so
//! far and the cursor, edited one key at a time until the line is taken
//! and parsed as an administrative command.

use vstd::prelude::*;
use crate::text::string_of;

verus! {

/// One key, as the line editor reads it.
#[derive(Clone, Debug, PartialEq, Eq)]
pub enum KeyPress {
    /// Move the cursor left.
    Left,
    /// Move the cursor right.
    Right,
    /// Move the cursor to the start of the line.
    Home,
    /// Move the cursor to the last character.
    End,
    /// Remove the character before the cursor.
    Backspace,
    /// Submit the line; the editor leaves it unchanged.
    Enter,
    /// Any other control key: drop the line.
    Control,
    /// A pasted string.
    Str(Vec<char>),
    /// One printable character.
    Char(char),
    /// Anything else; the editor leaves the line unchanged.
    Other,
}

/// The line being edited: its characters and the cursor position, which
/// never passes the end of the line.
#[derive(Clone, Debug, PartialEq, Eq)]
pub struct CommandLine {
    /// The characters typed so far.
    pub buffer: Vec<char>,
    /// The cursor.
    pub position: usize,
}

impl CommandLine {
    /// The cursor stays inside the line.
    pub open spec fn wf(&self) -> bool {
        self.position <= self.buffer@.len()
    }

    /// An empty line.
    pub fn new() -> (r: CommandLine)
        ensures
            r.wf(),
            r.buffer@.len() == 0,
            r.position == 0,
    {
        CommandLine { buffer: Vec::new(), position: 0 }
    }

    /// The line's characters.
    pub fn content(&self) -> (r: String)
        ensures
            r@ == self.buffer@,
    {
        string_of(&self.buffer)
    }

    /// Empties the line.
    pub fn clear(&mut self)
        ensures
            final(self).wf(),
            final(self).buffer@.len() == 0,
            final(self).position == 0,
    {
        self.buffer.clear();
        self.position = 0;
    }

    /// Applies one key. A cursor key moves without leaving the line; a
    /// backspace removes the character before the cursor; a control key
    /// drops the line; a pasted string lands at the end of the line and
    /// pushes the cursor by its length; a printable character is taken
    /// only with the cursor at the end of the line; enter and anything
    /// else leave the line as it stands.
    #[verifier::rlimit(50)]
    pub fn feed(&mut self, key: KeyPress)
        requires
            old(self).wf(),
        ensures
            final(self).wf(),
            key is Left ==> final(self).buffer@ == old(self).buffer@ && final(self).position == (
            if old(self).position > 0 {
                old(self).position - 1
            } else {
                0
            }),
            key is Right ==> final(self).buffer@ == old(self).buffer@ && final(self).position == (
            if old(self).position + 1 < old(self).buffer@.len() {
                old(self).position + 1
            } else {
                old(self).position as int
            }),
            key is Home ==> final(self).buffer@ == old(self).buffer@ && final(self).position == 0,
            key is End ==> final(self).buffer@ == old(self).buffer@ && final(self).position == (
            if old(self).buffer@.len() > 0 {
                old(self).buffer@.len() - 1
            } else {
                0
            }),
            key is Backspace && old(self).position > 0 ==> final(self).buffer@ == old(self).buffer@.remove(old(self).position - 1) && final(self).position == old(self).position
                - 1,
            key is Backspace && old(self).position == 0 ==> final(self).buffer@ == old(self).buffer@ && final(self).position == old(self).position,
            key is Enter ==> final(self).buffer@ == old(self).buffer@ && final(self).position
                == old(self).position,
            key is Control ==> final(self).buffer@.len() == 0 && final(self).position == 0,
            key is Str && old(self).position + key->Str_0@.len() <= usize::MAX ==> final(self).buffer@ == old(self).buffer@ + key->Str_0@ && final(self).position == old(self).position + key->Str_0@.len(),
            key is Str && old(self).position + key->Str_0@.len() > usize::MAX ==> final(self).buffer@ == old(self).buffer@ && final(self).position == old(self).position,
            key is Char && old(self).position == old(self).buffer@.len() ==> final(self).buffer@
                == old(self).buffer@.push(key->Char_0) && final(self).position == old(self).position + 1,
            key is Char && old(self).position != old(self).buffer@.len() ==> final(self).buffer@
                == old(self).buffer@ && final(self).position == old(self).position,
            key is Other ==> final(self).buffer@ == old(self).buffer@ && final(self).position
                == old(self).position,
    {
        let ghost gkey = key;
        let _len_fits: usize = self.buffer.len();
        match key {
            KeyPress::Left => {
                if self.position > 0 {
                    self.position = self.position - 1;
                }
            },
            KeyPress::Right => {
                if self.position < usize::MAX && self.position + 1 < self.buffer.len() {
                    self.position = self.position + 1;
                }
            },
            KeyPress::Home => {
                self.position = 0;
            },
            KeyPress::End => {
                let n: usize = self.buffer.len();
                self.position = if n > 0 {
                    n - 1
                } else {
                    0
                };
            },
            KeyPress::Backspace => {
                if self.position > 0 {
                    let p: usize = self.position - 1;
                    self.buffer.remove(p);
                    self.position = p;
                }
            },
            KeyPress::Enter => {},
            KeyPress::Control => {
                self.buffer.clear();
                self.position = 0;
            },
            KeyPress::Str(cs) => {
                if cs.len() <= usize::MAX - self.position {
                    let ghost pre = self.buffer@;
                    let mut k: usize = 0;
                    let n: usize = cs.len();
                    while k < n
                        invariant
                            k <= n,
                            n == cs@.len(),
                            self.buffer@ == pre + cs@.subrange(0, k as int),
                            self.position == old(self).position,
                        decreases n - k,
                    {
                        self.buffer.push(cs[k]);
                        proof {
                            assert(cs@.subrange(0, k + 1) =~= cs@.subrange(0, k as int).push(
                                cs@[k as int],
                            ));
                            assert(pre + cs@.subrange(0, k + 1) =~= (pre + cs@.subrange(
                                0,
                                k as int,
                            )).push(cs@[k as int]));
                        }
                        k = k + 1;
                    }
                    proof {
                        assert(cs@.subrange(0, n as int) =~= cs@);
                    }
                    self.position = self.position + cs.len();
                }
            },
            KeyPress::Char(c) => {
                if self.position == self.buffer.len() {
                    self.buffer.push(c);
                    let grown: usize = self.buffer.len();
                    self.position = grown;
                }
            },
            KeyPress::Other => {},
        }
        proof {
            if gkey is Str && old(self).position + gkey->Str_0@.len() <= usize::MAX {
                assert(self.buffer@ =~= old(self).buffer@ + gkey->Str_0@);
            }
            if gkey is Char && old(self).position == old(self).buffer@.len() {
                assert(self.buffer@ =~= old(self).buffer@.push(gkey->Char_0));
            }
            if gkey is Backspace && old(self).position > 0 {
                assert(self.buffer@ =~= old(self).buffer@.remove(old(self).position - 1));
            }
        }
    }
}

impl Default for CommandLine {
    /// An empty line.
    fn default() -> (r: Self)
        ensures
            r.wf(),
            r.buffer@.len() == 0,
            r.position == 0,
    {
        CommandLine { buffer: Vec::new(), position: 0 }
    }
}

} // verus!
