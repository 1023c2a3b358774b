//! The tooltip part of the shared state: where the bubble stands relative
//! to the persona and the fixed-capacity message buffer it shows.

use vstd::prelude::*;
use crate::text::chars_of;

verus! {

/// Capacity of the tooltip message buffer, in characters.
pub const SPEC_MESSAGE: usize = 1024;

/// Where the tooltip stands relative to the persona.
#[derive(Clone, Copy, Debug, Hash, PartialEq, Eq, Structural)]
pub enum Relative {
    Top,
    Bottom,
    Right,
    Left,
}

impl Default for Relative {
    /// To the right of the persona.
    fn default() -> (r: Self)
        ensures
            r == Relative::Right,
    {
        Relative::Right
    }
}

/// One cell of the message buffer.
#[derive(Clone, Copy, Debug, PartialEq, Eq, Structural)]
pub struct Character {
    /// The glyph shown in the cell; `'\0'` for an empty cell.
    pub glyph: char,
}

impl Character {
    /// Whether the cell holds a line break.
    pub open spec fn spec_is_enter(&self) -> bool {
        self.glyph == '\n'
    }

    /// Whether the cell is empty.
    pub open spec fn spec_is_null(&self) -> bool {
        self.glyph == '\0'
    }

    /// Whether the cell holds a line break.
    pub fn is_enter(&self) -> (r: bool)
        ensures
            r == self.spec_is_enter(),
    {
        self.glyph == '\n'
    }

    /// Whether the cell is empty.
    pub fn is_null(&self) -> (r: bool)
        ensures
            r == self.spec_is_null(),
    {
        self.glyph == '\0'
    }

    /// The glyph of the cell.
    pub fn get_glyph(&self) -> (r: char)
        ensures
            r == self.glyph,
    {
        self.glyph
    }

    /// Empties the cell.
    pub fn clear(&mut self)
        ensures
            final(self).glyph == '\0',
    {
        self.glyph = '\0';
    }
}

impl From<char> for Character {
    /// The cell holding one glyph.
    fn from(glyph: char) -> (r: Character) {
        Character { glyph }
    }
}

impl vstd::std_specs::convert::FromSpecImpl<char> for Character {
    open spec fn obeys_from_spec() -> bool {
        true
    }

    open spec fn from_spec(glyph: char) -> Character {
        Character { glyph }
    }
}

impl Default for Character {
    /// An empty cell.
    fn default() -> (r: Self)
        ensures
            r.glyph == '\0',
    {
        Character { glyph: '\0' }
    }
}

/// The tooltip: its side and its message buffer. The buffer always holds
/// `SPEC_MESSAGE` cells; a message shorter than that is null-padded.
#[derive(Clone, Debug)]
pub struct Tooltip {
    /// Where the tooltip stands relative to the persona.
    pub cardinal: Relative,
    /// The message buffer, always `SPEC_MESSAGE` cells.
    pub message: Vec<Character>,
}

/// How many cells of `s` hold a line break.
pub open spec fn count_enters(s: Seq<Character>) -> int
    decreases s.len(),
{
    if s.len() == 0 {
        0
    } else {
        count_enters(s.drop_last()) + (if s.last().spec_is_enter() {
            1int
        } else {
            0int
        })
    }
}

/// The smallest index of an empty cell in `s`, or `-1`.
pub open spec fn first_null(s: Seq<Character>) -> int
    decreases s.len(),
{
    if s.len() == 0 {
        -1
    } else if s[0].spec_is_null() {
        0
    } else if first_null(s.subrange(1, s.len() as int)) == -1 {
        -1
    } else {
        1 + first_null(s.subrange(1, s.len() as int))
    }
}

/// `first_null` points at the first empty cell.
pub proof fn lemma_first_null(s: Seq<Character>)
    ensures
        -1 <= first_null(s) < s.len(),
        first_null(s) >= 0 ==> s[first_null(s)].spec_is_null(),
        forall|i: int| #![trigger s[i]] 0 <= i < first_null(s) ==> !s[i].spec_is_null(),
        first_null(s) == -1 ==> forall|i: int| #![trigger s[i]] 0 <= i < s.len()
            ==> !s[i].spec_is_null(),
    decreases s.len(),
{
    if s.len() > 0 && !s[0].spec_is_null() {
        let t = s.subrange(1, s.len() as int);
        lemma_first_null(t);
        assert(forall|i: int| 0 <= i < t.len() ==> t[i] == s[i + 1]);
        assert(forall|i: int| #![trigger s[i]] 1 <= i < s.len() ==> s[i] == t[i - 1]);
    }
}

/// The smallest index of a line break in `s`, or `-1`.
pub open spec fn first_enter(s: Seq<Character>) -> int
    decreases s.len(),
{
    if s.len() == 0 {
        -1
    } else if s[0].spec_is_enter() {
        0
    } else if first_enter(s.subrange(1, s.len() as int)) == -1 {
        -1
    } else {
        1 + first_enter(s.subrange(1, s.len() as int))
    }
}

/// `first_enter` points at the first line break.
pub proof fn lemma_first_enter(s: Seq<Character>)
    ensures
        -1 <= first_enter(s) < s.len(),
        first_enter(s) >= 0 ==> s[first_enter(s)].spec_is_enter(),
        forall|i: int| #![trigger s[i]] 0 <= i < first_enter(s) ==> !s[i].spec_is_enter(),
        first_enter(s) == -1 ==> forall|i: int| #![trigger s[i]] 0 <= i < s.len()
            ==> !s[i].spec_is_enter(),
    decreases s.len(),
{
    if s.len() > 0 && !s[0].spec_is_enter() {
        let t = s.subrange(1, s.len() as int);
        lemma_first_enter(t);
        assert(forall|i: int| 0 <= i < t.len() ==> t[i] == s[i + 1]);
        assert(forall|i: int| #![trigger s[i]] 1 <= i < s.len() ==> s[i] == t[i - 1]);
    }
}

/// The shown length of one line: up to its first empty cell, else whole.
pub open spec fn eff_len(s: Seq<Character>) -> int {
    if first_null(s) == -1 {
        s.len() as int
    } else {
        first_null(s)
    }
}

/// The width of a buffer: the largest shown length among the lines that
/// its line breaks separate.
pub open spec fn width_of(s: Seq<Character>) -> int
    decreases s.len(),
{
    let e = first_enter(s);
    if 0 <= e < s.len() {
        let head = eff_len(s.subrange(0, e));
        let rest = width_of(s.subrange(e + 1, s.len() as int));
        if head > rest {
            head
        } else {
            rest
        }
    } else {
        eff_len(s)
    }
}

/// A width is never negative.
pub proof fn lemma_width_nonneg(s: Seq<Character>)
    ensures
        width_of(s) >= 0,
        eff_len(s) >= 0,
    decreases s.len(),
{
    lemma_first_null(s);
    lemma_first_enter(s);
    let e = first_enter(s);
    if 0 <= e < s.len() {
        lemma_width_nonneg(s.subrange(e + 1, s.len() as int));
        lemma_first_null(s.subrange(0, e));
    }
}

impl Tooltip {
    /// The message buffer keeps its fixed capacity.
    pub open spec fn wf(&self) -> bool {
        self.message@.len() == SPEC_MESSAGE
    }

    /// The height of the message: one more than its line breaks.
    pub fn get_height(&self) -> (r: usize)
        requires
            self.wf(),
        ensures
            r == count_enters(self.message@) + 1,
    {
        let n: usize = self.message.len();
        let mut cnt: usize = 0;
        let mut i: usize = 0;
        while i < n
            invariant
                i <= n,
                n == self.message@.len(),
                cnt == count_enters(self.message@.subrange(0, i as int)),
                cnt <= i,
            decreases n - i,
        {
            proof {
                assert(self.message@.subrange(0, i + 1).drop_last() =~= self.message@.subrange(
                    0,
                    i as int,
                ));
                assert(self.message@.subrange(0, i + 1).last() == self.message@[i as int]);
            }
            if self.message[i].is_enter() {
                cnt = cnt + 1;
            }
            i = i + 1;
        }
        proof {
            assert(self.message@.subrange(0, n as int) =~= self.message@);
        }
        cnt + 1
    }

    /// The width of the message: the largest shown line length, a line
    /// ending at its first empty cell.
    pub fn get_width(&self) -> (r: usize)
        requires
            self.wf(),
        ensures
            r == width_of(self.message@),
    {
        let ghost full = self.message@;
        let n: usize = self.message.len();
        let mut maxw: usize = 0;
        let mut i: usize = 0;
        proof {
            assert(full.subrange(0, n as int) =~= full);
            lemma_width_nonneg(full);
        }
        loop
            invariant_except_break
                i <= n,
                n == full.len(),
                full == self.message@,
                maxw <= n,
                width_of(full) == (if maxw as int > width_of(full.subrange(i as int, n as int)) {
                    maxw as int
                } else {
                    width_of(full.subrange(i as int, n as int))
                }),
            ensures
                maxw == width_of(full),
            decreases n + 1 - i,
        {
            let ghost seg_all = full.subrange(i as int, n as int);
            // scan the segment: its ending line break and its first empty cell
            let mut j: usize = i;
            let mut null_at: usize = n;
            let mut has_null: bool = false;
            while j < n && !(self.message[j].glyph == '\n')
                invariant
                    i <= j <= n,
                    n == full.len(),
                    full == self.message@,
                    forall|k: int| #![trigger full[k]] i <= k < j ==> !full[k].spec_is_enter(),
                    has_null ==> i <= null_at < j && full[null_at as int].spec_is_null()
                        && forall|k: int| #![trigger full[k]] i <= k < null_at
                        ==> !full[k].spec_is_null(),
                    !has_null ==> forall|k: int| #![trigger full[k]] i <= k < j
                        ==> !full[k].spec_is_null(),
                decreases n - j,
            {
                if !has_null && self.message[j].glyph == '\0' {
                    null_at = j;
                    has_null = true;
                }
                j = j + 1;
            }
            proof {
                assert(forall|k: int| 0 <= k < seg_all.len() ==> seg_all[k] == full[i + k]);
                lemma_first_enter(seg_all);
                let ge = first_enter(seg_all);
                if j < n {
                    if ge == -1 || ge > j - i {
                        assert(!seg_all[j - i].spec_is_enter());
                        assert(full[j as int].spec_is_enter());
                        assert(false);
                    }
                    if 0 <= ge < j - i {
                        assert(!full[i + ge].spec_is_enter());
                        assert(seg_all[ge].spec_is_enter());
                        assert(false);
                    }
                } else {
                    if ge >= 0 {
                        assert(!full[i + ge].spec_is_enter());
                        assert(seg_all[ge].spec_is_enter());
                        assert(false);
                    }
                }
            }
            let ghost seg = full.subrange(i as int, j as int);
            proof {
                assert(forall|k: int| 0 <= k < seg.len() ==> seg[k] == full[i + k]);
                lemma_first_null(seg);
                let gn = first_null(seg);
                if has_null {
                    if gn == -1 || gn > null_at - i {
                        assert(!seg[null_at - i].spec_is_null());
                        assert(full[null_at as int].spec_is_null());
                        assert(false);
                    }
                    if 0 <= gn < null_at - i {
                        assert(!full[i + gn].spec_is_null());
                        assert(seg[gn].spec_is_null());
                        assert(false);
                    }
                } else {
                    if gn >= 0 {
                        assert(!full[i + gn].spec_is_null());
                        assert(seg[gn].spec_is_null());
                        assert(false);
                    }
                }
            }
            let eff: usize = if has_null {
                null_at - i
            } else {
                j - i
            };
            proof {
                assert(eff as int == eff_len(seg));
            }
            if eff > maxw {
                maxw = eff;
            }
            if j == n {
                proof {
                    assert(seg =~= seg_all);
                    assert(width_of(seg_all) == eff_len(seg_all));
                    lemma_width_nonneg(seg_all);
                }
                break;
            }
            proof {
                assert(seg_all.subrange(0, j - i) =~= seg);
                assert(seg_all.subrange(j - i + 1, seg_all.len() as int) =~= full.subrange(
                    j + 1,
                    n as int,
                ));
                assert(width_of(seg_all) == (if eff_len(seg) > width_of(full.subrange(j + 1, n as int)) {
                    eff_len(seg)
                } else {
                    width_of(full.subrange(j + 1, n as int))
                }));
            }
            i = j + 1;
        }
        maxw
    }

    /// The side the tooltip stands on.
    pub fn get_cardinal(&self) -> (r: &Relative)
        ensures
            *r == self.cardinal,
    {
        &self.cardinal
    }

    /// The message buffer.
    pub fn get_message(&self) -> (r: &Vec<Character>)
        ensures
            r@ == self.message@,
    {
        &self.message
    }

    /// Replaces the side.
    pub fn set_cardinal(&mut self, cardinal: Relative)
        ensures
            final(self).cardinal == cardinal,
            final(self).message == old(self).message,
    {
        self.cardinal = cardinal;
    }

    /// Writes `message` into the buffer: its first `SPEC_MESSAGE`
    /// characters in order, then empty cells.
    pub fn set_message(&mut self, message: String)
        requires
            old(self).wf(),
        ensures
            final(self).wf(),
            final(self).cardinal == old(self).cardinal,
            forall|i: int| 0 <= i < SPEC_MESSAGE ==> #[trigger] final(self).message@[i]
                == (Character {
                    glyph: if i < message@.len() {
                        message@[i]
                    } else {
                        '\0'
                    },
                }),
    {
        let chars: Vec<char> = chars_of(message.as_str());
        let mut i: usize = 0;
        while i < SPEC_MESSAGE
            invariant
                i <= SPEC_MESSAGE,
                self.wf(),
                self.cardinal == old(self).cardinal,
                chars@ == message@,
                forall|k: int| 0 <= k < i ==> #[trigger] self.message@[k] == (Character {
                    glyph: if k < message@.len() {
                        message@[k]
                    } else {
                        '\0'
                    },
                }),
            decreases SPEC_MESSAGE - i,
        {
            if i < chars.len() {
                self.message[i] = Character { glyph: chars[i] };
            } else {
                self.message[i] = Character { glyph: '\0' };
            }
            i = i + 1;
        }
    }
}

impl PartialEq for Tooltip {
    /// Two tooltips are equal when their sides and message buffers agree.
    fn eq(&self, other: &Tooltip) -> (r: bool) {
        if !(self.cardinal == other.cardinal) {
            return false;
        }
        if self.message.len() != other.message.len() {
            return false;
        }
        let n: usize = self.message.len();
        let mut i: usize = 0;
        while i < n
            invariant
                i <= n,
                n == self.message@.len(),
                n == other.message@.len(),
                forall|k: int| 0 <= k < i ==> self.message@[k] == other.message@[k],
            decreases n - i,
        {
            if !(self.message[i] == other.message[i]) {
                return false;
            }
            i = i + 1;
        }
        proof {
            assert(self.message@ =~= other.message@);
        }
        true
    }
}

impl vstd::std_specs::cmp::PartialEqSpecImpl for Tooltip {
    open spec fn obeys_eq_spec() -> bool {
        true
    }

    open spec fn eq_spec(&self, other: &Tooltip) -> bool {
        self.cardinal == other.cardinal && self.message@ == other.message@
    }
}

impl Default for Tooltip {
    /// An empty buffer, to the left of the persona.
    fn default() -> (r: Self)
        ensures
            r.wf(),
            r.cardinal == Relative::Left,
            forall|i: int| 0 <= i < SPEC_MESSAGE ==> #[trigger] r.message@[i] == (Character {
                glyph: '\0',
            }),
    {
        let mut message: Vec<Character> = Vec::new();
        let mut i: usize = 0;
        while i < SPEC_MESSAGE
            invariant
                i <= SPEC_MESSAGE,
                message@.len() == i,
                forall|k: int| 0 <= k < i ==> #[trigger] message@[k] == (Character {
                    glyph: '\0',
                }),
            decreases SPEC_MESSAGE - i,
        {
            message.push(Character { glyph: '\0' });
            i = i + 1;
        }
        Tooltip { cardinal: Relative::Left, message }
    }
}

} // verus!
