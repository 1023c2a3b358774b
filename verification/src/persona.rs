//! The persona part of the shared state: which sprite sheet is shown, the
//! emotion grid that selects its frames, and where it stands on screen.

use vstd::prelude::*;
use crate::event::Winszed;

verus! {

/// Width of the sprite, in cells.
pub const SPEC_MAX_X: usize = 10;

/// Height of the sprite, in cells.
pub const SPEC_MAX_Y: usize = 5;

/// Cells of one draw: `SPEC_MAX_X * SPEC_MAX_Y`.
pub const SPEC_MAX_XY: usize = 50;

/// Draws of one sprite.
pub const SPEC_MAX_DRAW: usize = 16;

/// The sprite sheet a persona is drawn from.
#[derive(Clone, Copy, Debug, Hash, PartialEq, Eq, Structural)]
pub enum Sheet {
    /// No sheet selected: the empty default.
    Empty,
    /// The plain bust.
    Bust,
    /// The happy bust.
    BustHappy,
}

/// The sheet a name selects: `Bust`, `BustHappy`, or `None` for the
/// empty selector.
pub open spec fn sheet_of_name(w: Seq<char>) -> Option<Sheet> {
    if w == "Bust"@ {
        Some(Sheet::Bust)
    } else if w == "BustHappy"@ {
        Some(Sheet::BustHappy)
    } else if w == "None"@ {
        Some(Sheet::Empty)
    } else {
        None
    }
}

impl Sheet {
    /// The sheet named `name`, per `sheet_of_name`.
    pub fn from_name(name: &str) -> (r: Option<Sheet>)
        ensures
            r == sheet_of_name(name@),
    {
        if crate::text::str_eq(name, "Bust") {
            Some(Sheet::Bust)
        } else if crate::text::str_eq(name, "BustHappy") {
            Some(Sheet::BustHappy)
        } else if crate::text::str_eq(name, "None") {
            Some(Sheet::Empty)
        } else {
            None
        }
    }
}

impl Default for Sheet {
    /// The empty selector.
    fn default() -> (r: Self)
        ensures
            r == Sheet::Empty,
    {
        Sheet::Empty
    }
}

/// One cell of the emotion grid: a body part and the emotion drawn on it.
#[derive(Clone, Copy, Debug, PartialEq, Eq, Structural)]
pub struct Tuple {
    /// The body part selector.
    pub part: u32,
    /// The emotion selector.
    pub emotion: u32,
}

impl Default for Tuple {
    /// The zero cell.
    fn default() -> (r: Self)
        ensures
            r.part == 0 && r.emotion == 0,
    {
        Tuple { part: 0, emotion: 0 }
    }
}

/// A compass position of the persona inside the window.
#[derive(Clone, Copy, Debug, Hash, PartialEq, Eq, Structural)]
pub enum Cardinal {
    UpperLeft,
    UpperMiddle,
    UpperRight,
    MiddleLeft,
    MiddleCentral,
    MiddleRight,
    LowerLeft,
    LowerMiddle,
    LowerRight,
}

/// The cell that `c` names in a window of `width` columns and `height`
/// rows; the origin when the window cannot hold the sprite.
pub open spec fn cardinal_coordinate(c: Cardinal, width: int, height: int) -> (int, int) {
    if width > SPEC_MAX_X && height > SPEC_MAX_Y {
        match c {
            Cardinal::UpperLeft => (0int, 0int),
            Cardinal::UpperMiddle => (width / 2 - SPEC_MAX_X as int / 2, 0int),
            Cardinal::UpperRight => (width - SPEC_MAX_X, 0int),
            Cardinal::MiddleLeft => (0int, height / 2 - SPEC_MAX_Y as int / 2),
            Cardinal::MiddleCentral => (width / 2 - SPEC_MAX_X as int / 2, height / 2 - SPEC_MAX_Y as int / 2),
            Cardinal::MiddleRight => (width - SPEC_MAX_X, height / 2 - SPEC_MAX_Y as int / 2),
            Cardinal::LowerLeft => (0int, height - SPEC_MAX_Y),
            Cardinal::LowerMiddle => (width / 2 - SPEC_MAX_X as int / 2, height - SPEC_MAX_Y),
            Cardinal::LowerRight => (width - SPEC_MAX_X, height - SPEC_MAX_Y),
        }
    } else {
        (0int, 0int)
    }
}

impl Cardinal {
    /// The window cell this compass position names, per
    /// `cardinal_coordinate`.
    pub fn get_coordinate(&self, size: &Winszed) -> (r: (usize, usize))
        ensures
            (r.0 as int, r.1 as int) == cardinal_coordinate(*self, size.ws_col as int, size.ws_row as int),
    {
        let width: usize = size.get_col();
        let height: usize = size.get_row();
        if width > SPEC_MAX_X && height > SPEC_MAX_Y {
            match *self {
                Cardinal::UpperLeft => (0, 0),
                Cardinal::UpperMiddle => (width / 2 - SPEC_MAX_X / 2, 0),
                Cardinal::UpperRight => (width - SPEC_MAX_X, 0),
                Cardinal::MiddleLeft => (0, height / 2 - SPEC_MAX_Y / 2),
                Cardinal::MiddleCentral => (width / 2 - SPEC_MAX_X / 2, height / 2 - SPEC_MAX_Y / 2),
                Cardinal::MiddleRight => (width - SPEC_MAX_X, height / 2 - SPEC_MAX_Y / 2),
                Cardinal::LowerLeft => (0, height - SPEC_MAX_Y),
                Cardinal::LowerMiddle => (width / 2 - SPEC_MAX_X / 2, height - SPEC_MAX_Y),
                Cardinal::LowerRight => (width - SPEC_MAX_X, height - SPEC_MAX_Y),
            }
        } else {
            (0, 0)
        }
    }
}

impl Default for Cardinal {
    /// The lower right corner.
    fn default() -> (r: Self)
        ensures
            r == Cardinal::LowerRight,
    {
        Cardinal::LowerRight
    }
}

/// Where the persona stands: an explicit cell when one is set, else a
/// compass position.
#[derive(Clone, Copy, Debug, PartialEq, Eq, Structural)]
pub struct Position {
    /// The compass position used while no explicit cell is set.
    pub cardinal: Cardinal,
    /// The explicit column, zero when unset.
    pub x: u16,
    /// The explicit row, zero when unset.
    pub y: u16,
}

impl Position {
    /// The window cell of the persona: the explicit cell when one is set,
    /// else what the compass position names.
    pub fn get_coordinate(&self, size: &Winszed) -> (r: (usize, usize))
        ensures
            self.x == 0 && self.y == 0 ==> (r.0 as int, r.1 as int) == cardinal_coordinate(
                self.cardinal,
                size.ws_col as int,
                size.ws_row as int,
            ),
            !(self.x == 0 && self.y == 0) ==> r.0 == self.x as usize && r.1 == self.y as usize,
    {
        if self.x == 0 && self.y == 0 {
            self.cardinal.get_coordinate(size)
        } else {
            (self.x as usize, self.y as usize)
        }
    }

    /// Replaces the compass position.
    pub fn set_cardinal(&mut self, cardinal: Cardinal)
        ensures
            final(self).cardinal == cardinal,
            final(self).x == old(self).x,
            final(self).y == old(self).y,
    {
        self.cardinal = cardinal;
    }
}

impl From<Cardinal> for Position {
    /// The position that names a compass point, with no explicit cell.
    fn from(cardinal: Cardinal) -> (r: Position) {
        Position { cardinal, x: 0, y: 0 }
    }
}

impl vstd::std_specs::convert::FromSpecImpl<Cardinal> for Position {
    open spec fn obeys_from_spec() -> bool {
        true
    }

    open spec fn from_spec(cardinal: Cardinal) -> Position {
        Position { cardinal, x: 0, y: 0 }
    }
}

impl From<[u16; 2]> for Position {
    /// The position of an explicit cell, with the default compass point.
    fn from(cartesian: [u16; 2]) -> (r: Position) {
        Position { cardinal: Cardinal::LowerRight, x: cartesian[0], y: cartesian[1] }
    }
}

impl vstd::std_specs::convert::FromSpecImpl<[u16; 2]> for Position {
    open spec fn obeys_from_spec() -> bool {
        true
    }

    open spec fn from_spec(cartesian: [u16; 2]) -> Position {
        Position { cardinal: Cardinal::LowerRight, x: cartesian[0], y: cartesian[1] }
    }
}

impl Default for Position {
    /// No explicit cell, at the default compass point.
    fn default() -> (r: Self)
        ensures
            r.cardinal == Cardinal::LowerRight && r.x == 0 && r.y == 0,
    {
        Position { cardinal: Cardinal::LowerRight, x: 0, y: 0 }
    }
}

/// The persona: its sheet, its emotion grid and its position. The grid
/// always holds `SPEC_MAX_DRAW` rows of `SPEC_MAX_XY` cells.
#[derive(Clone, Debug)]
pub struct Persona {
    /// The selected sheet.
    pub sheet: Sheet,
    /// The emotion grid, `SPEC_MAX_DRAW` rows of `SPEC_MAX_XY` cells.
    pub emotion: Vec<Vec<Tuple>>,
    /// Where the persona stands.
    pub position: Position,
}

impl Persona {
    /// The emotion grid keeps its fixed dimensions.
    pub open spec fn wf(&self) -> bool {
        &&& self.emotion@.len() == SPEC_MAX_DRAW
        &&& forall|i: int| 0 <= i < self.emotion@.len() ==> (#[trigger] self.emotion@[i])@.len()
            == SPEC_MAX_XY
    }

    /// The selected sheet.
    pub open spec fn spec_sheet(&self) -> Sheet {
        self.sheet
    }

    /// The position.
    pub open spec fn spec_position(&self) -> Position {
        self.position
    }

    /// The emotion grid, as a sequence of rows.
    pub open spec fn spec_emotion(&self) -> Seq<Seq<Tuple>> {
        self.emotion@.map_values(|row: Vec<Tuple>| row@)
    }

    /// The selected sheet.
    pub fn get_sheet(&self) -> (r: &Sheet)
        ensures
            *r == self.spec_sheet(),
    {
        &self.sheet
    }

    /// The position.
    pub fn get_position(&self) -> (r: &Position)
        ensures
            *r == self.spec_position(),
    {
        &self.position
    }

    /// The emotion grid.
    pub fn get_emotion(&self) -> (r: &Vec<Vec<Tuple>>)
        ensures
            r@.map_values(|row: Vec<Tuple>| row@) == self.spec_emotion(),
    {
        &self.emotion
    }

    /// Replaces the sheet.
    pub fn set_sheet(&mut self, sheet: Sheet)
        ensures
            final(self).sheet == sheet,
            final(self).emotion == old(self).emotion,
            final(self).position == old(self).position,
    {
        self.sheet = sheet;
    }

    /// Replaces the position.
    pub fn set_position(&mut self, position: Position)
        ensures
            final(self).position == position,
            final(self).sheet == old(self).sheet,
            final(self).emotion == old(self).emotion,
    {
        self.position = position;
    }

    /// Replaces the emotion grid; the new grid must keep the fixed
    /// dimensions.
    pub fn set_emotion(&mut self, emotion: Vec<Vec<Tuple>>)
        requires
            emotion@.len() == SPEC_MAX_DRAW,
            forall|i: int| 0 <= i < emotion@.len() ==> (#[trigger] emotion@[i])@.len()
                == SPEC_MAX_XY,
        ensures
            final(self).emotion == emotion,
            final(self).sheet == old(self).sheet,
            final(self).position == old(self).position,
            final(self).wf(),
    {
        self.emotion = emotion;
    }
}

impl Default for Persona {
    /// The empty persona: no sheet, a zero grid, the upper right corner.
    fn default() -> (r: Self)
        ensures
            r.wf(),
            r.spec_sheet() == Sheet::Empty,
            r.spec_position() == (Position { cardinal: Cardinal::UpperRight, x: 0, y: 0 }),
            forall|i: int, j: int| 0 <= i < SPEC_MAX_DRAW && 0 <= j < SPEC_MAX_XY
                ==> #[trigger] r.spec_emotion()[i][j] == (Tuple { part: 0, emotion: 0 }),
    {
        let mut emotion: Vec<Vec<Tuple>> = Vec::new();
        let mut i: usize = 0;
        while i < SPEC_MAX_DRAW
            invariant
                i <= SPEC_MAX_DRAW,
                emotion@.len() == i,
                forall|k: int| 0 <= k < i ==> (#[trigger] emotion@[k])@.len() == SPEC_MAX_XY,
                forall|k: int, j: int| 0 <= k < i && 0 <= j < SPEC_MAX_XY
                    ==> #[trigger] emotion@[k]@[j] == (Tuple { part: 0, emotion: 0 }),
            decreases SPEC_MAX_DRAW - i,
        {
            let mut row: Vec<Tuple> = Vec::new();
            let mut j: usize = 0;
            while j < SPEC_MAX_XY
                invariant
                    j <= SPEC_MAX_XY,
                    row@.len() == j,
                    forall|k: int| 0 <= k < j ==> row@[k] == (Tuple { part: 0, emotion: 0 }),
                decreases SPEC_MAX_XY - j,
            {
                row.push(Tuple { part: 0, emotion: 0 });
                j = j + 1;
            }
            emotion.push(row);
            i = i + 1;
        }
        Persona {
            sheet: Sheet::Empty,
            emotion,
            position: Position { cardinal: Cardinal::UpperRight, x: 0, y: 0 },
        }
    }
}

impl PartialEq for Persona {
    /// Two personas are equal when their sheets, positions and emotion
    /// grids agree.
    fn eq(&self, other: &Persona) -> (r: bool) {
        if !(self.sheet == other.sheet && self.position == other.position) {
            return false;
        }
        if self.emotion.len() != other.emotion.len() {
            proof {
                assert(self.spec_emotion().len() != other.spec_emotion().len());
            }
            return false;
        }
        let n: usize = self.emotion.len();
        let mut i: usize = 0;
        while i < n
            invariant
                i <= n,
                n == self.emotion@.len(),
                n == other.emotion@.len(),
                forall|k: int| 0 <= k < i ==> (#[trigger] self.emotion@[k])@ == other.emotion@[k]@,
            decreases n - i,
        {
            let a: &Vec<Tuple> = &self.emotion[i];
            let b: &Vec<Tuple> = &other.emotion[i];
            if a.len() != b.len() {
                proof {
                    assert(self.spec_emotion()[i as int] == a@);
                    assert(other.spec_emotion()[i as int] == b@);
                }
                return false;
            }
            let m: usize = a.len();
            let mut j: usize = 0;
            while j < m
                invariant
                    j <= m,
                    i < self.emotion@.len(),
                    i < other.emotion@.len(),
                    a@ == (#[trigger] self.emotion@[i as int])@,
                    b@ == other.emotion@[i as int]@,
                    m == a@.len(),
                    m == b@.len(),
                    forall|k: int| 0 <= k < j ==> a@[k] == b@[k],
                decreases m - j,
            {
                if !(a[j] == b[j]) {
                    proof {
                        assert(self.spec_emotion()[i as int] == a@);
                        assert(other.spec_emotion()[i as int] == b@);
                    }
                    return false;
                }
                j = j + 1;
            }
            proof {
                assert(a@ =~= b@);
            }
            i = i + 1;
        }
        proof {
            assert(self.spec_emotion() =~= other.spec_emotion());
        }
        true
    }
}

impl vstd::std_specs::cmp::PartialEqSpecImpl for Persona {
    open spec fn obeys_eq_spec() -> bool {
        true
    }

    open spec fn eq_spec(&self, other: &Persona) -> bool {
        &&& self.sheet == other.sheet
        &&& self.position == other.position
        &&& self.spec_emotion() == other.spec_emotion()
    }
}

} // verus!
