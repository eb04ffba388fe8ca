//! The cursor model: position, pending color, last movement direction, and
//! the vertical wrap that keeps the cursor off the reserved bottom rows.
//!
//! Each directional move shifts the position by one grid unit, then applies
//! the wrap: whenever the row lands on `height - 2`, two is subtracted, and
//! the check repeats until the row is off the boundary (a bounded loop, not
//! the unbounded recursion a naive reading suggests). Horizontal moves stop
//! at the canvas edge. So after every move the position stays inside
//! `[0, width) x [0, height - 2)`.

use vstd::prelude::*;
use crate::canvas::Canvas;
use crate::palette::{Color, BACKGROUND, spec_color_for_code, color_for_code};
use crate::store::PlacedStore;

verus! {

/// A movement direction, or `Unset` when no movement key has been recorded
/// yet.
#[derive(Clone, Copy, PartialEq, Eq, Structural, Debug)]
pub enum Direction {
    Unset,
    Up,
    Down,
    Left,
    Right,
}

/// The direction an implicit move continues in: the recorded one, or left
/// when none has been recorded yet.
pub open spec fn spec_effective(d: Direction) -> Direction {
    if d == Direction::Unset {
        Direction::Left
    } else {
        d
    }
}

/// The row after the wrap check: landing on `height - 2` sends the cursor
/// two rows up.
pub open spec fn spec_wrap_y(y: int, height: int) -> int {
    if y == height - 2 {
        height - 4
    } else {
        y
    }
}

/// The column after moving one unit in a direction, stopping at the edges.
pub open spec fn spec_moved_x(x: int, d: Direction, width: int) -> int {
    match d {
        Direction::Left => if x > 0 {
            x - 1
        } else {
            0
        },
        Direction::Right => if x + 1 < width {
            x + 1
        } else {
            x
        },
        _ => x,
    }
}

/// The row after moving one unit in a direction and applying the wrap check.
pub open spec fn spec_moved_y(y: int, d: Direction, height: int) -> int {
    match d {
        Direction::Up => spec_wrap_y(if y > 0 { y - 1 } else { 0 }, height),
        Direction::Down => spec_wrap_y(y + 1, height),
        _ => spec_wrap_y(y, height),
    }
}

/// The live editing state: cursor position, the color the cursor itself is
/// drawn in, the pending paint color, the last recorded movement direction,
/// and everything placed so far.
pub struct Runtime {
    pub cursor_x: u16,
    pub cursor_y: u16,
    pub cursor_color: Color,
    pub color: Color,
    pub last_pressed_key: Direction,
    pub placed: PlacedStore,
}

/// The state after moving one unit in a direction (position only; the
/// recorded direction is unchanged).
pub open spec fn spec_moved(r: Runtime, d: Direction, canvas: Canvas) -> Runtime {
    Runtime {
        cursor_x: spec_moved_x(r.cursor_x as int, d, canvas.width as int) as u16,
        cursor_y: spec_moved_y(r.cursor_y as int, d, canvas.height as int) as u16,
        cursor_color: r.cursor_color,
        color: r.color,
        last_pressed_key: r.last_pressed_key,
        placed: r.placed,
    }
}

/// The state after an explicit directional move: the position shifts and the
/// direction is recorded.
pub open spec fn spec_move_op(r: Runtime, d: Direction, canvas: Canvas) -> Runtime {
    Runtime { last_pressed_key: d, ..spec_moved(r, d, canvas) }
}

/// The store after erasing a cell: the background color is written there —
/// the entry is overwritten, never removed.
pub open spec fn spec_erase(m: Map<(u32, u32), Color>, x: u32, y: u32) -> Map<(u32, u32), Color> {
    m.insert((x, y), BACKGROUND)
}

/// Law: erasing a cell twice leaves the store exactly as erasing it once
/// does.
pub proof fn lemma_erase_idempotent(m: Map<(u32, u32), Color>, x: u32, y: u32)
    ensures
        spec_erase(spec_erase(m, x, y), x, y) == spec_erase(m, x, y),
{
    assert(spec_erase(spec_erase(m, x, y), x, y) =~= spec_erase(m, x, y));
}

impl Runtime {
    /// The cursor stays inside the canvas and strictly above the wrap
    /// boundary row, and the store keeps its order.
    pub open spec fn wf(self, canvas: Canvas) -> bool {
        &&& canvas.wf()
        &&& self.cursor_x < canvas.width
        &&& self.cursor_y + 2 < canvas.height
        &&& self.placed.wf()
    }

    /// Apply the wrap check: while the cursor sits on the boundary row
    /// `height - 2`, move it two rows up. The loop is defensively bounded by
    /// the canvas height; with a workable canvas it runs at most once.
    fn wrap_cursor(&mut self, canvas: &Canvas)
        requires
            canvas.wf(),
            old(self).cursor_y + 2 <= canvas.height,
        ensures
            final(self).cursor_y as int == spec_wrap_y(
                old(self).cursor_y as int,
                canvas.height as int,
            ),
            final(self).cursor_y + 2 < canvas.height,
            *final(self) == (Runtime { cursor_y: final(self).cursor_y, ..*old(self) }),
    {
        let mut guard: u16 = 0;
        while self.cursor_y + 2 == canvas.height && guard < canvas.height
            invariant
                canvas.wf(),
                self.cursor_y + 2 <= canvas.height,
                guard <= 1,
                guard == 0 ==> self.cursor_y == old(self).cursor_y,
                guard == 1 ==> old(self).cursor_y + 2 == canvas.height && self.cursor_y + 4
                    == canvas.height,
                *self == (Runtime { cursor_y: self.cursor_y, ..*old(self) }),
            decreases canvas.height - guard,
        {
            self.cursor_y = self.cursor_y - 2;
            guard = guard + 1;
        }
    }

    /// Move one grid unit in a direction without recording it: the implicit
    /// move used to continue after placing or erasing.
    fn move_in(&mut self, d: Direction, canvas: &Canvas)
        requires
            old(self).wf(*canvas),
        ensures
            final(self).wf(*canvas),
            *final(self) == spec_moved(*old(self), d, *canvas),
    {
        match d {
            Direction::Up => {
                if self.cursor_y > 0 {
                    self.cursor_y = self.cursor_y - 1;
                }
            },
            Direction::Down => {
                self.cursor_y = self.cursor_y + 1;
            },
            Direction::Left => {
                if self.cursor_x > 0 {
                    self.cursor_x = self.cursor_x - 1;
                }
            },
            Direction::Right => {
                if self.cursor_x + 1 < canvas.width {
                    self.cursor_x = self.cursor_x + 1;
                }
            },
            Direction::Unset => {},
        }
        self.wrap_cursor(canvas);
    }

    /// Move the cursor one row up and record the direction.
    pub fn move_up(&mut self, canvas: &Canvas)
        requires
            old(self).wf(*canvas),
        ensures
            final(self).wf(*canvas),
            *final(self) == spec_move_op(*old(self), Direction::Up, *canvas),
    {
        self.move_in(Direction::Up, canvas);
        self.last_pressed_key = Direction::Up;
    }

    /// Move the cursor one row down — wrapping off the boundary row — and
    /// record the direction.
    pub fn move_down(&mut self, canvas: &Canvas)
        requires
            old(self).wf(*canvas),
        ensures
            final(self).wf(*canvas),
            *final(self) == spec_move_op(*old(self), Direction::Down, *canvas),
    {
        self.move_in(Direction::Down, canvas);
        self.last_pressed_key = Direction::Down;
    }

    /// Move the cursor one column left and record the direction.
    pub fn move_left(&mut self, canvas: &Canvas)
        requires
            old(self).wf(*canvas),
        ensures
            final(self).wf(*canvas),
            *final(self) == spec_move_op(*old(self), Direction::Left, *canvas),
    {
        self.move_in(Direction::Left, canvas);
        self.last_pressed_key = Direction::Left;
    }

    /// Move the cursor one column right and record the direction.
    pub fn move_right(&mut self, canvas: &Canvas)
        requires
            old(self).wf(*canvas),
        ensures
            final(self).wf(*canvas),
            *final(self) == spec_move_op(*old(self), Direction::Right, *canvas),
    {
        self.move_in(Direction::Right, canvas);
        self.last_pressed_key = Direction::Right;
    }

    /// Continue one unit in the last recorded direction (left when none has
    /// been recorded): the implicit move after placing or erasing a block.
    pub fn move_cursor_blkey(&mut self, canvas: &Canvas)
        requires
            old(self).wf(*canvas),
        ensures
            final(self).wf(*canvas),
            *final(self) == spec_moved(
                *old(self),
                spec_effective(old(self).last_pressed_key),
                *canvas,
            ),
    {
        match self.last_pressed_key {
            Direction::Up => self.move_in(Direction::Up, canvas),
            Direction::Down => self.move_in(Direction::Down, canvas),
            Direction::Left => self.move_in(Direction::Left, canvas),
            Direction::Right => self.move_in(Direction::Right, canvas),
            Direction::Unset => self.move_in(Direction::Left, canvas),
        }
    }

    /// Paint the cell under the cursor with the pending color.
    pub fn place_blok(&mut self)
        requires
            old(self).placed.wf(),
        ensures
            final(self).placed.wf(),
            final(self).placed@ == old(self).placed@.insert(
                (old(self).cursor_x as u32, old(self).cursor_y as u32),
                old(self).color,
            ),
            *final(self) == (Runtime { placed: final(self).placed, ..*old(self) }),
    {
        let x = self.cursor_x as u32;
        let y = self.cursor_y as u32;
        let color = self.color;
        self.placed.insert(x, y, color);
    }

    /// Erase the cell under the cursor: paint it with the background color.
    /// The pending color is untouched.
    pub fn erase(&mut self)
        requires
            old(self).placed.wf(),
        ensures
            final(self).placed.wf(),
            final(self).placed@ == spec_erase(
                old(self).placed@,
                old(self).cursor_x as u32,
                old(self).cursor_y as u32,
            ),
            *final(self) == (Runtime { placed: final(self).placed, ..*old(self) }),
    {
        let x = self.cursor_x as u32;
        let y = self.cursor_y as u32;
        self.placed.insert(x, y, BACKGROUND);
    }

    /// Set the pending paint color from a palette code.
    pub fn select_color(&mut self, code: u32)
        ensures
            final(self).color == spec_color_for_code(code),
            *final(self) == (Runtime { color: final(self).color, ..*old(self) }),
    {
        self.color = color_for_code(code);
    }
}

/// Law: for any sequence of downward moves from a well-formed state, the
/// cursor row after each move stays within `[0, height - 1)` — it never
/// lands on or beyond the reserved bottom rows. Well-formedness is preserved,
/// so this holds inductively for every move of the sequence.
pub proof fn lemma_wrap_invariant(r: Runtime, canvas: Canvas)
    requires
        r.wf(canvas),
    ensures
        spec_move_op(r, Direction::Down, canvas).wf(canvas),
        0 <= spec_move_op(r, Direction::Down, canvas).cursor_y,
        (spec_move_op(r, Direction::Down, canvas).cursor_y as int) < canvas.height - 1,
{
}

} // verus!
