use vstd::prelude::*;
use vstd::set_lib::{lemma_int_range, lemma_len_subset, set_int_range};

verus! {

/// Number of cells along each side of the square playing field.
pub const GRID_SIZE: i16 = 30;

/// Side length of one cell, in pixels.
pub const GRID_CELL_SIZE: i16 = 20;

/// Number of cells on the playing field.
pub const GRID_CELLS: usize = 900;

/// A cell of the playing field.
#[derive(Clone, Copy, Debug, PartialEq, Eq, Structural)]
pub struct Position {
    pub x: i16,
    pub y: i16,
}

/// An axis-aligned rectangle on screen, in whole pixels.
#[derive(Clone, Copy, Debug, PartialEq, Eq, Structural)]
pub struct PixelRect {
    pub x: i32,
    pub y: i32,
    pub w: i32,
    pub h: i32,
}

/// A heading of the snake.
#[derive(Clone, Copy, Debug, PartialEq, Eq, Structural)]
pub enum Direction {
    Up,
    Down,
    Left,
    Right,
}

pub open spec fn in_grid(p: Position) -> bool {
    0 <= p.x < GRID_SIZE && 0 <= p.y < GRID_SIZE
}

/// The direction that points the other way.
pub open spec fn reverse(d: Direction) -> Direction {
    match d {
        Direction::Up => Direction::Down,
        Direction::Down => Direction::Up,
        Direction::Left => Direction::Right,
        Direction::Right => Direction::Left,
    }
}

/// The cell next to `p` in direction `d` (it may lie just off the field).
pub open spec fn next_cell(p: Position, d: Direction) -> Position {
    match d {
        Direction::Up => Position { x: p.x, y: (p.y - 1) as i16 },
        Direction::Down => Position { x: p.x, y: (p.y + 1) as i16 },
        Direction::Left => Position { x: (p.x - 1) as i16, y: p.y },
        Direction::Right => Position { x: (p.x + 1) as i16, y: p.y },
    }
}

/// Every on-field cell is in `s`.
pub open spec fn board_full(s: Seq<Position>) -> bool {
    forall|q: Position| #![trigger s.contains(q)] in_grid(q) ==> s.contains(q)
}

/// Row-major number of an on-field cell, in `0..GRID_CELLS`.
pub open spec fn cell_index(p: Position) -> int {
    p.y * GRID_SIZE + p.x
}

/// Whether both coordinates lie in `[0, GRID_SIZE)`.
pub fn in_bounds(p: Position) -> (r: bool)
    ensures
        r == in_grid(p),
{
    0 <= p.x && p.x < GRID_SIZE && 0 <= p.y && p.y < GRID_SIZE
}

/// The screen rectangle covered by cell `p`.
pub fn cell_to_pixel(p: Position) -> (r: PixelRect)
    requires
        in_grid(p),
    ensures
        r.x == p.x * GRID_CELL_SIZE,
        r.y == p.y * GRID_CELL_SIZE,
        r.w == GRID_CELL_SIZE,
        r.h == GRID_CELL_SIZE,
{
    PixelRect {
        x: p.x as i32 * GRID_CELL_SIZE as i32,
        y: p.y as i32 * GRID_CELL_SIZE as i32,
        w: GRID_CELL_SIZE as i32,
        h: GRID_CELL_SIZE as i32,
    }
}

impl Direction {
    /// Whether `self` points exactly against `other`.
    pub fn is_opposite(self, other: Direction) -> (r: bool)
        ensures
            r == (self == reverse(other)),
    {
        match (self, other) {
            (Direction::Up, Direction::Down) => true,
            (Direction::Down, Direction::Up) => true,
            (Direction::Left, Direction::Right) => true,
            (Direction::Right, Direction::Left) => true,
            _ => false,
        }
    }
}

/// The cell one step from `p` in direction `d`. It may lie just off the field.
pub fn neighbour(p: Position, d: Direction) -> (r: Position)
    requires
        in_grid(p),
    ensures
        r == next_cell(p, d),
{
    match d {
        Direction::Up => Position { x: p.x, y: p.y - 1 },
        Direction::Down => Position { x: p.x, y: p.y + 1 },
        Direction::Left => Position { x: p.x - 1, y: p.y },
        Direction::Right => Position { x: p.x + 1, y: p.y },
    }
}

/// Row-major numbering orders cells by row, then by column.
pub proof fn lemma_cell_order(q: Position, p: Position)
    requires
        in_grid(q),
        in_grid(p),
        cell_index(q) < cell_index(p),
    ensures
        q.y < p.y || (q.y == p.y && q.x < p.x),
{
    if q.y > p.y {
        assert(p.y * 30 + 30 <= q.y * 30) by (nonlinear_arith)
            requires
                p.y < q.y,
        ;
    }
}

/// Distinct on-field cells number at most `GRID_CELLS`.
pub proof fn lemma_distinct_cells_fit(s: Seq<Position>)
    requires
        s.no_duplicates(),
        forall|i: int| 0 <= i < s.len() ==> in_grid(#[trigger] s[i]),
    ensures
        s.len() <= GRID_CELLS,
{
    let m = s.map_values(|p: Position| cell_index(p));
    assert forall|i: int, j: int| 0 <= i < m.len() && 0 <= j < m.len() && i != j implies m[i]
        != m[j] by {
        let (a, b) = (s[i], s[j]);
        assert(in_grid(a) && in_grid(b));
        if a.y == b.y {
            assert(a.x != b.x);
        } else if a.y < b.y {
            assert(a.y * 30 + 30 <= b.y * 30) by (nonlinear_arith)
                requires
                    a.y < b.y,
            ;
        } else {
            assert(b.y * 30 + 30 <= a.y * 30) by (nonlinear_arith)
                requires
                    b.y < a.y,
            ;
        }
    }
    assert(m.no_duplicates());
    m.unique_seq_to_set();
    assert forall|v: int| m.to_set().contains(v) implies set_int_range(0, 900).contains(v) by {
        let i = choose|i: int| 0 <= i < m.len() && m[i] == v;
        assert(in_grid(s[i]));
        let p = s[i];
        assert(0 <= p.y * 30 <= 29 * 30) by (nonlinear_arith)
            requires
                0 <= p.y < 30,
        ;
    }
    lemma_int_range(0, 900);
    lemma_len_subset(m.to_set(), set_int_range(0, 900));
}

} // verus!
