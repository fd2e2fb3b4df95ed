use vstd::prelude::*;
use crate::grid::{board_full, cell_index, in_grid, lemma_cell_order, GRID_SIZE, Position};

verus! {

/// The cells the snake covers, head first.
#[derive(Debug)]
pub struct Snake {
    pub body: Vec<Position>,
}

impl View for Snake {
    type V = Seq<Position>;

    open spec fn view(&self) -> Seq<Position> {
        self.body@
    }
}

/// Where a new game's snake lies: three cells in the middle row, heading right.
pub open spec fn start_cells() -> Seq<Position> {
    seq![Position { x: 15, y: 15 }, Position { x: 14, y: 15 }, Position { x: 13, y: 15 }]
}

impl Snake {
    /// At least one segment, all on the field, no cell twice.
    pub open spec fn wf(&self) -> bool {
        &&& self@.len() >= 1
        &&& self@.no_duplicates()
        &&& forall|i: int| 0 <= i < self@.len() ==> in_grid(#[trigger] self@[i])
    }

    /// The snake of a new game.
    pub fn start() -> (r: Snake)
        ensures
            r@ == start_cells(),
            r.wf(),
    {
        let mut body: Vec<Position> = Vec::new();
        body.push(Position { x: 15, y: 15 });
        body.push(Position { x: 14, y: 15 });
        body.push(Position { x: 13, y: 15 });
        let r = Snake { body };
        assert(r@ =~= start_cells());
        r
    }

    pub fn len(&self) -> (r: usize)
        ensures
            r == self@.len(),
    {
        self.body.len()
    }

    /// The head segment.
    pub fn head(&self) -> (r: Position)
        requires
            self@.len() >= 1,
        ensures
            r == self@[0],
    {
        self.body[0]
    }

    /// Whether some segment lies on `p`.
    pub fn occupies(&self, p: Position) -> (r: bool)
        ensures
            r == self@.contains(p),
    {
        let mut i: usize = 0;
        while i < self.body.len()
            invariant
                i <= self@.len(),
                forall|k: int| 0 <= k < i ==> self@[k] != p,
            decreases self@.len() - i,
        {
            if self.body[i] == p {
                return true;
            }
            i = i + 1;
        }
        false
    }

    /// Moves the head onto `new_head`; the tail follows unless the snake `ate`.
    pub fn advance(&mut self, new_head: Position, ate: bool)
        requires
            old(self).wf(),
            in_grid(new_head),
            !old(self)@.contains(new_head),
        ensures
            final(self).wf(),
            ate ==> final(self)@ == seq![new_head] + old(self)@,
            !ate ==> final(self)@ == seq![new_head] + old(self)@.drop_last(),
    {
        let ghost before = self@;
        self.body.insert(0, new_head);
        assert(self@ =~= seq![new_head] + before);
        if !ate {
            self.body.pop();
            assert(self@ =~= seq![new_head] + before.drop_last());
        }
        assert forall|i: int, j: int| 0 <= i < j < self@.len() implies self@[i] != self@[j] by {
            if i == 0 {
                assert(before[j - 1] == self@[j]);
            } else {
                assert(self@[i] == before[i - 1] && self@[j] == before[j - 1]);
            }
        }
        assert forall|i: int| 0 <= i < self@.len() implies in_grid(#[trigger] self@[i]) by {
            if i > 0 {
                assert(self@[i] == before[i - 1]);
            }
        }
    }

    /// The first cell in row-major order that the snake leaves free, or
    /// `None` when it covers the whole field.
    pub fn first_free_cell(&self) -> (r: Option<Position>)
        ensures
            r.is_none() == board_full(self@),
            r matches Some(p) ==> in_grid(p) && !self@.contains(p) && forall|q: Position|
                in_grid(q) && cell_index(q) < cell_index(p) ==> #[trigger] self@.contains(q),
    {
        let mut y: i16 = 0;
        while y < GRID_SIZE
            invariant
                0 <= y <= GRID_SIZE,
                forall|q: Position| in_grid(q) && q.y < y ==> #[trigger] self@.contains(q),
            decreases GRID_SIZE - y,
        {
            let mut x: i16 = 0;
            while x < GRID_SIZE
                invariant
                    0 <= x <= GRID_SIZE,
                    0 <= y < GRID_SIZE,
                    forall|q: Position|
                        in_grid(q) && (q.y < y || (q.y == y && q.x < x)) ==> #[trigger] self@.contains(
                            q,
                        ),
                decreases GRID_SIZE - x,
            {
                let p = Position { x, y };
                if !self.occupies(p) {
                    assert forall|q: Position|
                        in_grid(q) && cell_index(q) < cell_index(p) implies #[trigger] self@.contains(
                        q,
                    ) by {
                        lemma_cell_order(q, p);
                    }
                    return Some(p);
                }
                x = x + 1;
            }
            y = y + 1;
        }
        None
    }
}

} // verus!
