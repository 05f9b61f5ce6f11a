//! The board: a mapping from positions to ordered piece stacks, with
//! adjacency queries, the placement-legality predicate, and the
//! placement frontier ("negative space").

use vstd::prelude::*;

use crate::bug::Bug;
use crate::codec::{push_digits, spec_digits};
use crate::color::Color;
use crate::piece::Piece;
use crate::position::Position;
use crate::text::chars_to_string;
use vstd::seq_lib::lemma_concat_associative;

verus! {

/// Occupied cells only: a position with no pieces is absent. The last
/// piece of a stack is the topmost, the only one that can act or be
/// acted upon at that cell.
pub struct Board {
    board: Vec<(Position, Vec<Piece>)>,
}

impl Board {
    /// The stored cells, as (position, stack) pairs.
    pub closed spec fn cells(self) -> Seq<(Position, Vec<Piece>)> {
        self.board@
    }

    /// Well-formedness: positions are unique and representable, and no
    /// empty stack is persisted.
    pub open spec fn wf(self) -> bool {
        &&& forall|i: int, j: int|
            0 <= i < j < self.cells().len() ==> self.cells()[i].0 != self.cells()[j].0
        &&& forall|i: int| 0 <= i < self.cells().len() ==> self.cells()[i].1@.len() > 0
        &&& forall|i: int| 0 <= i < self.cells().len() ==> (#[trigger] self.cells()[i].0).in_bounds()
    }

    pub open spec fn occupied(self, p: Position) -> bool {
        exists|i: int| 0 <= i < self.cells().len() && self.cells()[i].0 == p
    }

    pub open spec fn idx_of(self, p: Position) -> int {
        choose|i: int| 0 <= i < self.cells().len() && self.cells()[i].0 == p
    }

    /// The stack at an occupied position, bottom first.
    pub open spec fn stack_at(self, p: Position) -> Seq<Piece> {
        self.cells()[self.idx_of(p)].1@
    }

    /// How many positions are occupied.
    pub open spec fn occupied_count(self) -> nat {
        self.cells().len()
    }

    /// An unoccupied position adjacent to at least one occupied one.
    pub open spec fn in_negative_space(self, q: Position) -> bool {
        &&& !self.occupied(q)
        &&& exists|i: int, k: int|
            0 <= i < self.cells().len() && 0 <= k < 6 && q == (
            #[trigger] self.cells()[i].0.spec_neighbor(k))
    }

    /// Placement legality: during the first two placements any position
    /// is spawnable; afterwards a position is spawnable for `color` iff
    /// no topmost neighboring piece belongs to the opposing color.
    pub open spec fn spec_spawnable(self, color: Color, p: Position) -> bool {
        self.occupied_count() < 2 || (forall|k: int|
            0 <= k < 6 ==> !self.enemy_on_top(color, p.spec_neighbor(k)))
    }

    /// The topmost piece at `q` exists and belongs to the opponent of `color`.
    pub open spec fn enemy_on_top(self, color: Color, q: Position) -> bool {
        self.occupied(q) && self.stack_at(q).last().color == color.spec_opposite()
    }

    pub fn new() -> (b: Board)
        ensures
            b.wf(),
            b.occupied_count() == 0,
    {
        Board { board: Vec::new() }
    }

    /// The index holding position `p`, if `p` is occupied.
    fn find(&self, position: &Position) -> (r: Option<usize>)
        requires
            self.wf(),
        ensures
            match r {
                Some(i) => self.occupied(*position) && i < self.cells().len() && self.cells()[
                    i as int
                ].0 == *position && self.idx_of(*position) == i,
                None => !self.occupied(*position),
            },
    {
        let mut i: usize = 0;
        while i < self.board.len()
            invariant
                0 <= i <= self.cells().len(),
                self.wf(),
                forall|j: int| 0 <= j < i ==> self.cells()[j].0 != *position,
            decreases self.cells().len() - i,
        {
            if self.board[i].0 == *position {
                proof {
                    self.lemma_cell_index(i as int);
                }
                return Some(i);
            }
            i += 1;
        }
        None
    }

    /// A stored index is the one `idx_of` denotes, so `stack_at` of its
    /// position is its stack.
    proof fn lemma_cell_index(self, i: int)
        requires
            self.wf(),
            0 <= i < self.cells().len(),
        ensures
            self.occupied(self.cells()[i].0),
            self.idx_of(self.cells()[i].0) == i,
            self.stack_at(self.cells()[i].0) == self.cells()[i].1@,
    {
        let p = self.cells()[i].0;
        assert(self.occupied(p));
        let j = self.idx_of(p);
        assert(0 <= j < self.cells().len() && self.cells()[j].0 == p);
        if i < j {
            assert(self.cells()[i].0 != self.cells()[j].0);
        } else if j < i {
            assert(self.cells()[j].0 != self.cells()[i].0);
        }
    }

    /// The six adjacent positions, in the canonical order NW, NE, E, SE,
    /// SW, W; a pure function of the coordinates, independent of the
    /// board contents.
    pub fn neighbor_positions(&self, position: &Position) -> (r: Vec<Position>)
        requires
            position.in_bounds(),
        ensures
            r@.len() == 6,
            forall|k: int| 0 <= k < 6 ==> r@[k] == position.spec_neighbor(k),
    {
        let r: Vec<Position> = vec![
            Position(position.0 - 1, position.1 - 1),
            Position(position.0, position.1 - 1),
            Position(position.0 + 1, position.1),
            Position(position.0, position.1 + 1),
            Position(position.0 - 1, position.1 + 1),
            Position(position.0 - 1, position.1),
        ];
        r
    }

    /// The stacks collected by `neighbors` up to direction `k`.
    pub open spec fn spec_neighbors_upto(self, p: Position, k: int) -> Seq<Seq<Piece>>
        decreases k,
    {
        if k <= 0 {
            Seq::empty()
        } else {
            self.spec_neighbors_upto(p, k - 1) + (if self.occupied(p.spec_neighbor(k - 1)) {
                seq![self.stack_at(p.spec_neighbor(k - 1))]
            } else {
                Seq::<Seq<Piece>>::empty()
            })
        }
    }

    /// The full stack of each occupied neighbor, in canonical direction
    /// order; unoccupied neighbors are omitted.
    pub fn neighbors(&self, position: &Position) -> (r: Vec<Vec<Piece>>)
        requires
            self.wf(),
            position.in_bounds(),
        ensures
            r@.map_values(|st: Vec<Piece>| st@) == self.spec_neighbors_upto(*position, 6),
    {
        let nbrs = self.neighbor_positions(position);
        let mut r: Vec<Vec<Piece>> = Vec::new();
        let mut k: usize = 0;
        while k < 6
            invariant
                0 <= k <= 6,
                self.wf(),
                position.in_bounds(),
                nbrs@.len() == 6,
                forall|m: int| 0 <= m < 6 ==> nbrs@[m] == position.spec_neighbor(m),
                r@.map_values(|st: Vec<Piece>| st@) == self.spec_neighbors_upto(
                    *position,
                    k as int,
                ),
            decreases 6 - k,
        {
            if let Some(i) = self.find(&nbrs[k]) {
                let stack = clone_stack(&self.board[i].1);
                r.push(stack);
            }
            proof {
                assert(r@.map_values(|st: Vec<Piece>| st@) =~= self.spec_neighbors_upto(
                    *position,
                    k + 1,
                ));
            }
            k += 1;
        }
        r
    }

    /// The topmost pieces collected by `top_layer_neighbors` up to
    /// direction `k`.
    pub open spec fn spec_top_neighbors_upto(self, p: Position, k: int) -> Seq<Piece>
        decreases k,
    {
        if k <= 0 {
            Seq::empty()
        } else {
            self.spec_top_neighbors_upto(p, k - 1) + (if self.occupied(p.spec_neighbor(k - 1)) {
                seq![self.stack_at(p.spec_neighbor(k - 1)).last()]
            } else {
                Seq::<Piece>::empty()
            })
        }
    }

    /// Only the topmost piece of each occupied neighbor: the pieces that
    /// can currently interact with `position`.
    pub fn top_layer_neighbors(&self, position: &Position) -> (r: Vec<Piece>)
        requires
            self.wf(),
            position.in_bounds(),
        ensures
            r@ == self.spec_top_neighbors_upto(*position, 6),
    {
        let nbrs = self.neighbor_positions(position);
        let mut r: Vec<Piece> = Vec::new();
        let mut k: usize = 0;
        while k < 6
            invariant
                0 <= k <= 6,
                self.wf(),
                position.in_bounds(),
                nbrs@.len() == 6,
                forall|m: int| 0 <= m < 6 ==> nbrs@[m] == position.spec_neighbor(m),
                r@ == self.spec_top_neighbors_upto(*position, k as int),
            decreases 6 - k,
        {
            if let Some(i) = self.find(&nbrs[k]) {
                let stack = &self.board[i].1;
                r.push(stack[stack.len() - 1]);
            }
            proof {
                assert(r@ =~= self.spec_top_neighbors_upto(*position, k + 1));
            }
            k += 1;
        }
        r
    }

    /// Every unoccupied position adjacent to at least one occupied
    /// position: the frontier where placement is conceivable. Each such
    /// position appears exactly once.
    pub fn negative_space(&self) -> (r: Vec<Position>)
        requires
            self.wf(),
        ensures
            forall|q: Position| r@.contains(q) <==> self.in_negative_space(q),
            forall|i: int, j: int| 0 <= i < j < r@.len() ==> r@[i] != r@[j],
    {
        let mut r: Vec<Position> = Vec::new();
        let mut i: usize = 0;
        while i < self.board.len()
            invariant
                0 <= i <= self.cells().len(),
                self.wf(),
                forall|q: Position| r@.contains(q) ==> self.in_negative_space(q),
                forall|ii: int, k: int|
                    0 <= ii < i && 0 <= k < 6 ==> (self.occupied(
                        #[trigger] self.cells()[ii].0.spec_neighbor(k),
                    ) || r@.contains(self.cells()[ii].0.spec_neighbor(k))),
                forall|a: int, b: int| 0 <= a < b < r@.len() ==> r@[a] != r@[b],
            decreases self.cells().len() - i,
        {
            let pos = self.board[i].0;
            let nbrs = self.neighbor_positions(&pos);
            let mut k: usize = 0;
            while k < 6
                invariant
                    0 <= k <= 6,
                    0 <= i < self.cells().len(),
                    self.wf(),
                    pos == self.cells()[i as int].0,
                    nbrs@.len() == 6,
                    forall|m: int| 0 <= m < 6 ==> nbrs@[m] == pos.spec_neighbor(m),
                    forall|q: Position| r@.contains(q) ==> self.in_negative_space(q),
                    forall|ii: int, kk: int|
                        0 <= ii < i && 0 <= kk < 6 ==> (self.occupied(
                            #[trigger] self.cells()[ii].0.spec_neighbor(kk),
                        ) || r@.contains(self.cells()[ii].0.spec_neighbor(kk))),
                    forall|kk: int|
                        0 <= kk < k ==> (self.occupied(#[trigger] pos.spec_neighbor(kk))
                            || r@.contains(pos.spec_neighbor(kk))),
                    forall|a: int, b: int| 0 <= a < b < r@.len() ==> r@[a] != r@[b],
                decreases 6 - k,
            {
                let q = nbrs[k];
                if self.find(&q).is_none() && !contains_pos(&r, &q) {
                    let ghost prev = r@;
                    r.push(q);
                    proof {
                        assert(r@ == prev.push(q));
                        assert(r@[prev.len() as int] == q);
                        assert(r@.contains(q));
                        assert forall|q2: Position| r@.contains(q2) implies prev.contains(q2) || q2
                            == q by {
                            let j = choose|j: int| 0 <= j < r@.len() && r@[j] == q2;
                            if j < prev.len() {
                                assert(prev[j] == q2);
                            }
                        }
                        assert forall|q2: Position| prev.contains(q2) implies r@.contains(q2) by {
                            let j = choose|j: int| 0 <= j < prev.len() && prev[j] == q2;
                            assert(r@[j] == q2);
                        }
                        assert(q == self.cells()[i as int].0.spec_neighbor(k as int));
                        assert(self.in_negative_space(q));
                    }
                }
                k += 1;
            }
            i += 1;
        }
        proof {
            assert forall|q: Position| self.in_negative_space(q) implies r@.contains(q) by {
                let (ii, kk): (int, int) = choose|ii: int, kk: int|
                    0 <= ii < self.cells().len() && 0 <= kk < 6 && q == (
                    #[trigger] self.cells()[ii].0.spec_neighbor(kk));
                assert(self.occupied(self.cells()[ii].0.spec_neighbor(kk)) || r@.contains(
                    self.cells()[ii].0.spec_neighbor(kk),
                ));
            }
        }
        r
    }

    /// Whether `color` may legally place a new piece at `position`.
    pub fn spawnable(&self, color: Color, position: &Position) -> (r: bool)
        requires
            self.wf(),
            position.in_bounds(),
        ensures
            r == self.spec_spawnable(color, *position),
    {
        if self.board.len() < 2 {
            return true;
        }
        let nbrs = self.neighbor_positions(position);
        let opposite = color.opposite();
        let mut k: usize = 0;
        while k < 6
            invariant
                0 <= k <= 6,
                self.wf(),
                self.occupied_count() >= 2,
                position.in_bounds(),
                opposite == color.spec_opposite(),
                nbrs@.len() == 6,
                forall|m: int| 0 <= m < 6 ==> nbrs@[m] == position.spec_neighbor(m),
                forall|kk: int| 0 <= kk < k ==> !self.enemy_on_top(color, position.spec_neighbor(kk)),
            decreases 6 - k,
        {
            if let Some(i) = self.find(&nbrs[k]) {
                let stack = &self.board[i].1;
                if stack[stack.len() - 1].color == opposite {
                    proof {
                        assert(self.enemy_on_top(color, position.spec_neighbor(k as int)));
                        assert(!self.spec_spawnable(color, *position));
                    }
                    return false;
                }
            }
            k += 1;
        }
        true
    }

    /// Pushes a freshly built piece onto the stack at `position`,
    /// creating the stack if the position was empty. Placement legality
    /// is the caller's concern: check `spawnable` first.
    pub fn spawn(&mut self, position: &Position, bug: Bug, color: Color, order: i8)
        requires
            old(self).wf(),
            position.in_bounds(),
        ensures
            final(self).wf(),
            final(self).occupied(*position),
            forall|q: Position| final(self).occupied(q) <==> (old(self).occupied(q) || q
                == *position),
            final(self).stack_at(*position) == if old(self).occupied(*position) {
                old(self).stack_at(*position).push(Piece { bug, color, order })
            } else {
                seq![Piece { bug, color, order }]
            },
            forall|q: Position|
                old(self).occupied(q) && q != *position ==> final(self).stack_at(q) == old(
                    self,
                ).stack_at(q),
            final(self).occupied_count() == if old(self).occupied(*position) {
                old(self).occupied_count()
            } else {
                old(self).occupied_count() + 1
            },
    {
        let piece = Piece::new(bug, color, order);
        match self.find(position) {
            Some(i) => {
                let (pos, mut stack) = self.board.remove(i);
                stack.push(piece);
                self.board.insert(i, (pos, stack));
                proof {
                    assert(self.cells() =~= old(self).cells().update(
                        i as int,
                        (
                            old(self).cells()[i as int].0,
                            self.cells()[i as int].1,
                        ),
                    ));
                    assert(self.cells()[i as int].1@ =~= old(self).cells()[i as int].1@.push(
                        piece,
                    ));
                    self.lemma_spawn_update(*old(self), i as int, piece);
                }
            },
            None => {
                self.board.push((*position, vec![piece]));
                proof {
                    assert(self.cells().last().1@ =~= seq![piece]);
                    old(self).lemma_spawn_append(*self, *position, piece);
                }
            },
        }
    }

    /// Effect of replacing the stack at index `i` by the same stack with
    /// one more piece on top.
    proof fn lemma_spawn_update(self, prev: Board, i: int, piece: Piece)
        requires
            prev.wf(),
            0 <= i < prev.cells().len(),
            self.cells().len() == prev.cells().len(),
            forall|j: int| 0 <= j < prev.cells().len() && j != i ==> self.cells()[j] == prev.cells()[j],
            self.cells()[i].0 == prev.cells()[i].0,
            self.cells()[i].1@ == prev.cells()[i].1@.push(piece),
        ensures
            self.wf(),
            forall|q: Position| self.occupied(q) <==> prev.occupied(q),
            self.stack_at(prev.cells()[i].0) == prev.stack_at(prev.cells()[i].0).push(piece),
            forall|q: Position|
                prev.occupied(q) && q != prev.cells()[i].0 ==> self.stack_at(q) == prev.stack_at(q),
    {
        assert forall|q: Position| self.occupied(q) implies prev.occupied(q) by {
            let j = choose|j: int| 0 <= j < self.cells().len() && self.cells()[j].0 == q;
            assert(prev.cells()[j].0 == q);
        }
        assert forall|q: Position| prev.occupied(q) implies self.occupied(q) by {
            let j = choose|j: int| 0 <= j < prev.cells().len() && prev.cells()[j].0 == q;
            assert(self.cells()[j].0 == q);
        }
        prev.lemma_cell_index(i);
        self.lemma_cell_index(i);
        assert forall|q: Position| prev.occupied(q) && q != prev.cells()[i].0 implies self.stack_at(
            q,
        ) == prev.stack_at(q) by {
            let j = choose|j: int| 0 <= j < prev.cells().len() && prev.cells()[j].0 == q;
            prev.lemma_cell_index(j);
            self.lemma_cell_index(j);
        }
    }

    /// Effect of appending a fresh one-piece cell for a previously
    /// unoccupied position.
    proof fn lemma_spawn_append(self, next: Board, p: Position, piece: Piece)
        requires
            self.wf(),
            !self.occupied(p),
            p.in_bounds(),
            next.cells().len() == self.cells().len() + 1,
            forall|j: int| 0 <= j < self.cells().len() ==> next.cells()[j] == self.cells()[j],
            next.cells().last().0 == p,
            next.cells().last().1@ == seq![piece],
        ensures
            next.wf(),
            forall|q: Position| next.occupied(q) <==> (self.occupied(q) || q == p),
            next.stack_at(p) == seq![piece],
            forall|q: Position|
                self.occupied(q) && q != p ==> next.stack_at(q) == self.stack_at(q),
    {
        let n = self.cells().len() as int;
        assert forall|q: Position| next.occupied(q) implies (self.occupied(q) || q == p) by {
            let j = choose|j: int| 0 <= j < next.cells().len() && next.cells()[j].0 == q;
            if j < n {
                assert(self.cells()[j].0 == q);
            }
        }
        assert forall|q: Position| self.occupied(q) implies next.occupied(q) by {
            let j = choose|j: int| 0 <= j < self.cells().len() && self.cells()[j].0 == q;
            assert(next.cells()[j].0 == q);
        }
        assert(next.cells()[n].0 == p);
        assert(next.occupied(p));
        assert forall|i: int, j: int|
            0 <= i < j < next.cells().len() implies next.cells()[i].0 != next.cells()[j].0 by {
            if j < n {
                assert(self.cells()[i].0 != self.cells()[j].0);
            } else {
                assert(self.cells()[i].0 == next.cells()[i].0);
                if next.cells()[i].0 == p {
                    assert(self.occupied(p));
                }
            }
        }
        next.lemma_cell_index(n);
        assert forall|q: Position| self.occupied(q) && q != p implies next.stack_at(q)
            == self.stack_at(q) by {
            let j = choose|j: int| 0 <= j < self.cells().len() && self.cells()[j].0 == q;
            self.lemma_cell_index(j);
            next.lemma_cell_index(j);
        }
    }
}

/// The characters a piece is rendered as: its color's letter, its
/// bug's letter, and its stacking order in decimal.
pub open spec fn spec_piece_chars(p: Piece) -> Seq<char> {
    seq![
        if p.color == Color::White {
            'w'
        } else {
            'b'
        },
    ] + seq![p.bug.spec_letter()] + spec_digits(p.order as nat)
}

impl Board {
    /// Every rendered (topmost) piece has a representable order.
    pub open spec fn tops_renderable(self) -> bool {
        forall|i: int| 0 <= i < self.cells().len() ==> 0 <= (#[trigger] self.cells()[i].1@).last().order
    }

    /// One grid cell: the topmost piece and a space, or four spaces for
    /// an unoccupied position.
    pub open spec fn spec_cell(self, x: int, y: int) -> Seq<char> {
        if self.occupied(Position(x as i32, y as i32)) {
            spec_piece_chars(self.stack_at(Position(x as i32, y as i32)).last()) + seq![' ']
        } else {
            seq![' ', ' ', ' ', ' ']
        }
    }

    /// One row of cells from `x` through `max_x`, ending in a newline.
    pub open spec fn spec_row(self, x: int, y: int, max_x: int) -> Seq<char>
        decreases max_x + 1 - x,
    {
        if x > max_x {
            seq!['\n']
        } else {
            self.spec_cell(x, y) + self.spec_row(x + 1, y, max_x)
        }
    }

    /// The rows from `y` through `max_y`; odd rows are shifted by two
    /// spaces to suggest the hex grid.
    pub open spec fn spec_rows(self, y: int, max_y: int, min_x: int, max_x: int) -> Seq<char>
        decreases max_y + 1 - y,
    {
        if y > max_y {
            Seq::empty()
        } else {
            (if y % 2 == 1 {
                seq![' ', ' ']
            } else {
                Seq::<char>::empty()
            }) + self.spec_row(min_x, y, max_x) + self.spec_rows(y + 1, max_y, min_x, max_x)
        }
    }

    /// The x coordinates of the occupied positions, in storage order.
    pub open spec fn xs_of(self) -> Seq<int> {
        self.cells().map_values(|c: (Position, Vec<Piece>)| c.0.0 as int)
    }

    /// The y coordinates of the occupied positions, in storage order.
    pub open spec fn ys_of(self) -> Seq<int> {
        self.cells().map_values(|c: (Position, Vec<Piece>)| c.0.1 as int)
    }

    /// The least x coordinate of any occupied position, 0 if none.
    pub open spec fn spec_min_x(self) -> int {
        fold_extreme(self.xs_of(), false)
    }

    /// The greatest x coordinate of any occupied position, 0 if none.
    pub open spec fn spec_max_x(self) -> int {
        fold_extreme(self.xs_of(), true)
    }

    /// The least y coordinate of any occupied position, 0 if none.
    pub open spec fn spec_min_y(self) -> int {
        fold_extreme(self.ys_of(), false)
    }

    /// The greatest y coordinate of any occupied position, 0 if none.
    pub open spec fn spec_max_y(self) -> int {
        fold_extreme(self.ys_of(), true)
    }

    /// The textual form of the whole board, row by row over the
    /// bounding box of the occupied positions.
    pub open spec fn spec_render(self) -> Seq<char> {
        self.spec_rows(self.spec_min_y(), self.spec_max_y(), self.spec_min_x(), self.spec_max_x())
    }

    /// Renders a cell into `v`.
    fn push_cell(&self, v: &mut Vec<char>, x: i32, y: i32)
        requires
            self.wf(),
            self.tops_renderable(),
        ensures
            final(v)@ == old(v)@ + self.spec_cell(x as int, y as int),
    {
        let p = Position(x, y);
        match self.find(&p) {
            Some(i) => {
                let stack = &self.board[i].1;
                let piece = stack[stack.len() - 1];
                v.push(if matches!(piece.color, Color::White) {
                    'w'
                } else {
                    'b'
                });
                v.push(piece.bug.letter());
                push_digits(v, piece.order as u32);
                v.push(' ');
                proof {
                    assert(v@ =~= old(v)@ + self.spec_cell(x as int, y as int));
                }
            },
            None => {
                v.push(' ');
                v.push(' ');
                v.push(' ');
                v.push(' ');
                proof {
                    assert(v@ =~= old(v)@ + self.spec_cell(x as int, y as int));
                }
            },
        }
    }

    /// The board drawn as text: one row per y coordinate of the
    /// occupied bounding box, odd rows indented, each occupied cell as
    /// its topmost piece. An empty board renders one blank cell.
    pub fn board_string(&self) -> (r: String)
        requires
            self.wf(),
            self.tops_renderable(),
        ensures
            r@ == self.spec_render(),
    {
        let mut min_x: i32 = 0;
        let mut max_x: i32 = 0;
        let mut min_y: i32 = 0;
        let mut max_y: i32 = 0;
        let ghost xs = self.xs_of();
        let ghost ys = self.ys_of();
        let mut i: usize = 0;
        while i < self.board.len()
            invariant
                self.wf(),
                0 <= i <= self.cells().len(),
                xs == self.xs_of(),
                ys == self.ys_of(),
                min_x as int == fold_extreme(xs.take(i as int), false),
                max_x as int == fold_extreme(xs.take(i as int), true),
                min_y as int == fold_extreme(ys.take(i as int), false),
                max_y as int == fold_extreme(ys.take(i as int), true),
                min_x <= max_x,
                min_y <= max_y,
                i32::MIN < min_x,
                i32::MIN < min_y,
                max_x < i32::MAX,
                max_y < i32::MAX,
            decreases self.cells().len() - i,
        {
            let p = self.board[i].0;
            if i == 0 {
                min_x = p.0;
                max_x = p.0;
                min_y = p.1;
                max_y = p.1;
            } else {
                if p.0 < min_x {
                    min_x = p.0;
                }
                if p.0 > max_x {
                    max_x = p.0;
                }
                if p.1 < min_y {
                    min_y = p.1;
                }
                if p.1 > max_y {
                    max_y = p.1;
                }
            }
            proof {
                assert(xs[i as int] == p.0 as int);
                assert(ys[i as int] == p.1 as int);
                if i == 0 {
                    assert(xs.take(1).len() == 1 && xs.take(1)[0] == xs[0]);
                    assert(ys.take(1).len() == 1 && ys.take(1)[0] == ys[0]);
                } else {
                    assert(xs.take(i + 1).drop_last() =~= xs.take(i as int));
                    assert(ys.take(i + 1).drop_last() =~= ys.take(i as int));
                    assert(xs.take(i + 1).last() == p.0 as int);
                    assert(ys.take(i + 1).last() == p.1 as int);
                }
            }
            i += 1;
        }
        proof {
            assert(xs.take(self.cells().len() as int) =~= xs);
            assert(ys.take(self.cells().len() as int) =~= ys);
            assert(min_x as int == self.spec_min_x());
            assert(max_x as int == self.spec_max_x());
            assert(min_y as int == self.spec_min_y());
            assert(max_y as int == self.spec_max_y());
        }
        let mut v: Vec<char> = Vec::new();
        let mut y: i32 = min_y;
        while y <= max_y
            invariant
                self.wf(),
                self.tops_renderable(),
                min_y <= y,
                y <= max_y + 1,
                max_y < i32::MAX,
                max_x < i32::MAX,
                min_x <= max_x,
                self.spec_render() == v@ + self.spec_rows(
                    y as int,
                    max_y as int,
                    min_x as int,
                    max_x as int,
                ),
                min_x as int == self.spec_min_x(),
                max_x as int == self.spec_max_x(),
                min_y as int == self.spec_min_y(),
                max_y as int == self.spec_max_y(),
            decreases max_y + 1 - y,
        {
            let ghost v_row_start = v@;
            if y % 2 != 0 {
                v.push(' ');
                v.push(' ');
            }
            proof {
                let ind = if (y as int) % 2 == 1 {
                    seq![' ', ' ']
                } else {
                    Seq::<char>::empty()
                };
                let row = self.spec_row(min_x as int, y as int, max_x as int);
                let rest = self.spec_rows(y as int + 1, max_y as int, min_x as int, max_x as int);
                assert(v@ =~= v_row_start + ind);
                assert(self.spec_rows(y as int, max_y as int, min_x as int, max_x as int) == ind
                    + row + rest);
                lemma_concat_associative(v_row_start, ind + row, rest);
                lemma_concat_associative(v_row_start, ind, row);
                assert(self.spec_render() == v@ + row + rest);
            }
            let mut x: i32 = min_x;
            while x <= max_x
                invariant
                    self.wf(),
                    self.tops_renderable(),
                    min_x <= x,
                    x <= max_x + 1,
                    max_x < i32::MAX,
                    min_y <= y <= max_y,
                    self.spec_render() == v@ + self.spec_row(x as int, y as int, max_x as int)
                        + self.spec_rows(y as int + 1, max_y as int, min_x as int, max_x as int),
                decreases max_x + 1 - x,
            {
                let ghost v_before = v@;
                self.push_cell(&mut v, x, y);
                proof {
                    lemma_concat_associative(
                        v_before,
                        self.spec_cell(x as int, y as int),
                        self.spec_row(x as int + 1, y as int, max_x as int),
                    );
                }
                x += 1;
            }
            proof {
                assert(self.spec_row(x as int, y as int, max_x as int) == seq!['\n']);
            }
            let ghost v_end = v@;
            v.push('\n');
            proof {
                assert(v@ =~= v_end + seq!['\n']);
            }
            y += 1;
        }
        proof {
            assert(self.spec_rows(y as int, max_y as int, min_x as int, max_x as int)
                == Seq::<char>::empty());
            assert(self.spec_render() =~= v@);
        }
        chars_to_string(&v)
    }
}

/// The minimum (`max == false`) or maximum (`max == true`) of a
/// sequence of integers, 0 when it is empty.
pub open spec fn fold_extreme(s: Seq<int>, max: bool) -> int
    decreases s.len(),
{
    if s.len() == 0 {
        0
    } else if s.len() == 1 {
        s[0]
    } else {
        let m = fold_extreme(s.drop_last(), max);
        if (max && s.last() > m) || (!max && s.last() < m) {
            s.last()
        } else {
            m
        }
    }
}

/// A copy of a piece stack.
fn clone_stack(v: &Vec<Piece>) -> (r: Vec<Piece>)
    ensures
        r@ == v@,
{
    let mut r: Vec<Piece> = Vec::new();
    let mut i: usize = 0;
    while i < v.len()
        invariant
            0 <= i <= v@.len(),
            r@ == v@.subrange(0, i as int),
        decreases v@.len() - i,
    {
        r.push(v[i]);
        proof {
            assert(r@ =~= v@.subrange(0, i + 1));
        }
        i += 1;
    }
    proof {
        assert(r@ =~= v@);
    }
    r
}

/// Whether `p` already occurs in `v`.
fn contains_pos(v: &Vec<Position>, p: &Position) -> (r: bool)
    ensures
        r == v@.contains(*p),
{
    let mut i: usize = 0;
    while i < v.len()
        invariant
            0 <= i <= v@.len(),
            forall|j: int| 0 <= j < i ==> v@[j] != *p,
        decreases v@.len() - i,
    {
        if v[i] == *p {
            return true;
        }
        i += 1;
    }
    false
}

} // verus!
