use vstd::prelude::*;
use crate::board::{legal, occupied, Cell, Pos};
use crate::shape::Shape;

verus! {

/// Largest distance, in half cells along either axis, between a cell of a
/// piece and the piece's pivot.
pub const REACH: i64 = 8;

/// Bound on the pivot's coordinates, in half cells.
pub const FAR: i64 = 1099511627776;

/// The active piece: its shape, its four cells, and its rotation pivot.
/// The pivot is stored in half cells (`pivot2` is twice the pivot), so that
/// it may sit on a cell centre or on a cell corner.
#[derive(Clone, Copy, Debug, PartialEq, Eq, Structural)]
pub struct Piece {
    pub shape: Shape,
    pub a: Pos,
    pub b: Pos,
    pub c: Pos,
    pub d: Pos,
    pub pivot2: Pos,
}

/// Cell `(x, y)` lies within `REACH` half cells of the pivot `pv`.
pub open spec fn near(c: Pos, pv: Pos) -> bool {
    &&& -REACH <= 2 * c.x - pv.x <= REACH
    &&& -REACH <= 2 * c.y - pv.y <= REACH
}

/// `c` moved by `dx` columns and `dy` rows.
pub open spec fn shift(c: Pos, dx: int, dy: int) -> Pos {
    Pos { x: (c.x + dx) as i64, y: (c.y + dy) as i64 }
}

/// `c` turned a quarter around the pivot `pv` (given in half cells):
/// `x' = px + (y - py)`, `y' = py - (x - px)`.
pub open spec fn turn(c: Pos, pv: Pos) -> Pos {
    Pos { x: ((pv.x + 2 * c.y - pv.y) / 2) as i64, y: ((pv.y + pv.x - 2 * c.x) / 2) as i64 }
}

/// `(x0 + i, j)`.
pub open spec fn at(x0: int, i: int, j: int) -> Pos {
    Pos { x: (x0 + i) as i64, y: j as i64 }
}

/// Column that the spawn pattern is placed around on a board `width` wide.
pub open spec fn spawn_column(width: int) -> int {
    width / 2 - 1
}

/// The piece of shape `s` as it enters a board `width` wide, in rows 0 and 1.
pub open spec fn spawn_piece(s: Shape, width: int) -> Piece {
    let x0 = spawn_column(width);
    let centre = Pos { x: (2 * x0) as i64, y: 2 };
    let corner = Pos { x: (2 * x0 + 1) as i64, y: 1 };
    match s {
        Shape::IBlock => Piece { shape: s, a: at(x0, -1, 0), b: at(x0, 0, 0), c: at(x0, 1, 0), d: at(x0, 2, 0), pivot2: corner },
        Shape::OBlock => Piece { shape: s, a: at(x0, 0, 0), b: at(x0, 1, 0), c: at(x0, 0, 1), d: at(x0, 1, 1), pivot2: corner },
        Shape::TBlock => Piece { shape: s, a: at(x0, -1, 1), b: at(x0, 0, 1), c: at(x0, 1, 1), d: at(x0, 0, 0), pivot2: centre },
        Shape::SBlock => Piece { shape: s, a: at(x0, -1, 1), b: at(x0, 0, 1), c: at(x0, 0, 0), d: at(x0, 1, 0), pivot2: centre },
        Shape::ZBlock => Piece { shape: s, a: at(x0, -1, 0), b: at(x0, 0, 0), c: at(x0, 0, 1), d: at(x0, 1, 1), pivot2: centre },
        Shape::JBlock => Piece { shape: s, a: at(x0, -1, 0), b: at(x0, -1, 1), c: at(x0, 0, 1), d: at(x0, 1, 1), pivot2: centre },
        Shape::LBlock => Piece { shape: s, a: at(x0, 1, 0), b: at(x0, -1, 1), c: at(x0, 0, 1), d: at(x0, 1, 1), pivot2: centre },
    }
}

impl Piece {
    /// The four cells, in order.
    pub open spec fn cells(self) -> Seq<Pos> {
        seq![self.a, self.b, self.c, self.d]
    }

    /// Four distinct cells near a pivot that lies on a cell centre or corner
    /// and within `FAR` of the origin.
    pub open spec fn wf(self) -> bool {
        &&& near(self.a, self.pivot2)
        &&& near(self.b, self.pivot2)
        &&& near(self.c, self.pivot2)
        &&& near(self.d, self.pivot2)
        &&& -FAR <= self.pivot2.x <= FAR
        &&& -FAR <= self.pivot2.y <= FAR
        &&& (self.pivot2.x + self.pivot2.y) % 2 == 0
        &&& self.a != self.b && self.a != self.c && self.a != self.d
        &&& self.b != self.c && self.b != self.d && self.c != self.d
    }

    /// The piece moved by `dx` columns and `dy` rows.
    pub open spec fn translated(self, dx: int, dy: int) -> Piece {
        Piece {
            shape: self.shape,
            a: shift(self.a, dx, dy),
            b: shift(self.b, dx, dy),
            c: shift(self.c, dx, dy),
            d: shift(self.d, dx, dy),
            pivot2: shift(self.pivot2, 2 * dx, 2 * dy),
        }
    }

    /// The piece turned a quarter around its pivot; the O shape stays as it is.
    pub open spec fn rotated(self) -> Piece {
        if self.shape == Shape::OBlock {
            self
        } else {
            Piece {
                shape: self.shape,
                a: turn(self.a, self.pivot2),
                b: turn(self.b, self.pivot2),
                c: turn(self.c, self.pivot2),
                d: turn(self.d, self.pivot2),
                pivot2: self.pivot2,
            }
        }
    }

    /// The piece's four cells.
    pub fn cell_list(&self) -> (r: Vec<Pos>)
        ensures
            r@ == self.cells(),
    {
        let r = vec![self.a, self.b, self.c, self.d];
        assert(r@ =~= self.cells());
        r
    }

    /// The piece of shape `s` at the spawn position of a board `width` wide.
    pub fn spawn(s: Shape, width: usize) -> (r: Piece)
        requires
            width <= i32::MAX,
        ensures
            r == spawn_piece(s, width as int),
            r.wf(),
    {
        let x0: i64 = (width / 2) as i64 - 1;
        let centre = Pos { x: 2 * x0, y: 2 };
        let corner = Pos { x: 2 * x0 + 1, y: 1 };
        match s {
            Shape::IBlock => Piece { shape: s, a: Pos { x: x0 - 1, y: 0 }, b: Pos { x: x0, y: 0 }, c: Pos { x: x0 + 1, y: 0 }, d: Pos { x: x0 + 2, y: 0 }, pivot2: corner },
            Shape::OBlock => Piece { shape: s, a: Pos { x: x0, y: 0 }, b: Pos { x: x0 + 1, y: 0 }, c: Pos { x: x0, y: 1 }, d: Pos { x: x0 + 1, y: 1 }, pivot2: corner },
            Shape::TBlock => Piece { shape: s, a: Pos { x: x0 - 1, y: 1 }, b: Pos { x: x0, y: 1 }, c: Pos { x: x0 + 1, y: 1 }, d: Pos { x: x0, y: 0 }, pivot2: centre },
            Shape::SBlock => Piece { shape: s, a: Pos { x: x0 - 1, y: 1 }, b: Pos { x: x0, y: 1 }, c: Pos { x: x0, y: 0 }, d: Pos { x: x0 + 1, y: 0 }, pivot2: centre },
            Shape::ZBlock => Piece { shape: s, a: Pos { x: x0 - 1, y: 0 }, b: Pos { x: x0, y: 0 }, c: Pos { x: x0, y: 1 }, d: Pos { x: x0 + 1, y: 1 }, pivot2: centre },
            Shape::JBlock => Piece { shape: s, a: Pos { x: x0 - 1, y: 0 }, b: Pos { x: x0 - 1, y: 1 }, c: Pos { x: x0, y: 1 }, d: Pos { x: x0 + 1, y: 1 }, pivot2: centre },
            Shape::LBlock => Piece { shape: s, a: Pos { x: x0 + 1, y: 0 }, b: Pos { x: x0 - 1, y: 1 }, c: Pos { x: x0, y: 1 }, d: Pos { x: x0 + 1, y: 1 }, pivot2: centre },
        }
    }

    /// The candidate piece moved by `dx` columns and `dy` rows; `self` is unchanged.
    pub fn translate(&self, dx: i64, dy: i64) -> (r: Piece)
        requires
            self.wf(),
            -1 <= dx <= 1,
            -1 <= dy <= 1,
            -FAR <= self.pivot2.x + 2 * dx <= FAR,
            -FAR <= self.pivot2.y + 2 * dy <= FAR,
        ensures
            r == self.translated(dx as int, dy as int),
            r.wf(),
    {
        Piece {
            shape: self.shape,
            a: Pos { x: self.a.x + dx, y: self.a.y + dy },
            b: Pos { x: self.b.x + dx, y: self.b.y + dy },
            c: Pos { x: self.c.x + dx, y: self.c.y + dy },
            d: Pos { x: self.d.x + dx, y: self.d.y + dy },
            pivot2: Pos { x: self.pivot2.x + 2 * dx, y: self.pivot2.y + 2 * dy },
        }
    }

    /// The candidate piece turned a quarter around its pivot; `self` is unchanged.
    pub fn rotate(&self) -> (r: Piece)
        requires
            self.wf(),
        ensures
            r == self.rotated(),
            r.wf(),
    {
        if self.shape == Shape::OBlock {
            return *self;
        }
        let pv = self.pivot2;
        proof {
            lemma_turn(self.a, pv);
            lemma_turn(self.b, pv);
            lemma_turn(self.c, pv);
            lemma_turn(self.d, pv);
        }
        Piece {
            shape: self.shape,
            a: turn_cell(self.a, pv),
            b: turn_cell(self.b, pv),
            c: turn_cell(self.c, pv),
            d: turn_cell(self.d, pv),
            pivot2: pv,
        }
    }
}

/// Turning keeps a cell near the pivot and maps its offset from the pivot
/// `(ox, oy)` to `(oy, -ox)`.
pub proof fn lemma_turn(c: Pos, pv: Pos)
    requires
        near(c, pv),
        -FAR <= pv.x <= FAR,
        -FAR <= pv.y <= FAR,
        (pv.x + pv.y) % 2 == 0,
    ensures
        near(turn(c, pv), pv),
        2 * turn(c, pv).x - pv.x == 2 * c.y - pv.y,
        2 * turn(c, pv).y - pv.y == pv.x - 2 * c.x,
{
}

fn turn_cell(c: Pos, pv: Pos) -> (r: Pos)
    requires
        near(c, pv),
        -FAR <= pv.x <= FAR,
        -FAR <= pv.y <= FAR,
        (pv.x + pv.y) % 2 == 0,
    ensures
        r == turn(c, pv),
{
    Pos { x: (pv.x + 2 * c.y - pv.y) / 2, y: (pv.y + pv.x - 2 * c.x) / 2 }
}

/// Turning keeps a piece well formed.
pub proof fn lemma_rotated_wf(p: Piece)
    requires
        p.wf(),
    ensures
        p.rotated().wf(),
{
    lemma_turn(p.a, p.pivot2);
    lemma_turn(p.b, p.pivot2);
    lemma_turn(p.c, p.pivot2);
    lemma_turn(p.d, p.pivot2);
}

proof fn lemma_turn_four(c: Pos, pv: Pos)
    requires
        near(c, pv),
        -FAR <= pv.x <= FAR,
        -FAR <= pv.y <= FAR,
        (pv.x + pv.y) % 2 == 0,
    ensures
        turn(turn(turn(turn(c, pv), pv), pv), pv) == c,
{
    let c1 = turn(c, pv);
    let c2 = turn(c1, pv);
    let c3 = turn(c2, pv);
    lemma_turn(c, pv);
    lemma_turn(c1, pv);
    lemma_turn(c2, pv);
    lemma_turn(c3, pv);
}

/// Rotation is a cycle of order four: turning any piece four times puts
/// every cell back where it was, and the O shape does not move at all.
pub proof fn lemma_rotate_four_times(p: Piece)
    requires
        p.wf(),
    ensures
        p.rotated().rotated().rotated().rotated() == p,
        p.shape == Shape::OBlock ==> p.rotated() == p,
{
    let p1 = p.rotated();
    let p2 = p1.rotated();
    let p3 = p2.rotated();
    lemma_rotated_wf(p);
    lemma_rotated_wf(p1);
    lemma_rotated_wf(p2);
    if p.shape != Shape::OBlock {
        lemma_turn_four(p.a, p.pivot2);
        lemma_turn_four(p.b, p.pivot2);
        lemma_turn_four(p.c, p.pivot2);
        lemma_turn_four(p.d, p.pivot2);
    }
}

/// `(x, y)` is occupied for a reason other than the left wall.
pub open spec fn occupied_past_left(g: Seq<Seq<Cell>>, w: int, x: int, y: int) -> bool {
    ||| x >= w
    ||| y >= g.len()
    ||| (0 <= x && 0 <= y && g[y][x] is Some)
}

/// `(x, y)` is occupied for a reason other than the right wall.
pub open spec fn occupied_past_right(g: Seq<Seq<Cell>>, w: int, x: int, y: int) -> bool {
    ||| x < 0
    ||| y >= g.len()
    ||| (x < w && 0 <= y && g[y][x] is Some)
}

/// Some cell of `p` lies in column `x`.
pub open spec fn in_column(p: Piece, x: int) -> bool {
    exists|i: int| 0 <= i < 4 && (#[trigger] p.cells()[i]).x == x
}

/// Some cell of `p` lies in row `y`.
pub open spec fn in_row(p: Piece, y: int) -> bool {
    exists|i: int| 0 <= i < 4 && (#[trigger] p.cells()[i]).y == y
}

/// A piece against the left wall cannot move left, one against the right
/// wall cannot move right, and one on the floor cannot move down. For a
/// legal piece a move to the right is never refused by the left wall, nor a
/// move to the left by the right wall.
pub proof fn lemma_walls(g: Seq<Seq<Cell>>, w: int, p: Piece)
    requires
        p.wf(),
        0 <= w,
        forall|y: int| 0 <= y < g.len() ==> (#[trigger] g[y]).len() == w,
    ensures
        in_column(p, 0) ==> !legal(g, w, p.translated(-1, 0).cells()),
        in_column(p, w - 1) ==> !legal(g, w, p.translated(1, 0).cells()),
        in_row(p, g.len() - 1) ==> !legal(g, w, p.translated(0, 1).cells()),
        legal(g, w, p.cells()) ==> (legal(g, w, p.translated(1, 0).cells()) <==>
            forall|i: int| 0 <= i < 4 ==> !occupied_past_left(g, w, (#[trigger] p.translated(1, 0).cells()[i]).x as int, p.translated(1, 0).cells()[i].y as int)),
        legal(g, w, p.cells()) ==> (legal(g, w, p.translated(-1, 0).cells()) <==>
            forall|i: int| 0 <= i < 4 ==> !occupied_past_right(g, w, (#[trigger] p.translated(-1, 0).cells()[i]).x as int, p.translated(-1, 0).cells()[i].y as int)),
{
    let l = p.translated(-1, 0).cells();
    let r = p.translated(1, 0).cells();
    let d = p.translated(0, 1).cells();
    if in_column(p, 0) {
        let i = choose|i: int| 0 <= i < 4 && (#[trigger] p.cells()[i]).x == 0;
        assert(occupied(g, w, l[i].x as int, l[i].y as int));
    }
    if in_column(p, w - 1) {
        let i = choose|i: int| 0 <= i < 4 && (#[trigger] p.cells()[i]).x == w - 1;
        assert(occupied(g, w, r[i].x as int, r[i].y as int));
    }
    if in_row(p, g.len() - 1) {
        let i = choose|i: int| 0 <= i < 4 && (#[trigger] p.cells()[i]).y == g.len() - 1;
        assert(occupied(g, w, d[i].x as int, d[i].y as int));
    }
    if legal(g, w, p.cells()) {
        assert forall|i: int| 0 <= i < 4 implies (#[trigger] r[i]).x >= 1 && l[i].x < w - 1 by {
            assert(!occupied(g, w, p.cells()[i].x as int, p.cells()[i].y as int));
        }
    }
}

} // verus!
