use vstd::prelude::*;
use crate::shape::Shape;

verus! {

/// What a board cell holds: nothing, or the shape of the piece that settled there.
pub type Cell = Option<Shape>;

/// A grid position: `x` is the column, `y` the row, row 0 at the top.
#[derive(Clone, Copy, Debug, PartialEq, Eq, Structural)]
pub struct Pos {
    pub x: i64,
    pub y: i64,
}

/// The grid of settled blocks, stored row by row from the top.
pub struct Board {
    width: usize,
    rows: Vec<Vec<Cell>>,
}

/// A row with every column occupied.
pub open spec fn row_full(row: Seq<Cell>) -> bool {
    forall|c: int| 0 <= c < row.len() ==> (#[trigger] row[c]) is Some
}

/// A row of `w` empty cells.
pub open spec fn empty_row(w: int) -> Seq<Cell> {
    Seq::new(w as nat, |c: int| None::<Shape>)
}

/// The grid `g` (of width `w`) counts `(x, y)` as occupied: outside the side
/// walls, below the floor, or holding a settled block. Rows above the top are free.
pub open spec fn occupied(g: Seq<Seq<Cell>>, w: int, x: int, y: int) -> bool {
    ||| x < 0
    ||| x >= w
    ||| y >= g.len()
    ||| (0 <= y && g[y][x] is Some)
}

/// No cell of `cells` is occupied in `g`.
pub open spec fn legal(g: Seq<Seq<Cell>>, w: int, cells: Seq<Pos>) -> bool {
    forall|i: int| 0 <= i < cells.len() ==> !occupied(g, w, (#[trigger] cells[i]).x as int, cells[i].y as int)
}

/// Some cell of `cells` stands at `(x, y)`.
pub open spec fn covers(cells: Seq<Pos>, x: int, y: int) -> bool {
    exists|i: int| 0 <= i < cells.len() && (#[trigger] cells[i]).x == x && cells[i].y == y
}

/// `g` with every cell of `cells` inside the grid marked with `tag`.
pub open spec fn settled(g: Seq<Seq<Cell>>, cells: Seq<Pos>, tag: Shape) -> Seq<Seq<Cell>> {
    Seq::new(g.len(), |y: int| Seq::new(g[y].len(), |x: int|
        if covers(cells, x, y) { Some(tag) } else { g[y][x] }))
}

/// Indices, in ascending order, of the full rows among the first `n` rows of `g`.
pub open spec fn full_rows_upto(g: Seq<Seq<Cell>>, n: nat) -> Seq<usize>
    decreases n,
{
    if n == 0 {
        Seq::empty()
    } else {
        let before = full_rows_upto(g, (n - 1) as nat);
        if row_full(g[n - 1]) { before.push((n - 1) as usize) } else { before }
    }
}

/// Indices, in ascending order, of the full rows of `g`.
pub open spec fn full_rows_of(g: Seq<Seq<Cell>>) -> Seq<usize> {
    full_rows_upto(g, g.len())
}

/// The first `n` rows of `g` whose index is not in `rs`, top to bottom.
pub open spec fn kept_upto(g: Seq<Seq<Cell>>, rs: Seq<usize>, n: nat) -> Seq<Seq<Cell>>
    decreases n,
{
    if n == 0 {
        Seq::empty()
    } else {
        let before = kept_upto(g, rs, (n - 1) as nat);
        if rs.contains((n - 1) as usize) { before } else { before.push(g[n - 1]) }
    }
}

/// `g` with the rows listed in `rs` removed, the rows above them moved down,
/// and empty rows (of width `w`) entering at the top.
pub open spec fn cleared(g: Seq<Seq<Cell>>, w: int, rs: Seq<usize>) -> Seq<Seq<Cell>> {
    let kept = kept_upto(g, rs, g.len());
    Seq::new((g.len() - kept.len()) as nat, |i: int| empty_row(w)) + kept
}

/// Number of full rows of `g` with index in `lo..hi`.
pub open spec fn full_count(g: Seq<Seq<Cell>>, lo: int, hi: int) -> nat
    decreases hi - lo,
{
    if hi <= lo {
        0
    } else {
        full_count(g, lo, hi - 1) + if row_full(g[hi - 1]) { 1nat } else { 0nat }
    }
}

proof fn lemma_full_rows_upto(g: Seq<Seq<Cell>>, n: nat)
    requires
        n <= g.len(),
        g.len() <= i32::MAX,
    ensures
        forall|i: int| 0 <= i < full_rows_upto(g, n).len() ==> (#[trigger] full_rows_upto(g, n)[i]) < n,
        forall|y: int| 0 <= y < n ==> (full_rows_upto(g, n).contains(y as usize) <==> row_full(#[trigger] g[y])),
    decreases n,
{
    if n > 0 {
        let m = (n - 1) as nat;
        lemma_full_rows_upto(g, m);
        let before = full_rows_upto(g, m);
        let now = full_rows_upto(g, n);
        assert forall|y: int| 0 <= y < n implies (now.contains(y as usize) <==> row_full(#[trigger] g[y])) by {
            if row_full(g[m as int]) {
                assert(now == before.push(m as usize));
                if y < m {
                    if now.contains(y as usize) {
                        let k = choose|k: int| 0 <= k < now.len() && now[k] == y as usize;
                        if k < before.len() {
                            assert(before.contains(y as usize));
                        }
                    }
                    if before.contains(y as usize) {
                        let k = choose|k: int| 0 <= k < before.len() && before[k] == y as usize;
                        assert(now[k] == y as usize);
                    }
                } else {
                    assert(now[now.len() - 1] == y as usize);
                }
            } else {
                if y == m {
                    if now.contains(y as usize) {
                        let k = choose|k: int| 0 <= k < now.len() && now[k] == y as usize;
                        assert(before[k] < m);
                    }
                }
            }
        }
    }
}

proof fn lemma_full_count_split(g: Seq<Seq<Cell>>, lo: int, m: int, hi: int)
    requires
        lo <= m <= hi,
    ensures
        full_count(g, lo, hi) == full_count(g, lo, m) + full_count(g, m, hi),
    decreases hi - m,
{
    if hi > m {
        lemma_full_count_split(g, lo, m, hi - 1);
    }
}

proof fn lemma_kept_non_full(g: Seq<Seq<Cell>>, rs: Seq<usize>, n: nat)
    requires
        n <= g.len(),
        g.len() <= i32::MAX,
        forall|y: int| 0 <= y < n ==> (rs.contains(y as usize) <==> row_full(#[trigger] g[y])),
    ensures
        kept_upto(g, rs, n).len() + full_count(g, 0, n as int) == n,
        forall|i: int| 0 <= i < kept_upto(g, rs, n).len() ==> !row_full(#[trigger] kept_upto(g, rs, n)[i]),
        forall|y: int| 0 <= y < n && !row_full(#[trigger] g[y]) ==> 0 <= y - full_count(g, 0, y) < kept_upto(g, rs, n).len()
            && kept_upto(g, rs, n)[y - full_count(g, 0, y)] == g[y],
    decreases n,
{
    if n > 0 {
        let m = (n - 1) as nat;
        lemma_kept_non_full(g, rs, m);
        let before = kept_upto(g, rs, m);
        let now = kept_upto(g, rs, n);
        assert(g[m as int] == g[m as int]);
        if !rs.contains(m as usize) {
            assert(now == before.push(g[m as int]));
        }
        assert forall|y: int| 0 <= y < n && !row_full(#[trigger] g[y]) implies 0 <= y - full_count(g, 0, y) < now.len()
            && now[y - full_count(g, 0, y)] == g[y] by {
            if y < m {
                assert(before[y - full_count(g, 0, y)] == g[y]);
            }
        }
    }
}

impl View for Board {
    type V = Seq<Seq<Cell>>;

    closed spec fn view(&self) -> Seq<Seq<Cell>> {
        Seq::new(self.rows@.len(), |y: int| self.rows@[y]@)
    }
}

/// A copy of `row`, cell by cell.
fn copy_row(row: &Vec<Cell>) -> (r: Vec<Cell>)
    ensures
        r@ == row@,
{
    let mut r: Vec<Cell> = Vec::new();
    let mut i: usize = 0;
    while i < row.len()
        invariant
            i <= row.len(),
            r@ == row@.subrange(0, i as int),
        decreases row.len() - i,
    {
        r.push(row[i]);
        i += 1;
    }
    assert(r@ =~= row@);
    r
}

/// A row of `w` empty cells.
fn new_empty_row(w: usize) -> (r: Vec<Cell>)
    ensures
        r@ == empty_row(w as int),
{
    let mut r: Vec<Cell> = Vec::new();
    let mut i: usize = 0;
    while i < w
        invariant
            i <= w,
            r@ =~= Seq::new(i as nat, |c: int| None::<Shape>),
        decreases w - i,
    {
        r.push(None);
        i += 1;
    }
    r
}

/// `rs` holds `v`.
fn holds(rs: &Vec<usize>, v: usize) -> (r: bool)
    ensures
        r == rs@.contains(v),
{
    let mut i: usize = 0;
    while i < rs.len()
        invariant
            i <= rs.len(),
            forall|j: int| 0 <= j < i ==> rs@[j] != v,
        decreases rs.len() - i,
    {
        if rs[i] == v {
            return true;
        }
        i += 1;
    }
    false
}

impl Board {
    /// Every row has `width` cells and coordinates fit in an `i32`.
    pub closed spec fn wf(&self) -> bool {
        &&& self.width <= i32::MAX
        &&& self.rows@.len() <= i32::MAX
        &&& forall|y: int| 0 <= y < self.rows@.len() ==> (#[trigger] self.rows@[y])@.len() == self.width
    }

    pub closed spec fn spec_width(&self) -> int {
        self.width as int
    }

    pub closed spec fn spec_height(&self) -> int {
        self.rows@.len() as int
    }

    /// What well-formedness gives: the grid has `spec_height` rows of
    /// `spec_width` cells each, both dimensions fitting in an `i32`.
    pub proof fn lemma_dims(&self)
        requires
            self.wf(),
        ensures
            self@.len() == self.spec_height(),
            0 <= self.spec_width() <= i32::MAX,
            0 <= self.spec_height() <= i32::MAX,
            forall|y: int| 0 <= y < self.spec_height() ==> (#[trigger] self@[y]).len() == self.spec_width(),
    {
    }

    /// An empty board of `width` columns and `height` rows.
    pub fn new(width: usize, height: usize) -> (r: Board)
        requires
            width <= i32::MAX,
            height <= i32::MAX,
        ensures
            r.wf(),
            r.spec_width() == width,
            r@ == Seq::new(height as nat, |y: int| empty_row(width as int)),
    {
        let mut rows: Vec<Vec<Cell>> = Vec::new();
        let mut i: usize = 0;
        while i < height
            invariant
                i <= height,
                rows@.len() == i,
                forall|y: int| 0 <= y < i ==> (#[trigger] rows@[y])@ == empty_row(width as int),
            decreases height - i,
        {
            let row = new_empty_row(width);
            rows.push(row);
            i += 1;
        }
        let r = Board { width, rows };
        assert(r@ =~= Seq::new(height as nat, |y: int| empty_row(width as int)));
        r
    }

    pub fn width(&self) -> (r: usize)
        ensures
            r == self.spec_width(),
    {
        self.width
    }

    pub fn height(&self) -> (r: usize)
        ensures
            r == self.spec_height(),
    {
        self.rows.len()
    }

    /// The content of the in-grid cell `(x, y)`.
    pub fn cell(&self, x: usize, y: usize) -> (r: Cell)
        requires
            self.wf(),
            x < self.spec_width(),
            y < self.spec_height(),
        ensures
            r == self@[y as int][x as int],
    {
        self.rows[y][x]
    }

    /// Whether `(x, y)` is off the sides, below the floor, or holds a settled block.
    pub fn is_occupied(&self, x: i64, y: i64) -> (r: bool)
        requires
            self.wf(),
        ensures
            r == occupied(self@, self.spec_width(), x as int, y as int),
    {
        if x < 0 || x >= self.width as i64 || y >= self.rows.len() as i64 {
            true
        } else if y < 0 {
            false
        } else {
            self.rows[y as usize][x as usize].is_some()
        }
    }

    /// Whether no cell of `cells` is occupied.
    pub fn is_legal(&self, cells: &Vec<Pos>) -> (r: bool)
        requires
            self.wf(),
        ensures
            r == legal(self@, self.spec_width(), cells@),
    {
        let mut i: usize = 0;
        while i < cells.len()
            invariant
                self.wf(),
                i <= cells@.len(),
                forall|j: int| 0 <= j < i ==> !occupied(self@, self.spec_width(), (#[trigger] cells@[j]).x as int, cells@[j].y as int),
            decreases cells@.len() - i,
        {
            if self.is_occupied(cells[i].x, cells[i].y) {
                return false;
            }
            i += 1;
        }
        true
    }
    /// Writes `tag` into every in-grid cell of `cells`; all of them must be free.
    pub fn settle(&mut self, cells: &Vec<Pos>, tag: Shape)
        requires
            old(self).wf(),
            legal(old(self)@, old(self).spec_width(), cells@),
        ensures
            final(self).wf(),
            final(self).spec_width() == old(self).spec_width(),
            final(self).spec_height() == old(self).spec_height(),
            final(self)@ == settled(old(self)@, cells@, tag),
    {
        let ghost g = self@;
        let mut i: usize = 0;
        proof {
            assert(settled(g, cells@.subrange(0, 0), tag) =~~= g);
        }
        while i < cells.len()
            invariant
                self.wf(),
                self.spec_width() == old(self).spec_width(),
                self.spec_height() == old(self).spec_height(),
                g == old(self)@,
                legal(g, self.spec_width(), cells@),
                i <= cells@.len(),
                self@ == settled(g, cells@.subrange(0, i as int), tag),
            decreases cells@.len() - i,
        {
            let p = cells[i];
            let ghost pre = cells@.subrange(0, i as int);
            let ghost post = cells@.subrange(0, i as int + 1);
            assert(!occupied(g, self.spec_width(), cells@[i as int].x as int, cells@[i as int].y as int));
            assert forall|xx: int, yy: int|
                #[trigger] covers(post, xx, yy) == (covers(pre, xx, yy) || (xx == p.x && yy == p.y)) by {
                if covers(post, xx, yy) {
                    let k = choose|k: int| 0 <= k < post.len() && (#[trigger] post[k]).x == xx && post[k].y == yy;
                    if k < i {
                        assert(pre[k] == post[k]);
                    }
                }
                if covers(pre, xx, yy) {
                    let k = choose|k: int| 0 <= k < pre.len() && (#[trigger] pre[k]).x == xx && pre[k].y == yy;
                    assert(post[k] == pre[k]);
                }
                if xx == p.x && yy == p.y {
                    assert(post[i as int] == p);
                }
            }
            if p.y >= 0 {
                let ghost before = self@;
                let yi = p.y as usize;
                let xi = p.x as usize;
                self.rows[yi].set(xi, Some(tag));
                proof {
                    let target = settled(g, post, tag);
                    assert(self@.len() == target.len());
                    assert forall|yy: int| 0 <= yy < self@.len() implies self@[yy] =~= target[yy] by {
                        assert(before[yy] == settled(g, pre, tag)[yy]);
                        if yy == yi {
                            assert(self@[yy] == before[yy].update(xi as int, Some(tag)));
                        } else {
                            assert(self@[yy] == before[yy]);
                        }
                    }
                    assert(self@ =~= target);
                }
            } else {
                proof {
                    assert(self@ =~~= settled(g, post, tag));
                }
            }
            i += 1;
        }
        proof {
            assert(cells@.subrange(0, cells@.len() as int) =~= cells@);
        }
    }

    /// Whether every cell of row `y` is occupied.
    fn row_is_full(&self, y: usize) -> (r: bool)
        requires
            self.wf(),
            y < self.spec_height(),
        ensures
            r == row_full(self@[y as int]),
    {
        let row = &self.rows[y];
        let mut x: usize = 0;
        while x < row.len()
            invariant
                x <= row@.len(),
                row@ == self@[y as int],
                forall|c: int| 0 <= c < x ==> (#[trigger] row@[c]) is Some,
            decreases row@.len() - x,
        {
            if row[x].is_none() {
                return false;
            }
            x += 1;
        }
        true
    }

    /// Indices of the full rows, in ascending order.
    pub fn full_rows(&self) -> (r: Vec<usize>)
        requires
            self.wf(),
        ensures
            r@ == full_rows_of(self@),
    {
        let mut r: Vec<usize> = Vec::new();
        let mut y: usize = 0;
        while y < self.rows.len()
            invariant
                self.wf(),
                y <= self.spec_height(),
                self@.len() == self.spec_height(),
                r@ == full_rows_upto(self@, y as nat),
            decreases self.spec_height() - y,
        {
            if self.row_is_full(y) {
                r.push(y);
            }
            y += 1;
        }
        r
    }

    /// Removes the rows listed in `rs`, moves the rows above them down, and
    /// fills the top with empty rows, keeping the height.
    pub fn clear_rows(&mut self, rs: &Vec<usize>)
        requires
            old(self).wf(),
        ensures
            final(self).wf(),
            final(self).spec_width() == old(self).spec_width(),
            final(self).spec_height() == old(self).spec_height(),
            final(self)@ == cleared(old(self)@, old(self).spec_width(), rs@),
    {
        let ghost g = self@;
        let h = self.rows.len();
        let w = self.width;
        let mut kept: Vec<Vec<Cell>> = Vec::new();
        let mut y: usize = 0;
        while y < h
            invariant
                self.wf(),
                self@ == g,
                h == self.spec_height(),
                w == self.spec_width(),
                g.len() == h,
                y <= h,
                kept@.len() == kept_upto(g, rs@, y as nat).len(),
                kept@.len() <= y,
                forall|i: int| 0 <= i < kept@.len() ==> (#[trigger] kept@[i])@ == kept_upto(g, rs@, y as nat)[i],
                forall|i: int| 0 <= i < kept@.len() ==> (#[trigger] kept@[i])@.len() == w,
            decreases h - y,
        {
            if !holds(rs, y) {
                let row = copy_row(&self.rows[y]);
                kept.push(row);
            }
            y += 1;
        }
        let ghost ks = kept_upto(g, rs@, h as nat);
        let mut rows: Vec<Vec<Cell>> = Vec::new();
        let n_empty = h - kept.len();
        let mut i: usize = 0;
        while i < n_empty
            invariant
                i <= n_empty,
                rows@.len() == i,
                forall|j: int| 0 <= j < i ==> (#[trigger] rows@[j])@ == empty_row(w as int),
            decreases n_empty - i,
        {
            rows.push(new_empty_row(w));
            i += 1;
        }
        let mut j: usize = 0;
        while j < kept.len()
            invariant
                j <= kept@.len(),
                kept@.len() == ks.len(),
                n_empty + kept@.len() == h,
                rows@.len() == n_empty + j,
                forall|k: int| 0 <= k < n_empty ==> (#[trigger] rows@[k])@ == empty_row(w as int),
                forall|k: int| n_empty <= k < n_empty + j ==> (#[trigger] rows@[k])@ == ks[k - n_empty],
                forall|k: int| 0 <= k < kept@.len() ==> (#[trigger] kept@[k])@ == ks[k],
                forall|k: int| 0 <= k < kept@.len() ==> (#[trigger] kept@[k])@.len() == w,
                forall|k: int| 0 <= k < n_empty + j ==> (#[trigger] rows@[k])@.len() == w,
            decreases kept@.len() - j,
        {
            let row = copy_row(&kept[j]);
            rows.push(row);
            j += 1;
        }
        self.rows = rows;
        proof {
            assert(self@ =~~= cleared(g, w as int, rs@));
        }
    }
    /// Clearing the full rows of a board at least one column wide leaves no
    /// full row behind: every row that was not full moves down by the number
    /// of full rows below it, and the rows freed at the top are empty.
    pub proof fn lemma_clear_full_rows(&self)
        requires
            self.wf(),
            self.spec_width() > 0,
        ensures
            ({
                let g = self@;
                let r = cleared(g, self.spec_width(), full_rows_of(g));
                &&& r.len() == g.len()
                &&& forall|y: int| 0 <= y < r.len() ==> !row_full(#[trigger] r[y])
                &&& forall|y: int| 0 <= y < g.len() && !row_full(#[trigger] g[y])
                    ==> r[y + full_count(g, y, g.len() as int)] == g[y]
                &&& forall|y: int| 0 <= y < full_count(g, 0, g.len() as int) ==> #[trigger] r[y] == empty_row(self.spec_width())
            }),
    {
        let g = self@;
        let w = self.spec_width();
        let h = g.len();
        let rs = full_rows_of(g);
        lemma_full_rows_upto(g, h);
        lemma_kept_non_full(g, rs, h);
        let kept = kept_upto(g, rs, h);
        let r = cleared(g, w, rs);
        let k = (h - kept.len()) as int;
        assert(!row_full(empty_row(w))) by {
            assert(empty_row(w)[0] is None);
        }
        assert forall|y: int| 0 <= y < r.len() implies !row_full(#[trigger] r[y]) by {
            if y >= k {
                assert(r[y] == kept[y - k]);
            }
        }
        assert forall|y: int| 0 <= y < g.len() && !row_full(#[trigger] g[y])
            implies r[y + full_count(g, y, h as int)] == g[y] by {
            lemma_full_count_split(g, 0, y, h as int);
            assert(r[y + full_count(g, y, h as int)] == kept[y - full_count(g, 0, y)]);
        }
    }
}

} // verus!
