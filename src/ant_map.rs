use vstd::prelude::*;

use crate::direction::{opposite, turned, Direction, Rotation};

verus! {

/// What an `AntMap` holds, as mathematical values.
///
/// `cells[x][y]` is the visit state of the cell in column `x` and row `y`;
/// row 0 is the top of the grid.
pub struct AntMapView {
    pub x: nat,
    pub y: nat,
    pub dir: Direction,
    pub width: nat,
    pub height: nat,
    pub cells: Seq<Seq<u32>>,
    pub rules: Seq<Rotation>,
}

/// A `width` by `height` grid of pristine cells.
pub open spec fn zero_grid(width: nat, height: nat) -> Seq<Seq<u32>> {
    Seq::new(width, |i: int| Seq::new(height, |j: int| 0u32))
}

/// The visit state a cell takes when the ant steps onto it, with `n` rules:
/// states run 1, 2, ..., n and then start again at 1.
pub open spec fn next_state(s: nat, n: nat) -> nat {
    if s == n {
        1
    } else {
        s + 1
    }
}

/// The state of a cell with visit state `s` after `k` more visits, with `n`
/// rules.
pub open spec fn visits(s: nat, n: nat, k: nat) -> nat
    decreases k,
{
    if k == 0 {
        s
    } else {
        next_state(visits(s, n, (k - 1) as nat), n)
    }
}

/// The `k`-th visit of a pristine cell leaves it in state `k`, for `k` up to
/// the number of rules `n`.
proof fn lemma_visits_count_up(n: nat, k: nat)
    requires
        k <= n,
    ensures
        visits(0, n, k) == k,
    decreases k,
{
    if k > 0 {
        lemma_visits_count_up(n, (k - 1) as nat);
    }
}

/// The visit states of a cell with `n` rules run 1, 2, ..., n from the first
/// visit on, and the visit after the `n`-th brings back the state of the
/// first.
pub proof fn lemma_state_cycle(n: nat)
    requires
        n >= 1,
    ensures
        forall|k: nat| 1 <= k <= n ==> #[trigger] visits(0, n, k) == k,
        visits(0, n, n + 1) == visits(0, n, 1),
{
    assert forall|k: nat| 1 <= k <= n implies #[trigger] visits(0, n, k) == k by {
        lemma_visits_count_up(n, k);
    }
    lemma_visits_count_up(n, n);
    assert(visits(0, n, 1) == 1);
}

impl AntMapView {
    /// The shape invariant: a non-empty grid of equal columns, the ant on it,
    /// and a non-empty rule sequence whose length fits a cell.
    pub open spec fn wf(self) -> bool {
        &&& self.width >= 1
        &&& self.height >= 1
        &&& self.cells.len() == self.width
        &&& forall|i: int| 0 <= i < self.width ==> (#[trigger] self.cells[i]).len() == self.height
        &&& self.x < self.width
        &&& self.y < self.height
        &&& 1 <= self.rules.len() <= u32::MAX
    }

    /// Every cell state indexes the rule sequence (or is pristine).
    pub open spec fn states_valid(self) -> bool {
        forall|i: int, j: int|
            0 <= i < self.width && 0 <= j < self.height ==> #[trigger] self.cells[i][j]
                <= self.rules.len()
    }

    /// Whether every cell is pristine.
    pub open spec fn all_pristine(self) -> bool {
        forall|i: int, j: int|
            0 <= i < self.width && 0 <= j < self.height ==> #[trigger] self.cells[i][j] == 0
    }

    /// The cell one unit ahead of the ant.
    pub open spec fn ahead(self) -> (int, int) {
        match self.dir {
            Direction::Up => (self.x as int, self.y - 1),
            Direction::Down => (self.x as int, self.y + 1 as int),
            Direction::Left => (self.x - 1, self.y as int),
            Direction::Right => (self.x + 1 as int, self.y as int),
        }
    }

    /// Whether the cell ahead lies on the grid.
    pub open spec fn can_step(self) -> bool {
        let (tx, ty) = self.ahead();
        0 <= tx < self.width && 0 <= ty < self.height
    }

    /// The state after the ant moves ahead, advances the state of the cell it
    /// lands on and turns by the rule that the new state selects.
    pub open spec fn stepped(self) -> AntMapView {
        let (tx, ty) = self.ahead();
        let s = next_state(self.cells[tx][ty] as nat, self.rules.len());
        AntMapView {
            x: tx as nat,
            y: ty as nat,
            dir: turned(self.dir, self.rules[s - 1]),
            cells: self.cells.update(tx, self.cells[tx].update(ty, s as u32)),
            ..self
        }
    }

    /// The grid grown by `k` pristine cells on every side, the ant moved along
    /// with the cells it stood on.
    pub open spec fn scaled(self, k: nat) -> AntMapView {
        AntMapView {
            x: self.x + k,
            y: self.y + k,
            width: self.width + 2 * k,
            height: self.height + 2 * k,
            cells: Seq::new(
                self.width + 2 * k,
                |i: int|
                    Seq::new(
                        self.height + 2 * k,
                        |j: int|
                            if k <= i < k + self.width && k <= j < k + self.height {
                                self.cells[i - k][j - k]
                            } else {
                                0u32
                            },
                    ),
            ),
            ..self
        }
    }

    /// Whether column `c` holds the ant or a visited cell.
    pub open spec fn marks_column(self, c: int) -> bool {
        c == self.x || exists|j: int| 0 <= j < self.height && #[trigger] self.cells[c][j] != 0
    }

    /// Whether row `r` holds the ant or a visited cell.
    pub open spec fn marks_row(self, r: int) -> bool {
        r == self.y || exists|i: int| 0 <= i < self.width && #[trigger] self.cells[i][r] != 0
    }

    /// Columns `l..=r` and rows `u..=d` form the smallest box that holds the
    /// ant and every visited cell.
    pub open spec fn is_bbox(self, l: int, r: int, u: int, d: int) -> bool {
        &&& 0 <= l <= self.x <= r < self.width
        &&& 0 <= u <= self.y <= d < self.height
        &&& forall|i: int, j: int|
            0 <= i < self.width && 0 <= j < self.height && #[trigger] self.cells[i][j] != 0 ==> l
                <= i <= r && u <= j <= d
        &&& self.marks_column(l)
        &&& self.marks_column(r)
        &&& self.marks_row(u)
        &&& self.marks_row(d)
    }

    /// The bounds `(l, r, u, d)` of the smallest box that holds the ant and
    /// every visited cell.
    pub open spec fn bbox(self) -> (int, int, int, int) {
        choose|b: (int, int, int, int)| self.is_bbox(b.0, b.1, b.2, b.3)
    }

    /// The grid cut down to columns `l..=r` and rows `u..=d`.
    pub open spec fn cropped(self, l: int, r: int, u: int, d: int) -> AntMapView {
        AntMapView {
            x: (self.x - l) as nat,
            y: (self.y - u) as nat,
            width: (r - l + 1) as nat,
            height: (d - u + 1) as nat,
            cells: Seq::new(
                (r - l + 1) as nat,
                |i: int| Seq::new((d - u + 1) as nat, |j: int| self.cells[l + i][u + j]),
            ),
            ..self
        }
    }

    /// The grid cut down to the smallest box that holds the ant and every
    /// visited cell.
    pub open spec fn shrunk(self) -> AntMapView {
        let b = self.bbox();
        self.cropped(b.0, b.1, b.2, b.3)
    }

    /// The grid cleared and the ant back at the centre, facing up.
    pub open spec fn restarted(self) -> AntMapView {
        AntMapView {
            x: self.width / 2,
            y: self.height / 2,
            dir: Direction::Up,
            cells: zero_grid(self.width, self.height),
            ..self
        }
    }
}

/// There is at most one smallest box around the ant and the visited cells.
pub proof fn lemma_bbox_unique(
    v: AntMapView,
    a: (int, int, int, int),
    b: (int, int, int, int),
)
    requires
        v.is_bbox(a.0, a.1, a.2, a.3),
        v.is_bbox(b.0, b.1, b.2, b.3),
    ensures
        a == b,
{
}

/// Growing a pristine grid and trimming it right away leaves it no larger
/// than it was: with nothing visited, the trim keeps the ant's cell alone.
pub proof fn lemma_scale_then_shrink_pristine(v: AntMapView, k: nat)
    requires
        v.wf(),
        v.all_pristine(),
    ensures
        v.scaled(k).shrunk().width <= v.width,
        v.scaled(k).shrunk().height <= v.height,
        v.scaled(k).shrunk().width == 1,
        v.scaled(k).shrunk().height == 1,
{
    let w = v.scaled(k);
    assert forall|i: int, j: int| 0 <= i < w.width && 0 <= j < w.height implies #[trigger] w.cells[i][j]
        == 0 by {
        if k <= i < k + v.width && k <= j < k + v.height {
            assert(w.cells[i][j] == v.cells[i - k][j - k]);
        }
    }
    let only = (w.x as int, w.x as int, w.y as int, w.y as int);
    assert(w.is_bbox(only.0, only.1, only.2, only.3));
    lemma_bbox_unique(w, w.bbox(), only);
}

/// A Langton's ant with a rule sequence of any length, on a grid that can be
/// grown and trimmed.
pub struct AntMap {
    ant: (usize, usize, Direction),
    map: Vec<Vec<u32>>,
    width: usize,
    height: usize,
    rots: Vec<Rotation>,
}

impl View for AntMap {
    type V = AntMapView;

    closed spec fn view(&self) -> AntMapView {
        AntMapView {
            x: self.ant.0 as nat,
            y: self.ant.1 as nat,
            dir: self.ant.2,
            width: self.width as nat,
            height: self.height as nat,
            cells: self.map@.map_values(|c: Vec<u32>| c@),
            rules: self.rots@,
        }
    }
}

/// A grid of pristine cells, as columns.
fn zero_columns(width: usize, height: usize) -> (m: Vec<Vec<u32>>)
    ensures
        m@.map_values(|c: Vec<u32>| c@) == zero_grid(width as nat, height as nat),
{
    let mut m: Vec<Vec<u32>> = Vec::new();
    let mut i: usize = 0;
    while i < width
        invariant
            i <= width,
            m@.len() == i,
            forall|k: int| 0 <= k < i ==> (#[trigger] m@[k])@ == Seq::new(height as nat, |j: int| 0u32),
        decreases width - i,
    {
        let mut col: Vec<u32> = Vec::new();
        let mut j: usize = 0;
        while j < height
            invariant
                j <= height,
                col@ == Seq::new(j as nat, |t: int| 0u32),
            decreases height - j,
        {
            col.push(0);
            j = j + 1;
            assert(col@ =~= Seq::new(j as nat, |t: int| 0u32));
        }
        m.push(col);
        i = i + 1;
    }
    assert(m@.map_values(|c: Vec<u32>| c@) =~= zero_grid(width as nat, height as nat));
    m
}

impl AntMap {
    /// The shape invariant of the simulation.
    pub open spec fn wf(&self) -> bool {
        self@.wf()
    }

    /// Makes a pristine `width` by `height` grid with the ant at its centre,
    /// facing `looking`, under the rules `stages`.
    pub fn new(width: usize, height: usize, looking: Direction, stages: Vec<Rotation>) -> (m: AntMap)
        requires
            width >= 1,
            height >= 1,
            1 <= stages@.len() <= u32::MAX,
        ensures
            m.wf(),
            m@.states_valid(),
            m@ == (AntMapView {
                x: width as nat / 2,
                y: height as nat / 2,
                dir: looking,
                width: width as nat,
                height: height as nat,
                cells: zero_grid(width as nat, height as nat),
                rules: stages@,
            }),
    {
        AntMap {
            ant: (width / 2, height / 2, looking),
            map: zero_columns(width, height),
            width,
            height,
            rots: stages,
        }
    }

    /// Moves the ant one cell ahead, unless that would leave the grid; returns
    /// whether it moved. On `false` nothing changes.
    pub fn step_ahead(&mut self) -> (moved: bool)
        requires
            old(self).wf(),
            old(self)@.states_valid(),
        ensures
            final(self).wf(),
            final(self)@.states_valid(),
            moved == old(self)@.can_step(),
            moved ==> final(self)@ == old(self)@.stepped(),
            !moved ==> final(self)@ == old(self)@,
    {
        let (x, y, d) = self.ant;
        let (nx, ny): (usize, usize) = match d {
            Direction::Up => {
                if y > 0 {
                    (x, y - 1)
                } else {
                    return false;
                }
            },
            Direction::Down => {
                if y < self.height - 1 {
                    (x, y + 1)
                } else {
                    return false;
                }
            },
            Direction::Left => {
                if x > 0 {
                    (x - 1, y)
                } else {
                    return false;
                }
            },
            Direction::Right => {
                if x < self.width - 1 {
                    (x + 1, y)
                } else {
                    return false;
                }
            },
        };
        let ghost pre = self@;
        assert(pre.cells[nx as int] == self.map@[nx as int]@);
        let n = self.rots.len() as u32;
        let cur = self.map[nx][ny];
        let s: u32 = if cur == n {
            1
        } else {
            cur + 1
        };
        let mut col: Vec<u32> = Vec::new();
        std::mem::swap(&mut col, &mut self.map[nx]);
        col.set(ny, s);
        std::mem::swap(&mut col, &mut self.map[nx]);
        let turn = self.rots[(s - 1) as usize];
        self.ant = (nx, ny, d.rotate(turn));
        assert(self@.cells =~= pre.stepped().cells);
        true
    }

    /// Grows the grid by `amount` pristine cells on every side; the ant keeps
    /// its cell.
    pub fn scale(&mut self, amount: usize)
        requires
            old(self).wf(),
            old(self)@.width + 2 * amount <= usize::MAX,
            old(self)@.height + 2 * amount <= usize::MAX,
        ensures
            final(self).wf(),
            final(self)@ == old(self)@.scaled(amount as nat),
            old(self)@.states_valid() ==> final(self)@.states_valid(),
    {
        let ghost pre = self@;
        let ghost post = pre.scaled(amount as nat);
        let nw = self.width + 2 * amount;
        let nh = self.height + 2 * amount;
        let mut m: Vec<Vec<u32>> = Vec::new();
        let mut i: usize = 0;
        while i < nw
            invariant
                pre == self@,
                pre.wf(),
                post == pre.scaled(amount as nat),
                nw == pre.width + 2 * amount,
                nh == pre.height + 2 * amount,
                i <= nw,
                m@.len() == i,
                forall|k: int| 0 <= k < i ==> (#[trigger] m@[k])@ == post.cells[k],
            decreases nw - i,
        {
            let mut col: Vec<u32> = Vec::new();
            let mut j: usize = 0;
            while j < nh
                invariant
                    pre == self@,
                    pre.wf(),
                    post == pre.scaled(amount as nat),
                    nw == pre.width + 2 * amount,
                    nh == pre.height + 2 * amount,
                    i < nw,
                    j <= nh,
                    col@.len() == j,
                    forall|t: int| 0 <= t < j ==> #[trigger] col@[t] == post.cells[i as int][t],
                decreases nh - j,
            {
                let v: u32 = if amount <= i && i < amount + self.width && amount <= j && j < amount
                    + self.height {
                    assert(pre.cells[i - amount] == self.map@[i - amount]@);
                    self.map[i - amount][j - amount]
                } else {
                    0
                };
                col.push(v);
                j = j + 1;
            }
            assert(col@ =~= post.cells[i as int]);
            m.push(col);
            i = i + 1;
        }
        self.map = m;
        self.width = nw;
        self.height = nh;
        self.ant = (self.ant.0 + amount, self.ant.1 + amount, self.ant.2);
        assert(self@.cells =~= post.cells);
        proof {
            if pre.states_valid() {
                assert forall|a: int, b: int|
                    0 <= a < post.width && 0 <= b < post.height implies #[trigger] post.cells[a][b]
                    <= post.rules.len() by {
                    if amount <= a < amount + pre.width && amount <= b < amount + pre.height {
                        assert(post.cells[a][b] == pre.cells[a - amount][b - amount]);
                    }
                }
            }
        }
    }

    /// Trims the grid to the smallest box that holds the ant and every visited
    /// cell; the ant keeps its cell.
    pub fn shrink(&mut self)
        requires
            old(self).wf(),
        ensures
            final(self).wf(),
            final(self)@ == old(self)@.shrunk(),
            old(self)@.states_valid() ==> final(self)@.states_valid(),
    {
        let ghost v = self@;
        let mut l: usize = self.ant.0;
        let mut r: usize = self.ant.0;
        let mut u: usize = self.ant.1;
        let mut d: usize = self.ant.1;
        let mut i: usize = 0;
        while i < self.width
            invariant
                v == self@,
                v.wf(),
                i <= v.width,
                l <= v.x <= r < v.width,
                u <= v.y <= d < v.height,
                forall|a: int, b: int|
                    0 <= a < i && 0 <= b < v.height && #[trigger] v.cells[a][b] != 0 ==> l <= a
                        <= r && u <= b <= d,
                v.marks_column(l as int),
                v.marks_column(r as int),
                v.marks_row(u as int),
                v.marks_row(d as int),
            decreases v.width - i,
        {
            assert(v.cells[i as int] == self.map@[i as int]@);
            let mut j: usize = 0;
            while j < self.height
                invariant
                    v == self@,
                    v.wf(),
                    i < v.width,
                    j <= v.height,
                    v.cells[i as int] == self.map@[i as int]@,
                    l <= v.x <= r < v.width,
                    u <= v.y <= d < v.height,
                    forall|a: int, b: int|
                        0 <= a < i && 0 <= b < v.height && #[trigger] v.cells[a][b] != 0 ==> l
                            <= a <= r && u <= b <= d,
                    forall|b: int|
                        0 <= b < j && #[trigger] v.cells[i as int][b] != 0 ==> l <= i <= r && u
                            <= b <= d,
                    v.marks_column(l as int),
                    v.marks_column(r as int),
                    v.marks_row(u as int),
                    v.marks_row(d as int),
                decreases v.height - j,
            {
                if self.map[i][j] != 0 {
                    assert(v.cells[i as int][j as int] != 0);
                    if i < l {
                        l = i;
                    }
                    if i > r {
                        r = i;
                    }
                    if j < u {
                        u = j;
                    }
                    if j > d {
                        d = j;
                    }
                }
                j = j + 1;
            }
            i = i + 1;
        }
        let ghost post = v.cropped(l as int, r as int, u as int, d as int);
        let nw = r - l + 1;
        let nh = d - u + 1;
        let mut m: Vec<Vec<u32>> = Vec::new();
        let mut a: usize = 0;
        while a < nw
            invariant
                v == self@,
                v.wf(),
                post == v.cropped(l as int, r as int, u as int, d as int),
                l <= r < v.width,
                u <= d < v.height,
                nw == r - l + 1,
                nh == d - u + 1,
                a <= nw,
                m@.len() == a,
                forall|k: int| 0 <= k < a ==> (#[trigger] m@[k])@ == post.cells[k],
            decreases nw - a,
        {
            assert(v.cells[l + a] == self.map@[l + a]@);
            let mut col: Vec<u32> = Vec::new();
            let mut b: usize = 0;
            while b < nh
                invariant
                    v == self@,
                    v.wf(),
                    post == v.cropped(l as int, r as int, u as int, d as int),
                    l <= r < v.width,
                    u <= d < v.height,
                    nw == r - l + 1,
                    nh == d - u + 1,
                    a < nw,
                    v.cells[l + a] == self.map@[l + a]@,
                    b <= nh,
                    col@.len() == b,
                    forall|t: int| 0 <= t < b ==> #[trigger] col@[t] == post.cells[a as int][t],
                decreases nh - b,
            {
                col.push(self.map[l + a][u + b]);
                b = b + 1;
            }
            assert(col@ =~= post.cells[a as int]);
            m.push(col);
            a = a + 1;
        }
        self.map = m;
        self.width = nw;
        self.height = nh;
        self.ant = (self.ant.0 - l, self.ant.1 - u, self.ant.2);
        assert(self@.cells =~= post.cells);
        proof {
            let found = (l as int, r as int, u as int, d as int);
            assert(v.is_bbox(found.0, found.1, found.2, found.3));
            lemma_bbox_unique(v, v.bbox(), found);
            if v.states_valid() {
                assert forall|p: int, q: int|
                    0 <= p < post.width && 0 <= q < post.height implies #[trigger] post.cells[p][q]
                    <= post.rules.len() by {
                    assert(post.cells[p][q] == v.cells[l + p][u + q]);
                }
            }
        }
    }

    /// Clears every cell and puts the ant back at the centre, facing up; the
    /// size and the rules stay.
    pub fn reset(&mut self)
        requires
            old(self).wf(),
        ensures
            final(self).wf(),
            final(self)@.states_valid(),
            final(self)@ == old(self)@.restarted(),
    {
        self.map = zero_columns(self.width, self.height);
        self.ant = (self.width / 2, self.height / 2, Direction::Up);
    }

    /// Turns the rule at `index` the other way; nothing else changes.
    pub fn invert_rotation(&mut self, index: usize)
        requires
            old(self).wf(),
            index < old(self)@.rules.len(),
        ensures
            final(self).wf(),
            final(self)@ == (AntMapView {
                rules: old(self)@.rules.update(index as int, opposite(old(self)@.rules[index as int])),
                ..old(self)@
            }),
            final(self)@.rules.len() == old(self)@.rules.len(),
            final(self)@.rules[index as int] != old(self)@.rules[index as int],
            forall|k: int|
                0 <= k < old(self)@.rules.len() && k != index ==> final(self)@.rules[k] == old(
                    self,
                )@.rules[k],
            old(self)@.states_valid() ==> final(self)@.states_valid(),
    {
        let turn = self.rots[index].invert();
        self.rots.set(index, turn);
    }

    /// Appends `turn` to the rules; the grid and the ant stay as they are.
    pub fn add_stage(&mut self, turn: Rotation)
        requires
            old(self).wf(),
            old(self)@.rules.len() < u32::MAX,
        ensures
            final(self).wf(),
            final(self)@ == (AntMapView { rules: old(self)@.rules.push(turn), ..old(self)@ }),
            final(self)@.rules.len() == old(self)@.rules.len() + 1,
            final(self)@.rules.last() == turn,
            old(self)@.states_valid() ==> final(self)@.states_valid(),
    {
        self.rots.push(turn);
    }

    /// Removes the rule at `index`, moving the later ones down by one; the
    /// grid and the ant stay as they are. At least one rule remains.
    pub fn remove_stage(&mut self, index: usize)
        requires
            old(self).wf(),
            index < old(self)@.rules.len(),
            old(self)@.rules.len() >= 2,
        ensures
            final(self).wf(),
            final(self)@ == (AntMapView { rules: old(self)@.rules.remove(index as int), ..old(self)@ }),
            final(self)@.rules.len() == old(self)@.rules.len() - 1,
            forall|k: int| 0 <= k < index ==> final(self)@.rules[k] == old(self)@.rules[k],
            forall|k: int|
                index <= k < final(self)@.rules.len() ==> final(self)@.rules[k] == old(
                    self,
                )@.rules[k + 1],
    {
        self.rots.remove(index);
    }

    /// The columns of the grid, left to right; `iter()[x][y]` is the state of
    /// the cell in column `x` and row `y`.
    pub fn iter(&self) -> (cols: &[Vec<u32>])
        requires
            self.wf(),
        ensures
            cols@.len() == self@.width,
            forall|i: int| 0 <= i < cols@.len() ==> (#[trigger] cols@[i])@ == self@.cells[i],
    {
        self.map.as_slice()
    }

    /// The ant's column, row and heading.
    pub fn ant(&self) -> (a: &(usize, usize, Direction))
        ensures
            a.0 == self@.x,
            a.1 == self@.y,
            a.2 == self@.dir,
    {
        &self.ant
    }

    /// The rule sequence.
    pub fn stages(&self) -> (rules: &Vec<Rotation>)
        ensures
            rules@ == self@.rules,
    {
        &self.rots
    }

    /// The number of columns.
    pub fn width(&self) -> (w: usize)
        ensures
            w == self@.width,
    {
        self.width
    }

    /// The number of rows.
    pub fn height(&self) -> (h: usize)
        ensures
            h == self@.height,
    {
        self.height
    }
}

} // verus!
