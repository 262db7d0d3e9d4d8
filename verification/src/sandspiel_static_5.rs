use vstd::prelude::*;

verus! {

/// The materials of the fixed five-by-five playground.
#[derive(Clone, Copy, PartialEq, Eq, Debug, Structural)]
pub enum CellMaterial {
    Sand,
    Water,
    Air,
}

/// One stored cell of the playground: a material and the velocity it has
/// accumulated while falling.
#[derive(Clone, Copy, PartialEq, Eq, Debug, Structural)]
pub struct StoredCell(pub CellMaterial, pub i8);

/// The number of cells of the five-by-five playground.
pub const CELLS: usize = 25;

/// How often material `m` occurs in `s`.
pub open spec fn count_mat(s: Seq<StoredCell>, m: CellMaterial) -> int
    decreases s.len(),
{
    if s.len() == 0 {
        0
    } else {
        count_mat(s.drop_last(), m) + if s.last().0 == m {
            1int
        } else {
            0int
        }
    }
}

/// Overwriting one cell adjusts the count of each material by what left and
/// what arrived.
pub proof fn lemma_count_mat_update(s: Seq<StoredCell>, i: int, v: StoredCell, m: CellMaterial)
    requires
        0 <= i < s.len(),
    ensures
        count_mat(s.update(i, v), m) == count_mat(s, m) + (if v.0 == m {
            1int
        } else {
            0int
        }) - (if s[i].0 == m {
            1int
        } else {
            0int
        }),
    decreases s.len(),
{
    let t = s.update(i, v);
    if i == s.len() - 1 {
        assert(t.drop_last() =~= s.drop_last());
    } else {
        assert(t.drop_last() =~= s.drop_last().update(i, v));
        lemma_count_mat_update(s.drop_last(), i, v, m);
    }
}

/// The two sequences hold every material equally often.
pub open spec fn same_counts(a: Seq<StoredCell>, b: Seq<StoredCell>) -> bool {
    forall|m: CellMaterial| count_mat(a, m) == count_mat(b, m)
}

/// Every cell of the playground holds Air.
pub open spec fn all_air(s: Seq<StoredCell>) -> bool {
    forall|i: int| 0 <= i < s.len() ==> s[i].0 == CellMaterial::Air
}

/// Exactly one cell holds Sand, at column `x`, row `y`; every other cell is
/// Air at rest.
pub open spec fn lone_sand5(cells: Seq<StoredCell>, x: int, y: int) -> bool {
    0 <= x < 5 && 0 <= y < 5 && cells[y * 5 + x].0 == CellMaterial::Sand && (forall|i: int|
        0 <= i < cells.len() && i != y * 5 + x ==> cells[i] == (StoredCell(
            CellMaterial::Air,
            0 as i8,
        )))
}

/// The row a grain from row `y` reaches after up to `steps` straight drops:
/// `steps` rows lower, or the bottom row where the floor comes first.
pub open spec fn fallen_row5(y: int, steps: int) -> int {
    if steps <= 4 - y {
        y + steps
    } else {
        4
    }
}

/// The outcome of one sweep on a lone grain of sand that had `steps` drops:
/// it sits `steps` rows lower (or on the floor), alone; it keeps velocity
/// `vel` in free fall and is at rest where the floor cut the fall short.
pub open spec fn lone_sand5_falls(
    post: Seq<StoredCell>,
    x: int,
    y: int,
    steps: int,
    vel: int,
) -> bool {
    let y2 = fallen_row5(y, steps);
    lone_sand5(post, x, y2) && (steps <= 4 - y ==> post[y2 * 5 + x].1 == vel) && (steps > 4 - y
        ==> post[y2 * 5 + x].1 == 0)
}

/// The sweep's progress on a lone grain: cells with an index at or above the
/// sweep pointer `c` have been visited; once the pointer has passed the
/// grain's cell the grain has fallen, and before that nothing has changed.
pub open spec fn lone_progress5(pre: Seq<StoredCell>, cur: Seq<StoredCell>, c: int) -> bool {
    forall|sx: int, sy: int|
        (lone_sand5(pre, sx, sy) && pre[sy * 5 + sx].1 < i8::MAX) ==> ((sy * 5 + sx < c ==> cur
            == pre) && (sy * 5 + sx >= c ==> lone_sand5_falls(
            cur,
            sx,
            sy,
            pre[sy * 5 + sx].1 + 1,
            pre[sy * 5 + sx].1 + 1,
        )))
}

/// A snapshot of one playground cell, read through `get_cell`.
pub struct Cell2d {
    pub x: u16,
    pub y: u16,
    pub material: CellMaterial,
    pub velocity: i8,
}

impl Cell2d {
    pub fn new(x: u16, y: u16, material: CellMaterial, velocity: i8) -> (r: Self)
        ensures
            r.x == x,
            r.y == y,
            r.material == material,
            r.velocity == velocity,
    {
        Self { x, y, material, velocity }
    }
}

/// A deterministic falling-sand playground on a fixed five-by-five grid,
/// row-major. Gravity is simulated through per-cell velocities; each sweep
/// visits the cells bottom-to-top, right-to-left, and a moving grain tries
/// straight down, then down-right, then down-left.
pub struct SandspielStatic5 {
    field: Vec<StoredCell>,
}

impl SandspielStatic5 {
    /// The cells of the playground, row-major.
    pub closed spec fn cells(&self) -> Seq<StoredCell> {
        self.field@
    }

    /// The grid always holds exactly its twenty-five cells, none with a
    /// negative velocity.
    pub open spec fn wf(&self) -> bool {
        self.cells().len() == CELLS && forall|i: int| 0 <= i < CELLS ==> self.cells()[i].1 >= 0
    }

    /// The stored cell at column `x`, row `y`.
    pub open spec fn cell_spec(&self, x: int, y: int) -> StoredCell {
        self.cells()[y * 5 + x]
    }

    pub fn new(field: Vec<StoredCell>) -> (r: Self)
        requires
            field@.len() == CELLS,
            forall|i: int| 0 <= i < CELLS ==> field@[i].1 >= 0,
        ensures
            r.wf(),
            forall|x: int, y: int|
                0 <= x < 5 && 0 <= y < 5 ==> r.cell_spec(x, y) == field@[y * 5 + x],
    {
        Self { field }
    }

    /// The materials of all cells, row by row.
    pub fn snapshot(&self) -> (r: Vec<CellMaterial>)
        requires
            self.wf(),
        ensures
            r@.len() == CELLS,
            forall|x: int, y: int|
                0 <= x < 5 && 0 <= y < 5 ==> r@[y * 5 + x] == self.cell_spec(x, y).0,
    {
        let mut r: Vec<CellMaterial> = Vec::new();
        let mut i: usize = 0;
        while i < CELLS
            invariant
                self.wf(),
                i <= CELLS,
                r@.len() == i,
                forall|j: int| 0 <= j < i ==> r@[j] == self.cells()[j].0,
            decreases CELLS - i,
        {
            r.push(self.field[i].0);
            i = i + 1;
        }
        proof {
            assert forall|x: int, y: int|
                0 <= x < 5 && 0 <= y < 5 implies r@[y * 5 + x] == self.cell_spec(x, y).0 by {
                assert(0 <= y * 5 + x < 25);
            }
        }
        r
    }

    /// Builds a playground from a row-major list of materials, every cell at
    /// rest.
    pub fn from_snapshot(snapshot: &Vec<CellMaterial>) -> (r: Self)
        requires
            snapshot@.len() == CELLS,
        ensures
            r.wf(),
            forall|x: int, y: int|
                0 <= x < 5 && 0 <= y < 5 ==> r.cell_spec(x, y) == (StoredCell(
                    snapshot@[y * 5 + x],
                    0 as i8,
                )),
    {
        let mut field: Vec<StoredCell> = Vec::new();
        let mut i: usize = 0;
        while i < CELLS
            invariant
                i <= CELLS,
                field@.len() == i,
                forall|j: int| 0 <= j < i ==> field@[j] == (StoredCell(snapshot@[j], 0 as i8)),
                snapshot@.len() == CELLS,
            decreases CELLS - i,
        {
            field.push(StoredCell(snapshot[i], 0));
            i = i + 1;
        }
        let r = Self { field };
        proof {
            assert forall|x: int, y: int|
                0 <= x < 5 && 0 <= y < 5 implies r.cell_spec(x, y) == (StoredCell(
                snapshot@[y * 5 + x],
                0 as i8,
            )) by {
                assert(0 <= y * 5 + x < 25);
            }
        }
        r
    }

    /// The snapshot of the cell at `(x, y)`.
    pub fn get_cell(&self, x: u16, y: u16) -> (r: Cell2d)
        requires
            self.wf(),
            x < 5,
            y < 5,
        ensures
            r.x == x,
            r.y == y,
            r.material == self.cell_spec(x as int, y as int).0,
            r.velocity == self.cell_spec(x as int, y as int).1,
    {
        let i: usize = (y as usize) * 5 + (x as usize);
        let c = self.field[i];
        Cell2d::new(x, y, c.0, c.1)
    }

    /// One sweep over the playground, bottom row first and within a row the
    /// rightmost cell first. No material is created or destroyed: cells only
    /// trade places.
    pub fn run(&mut self)
        requires
            old(self).wf(),
        ensures
            final(self).wf(),
            same_counts(old(self).cells(), final(self).cells()),
            all_air(old(self).cells()) ==> final(self).cells() == old(self).cells(),
            lone_progress5(old(self).cells(), final(self).cells(), 0),
    {
        let mut yy: usize = 5;
        while yy > 0
            invariant
                yy <= 5,
                old(self).wf(),
                self.wf(),
                same_counts(old(self).cells(), self.cells()),
                all_air(old(self).cells()) ==> self.cells() == old(self).cells(),
                lone_progress5(old(self).cells(), self.cells(), 5 * yy as int),
            decreases yy,
        {
            yy = yy - 1;
            let mut xx: usize = 5;
            while xx > 0
                invariant
                    xx <= 5,
                    yy < 5,
                    old(self).wf(),
                    self.wf(),
                    same_counts(old(self).cells(), self.cells()),
                    all_air(old(self).cells()) ==> self.cells() == old(self).cells(),
                    lone_progress5(old(self).cells(), self.cells(), yy * 5 + xx as int),
                decreases xx,
            {
                xx = xx - 1;
                let ghost pre = self.cells();
                self.handle_cell(xx as u16, yy as u16);
                proof {
                    let hi = yy * 5 + xx as int;
                    assert forall|sx: int, sy: int|
                        (lone_sand5(old(self).cells(), sx, sy) && old(self).cells()[sy * 5 + sx].1
                            < i8::MAX) implies ((sy * 5 + sx < hi ==> self.cells() == old(
                        self,
                    ).cells()) && (sy * 5 + sx >= hi ==> lone_sand5_falls(
                        self.cells(),
                        sx,
                        sy,
                        old(self).cells()[sy * 5 + sx].1 + 1,
                        old(self).cells()[sy * 5 + sx].1 + 1,
                    ))) by {
                        let si = sy * 5 + sx;
                        if si < hi {
                            assert(pre == old(self).cells());
                            assert(pre[hi].0 == CellMaterial::Air);
                            assert(self.cells() == pre);
                        } else if si == hi {
                            assert(sx == xx as int && sy == yy as int);
                            assert(pre == old(self).cells());
                            assert(lone_sand5_falls(
                                self.cells(),
                                sx,
                                sy,
                                pre[si].1 + 1,
                                pre[si].1 + 1,
                            ));
                        } else {
                            assert(lone_sand5_falls(
                                pre,
                                sx,
                                sy,
                                old(self).cells()[si].1 + 1,
                                old(self).cells()[si].1 + 1,
                            ));
                            let y2 = fallen_row5(sy, old(self).cells()[si].1 + 1);
                            assert(y2 * 5 + sx >= si);
                            assert(pre[hi].0 == CellMaterial::Air);
                            assert(self.cells() == pre);
                        }
                    }
                    assert(lone_progress5(old(self).cells(), self.cells(), hi));
                }
            }
        }
    }

    /// Advances the cell at `(x, y)` if its material moves on its own.
    fn handle_cell(&mut self, x: u16, y: u16)
        requires
            old(self).wf(),
            x < 5,
            y < 5,
        ensures
            final(self).wf(),
            same_counts(old(self).cells(), final(self).cells()),
            old(self).cell_spec(x as int, y as int).0 == CellMaterial::Air ==> final(self).cells()
                == old(self).cells(),
            (lone_sand5(old(self).cells(), x as int, y as int) && old(self).cells()[y as int * 5
                + x as int].1 < i8::MAX) ==> lone_sand5_falls(
                final(self).cells(),
                x as int,
                y as int,
                old(self).cells()[y as int * 5 + x as int].1 + 1,
                old(self).cells()[y as int * 5 + x as int].1 + 1,
            ),
    {
        let i: usize = (y as usize) * 5 + (x as usize);
        match self.field[i].0 {
            CellMaterial::Air => {},
            CellMaterial::Sand => self.fall(x, y),
            CellMaterial::Water => self.fall(x, y),
        }
    }

    /// Swaps the cells at the two indices.
    fn swap_cells(&mut self, i: usize, j: usize)
        requires
            old(self).wf(),
            i < CELLS,
            j < CELLS,
        ensures
            final(self).wf(),
            final(self).cells() == old(self).cells().update(i as int, old(self).cells()[j as int]).update(
                j as int,
                old(self).cells()[i as int],
            ),
            same_counts(old(self).cells(), final(self).cells()),
    {
        let a = self.field[i];
        let b = self.field[j];
        self.field.set(i, b);
        self.field.set(j, a);
        proof {
            assert forall|m: CellMaterial|
                count_mat(final(self).cells(), m) == count_mat(old(self).cells(), m) by {
                lemma_count_mat_update(old(self).cells(), i as int, b, m);
                lemma_count_mat_update(
                    old(self).cells().update(i as int, b),
                    j as int,
                    a,
                    m,
                );
            }
        }
    }

    /// Writes velocity `v` into the cell at index `i`.
    fn set_velocity(&mut self, i: usize, v: i8)
        requires
            old(self).wf(),
            i < CELLS,
            v >= 0,
        ensures
            final(self).wf(),
            final(self).cells() == old(self).cells().update(
                i as int,
                (StoredCell(old(self).cells()[i as int].0, v)),
            ),
            same_counts(old(self).cells(), final(self).cells()),
    {
        let c = self.field[i];
        self.field.set(i, StoredCell(c.0, v));
        proof {
            assert forall|m: CellMaterial|
                count_mat(final(self).cells(), m) == count_mat(old(self).cells(), m) by {
                lemma_count_mat_update(old(self).cells(), i as int, StoredCell(c.0, v), m);
            }
        }
    }

    /// Gravity for a grain at `(x, y)`: gain one unit of velocity, then take
    /// up to that many steps, each straight down, down-right, or down-left
    /// into Air (or, for sand, through Water); a blocked grain loses its
    /// velocity.
    fn fall(&mut self, x: u16, y: u16)
        requires
            old(self).wf(),
            x < 5,
            y < 5,
        ensures
            final(self).wf(),
            same_counts(old(self).cells(), final(self).cells()),
            (lone_sand5(old(self).cells(), x as int, y as int) && old(self).cells()[y as int * 5
                + x as int].1 < i8::MAX) ==> lone_sand5_falls(
                final(self).cells(),
                x as int,
                y as int,
                old(self).cells()[y as int * 5 + x as int].1 + 1,
                old(self).cells()[y as int * 5 + x as int].1 + 1,
            ),
    {
        let ghost lone = lone_sand5(self.cells(), x as int, y as int) && self.cells()[y as int * 5
            + x as int].1 < i8::MAX;
        let i: usize = (y as usize) * 5 + (x as usize);
        let moving = self.field[i].0;
        let v0 = self.field[i].1;
        let v: i8 = if v0 < i8::MAX {
            v0 + 1
        } else {
            v0
        };
        self.set_velocity(i, v);
        let mut cx = x;
        let mut cy = y;
        let mut steps = v;
        while steps > 0
            invariant
                self.wf(),
                same_counts(old(self).cells(), self.cells()),
                cx < 5,
                cy < 5,
                steps >= 0,
                steps <= v,
                lone == (lone_sand5(old(self).cells(), x as int, y as int) && old(
                    self,
                ).cells()[y as int * 5 + x as int].1 < i8::MAX),
                lone ==> (moving == CellMaterial::Sand && v == old(self).cells()[y as int * 5
                    + x as int].1 + 1 && cx == x && cy as int == y + (v - steps) && lone_sand5(
                    self.cells(),
                    cx as int,
                    cy as int,
                ) && self.cells()[cy as int * 5 + cx as int].1 == v),
            decreases steps,
        {
            let ci: usize = (cy as usize) * 5 + (cx as usize);
            let mut moved = false;
            // Straight down.
            if cy + 1 < 5 {
                let ni: usize = ((cy + 1) as usize) * 5 + (cx as usize);
                if self.can_enter(moving, ni) {
                    self.swap_cells(ci, ni);
                    cy = cy + 1;
                    moved = true;
                    proof {
                        if lone {
                            assert(lone_sand5(self.cells(), cx as int, cy as int));
                        }
                    }
                }
            }
            // Down and to the right.
            if !moved && cy + 1 < 5 && cx + 1 < 5 {
                let ni: usize = ((cy + 1) as usize) * 5 + ((cx + 1) as usize);
                if self.can_enter(moving, ni) {
                    proof {
                        if lone {
                            // A lone grain above the floor always enters the
                            // free cell straight below it.
                            assert(false);
                        }
                    }
                    self.swap_cells(ci, ni);
                    cx = cx + 1;
                    cy = cy + 1;
                    moved = true;
                }
            }
            // Down and to the left.
            if !moved && cy + 1 < 5 && cx >= 1 {
                let ni: usize = ((cy + 1) as usize) * 5 + ((cx - 1) as usize);
                if self.can_enter(moving, ni) {
                    proof {
                        if lone {
                            assert(false);
                        }
                    }
                    self.swap_cells(ci, ni);
                    cx = cx - 1;
                    cy = cy + 1;
                    moved = true;
                }
            }
            if !moved {
                let here: usize = (cy as usize) * 5 + (cx as usize);
                self.set_velocity(here, 0);
                proof {
                    if lone {
                        // Only the floor blocks a lone grain.
                        assert(cy == 4);
                        assert(v > 4 - y);
                        assert(fallen_row5(y as int, v as int) == 4);
                        assert(lone_sand5(self.cells(), cx as int, 4));
                        assert(lone_sand5_falls(
                            self.cells(),
                            x as int,
                            y as int,
                            v as int,
                            v as int,
                        ));
                    }
                }
                return ;
            }
            steps = steps - 1;
        }
        proof {
            if lone {
                // All steps were used in free fall.
                assert(cy as int == y + v);
                assert(v <= 4 - y);
                assert(fallen_row5(y as int, v as int) == y + v);
                assert(lone_sand5_falls(self.cells(), x as int, y as int, v as int, v as int));
            }
        }
    }

    /// Whether the moving material may enter the cell at index `i`: Air is
    /// open to everything, Water only to Sand.
    fn can_enter(&self, moving: CellMaterial, i: usize) -> (r: bool)
        requires
            self.wf(),
            i < CELLS,
        ensures
            r == (self.cells()[i as int].0 == CellMaterial::Air || (moving == CellMaterial::Sand
                && self.cells()[i as int].0 == CellMaterial::Water)),
    {
        match self.field[i].0 {
            CellMaterial::Air => true,
            CellMaterial::Water => matches!(moving, CellMaterial::Sand),
            _ => false,
        }
    }
}

} // verus!
