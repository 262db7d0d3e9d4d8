use vstd::prelude::*;
use crate::cell_content::CellContent;
use crate::direction::Direction;

verus! {

/// One addressable location in the grid: column `x`, row `y`.
#[derive(Clone, Copy, PartialEq, Eq, Debug, Structural)]
pub struct Position {
    pub x: usize,
    pub y: usize,
}

impl Position {
    pub fn new(x: usize, y: usize) -> (r: Self)
        ensures
            r == (Position { x, y }),
    {
        Self { x, y }
    }
}

/// True when `d` has a leftward component.
pub open spec fn goes_left(d: Direction) -> bool {
    d == Direction::Left || d == Direction::LeftUp || d == Direction::LeftDown
}

/// True when `d` has a rightward component.
pub open spec fn goes_right(d: Direction) -> bool {
    d == Direction::Right || d == Direction::RightUp || d == Direction::RightDown
}

/// True when `d` has an upward component.
pub open spec fn goes_up(d: Direction) -> bool {
    d == Direction::Up || d == Direction::LeftUp || d == Direction::RightUp
}

/// True when `d` has a downward component.
pub open spec fn goes_down(d: Direction) -> bool {
    d == Direction::Down || d == Direction::LeftDown || d == Direction::RightDown
}

/// The neighbour of `p` one step in direction `d`, on a `w` by `h` grid, or
/// `None` where that step would leave the grid. The grid is not toroidal.
pub open spec fn neighbor_pos_spec(w: int, h: int, p: Position, d: Direction) -> Option<Position> {
    let nx: int = if goes_left(d) {
        p.x - 1
    } else if goes_right(d) {
        p.x + 1
    } else {
        p.x as int
    };
    let ny: int = if goes_up(d) {
        p.y - 1
    } else if goes_down(d) {
        p.y + 1
    } else {
        p.y as int
    };
    if 0 <= nx < w && 0 <= ny < h {
        Some(Position { x: nx as usize, y: ny as usize })
    } else {
        None
    }
}

/// The row-major slot index of `p` on a grid of width `w`.
pub open spec fn index_spec(w: int, p: Position) -> int {
    p.y * w + p.x
}

/// The grid: a fixed rectangle of cell slots in row-major order.
#[derive(Debug)]
pub struct Universe {
    pub area: Vec<CellContent>,
    pub width: usize,
    pub height: usize,
}

impl Universe {
    /// The slot count matches the dimensions.
    pub open spec fn wf(&self) -> bool {
        self.area@.len() == self.width * self.height
    }

    pub open spec fn in_bounds(&self, pos: Position) -> bool {
        pos.x < self.width && pos.y < self.height
    }

    /// Initialises a new [Universe] and fills each slot with the default
    /// content: Air, unhandled, at rest.
    pub fn new(width: usize, height: usize) -> (r: Self)
        requires
            width * height <= usize::MAX,
        ensures
            r.wf(),
            r.width == width,
            r.height == height,
            forall|i: int| 0 <= i < r.area@.len() ==> r.area@[i] == (CellContent {
                material: crate::material::Material::Air,
                velocity: 0 as i16,
                handled: false,
            }),
    {
        Self { area: Self::gen_area(width, height), width, height }
    }

    /// Generates an area of `width * height` default slots.
    fn gen_area(width: usize, height: usize) -> (r: Vec<CellContent>)
        requires
            width * height <= usize::MAX,
        ensures
            r@.len() == width * height,
            forall|i: int| 0 <= i < r@.len() ==> r@[i] == (CellContent {
                material: crate::material::Material::Air,
                velocity: 0 as i16,
                handled: false,
            }),
    {
        let n: usize = width * height;
        let mut vec: Vec<CellContent> = Vec::new();
        let mut i: usize = 0;
        while i < n
            invariant
                i <= n,
                vec@.len() == i,
                forall|j: int| 0 <= j < i ==> vec@[j] == (CellContent {
                    material: crate::material::Material::Air,
                    velocity: 0 as i16,
                    handled: false,
                }),
            decreases n - i,
        {
            vec.push(CellContent::default());
            i = i + 1;
        }
        vec
    }

    /// Returns the slot at `pos`, or `None` where `pos` lies outside the grid.
    pub fn get_cell(&self, pos: &Position) -> (r: Option<&CellContent>)
        requires
            self.wf(),
        ensures
            match r {
                Some(c) => self.in_bounds(*pos) && *c == self.area@[index_spec(
                    self.width as int,
                    *pos,
                )],
                None => !self.in_bounds(*pos),
            },
    {
        if pos.x < self.width && pos.y < self.height {
            let i = self.pos_to_i(pos);
            Some(&self.area[i])
        } else {
            None
        }
    }

    /// Overwrites the slot at the in-bounds position `pos`, the write path
    /// renderers and input layers use between ticks.
    pub fn set_cell(&mut self, pos: &Position, content: CellContent)
        requires
            old(self).wf(),
            old(self).in_bounds(*pos),
        ensures
            final(self).wf(),
            final(self).width == old(self).width,
            final(self).height == old(self).height,
            final(self).area@ == old(self).area@.update(
                index_spec(old(self).width as int, *pos),
                content,
            ),
    {
        let i = self.pos_to_i(pos);
        self.area.set(i, content);
    }

    /// Returns a neighbour and its position one step from `pos` in direction
    /// `dir`, or `None` where that neighbour would lie outside the grid.
    pub fn get_neighbor(&self, pos: &Position, dir: &Direction) -> (r: Option<
        (Position, &CellContent),
    >)
        requires
            self.wf(),
            self.in_bounds(*pos),
        ensures
            match r {
                Some(p) => neighbor_pos_spec(self.width as int, self.height as int, *pos, *dir)
                    == Some(p.0) && *p.1 == self.area@[index_spec(self.width as int, p.0)],
                None => neighbor_pos_spec(self.width as int, self.height as int, *pos, *dir)
                    is None,
            },
    {
        match self.get_neighbor_pos(pos, dir) {
            None => None,
            Some(npos) => {
                let i = self.pos_to_i(&npos);
                Some((npos, &self.area[i]))
            },
        }
    }

    /// Computes the neighbour position one step in `dir`, with the only
    /// bounds check of the engine: a coordinate that would underflow or reach
    /// the width or height yields `None`.
    pub fn get_neighbor_pos(&self, pos: &Position, dir: &Direction) -> (r: Option<Position>)
        requires
            self.in_bounds(*pos),
        ensures
            r == neighbor_pos_spec(self.width as int, self.height as int, *pos, *dir),
            r is Some ==> self.in_bounds(r->0),
    {
        neighbor_position(self.width, self.height, pos, dir)
    }

    /// Converts a slot index to a [Position]: `x` is the remainder, `y` the
    /// quotient of the division by the width.
    pub fn i_to_pos(&self, index: usize) -> (r: Position)
        requires
            self.width > 0,
        ensures
            r.x == index as int % self.width as int,
            r.y == index as int / self.width as int,
            index < self.area@.len() && self.wf() ==> self.in_bounds(r) && index_spec(
                self.width as int,
                r,
            ) == index,
    {
        let x = index % self.width;
        proof {
            vstd::arithmetic::div_mod::lemma_fundamental_div_mod(index as int, self.width as int);
            vstd::arithmetic::mul::lemma_mul_nonnegative(
                self.width as int,
                index as int / self.width as int,
            );
            vstd::arithmetic::div_mod::lemma_div_multiples_vanish(
                index as int / self.width as int,
                self.width as int,
            );
        }
        let y = (index - x) / self.width;
        proof {
            assert(y == index as int / self.width as int);
            if index < self.area@.len() && self.wf() {
                assert(index < self.width * self.height);
                if y >= self.height {
                    assert(self.width * self.height <= self.width * y) by (nonlinear_arith)
                        requires self.height <= y, self.width >= 0;
                }
                assert(y * self.width + x == index) by (nonlinear_arith)
                    requires
                        self.width > 0,
                        x == index as int % self.width as int,
                        y == index as int / self.width as int;
            }
        }
        Position { x, y }
    }

    /// Converts an in-bounds [Position] to its row-major slot index.
    pub fn pos_to_i(&self, position: &Position) -> (r: usize)
        requires
            self.wf(),
            self.in_bounds(*position),
        ensures
            r == index_spec(self.width as int, *position),
            r < self.area@.len(),
    {
        // The slot count bounds the computed index, so it fits in usize.
        let n = self.area.len();
        proof {
            assert(position.y * self.width + position.x < self.width * self.height)
                by (nonlinear_arith)
                requires
                    position.x < self.width,
                    position.y < self.height;
        }
        position.y * self.width + position.x
    }
}

/// The neighbour of `pos` one step in `dir` on a `width` by `height` grid,
/// or `None` where that step would leave the grid.
pub fn neighbor_position(width: usize, height: usize, pos: &Position, dir: &Direction) -> (r:
    Option<Position>)
    requires
        pos.x < width,
        pos.y < height,
    ensures
        r == neighbor_pos_spec(width as int, height as int, *pos, *dir),
        r is Some ==> r->0.x < width && r->0.y < height,
{
    let x_opt: Option<usize> = match dir {
        Direction::Left | Direction::LeftUp | Direction::LeftDown => pos.x.checked_sub(1),
        Direction::Right | Direction::RightUp | Direction::RightDown => pos.x.checked_add(1),
        Direction::Up | Direction::Down => Some(pos.x),
    };
    let y_opt: Option<usize> = match dir {
        Direction::Up | Direction::LeftUp | Direction::RightUp => pos.y.checked_sub(1),
        Direction::Down | Direction::LeftDown | Direction::RightDown => pos.y.checked_add(1),
        Direction::Left | Direction::Right => Some(pos.y),
    };
    match (x_opt, y_opt) {
        (Some(x), Some(y)) => {
            if x < width && y < height {
                Some(Position { x, y })
            } else {
                None
            }
        },
        _ => None,
    }
}

/// At the left edge no leftward neighbour exists: a particle at `x == 0`
/// never steps Left, LeftUp, or LeftDown out of the grid.
pub proof fn lemma_left_edge(w: int, h: int, p: Position, d: Direction)
    requires
        p.x == 0,
        goes_left(d),
    ensures
        neighbor_pos_spec(w, h, p, d) is None,
{
}

} // verus!
