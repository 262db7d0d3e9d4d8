use vstd::prelude::*;
use crate::utils::random_bool;

verus! {

/// The eight compass neighbours of a cell.
#[derive(Clone, Copy, PartialEq, Eq, Debug, Structural)]
pub enum Direction {
    Up,
    Down,
    Left,
    Right,
    LeftUp,
    RightUp,
    LeftDown,
    RightDown,
}

/// An entry of a preferred-direction list: either a single [Direction] or an
/// unordered pair whose two members are yielded in a random order.
#[derive(Clone, Copy, PartialEq, Eq, Debug, Structural)]
pub enum ExtDirection {
    One(Direction),
    Random(Direction, Direction),
}

/// Walks a preferred-direction list one [Direction] at a time, expanding each
/// [ExtDirection::Random] pair into both of its members in a random order
/// while keeping the overall order of the list.
pub struct ExtDirIterator {
    pub dirs: Vec<ExtDirection>,
    pub idx: usize,
    pub pending: Option<Direction>,
}

impl ExtDirIterator {
    /// How many yields this iterator can still make; decreases at every
    /// successful `next`.
    pub open spec fn fuel(&self) -> int {
        2 * (self.dirs@.len() - self.idx) + if self.pending is Some {
            1int
        } else {
            0int
        }
    }

    pub fn new(dirs: Vec<ExtDirection>) -> (r: Self)
        ensures
            r.dirs == dirs,
            r.idx == 0,
            r.pending is None,
    {
        Self { dirs, idx: 0, pending: None }
    }

    /// Yields the next [Direction], or `None` when the list is exhausted.
    pub fn next(&mut self) -> (r: Option<Direction>)
        ensures
            final(self).dirs == old(self).dirs,
            r is Some ==> final(self).fuel() < old(self).fuel(),
            r is None <==> (old(self).pending is None && old(self).idx
                >= old(self).dirs@.len()),
            r is None ==> *final(self) == *old(self),
            old(self).pending is Some ==> r == Some(old(self).pending->0)
                && final(self).pending is None && final(self).idx == old(self).idx,
            (old(self).pending is None && old(self).idx < old(self).dirs@.len())
                ==> final(self).idx == old(self).idx + 1
                && match old(self).dirs@[old(self).idx as int] {
                    ExtDirection::One(d) => r == Some(d) && final(self).pending is None,
                    ExtDirection::Random(a, b) => (r == Some(a) && final(self).pending
                        == Some(b)) || (r == Some(b) && final(self).pending == Some(a)),
                },
    {
        if let Some(d) = self.pending {
            self.pending = None;
            return Some(d);
        }
        if self.idx >= self.dirs.len() {
            return None;
        }
        let ext = self.dirs[self.idx];
        self.idx = self.idx + 1;
        match ext {
            ExtDirection::One(d) => Some(d),
            ExtDirection::Random(a, b) => {
                if random_bool() {
                    self.pending = Some(b);
                    Some(a)
                } else {
                    self.pending = Some(a);
                    Some(b)
                }
            },
        }
    }
}

} // verus!
