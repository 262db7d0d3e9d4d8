use vstd::prelude::*;
use crate::cell_content::CellContent;
use crate::direction::{Direction, ExtDirIterator};
use crate::material::{collide_spec, directions_spec, CollisionDesire, Material};
use crate::universe::{goes_down, index_spec, neighbor_pos_spec, Position, Universe};

verus! {

/// What the stepper does next after one collision has been resolved.
#[derive(Clone, Copy, PartialEq, Eq, Debug, Structural)]
pub enum StepAction {
    /// The two cells were exchanged; the particle keeps stepping from the
    /// neighbour's former position.
    Swapped,
    /// The two cells were exchanged and the moving particle halted there.
    SwappedStop,
    /// The collision settled matters; stop looking at further neighbours.
    Halt,
    /// Nothing happened; try the next direction.
    Evaded,
}

/// How one [CollisionDesire] rewrites the moving cell `a` and its neighbour
/// `b` into `a2` and `b2`, and which [StepAction] it hands back.
pub open spec fn apply_spec(
    a: CellContent,
    b: CellContent,
    des: CollisionDesire,
    a2: CellContent,
    b2: CellContent,
    r: StepAction,
) -> bool {
    match des {
        CollisionDesire::Evade => a2 == a && b2 == b && r == StepAction::Evaded,
        CollisionDesire::SwapAndMove => a2 == b && b2 == a && r == StepAction::Swapped,
        CollisionDesire::SwapAndStop => a2 == b && b2 == (CellContent {
            material: a.material,
            velocity: 0 as i16,
            handled: true,
        }) && r == StepAction::SwappedStop,
        CollisionDesire::Convert(m) => a2 == a && b2 == (CellContent {
            material: m,
            velocity: 0 as i16,
            handled: true,
        }) && r == StepAction::Halt,
        CollisionDesire::Consume(m) => b2 == a && a2 == (CellContent {
            material: m,
            velocity: 0 as i16,
            handled: true,
        }) && r == StepAction::Halt,
        CollisionDesire::GetConverted(m) => a2 == (CellContent {
            material: m,
            velocity: 0 as i16,
            handled: true,
        }) && b2 == b && r == StepAction::Halt,
        CollisionDesire::Eradicate(ms, mn) => a2 == (CellContent {
            material: ms,
            velocity: 0 as i16,
            handled: true,
        }) && b2 == (CellContent { material: mn, velocity: 0 as i16, handled: true }) && r
            == StepAction::Halt,
    }
}

/// The moving cell `a` met neighbour `b` in direction `d`: some desire the
/// rule table allows was drawn and applied, leaving `a2` and `b2`.
pub open spec fn resolve_spec(
    a: CellContent,
    b: CellContent,
    d: Direction,
    a2: CellContent,
    b2: CellContent,
    r: StepAction,
) -> bool {
    exists|des: CollisionDesire|
        collide_spec(a.material, b.material, d, des) && apply_spec(a, b, des, a2, b2, r)
}

/// True of the two stationary emitter materials.
pub open spec fn is_generator(m: Material) -> bool {
    m == Material::SandGenerator || m == Material::WaterGenerator
}

/// Exactly one cell of the grid holds Sand, at `p`, and every other cell
/// holds Air.
pub open spec fn lone_sand(area: Seq<CellContent>, w: int, h: int, p: Position) -> bool {
    p.x < w && p.y < h && area[index_spec(w, p)].material == Material::Sand && (forall|i: int|
        0 <= i < area.len() && i != index_spec(w, p) ==> area[i].material == Material::Air)
}

/// How far the cell `p` is above the bottom row of a grid of height `h`.
pub open spec fn drop_distance(h: int, p: Position) -> int {
    h - 1 - p.y
}

/// Where a particle at `p` ends after up to `steps` straight drops: `steps`
/// rows further down, or on the bottom row where the floor comes first.
pub open spec fn fallen_to(h: int, p: Position, steps: int) -> Position {
    if steps <= drop_distance(h, p) {
        Position { x: p.x, y: (p.y + steps) as usize }
    } else {
        Position { x: p.x, y: (h - 1) as usize }
    }
}

/// The lock mask holds exactly the one cell `k`.
pub open spec fn only_locked(locked: Seq<bool>, k: int) -> bool {
    forall|j: int| 0 <= j < locked.len() ==> (locked[j] <==> j == k)
}

/// No cell of the lock mask is held.
pub open spec fn none_locked(locked: Seq<bool>) -> bool {
    forall|j: int| 0 <= j < locked.len() ==> !locked[j]
}

/// The outcome of a lone grain of sand that had `steps` drops left: it lies
/// at `fallen_to(h, p, steps)`, handled and alone; where all its steps fit
/// above the floor it is in free fall and keeps the velocity `vel`, and
/// where the floor cut the fall short it is at rest.
pub open spec fn lone_sand_falls(
    post: Seq<CellContent>,
    w: int,
    h: int,
    p: Position,
    steps: int,
    vel: int,
) -> bool {
    let q = fallen_to(h, p, steps);
    lone_sand(post, w, h, q) && post[index_spec(w, q)].handled && (steps <= drop_distance(h, p)
        ==> post[index_spec(w, q)].velocity == vel) && (steps > drop_distance(h, p)
        ==> post[index_spec(w, q)].velocity == 0)
}

/// Whether the list entry `e` can yield the direction `d`.
pub open spec fn ext_has(e: crate::direction::ExtDirection, d: Direction) -> bool {
    match e {
        crate::direction::ExtDirection::One(a) => a == d,
        crate::direction::ExtDirection::Random(a, b) => a == d || b == d,
    }
}

/// Whether `d` occurs somewhere in a preferred-direction list, alone or as
/// either member of a randomised pair.
pub open spec fn in_dirlist(d: Direction, dirs: Seq<crate::direction::ExtDirection>) -> bool {
    exists|k: int| 0 <= k < dirs.len() && ext_has(#[trigger] dirs[k], d)
}

/// One legal move of material `m`: from `p` to the neighbouring cell `q` in
/// some direction of its own preferred-direction list.
pub open spec fn moves_to(m: Material, w: int, h: int, p: Position, q: Position) -> bool {
    exists|d: Direction|
        in_dirlist(d, directions_spec(m)) && neighbor_pos_spec(w, h, p, d) == Some(q)
}

/// `q` lies within `k` legal moves of material `m` from `p`: no particle
/// teleports beyond this reach in one invocation.
pub open spec fn reachable(m: Material, w: int, h: int, p: Position, q: Position, k: int) -> bool
    decreases k,
{
    p == q || (k > 0 && exists|r: Position|
        moves_to(m, w, h, p, r) && reachable(m, w, h, r, q, k - 1))
}

/// Within `k` moves means within any larger budget too.
pub proof fn lemma_reachable_mono(
    m: Material,
    w: int,
    h: int,
    p: Position,
    q: Position,
    k: int,
    k2: int,
)
    requires
        reachable(m, w, h, p, q, k),
        k <= k2,
    ensures
        reachable(m, w, h, p, q, k2),
    decreases k,
{
    if p != q && k > 0 {
        let r = choose|r: Position| moves_to(m, w, h, p, r) && reachable(m, w, h, r, q, k - 1);
        lemma_reachable_mono(m, w, h, r, q, k - 1, k2 - 1);
    }
}

/// What the moving particle itself may turn into during one collision: it
/// keeps its material, or undergoes one of the rule table's own phase
/// changes.
pub open spec fn self_outcome(m: Material, m2: Material) -> bool {
    m2 == m || (m == Material::Fire && (m2 == Material::Vapor || m2 == Material::Smoke)) || (m
        == Material::Water && m2 == Material::Vapor) || (m == Material::Smoke && m2
        == Material::Water) || (m == Material::Vapor && m2 == Material::Air)
}

/// Draws a [CollisionDesire] for the moving cell `cur` against its neighbour
/// `other` and applies it to both cells at once, telling the caller how to
/// continue. This is the whole per-collision transition of the stepper; the
/// parallel scheduler drives it on cells of its own.
pub fn resolve_collision(cur: &mut CellContent, other: &mut CellContent, dir: &Direction) -> (r:
    StepAction)
    ensures
        resolve_spec(*old(cur), *old(other), *dir, *final(cur), *final(other), r),
{
    let ghost a0 = *cur;
    let ghost b0 = *other;
    let m = cur.material;
    let om = other.material;
    let desire = m.collide(&om, dir);
    let r = match desire {
        CollisionDesire::Evade => StepAction::Evaded,
        CollisionDesire::SwapAndMove => {
            let tmp = *cur;
            *cur = *other;
            *other = tmp;
            StepAction::Swapped
        },
        CollisionDesire::SwapAndStop => {
            cur.velocity = 0;
            cur.handled = true;
            let tmp = *cur;
            *cur = *other;
            *other = tmp;
            StepAction::SwappedStop
        },
        CollisionDesire::Convert(mat) => {
            *other = CellContent::new(mat, true, 0);
            StepAction::Halt
        },
        CollisionDesire::Consume(mat) => {
            *other = *cur;
            *cur = CellContent::new(mat, true, 0);
            StepAction::Halt
        },
        CollisionDesire::GetConverted(mat) => {
            *cur = CellContent::new(mat, true, 0);
            StepAction::Halt
        },
        CollisionDesire::Eradicate(ms, mn) => {
            *cur = CellContent::new(ms, true, 0);
            *other = CellContent::new(mn, true, 0);
            StepAction::Halt
        },
    };
    proof {
        assert(collide_spec(a0.material, b0.material, *dir, desire));
        assert(apply_spec(a0, b0, desire, *cur, *other, r));
    }
    r
}

/// Everything the stepper's proofs need to know about one resolved
/// collision, read off the rule table.
pub proof fn lemma_resolve_props(
    a: CellContent,
    b: CellContent,
    d: Direction,
    a2: CellContent,
    b2: CellContent,
    r: StepAction,
)
    requires
        resolve_spec(a, b, d, a2, b2, r),
    ensures
        a.velocity >= 0 && b.velocity >= 0 ==> a2.velocity >= 0 && b2.velocity >= 0,
        a2.material == Material::Fire || b2.material == Material::Fire ==> a.material
            == Material::Fire || b.material == Material::Fire,
        a.material != Material::Fire && b.material == Material::Wood ==> a2 == a && b2 == b && r
            == StepAction::Evaded,
        a.material == Material::Wood ==> a2 == a && b2 == b && r == StepAction::Evaded,
        is_generator(a.material) ==> a2 == a,
        is_generator(b.material) ==> a2 == a && b2 == b && r == StepAction::Evaded,
        a.material != Material::Fire && r == StepAction::Halt ==> b2.handled,
        r == StepAction::Swapped ==> a2 == b && b2 == a,
        r == StepAction::SwappedStop ==> a2 == b && b2 == (CellContent {
            material: a.material,
            velocity: 0 as i16,
            handled: true,
        }),
        r == StepAction::Evaded ==> a2 == a && b2 == b,
        r == StepAction::Halt ==> self_outcome(a.material, a2.material),
        a2.material == Material::Wood ==> a.material == Material::Wood,
        b2.material == Material::Wood ==> b.material == Material::Wood,
        swappable(a.material) && swappable(b.material) ==> r != StepAction::Halt && swappable(
            a2.material,
        ) && swappable(b2.material) && ((a2.material == a.material && b2.material == b.material)
            || (a2.material == b.material && b2.material == a.material)),
{
    let des = choose|des: CollisionDesire|
        collide_spec(a.material, b.material, d, des) && apply_spec(a, b, des, a2, b2, r);
}

/// The number of cells whose lock is free: the `false` entries of the mask.
pub closed spec fn count_free(s: Seq<bool>) -> int
    decreases s.len(),
{
    if s.len() == 0 {
        0
    } else {
        count_free(s.drop_last()) + if s.last() {
            0int
        } else {
            1int
        }
    }
}

pub proof fn lemma_count_free_bounds(s: Seq<bool>)
    ensures
        0 <= count_free(s) <= s.len(),
    decreases s.len(),
{
    if s.len() > 0 {
        lemma_count_free_bounds(s.drop_last());
    }
}

/// Locking a free cell lowers the free count by one; releasing a held cell
/// raises it by one; writing the value already there changes nothing.
pub proof fn lemma_count_free_update(s: Seq<bool>, i: int, v: bool)
    requires
        0 <= i < s.len(),
    ensures
        count_free(s.update(i, v)) == count_free(s) + if s[i] == v {
            0int
        } else if v {
            -1int
        } else {
            1int
        },
    decreases s.len(),
{
    let t = s.update(i, v);
    if i == s.len() - 1 {
        assert(t.drop_last() =~= s.drop_last());
    } else {
        assert(t.drop_last() =~= s.drop_last().update(i, v));
        lemma_count_free_update(s.drop_last(), i, v);
    }
}

/// Every velocity in the grid is non-negative.
pub open spec fn all_nonneg(area: Seq<CellContent>) -> bool {
    forall|i: int| 0 <= i < area.len() ==> area[i].velocity >= 0
}

/// No cell of the grid holds Fire.
pub open spec fn no_fire(area: Seq<CellContent>) -> bool {
    forall|i: int| 0 <= i < area.len() ==> area[i].material != Material::Fire
}

/// Every cell's material has an empty preferred-direction list, so nothing
/// in the grid ever moves: only Air and Wood qualify.
pub open spec fn all_inert(area: Seq<CellContent>) -> bool {
    forall|i: int| 0 <= i < area.len() ==> directions_spec(area[i].material).len() == 0
}

/// Generator cells keep their material: nothing moves them or overwrites
/// them.
pub open spec fn generators_kept(pre: Seq<CellContent>, post: Seq<CellContent>) -> bool {
    forall|i: int|
        0 <= i < pre.len() && is_generator(pre[i].material) ==> post[i].material == pre[i].material
}

/// Wood cells keep their material.
pub open spec fn wood_kept(pre: Seq<CellContent>, post: Seq<CellContent>) -> bool {
    forall|i: int|
        0 <= i < pre.len() && pre[i].material == Material::Wood ==> post[i].material
            == Material::Wood
}

/// No cell comes to hold Wood that did not hold Wood before: nothing in the
/// rule table creates or moves Wood.
pub open spec fn wood_not_created(pre: Seq<CellContent>, post: Seq<CellContent>) -> bool {
    forall|i: int|
        0 <= i < post.len() && post[i].material == Material::Wood ==> pre[i].material
            == Material::Wood
}

/// How often material `m` occurs in the grid.
#[verifier::opaque]
pub open spec fn count_material(s: Seq<CellContent>, m: Material) -> int
    decreases s.len(),
{
    if s.len() == 0 {
        0
    } else {
        count_material(s.drop_last(), m) + if s.last().material == m {
            1int
        } else {
            0int
        }
    }
}

/// Overwriting one cell adjusts the count of each material by what left and
/// what arrived.
pub proof fn lemma_count_material_update(s: Seq<CellContent>, i: int, v: CellContent, m: Material)
    requires
        0 <= i < s.len(),
    ensures
        count_material(s.update(i, v), m) == count_material(s, m) + (if v.material == m {
            1int
        } else {
            0int
        }) - (if s[i].material == m {
            1int
        } else {
            0int
        }),
    decreases s.len(),
{
    reveal_with_fuel(count_material, 2);
    let t = s.update(i, v);
    if i == s.len() - 1 {
        assert(t.drop_last() =~= s.drop_last());
    } else {
        assert(t.drop_last() =~= s.drop_last().update(i, v));
        lemma_count_material_update(s.drop_last(), i, v, m);
    }
}

/// Where a material appears in the new grid only where it already stood in
/// the old one, its count cannot have risen.
pub proof fn lemma_count_material_mono(pre: Seq<CellContent>, post: Seq<CellContent>, m: Material)
    requires
        pre.len() == post.len(),
        forall|i: int|
            0 <= i < post.len() && post[i].material == m ==> pre[i].material == m,
    ensures
        count_material(post, m) <= count_material(pre, m),
    decreases pre.len(),
{
    reveal_with_fuel(count_material, 2);
    if pre.len() > 0 {
        lemma_count_material_mono(pre.drop_last(), post.drop_last(), m);
    }
}

/// Where a material stands in the new grid exactly where it stood in the
/// old one, its count is unchanged.
pub proof fn lemma_count_material_same_positions(
    pre: Seq<CellContent>,
    post: Seq<CellContent>,
    m: Material,
)
    requires
        pre.len() == post.len(),
        forall|i: int|
            0 <= i < post.len() ==> ((post[i].material == m) <==> (pre[i].material == m)),
    ensures
        count_material(post, m) == count_material(pre, m),
{
    lemma_count_material_mono(pre, post, m);
    lemma_count_material_mono(post, pre, m);
}

/// A material that only ever trades places: it is neither created, consumed
/// nor transformed by any rule.
pub open spec fn swappable(m: Material) -> bool {
    m == Material::Air || m == Material::Sand || m == Material::Water || m == Material::Wood
}

/// Every cell of the grid holds a material that only trades places.
pub open spec fn all_swappable(area: Seq<CellContent>) -> bool {
    forall|i: int| 0 <= i < area.len() ==> swappable(area[i].material)
}

/// The two grids hold every material equally often.
pub open spec fn same_material_counts(a: Seq<CellContent>, b: Seq<CellContent>) -> bool {
    forall|m: Material| count_material(a, m) == count_material(b, m)
}

/// Rewriting one cell without changing its material leaves every count
/// alone.
pub proof fn lemma_counts_update_same(s: Seq<CellContent>, i: int, v: CellContent)
    requires
        0 <= i < s.len(),
        v.material == s[i].material,
    ensures
        same_material_counts(s, s.update(i, v)),
{
    assert forall|m: Material|
        count_material(s, m) == count_material(s.update(i, v), m) by {
        lemma_count_material_update(s, i, v, m);
    }
}

/// Rewriting two cells that keep or trade their materials leaves every
/// count alone.
pub proof fn lemma_counts_swap_pair(
    s: Seq<CellContent>,
    i: int,
    j: int,
    a2: CellContent,
    b2: CellContent,
)
    requires
        0 <= i < s.len(),
        0 <= j < s.len(),
        i != j,
        (a2.material == s[i].material && b2.material == s[j].material) || (a2.material
            == s[j].material && b2.material == s[i].material),
    ensures
        same_material_counts(s, s.update(i, a2).update(j, b2)),
{
    assert forall|m: Material|
        count_material(s, m) == count_material(s.update(i, a2).update(j, b2), m) by {
        lemma_count_material_update(s, i, a2, m);
        lemma_count_material_update(s.update(i, a2), j, b2, m);
    }
}

/// Cells that were handled, are not held by an outer frame, and are not the
/// excluded cell `p` stay handled.
pub open spec fn handled_kept(
    pre: Seq<CellContent>,
    post: Seq<CellContent>,
    locked: Seq<bool>,
    p: int,
) -> bool {
    forall|i: int|
        0 <= i < pre.len() && i != p && !locked[i] && pre[i].handled ==> post[i].handled
}

/// A settled cell of material `m`: at rest and handled.
pub open spec fn stopped_cell(m: Material) -> CellContent {
    CellContent { material: m, velocity: 0 as i16, handled: true }
}

/// `c` marked as handled, velocity retained (free fall).
pub open spec fn marked_cell(c: CellContent) -> CellContent {
    CellContent { material: c.material, velocity: c.velocity, handled: true }
}

/// The sweep's progress on a lone grain of sand: positions not yet reached
/// by the descending sweep (index at least `i`) are untouched; once the
/// sweep has passed the grain's cell, the grain has fallen.
pub open spec fn lone_progress(
    pre: Seq<CellContent>,
    cur: Seq<CellContent>,
    w: int,
    h: int,
    i: int,
) -> bool {
    forall|p: Position|
        (lone_sand(pre, w, h, p) && !pre[index_spec(w, p)].handled && pre[index_spec(
            w,
            p,
        )].velocity < i16::MAX) ==> ((i > index_spec(w, p) ==> lone_sand(cur, w, h, p)
            && cur[index_spec(w, p)] == pre[index_spec(w, p)]) && (i <= index_spec(w, p)
            ==> lone_sand_falls(
            cur,
            w,
            h,
            p,
            pre[index_spec(w, p)].velocity + 1,
            pre[index_spec(w, p)].velocity + 1,
        )))
}

/// A whole tick on a lone grain of sand: it gains one unit of velocity and
/// falls that many rows, stopped only by the floor.
pub open spec fn lone_sand_outcome(
    pre: Seq<CellContent>,
    post: Seq<CellContent>,
    w: int,
    h: int,
) -> bool {
    forall|p: Position|
        (lone_sand(pre, w, h, p) && pre[index_spec(w, p)].velocity < i16::MAX)
            ==> lone_sand_falls(
            post,
            w,
            h,
            p,
            pre[index_spec(w, p)].velocity + 1,
            pre[index_spec(w, p)].velocity + 1,
        )
}

/// Simulates the behaviour of each [Material] in a [Universe], tick by tick.
pub struct Simulation {
    pub universe: Universe,
}

impl Simulation {
    /// The dimensions and the slot count survive a call.
    pub open spec fn frame(pre: Self, post: Self) -> bool {
        post.universe.width == pre.universe.width && post.universe.height == pre.universe.height
            && post.universe.area@.len() == pre.universe.area@.len()
    }

    /// Handles one cell as a primary: takes its lock, guards on `handled`,
    /// accrues one unit of velocity and steps the cell. A cell that was
    /// already handled this tick is left entirely alone.
    #[verifier::rlimit(60)]
    fn handle_collision(&mut self, pos: &Position, locked: &mut Vec<bool>, failed_locks: &mut usize)
        requires
            old(self).universe.wf(),
            old(self).universe.in_bounds(*pos),
            old(locked)@.len() == old(self).universe.area@.len(),
            !old(locked)@[index_spec(old(self).universe.width as int, *pos)],
            all_nonneg(old(self).universe.area@),
        ensures
            Self::frame(*old(self), *final(self)),
            final(self).universe.wf(),
            final(locked)@ == old(locked)@,
            all_nonneg(final(self).universe.area@),
            forall|i: int|
                0 <= i < old(locked)@.len() && old(locked)@[i] ==> final(self).universe.area@[i]
                    == old(self).universe.area@[i],
            old(self).universe.area@[index_spec(old(self).universe.width as int, *pos)].handled
                ==> final(self).universe.area@ == old(self).universe.area@ && *final(failed_locks)
                == *old(failed_locks),
            no_fire(old(self).universe.area@) ==> no_fire(final(self).universe.area@) && wood_kept(
                old(self).universe.area@,
                final(self).universe.area@,
            ) && handled_kept(
                old(self).universe.area@,
                final(self).universe.area@,
                old(locked)@,
                -1,
            ) && final(self).universe.area@[index_spec(
                old(self).universe.width as int,
                *pos,
            )].handled,
            generators_kept(old(self).universe.area@, final(self).universe.area@),
            wood_not_created(old(self).universe.area@, final(self).universe.area@),
            all_swappable(old(self).universe.area@) ==> all_swappable(final(self).universe.area@)
                && same_material_counts(old(self).universe.area@, final(self).universe.area@),
            !old(self).universe.area@[index_spec(old(self).universe.width as int, *pos)].handled
                ==> (exists|q: Position|
                q.x < old(self).universe.width && q.y < old(self).universe.height && reachable(
                    old(self).universe.area@[index_spec(old(self).universe.width as int, *pos)].material,
                    old(self).universe.width as int,
                    old(self).universe.height as int,
                    *pos,
                    q,
                    old(self).universe.area@[index_spec(old(self).universe.width as int, *pos)].velocity + 1,
                ) && self_outcome(
                    old(self).universe.area@[index_spec(old(self).universe.width as int, *pos)].material,
                    final(self).universe.area@[index_spec(old(self).universe.width as int, q)].material,
                )),
            (lone_sand(
                old(self).universe.area@,
                old(self).universe.width as int,
                old(self).universe.height as int,
                *pos,
            ) && none_locked(old(locked)@) && !old(self).universe.area@[index_spec(
                old(self).universe.width as int,
                *pos,
            )].handled && old(self).universe.area@[index_spec(
                old(self).universe.width as int,
                *pos,
            )].velocity < i16::MAX) ==> lone_sand_falls(
                final(self).universe.area@,
                old(self).universe.width as int,
                old(self).universe.height as int,
                *pos,
                old(self).universe.area@[index_spec(old(self).universe.width as int, *pos)].velocity
                    + 1,
                old(self).universe.area@[index_spec(old(self).universe.width as int, *pos)].velocity
                    + 1,
            ),
            (!old(self).universe.area@[index_spec(old(self).universe.width as int, *pos)].handled
                && directions_spec(
                old(self).universe.area@[index_spec(old(self).universe.width as int, *pos)].material,
            ).len() == 0) ==> final(self).universe.area@ == old(self).universe.area@.update(
                index_spec(old(self).universe.width as int, *pos),
                stopped_cell(
                    old(self).universe.area@[index_spec(
                        old(self).universe.width as int,
                        *pos,
                    )].material,
                ),
            ),
            *final(failed_locks) >= *old(failed_locks),
        decreases count_free(locked@), 0int, 0int, 0int,
    {
        let idx = self.universe.pos_to_i(pos);
        locked.set(idx, true);
        proof {
            lemma_count_free_update(old(locked)@, idx as int, true);
            lemma_count_free_bounds(old(locked)@);
            lemma_count_free_bounds(locked@);
        }
        if self.universe.area[idx].handled {
            locked.set(idx, false);
            proof {
                assert(locked@ =~= old(locked)@);
            }
            return ;
        }
        let c = self.universe.area[idx];
        let v1: i16 = if c.velocity < i16::MAX {
            c.velocity + 1
        } else {
            c.velocity
        };
        self.universe.area.set(idx, CellContent { material: c.material, velocity: v1, handled: c.handled });
        self.step(pos, v1, locked, failed_locks);
        proof {
            assert(locked@ =~= old(locked)@);
            if all_swappable(old(self).universe.area@) {
                lemma_counts_update_same(
                    old(self).universe.area@,
                    idx as int,
                    (CellContent { material: c.material, velocity: v1, handled: c.handled }),
                );
                assert(all_swappable(
                    old(self).universe.area@.update(
                        idx as int,
                        CellContent { material: c.material, velocity: v1, handled: c.handled },
                    ),
                ));
                assert(all_swappable(self.universe.area@));
                assert(same_material_counts(old(self).universe.area@, self.universe.area@));
            }
            if lone_sand(old(self).universe.area@, old(self).universe.width as int,
                old(self).universe.height as int, *pos) && none_locked(old(locked)@)
                && !old(self).universe.area@[idx as int].handled
                && old(self).universe.area@[idx as int].velocity < i16::MAX {
                let w = old(self).universe.width as int;
                let h = old(self).universe.height as int;
                assert(only_locked(old(locked)@.update(idx as int, true), idx as int));
                assert(lone_sand(
                    old(self).universe.area@.update(
                        idx as int,
                        CellContent { material: c.material, velocity: v1, handled: c.handled },
                    ),
                    w,
                    h,
                    *pos,
                ));
                assert(v1 == c.velocity + 1);
                assert(lone_sand_falls(
                    self.universe.area@,
                    w,
                    h,
                    *pos,
                    c.velocity + 1,
                    c.velocity + 1,
                ));
            }
            {
                let w = old(self).universe.width as int;
                let h = old(self).universe.height as int;
                let q = choose|q: Position|
                    q.x < old(self).universe.width && q.y < old(self).universe.height && reachable(
                        c.material,
                        w,
                        h,
                        *pos,
                        q,
                        v1 as int,
                    ) && self_outcome(
                        c.material,
                        self.universe.area@[index_spec(w, q)].material,
                    );
                lemma_reachable_mono(c.material, w, h, *pos, q, v1 as int, c.velocity + 1);
            }
            if directions_spec(c.material).len() == 0 {
                assert(final(self).universe.area@ =~= old(self).universe.area@.update(
                    idx as int,
                    stopped_cell(c.material),
                ));
            }
        }
    }

    /// Attempts up to `steps_remaining` movement steps for the particle at
    /// `pos`, whose lock the caller holds; releases that lock before
    /// returning. With no steps left the particle is marked handled and its
    /// velocity is retained (free fall).
    #[verifier::rlimit(60)]
    fn step(
        &mut self,
        pos: &Position,
        steps_remaining: i16,
        locked: &mut Vec<bool>,
        failed_locks: &mut usize,
    )
        requires
            old(self).universe.wf(),
            old(self).universe.in_bounds(*pos),
            old(locked)@.len() == old(self).universe.area@.len(),
            old(locked)@[index_spec(old(self).universe.width as int, *pos)],
            steps_remaining >= 0,
            all_nonneg(old(self).universe.area@),
        ensures
            Self::frame(*old(self), *final(self)),
            final(self).universe.wf(),
            final(locked)@ == old(locked)@.update(
                index_spec(old(self).universe.width as int, *pos),
                false,
            ),
            all_nonneg(final(self).universe.area@),
            forall|i: int|
                0 <= i < old(locked)@.len() && i != index_spec(
                    old(self).universe.width as int,
                    *pos,
                ) && old(locked)@[i] ==> final(self).universe.area@[i]
                    == old(self).universe.area@[i],
            no_fire(old(self).universe.area@) ==> no_fire(final(self).universe.area@) && wood_kept(
                old(self).universe.area@,
                final(self).universe.area@,
            ) && handled_kept(
                old(self).universe.area@,
                final(self).universe.area@,
                old(locked)@,
                index_spec(old(self).universe.width as int, *pos),
            ) && final(self).universe.area@[index_spec(
                old(self).universe.width as int,
                *pos,
            )].handled,
            generators_kept(old(self).universe.area@, final(self).universe.area@),
            wood_not_created(old(self).universe.area@, final(self).universe.area@),
            all_swappable(old(self).universe.area@) ==> all_swappable(final(self).universe.area@)
                && same_material_counts(old(self).universe.area@, final(self).universe.area@),
            exists|q: Position|
                q.x < old(self).universe.width && q.y < old(self).universe.height && reachable(
                    old(self).universe.area@[index_spec(old(self).universe.width as int, *pos)].material,
                    old(self).universe.width as int,
                    old(self).universe.height as int,
                    *pos,
                    q,
                    steps_remaining as int,
                ) && self_outcome(
                    old(self).universe.area@[index_spec(old(self).universe.width as int, *pos)].material,
                    final(self).universe.area@[index_spec(old(self).universe.width as int, q)].material,
                ),
            (lone_sand(
                old(self).universe.area@,
                old(self).universe.width as int,
                old(self).universe.height as int,
                *pos,
            ) && only_locked(old(locked)@, index_spec(old(self).universe.width as int, *pos)))
                ==> lone_sand_falls(
                final(self).universe.area@,
                old(self).universe.width as int,
                old(self).universe.height as int,
                *pos,
                steps_remaining as int,
                old(self).universe.area@[index_spec(old(self).universe.width as int, *pos)].velocity as int,
            ),
            steps_remaining == 0 ==> final(self).universe.area@ == old(self).universe.area@.update(
                index_spec(old(self).universe.width as int, *pos),
                marked_cell(
                    old(self).universe.area@[index_spec(old(self).universe.width as int, *pos)],
                ),
            ) && *final(failed_locks) == *old(failed_locks),
            (steps_remaining > 0 && directions_spec(
                old(self).universe.area@[index_spec(old(self).universe.width as int, *pos)].material,
            ).len() == 0) ==> final(self).universe.area@ == old(self).universe.area@.update(
                index_spec(old(self).universe.width as int, *pos),
                stopped_cell(
                    old(self).universe.area@[index_spec(
                        old(self).universe.width as int,
                        *pos,
                    )].material,
                ),
            ),
            *final(failed_locks) >= *old(failed_locks),
        decreases count_free(locked@), steps_remaining as int, 2int, 0int,
    {
        let idx = self.universe.pos_to_i(pos);
        let ghost m0 = self.universe.area@[idx as int].material;
        let ghost w = self.universe.width as int;
        let ghost h = self.universe.height as int;
        if steps_remaining == 0 {
            // All steps were used without stopping: free fall, velocity kept.
            let c = self.universe.area[idx];
            self.universe.area.set(
                idx,
                CellContent { material: c.material, velocity: c.velocity, handled: true },
            );
            locked.set(idx, false);
            proof {
                assert(reachable(m0, w, h, *pos, *pos, steps_remaining as int));
                assert(self_outcome(m0, self.universe.area@[idx as int].material));
                if lone_sand(old(self).universe.area@, w, h, *pos) {
                    assert(fallen_to(h, *pos, 0) == *pos);
                    assert(lone_sand(self.universe.area@, w, h, *pos));
                }
                if all_swappable(old(self).universe.area@) {
                    lemma_counts_update_same(
                        old(self).universe.area@,
                        idx as int,
                        (CellContent {
                            material: c.material,
                            velocity: c.velocity,
                            handled: true,
                        }),
                    );
                    assert(all_swappable(self.universe.area@));
                }
            }
            return ;
        }
        let mat = self.universe.area[idx].material;
        let dirs = mat.directions();
        let it = ExtDirIterator::new(dirs);
        proof {
            lemma_count_free_bounds(locked@);
        }
        self.step_dirs(pos, steps_remaining, it, locked, failed_locks);
    }

    /// Walks the remaining preferred directions of the particle at `pos`,
    /// trying to acquire one neighbour after the other; a neighbour whose
    /// lock is held is skipped and counted. When no direction leads to a
    /// swap the particle settles: velocity zero, handled.
    #[verifier::rlimit(100)]
    fn step_dirs(
        &mut self,
        pos: &Position,
        steps_remaining: i16,
        it: ExtDirIterator,
        locked: &mut Vec<bool>,
        failed_locks: &mut usize,
    )
        requires
            old(self).universe.wf(),
            old(self).universe.in_bounds(*pos),
            old(locked)@.len() == old(self).universe.area@.len(),
            old(locked)@[index_spec(old(self).universe.width as int, *pos)],
            steps_remaining >= 1,
            all_nonneg(old(self).universe.area@),
            it.dirs@ == directions_spec(
                old(self).universe.area@[index_spec(old(self).universe.width as int, *pos)].material,
            ),
            it.idx <= it.dirs@.len(),
            it.pending is Some ==> in_dirlist(it.pending->0, it.dirs@),
        ensures
            Self::frame(*old(self), *final(self)),
            final(self).universe.wf(),
            final(locked)@ == old(locked)@.update(
                index_spec(old(self).universe.width as int, *pos),
                false,
            ),
            all_nonneg(final(self).universe.area@),
            forall|i: int|
                0 <= i < old(locked)@.len() && i != index_spec(
                    old(self).universe.width as int,
                    *pos,
                ) && old(locked)@[i] ==> final(self).universe.area@[i]
                    == old(self).universe.area@[i],
            no_fire(old(self).universe.area@) ==> no_fire(final(self).universe.area@) && wood_kept(
                old(self).universe.area@,
                final(self).universe.area@,
            ) && handled_kept(
                old(self).universe.area@,
                final(self).universe.area@,
                old(locked)@,
                index_spec(old(self).universe.width as int, *pos),
            ) && final(self).universe.area@[index_spec(
                old(self).universe.width as int,
                *pos,
            )].handled,
            generators_kept(old(self).universe.area@, final(self).universe.area@),
            wood_not_created(old(self).universe.area@, final(self).universe.area@),
            all_swappable(old(self).universe.area@) ==> all_swappable(final(self).universe.area@)
                && same_material_counts(old(self).universe.area@, final(self).universe.area@),
            exists|q: Position|
                q.x < old(self).universe.width && q.y < old(self).universe.height && reachable(
                    old(self).universe.area@[index_spec(old(self).universe.width as int, *pos)].material,
                    old(self).universe.width as int,
                    old(self).universe.height as int,
                    *pos,
                    q,
                    steps_remaining as int,
                ) && self_outcome(
                    old(self).universe.area@[index_spec(old(self).universe.width as int, *pos)].material,
                    final(self).universe.area@[index_spec(old(self).universe.width as int, q)].material,
                ),
            (lone_sand(
                old(self).universe.area@,
                old(self).universe.width as int,
                old(self).universe.height as int,
                *pos,
            ) && only_locked(old(locked)@, index_spec(old(self).universe.width as int, *pos)) && (
            pos.y + 1 == old(self).universe.height || (it.idx == 0 && it.pending is None)))
                ==> lone_sand_falls(
                final(self).universe.area@,
                old(self).universe.width as int,
                old(self).universe.height as int,
                *pos,
                steps_remaining as int,
                old(self).universe.area@[index_spec(old(self).universe.width as int, *pos)].velocity as int,
            ),
            (it.dirs@.len() == 0 && it.pending is None) ==> final(self).universe.area@ == old(self).universe.area@.update(
                index_spec(old(self).universe.width as int, *pos),
                stopped_cell(
                    old(self).universe.area@[index_spec(
                        old(self).universe.width as int,
                        *pos,
                    )].material,
                ),
            ),
            *final(failed_locks) >= *old(failed_locks),
        decreases count_free(locked@), steps_remaining as int, 1int, it.fuel(),
    {
        let ghost w = self.universe.width as int;
        let ghost h = self.universe.height as int;
        let idx = self.universe.pos_to_i(pos);
        let ghost m0 = self.universe.area@[idx as int].material;
        let mut it = it;
        let ghost it_pre = it;
        let ghost lone_pre = lone_sand(self.universe.area@, w, h, *pos) && only_locked(
            locked@,
            idx as int,
        ) && (pos.y + 1 == self.universe.height || (it_pre.idx == 0 && it_pre.pending is None));
        let next_dir = it.next();
        match next_dir {
            None => {
                // No direction led anywhere: settle the particle here.
                let c = self.universe.area[idx];
                self.universe.area.set(
                    idx,
                    CellContent { material: c.material, velocity: 0, handled: true },
                );
                locked.set(idx, false);
                proof {
                    assert(reachable(m0, w, h, *pos, *pos, steps_remaining as int));
                    assert(self_outcome(m0, self.universe.area@[idx as int].material));
                    if all_swappable(old(self).universe.area@) {
                        lemma_counts_update_same(
                            old(self).universe.area@,
                            idx as int,
                            (CellContent { material: c.material, velocity: 0 as i16, handled: true }),
                        );
                        assert(all_swappable(self.universe.area@));
                    }
                    if lone_pre {
                        if pos.y + 1 == old(self).universe.height {
                            assert(drop_distance(h, *pos) == 0);
                            assert(fallen_to(h, *pos, steps_remaining as int) == *pos);
                            assert(lone_sand(self.universe.area@, w, h, *pos));
                        } else {
                            // A fresh iterator over Sand's two-entry list
                            // cannot be exhausted at once.
                            assert(directions_spec(Material::Sand).len() == 2);
                            assert(false);
                        }
                    }
                }
            },
            Some(dir) => {
                proof {
                    if it_pre.pending is Some {
                        assert(in_dirlist(dir, it_pre.dirs@));
                    } else {
                        assert(ext_has(it_pre.dirs@[it_pre.idx as int], dir));
                        assert(in_dirlist(dir, it_pre.dirs@));
                    }
                    assert(in_dirlist(dir, directions_spec(m0)));
                    if lone_pre {
                        assert(m0 == Material::Sand);
                        if pos.y + 1 == old(self).universe.height {
                            // Every direction of Sand points downward and
                            // leaves the grid from the bottom row.
                            assert(goes_down(dir));
                        } else {
                            // The fresh iterator yields the head of Sand's
                            // list first: straight down.
                            assert(it_pre.dirs@[0] == crate::direction::ExtDirection::One(
                                Direction::Down,
                            ));
                            assert(dir == Direction::Down);
                        }
                    }
                    if it.pending is Some {
                        if it_pre.pending is None {
                            assert(ext_has(it.dirs@[it_pre.idx as int], it.pending->0));
                        }
                        assert(in_dirlist(it.pending->0, it.dirs@));
                    }
                }
                match self.universe.get_neighbor_pos(pos, &dir) {
                    None => {
                        proof {
                            lemma_count_free_bounds(locked@);
                            if lone_pre && pos.y + 1 != old(self).universe.height {
                                assert(neighbor_pos_spec(w, h, *pos, Direction::Down) is Some);
                                assert(false);
                            }
                        }
                        self.step_dirs(pos, steps_remaining, it, locked, failed_locks);
                    },
                    Some(npos) => {
                        let nidx = self.universe.pos_to_i(&npos);
                        if locked[nidx] {
                            // The neighbour is held elsewhere: count the
                            // failed acquisition and move on.
                            if *failed_locks < usize::MAX {
                                *failed_locks = *failed_locks + 1;
                            }
                            proof {
                                lemma_count_free_bounds(locked@);
                                if lone_pre {
                                    assert((pos.y + 1) * w == pos.y * w + w) by (nonlinear_arith);
                                    assert(nidx as int != idx as int);
                                    assert(false);
                                }
                            }
                            self.step_dirs(pos, steps_remaining, it, locked, failed_locks);
                        } else {
                            locked.set(nidx, true);
                            proof {
                                lemma_count_free_update(old(locked)@, nidx as int, true);
                                lemma_count_free_bounds(old(locked)@);
                                lemma_count_free_bounds(locked@);
                            }
                            let mut a = self.universe.area[idx];
                            let mut b = self.universe.area[nidx];
                            let ghost a0 = a;
                            let ghost b0 = b;
                            let action = resolve_collision(&mut a, &mut b, &dir);
                            proof {
                                lemma_resolve_props(a0, b0, dir, a, b, action);
                                if all_swappable(old(self).universe.area@) {
                                    assert(swappable(a0.material) && swappable(b0.material));
                                    assert(action != StepAction::Halt);
                                    lemma_counts_swap_pair(
                                        old(self).universe.area@,
                                        idx as int,
                                        nidx as int,
                                        a,
                                        b,
                                    );
                                }
                                if lone_pre {
                                    assert((pos.y + 1) * w == pos.y * w + w) by (nonlinear_arith);
                                    assert(nidx as int != idx as int);
                                    assert(a0.material == Material::Sand);
                                    assert(b0.material == Material::Air);
                                    let des = choose|des: CollisionDesire|
                                        collide_spec(a0.material, b0.material, dir, des)
                                            && apply_spec(a0, b0, des, a, b, action);
                                    assert(des == CollisionDesire::SwapAndMove);
                                    assert(action == StepAction::Swapped && a == b0 && b == a0);
                                }
                            }
                            self.universe.area.set(idx, a);
                            self.universe.area.set(nidx, b);
                            match action {
                                StepAction::Evaded => {
                                    locked.set(nidx, false);
                                    proof {
                                        assert(locked@ =~= old(locked)@);
                                        assert(self.universe.area@ =~= old(self).universe.area@);
                                        lemma_count_free_bounds(locked@);
                                        if lone_pre {
                                            assert(false);
                                        }
                                    }
                                    self.step_dirs(pos, steps_remaining, it, locked, failed_locks);
                                },
                                StepAction::Swapped => {
                                    locked.set(idx, false);
                                    let ghost mid = self.universe.area@;
                                    let ghost locked_mid = locked@;
                                    proof {
                                        lemma_count_free_update(
                                            old(locked)@.update(nidx as int, true),
                                            idx as int,
                                            false,
                                        );
                                        lemma_count_free_bounds(locked@);
                                    }
                                    self.handle_collision(pos, locked, failed_locks);
                                    let ghost after_a = self.universe.area@;
                                    self.step(&npos, steps_remaining - 1, locked, failed_locks);
                                    proof {
                                        assert(locked@ =~= old(locked)@.update(idx as int, false));
                                        assert forall|i: int|
                                            0 <= i < old(locked)@.len() && i != idx as int
                                                && old(locked)@[i]
                                                implies self.universe.area@[i]
                                                == old(self).universe.area@[i] by {
                                            assert(i != nidx as int);
                                            assert(mid[i] == old(self).universe.area@[i]);
                                            assert(locked_mid[i]);
                                            assert(after_a[i] == mid[i]);
                                            assert(self.universe.area@[i] == after_a[i]);
                                        }
                                        if no_fire(old(self).universe.area@) {
                                            assert(no_fire(mid));
                                            assert(no_fire(after_a));
                                            assert(no_fire(self.universe.area@));
                                            assert(wood_kept(old(self).universe.area@, self.universe.area@));
                                            assert(after_a[idx as int].handled);
                                            assert(!locked_mid[idx as int]);
                                            assert(self.universe.area@[idx as int].handled);
                                            assert forall|i: int|
                                                0 <= i < old(self).universe.area@.len() && i != idx as int
                                                    && !old(locked)@[i]
                                                    && old(self).universe.area@[i].handled
                                                    implies self.universe.area@[i].handled by {
                                                if i == nidx as int {
                                                    assert(self.universe.area@[i].handled);
                                                } else {
                                                    assert(mid[i] == old(self).universe.area@[i]);
                                                    assert(!locked_mid[i]);
                                                    assert(after_a[i].handled);
                                                    assert(self.universe.area@[i].handled);
                                                }
                                            }
                                            assert(handled_kept(old(self).universe.area@, self.universe.area@, old(locked)@, idx as int));
                                        }
                                        assert((nidx as int) < locked_mid.len());
                                        assert(locked_mid.len() == old(locked)@.len());
                                        assert(locked_mid[nidx as int]);
                                        assert(after_a[nidx as int] == mid[nidx as int]);
                                        assert(mid[nidx as int].material == m0);
                                        assert(neighbor_pos_spec(w, h, *pos, dir) == Some(npos));
                                        assert(moves_to(m0, w, h, *pos, npos));
                                        let q = choose|q: Position|
                                            q.x < old(self).universe.width && q.y < old(
                                                self,
                                            ).universe.height && reachable(
                                                m0,
                                                w,
                                                h,
                                                npos,
                                                q,
                                                (steps_remaining - 1) as int,
                                            ) && self_outcome(
                                                m0,
                                                self.universe.area@[index_spec(w, q)].material,
                                            );
                                        assert(reachable(m0, w, h, npos, q, (steps_remaining - 1) as int));
                                        assert(steps_remaining as int > 0);
                                        assert(reachable(m0, w, h, *pos, q, steps_remaining as int));
                                        if all_swappable(old(self).universe.area@) {
                                            assert(same_material_counts(
                                                old(self).universe.area@,
                                                mid,
                                            ));
                                            assert(all_swappable(mid));
                                            assert(all_swappable(after_a));
                                            assert(all_swappable(self.universe.area@));
                                            assert(same_material_counts(
                                                old(self).universe.area@,
                                                self.universe.area@,
                                            ));
                                        }
                                        if lone_pre {
                                            assert(npos.x == pos.x && npos.y == pos.y + 1);
                                            assert(lone_sand(mid, w, h, npos));
                                            assert(only_locked(locked_mid, nidx as int));
                                            assert(lone_sand(after_a, w, h, npos));
                                            assert(after_a[nidx as int] == a0);
                                            assert(lone_sand_falls(
                                                self.universe.area@,
                                                w,
                                                h,
                                                npos,
                                                steps_remaining as int - 1,
                                                a0.velocity as int,
                                            ));
                                            assert(drop_distance(h, npos) == drop_distance(h, *pos)
                                                - 1);
                                            assert(fallen_to(h, *pos, steps_remaining as int)
                                                == fallen_to(h, npos, steps_remaining as int - 1));
                                            assert(lone_sand_falls(
                                                self.universe.area@,
                                                w,
                                                h,
                                                *pos,
                                                steps_remaining as int,
                                                a0.velocity as int,
                                            ));
                                        }
                                    }
                                },
                                StepAction::SwappedStop => {
                                    locked.set(idx, false);
                                    let ghost mid = self.universe.area@;
                                    let ghost locked_mid = locked@;
                                    proof {
                                        lemma_count_free_update(
                                            old(locked)@.update(nidx as int, true),
                                            idx as int,
                                            false,
                                        );
                                        lemma_count_free_bounds(locked@);
                                    }
                                    self.handle_collision(pos, locked, failed_locks);
                                    locked.set(nidx, false);
                                    proof {
                                        assert(locked@ =~= old(locked)@.update(idx as int, false));
                                        assert forall|i: int|
                                            0 <= i < old(locked)@.len() && i != idx as int
                                                && old(locked)@[i]
                                                implies self.universe.area@[i]
                                                == old(self).universe.area@[i] by {
                                            assert(i != nidx as int);
                                            assert(mid[i] == old(self).universe.area@[i]);
                                            assert(locked_mid[i]);
                                            assert(self.universe.area@[i] == mid[i]);
                                        }
                                        assert((nidx as int) < locked_mid.len());
                                        assert(locked_mid.len() == old(locked)@.len());
                                        assert(locked_mid[nidx as int]);
                                        assert(self.universe.area@[nidx as int] == mid[nidx as int]);
                                        if no_fire(old(self).universe.area@) {
                                            assert(no_fire(mid));
                                            assert(no_fire(self.universe.area@));
                                            assert(wood_kept(old(self).universe.area@, self.universe.area@));
                                            assert(self.universe.area@[idx as int].handled);
                                            assert forall|i: int|
                                                0 <= i < old(self).universe.area@.len() && i != idx as int
                                                    && !old(locked)@[i]
                                                    && old(self).universe.area@[i].handled
                                                    implies self.universe.area@[i].handled by {
                                                if i == nidx as int {
                                                    assert(mid[nidx as int].handled);
                                                } else {
                                                    assert(mid[i] == old(self).universe.area@[i]);
                                                    assert(!locked_mid[i]);
                                                    assert(self.universe.area@[i].handled);
                                                }
                                            }
                                            assert(handled_kept(old(self).universe.area@, self.universe.area@, old(locked)@, idx as int));
                                        }
                                        assert(mid[nidx as int].material == m0);
                                        assert(neighbor_pos_spec(w, h, *pos, dir) == Some(npos));
                                        assert(moves_to(m0, w, h, *pos, npos));
                                        assert(steps_remaining as int > 0);
                                        assert(reachable(m0, w, h, npos, npos, steps_remaining as int - 1));
                                        assert(reachable(m0, w, h, *pos, npos, steps_remaining as int));
                                        assert(self_outcome(m0, self.universe.area@[nidx as int].material));
                                        if all_swappable(old(self).universe.area@) {
                                            assert(same_material_counts(
                                                old(self).universe.area@,
                                                mid,
                                            ));
                                            assert(all_swappable(mid));
                                            assert(all_swappable(self.universe.area@));
                                            assert(same_material_counts(
                                                old(self).universe.area@,
                                                self.universe.area@,
                                            ));
                                        }
                                        if lone_pre {
                                            assert(false);
                                        }
                                    }
                                },
                                StepAction::Halt => {
                                    locked.set(nidx, false);
                                    let c = self.universe.area[idx];
                                    self.universe.area.set(
                                        idx,
                                        CellContent {
                                            material: c.material,
                                            velocity: 0,
                                            handled: true,
                                        },
                                    );
                                    locked.set(idx, false);
                                    proof {
                                        assert(locked@ =~= old(locked)@.update(idx as int, false));
                                        assert(c == a);
                                        assert(self_outcome(m0, self.universe.area@[idx as int].material));
                                        assert(reachable(m0, w, h, *pos, *pos, steps_remaining as int));
                                        if all_swappable(old(self).universe.area@) {
                                            assert(false);
                                        }
                                        if lone_pre {
                                            assert(false);
                                        }
                                    }
                                },
                            }
                        }
                    },
                }
            },
        }
    }
}


impl Simulation {
    pub fn new(width: usize, height: usize) -> (r: Self)
        requires
            width * height <= usize::MAX,
        ensures
            r.universe.wf(),
            r.universe.width == width,
            r.universe.height == height,
            forall|i: int|
                0 <= i < r.universe.area@.len() ==> r.universe.area@[i] == (CellContent {
                    material: Material::Air,
                    velocity: 0 as i16,
                    handled: false,
                }),
    {
        Self { universe: Universe::new(width, height) }
    }

    /// Overwrites the first slots of the grid, one per given material, with
    /// fresh unhandled particles at rest.
    pub fn fill(&mut self, materials: &Vec<Material>)
        requires
            old(self).universe.wf(),
            materials@.len() <= old(self).universe.area@.len(),
        ensures
            Self::frame(*old(self), *final(self)),
            final(self).universe.wf(),
            forall|i: int|
                0 <= i < materials@.len() ==> final(self).universe.area@[i] == (CellContent {
                    material: materials@[i],
                    velocity: 0 as i16,
                    handled: false,
                }),
            forall|i: int|
                materials@.len() <= i < final(self).universe.area@.len() ==> final(self).universe.area@[i] == old(self).universe.area@[i],
    {
        let n = materials.len();
        let mut i: usize = 0;
        while i < n
            invariant
                n == materials@.len(),
                n <= self.universe.area@.len(),
                i <= n,
                self.universe.width == old(self).universe.width,
                self.universe.height == old(self).universe.height,
                self.universe.area@.len() == old(self).universe.area@.len(),
                forall|j: int|
                    0 <= j < i ==> self.universe.area@[j] == (CellContent {
                        material: materials@[j],
                        velocity: 0 as i16,
                        handled: false,
                    }),
                forall|j: int|
                    i <= j < self.universe.area@.len() ==> self.universe.area@[j] == old(self).universe.area@[j],
            decreases n - i,
        {
            self.universe.area.set(i, CellContent::new(materials[i], false, 0));
            i = i + 1;
        }
    }

    /// Sets every cell of the grid to unhandled, leaving material and
    /// velocity alone: the pre-tick reset sweep.
    pub fn set_all_unhandled(&mut self)
        ensures
            Self::frame(*old(self), *final(self)),
            forall|i: int|
                0 <= i < final(self).universe.area@.len() ==> final(self).universe.area@[i]
                    == (CellContent {
                    material: old(self).universe.area@[i].material,
                    velocity: old(self).universe.area@[i].velocity,
                    handled: false,
                }),
    {
        let n = self.universe.area.len();
        let mut i: usize = 0;
        while i < n
            invariant
                n == self.universe.area@.len(),
                i <= n,
                self.universe.width == old(self).universe.width,
                self.universe.height == old(self).universe.height,
                self.universe.area@.len() == old(self).universe.area@.len(),
                forall|j: int|
                    0 <= j < i ==> self.universe.area@[j] == (CellContent {
                        material: old(self).universe.area@[j].material,
                        velocity: old(self).universe.area@[j].velocity,
                        handled: false,
                    }),
                forall|j: int|
                    i <= j < self.universe.area@.len() ==> self.universe.area@[j] == old(self).universe.area@[j],
            decreases n - i,
        {
            let c = self.universe.area[i];
            self.universe.area.set(
                i,
                CellContent { material: c.material, velocity: c.velocity, handled: false },
            );
            i = i + 1;
        }
    }

    /// One stepping sweep over the whole grid in reverse index order, with
    /// per-slot exclusion emulated by a lock mask; returns the number of
    /// neighbour acquisitions that failed.
    #[verifier::rlimit(100)]
    fn simulate(&mut self) -> (failed: usize)
        requires
            old(self).universe.wf(),
            all_nonneg(old(self).universe.area@),
        ensures
            Self::frame(*old(self), *final(self)),
            final(self).universe.wf(),
            all_nonneg(final(self).universe.area@),
            generators_kept(old(self).universe.area@, final(self).universe.area@),
            wood_not_created(old(self).universe.area@, final(self).universe.area@),
            all_swappable(old(self).universe.area@) ==> all_swappable(final(self).universe.area@)
                && same_material_counts(old(self).universe.area@, final(self).universe.area@),
            no_fire(old(self).universe.area@) ==> no_fire(final(self).universe.area@) && wood_kept(
                old(self).universe.area@,
                final(self).universe.area@,
            ) && (forall|i: int|
                0 <= i < final(self).universe.area@.len() ==> final(self).universe.area@[i].handled),
            (all_inert(old(self).universe.area@) && (forall|i: int|
                0 <= i < old(self).universe.area@.len() ==> !old(self).universe.area@[i].handled)) ==> (forall|i: int|
                0 <= i < final(self).universe.area@.len() ==> final(self).universe.area@[i]
                    == stopped_cell(old(self).universe.area@[i].material)),
            lone_progress(
                old(self).universe.area@,
                final(self).universe.area@,
                old(self).universe.width as int,
                old(self).universe.height as int,
                0,
            ),
    {
        let n = self.universe.area.len();
        let mut locked: Vec<bool> = Vec::new();
        let mut k: usize = 0;
        while k < n
            invariant
                k <= n,
                locked@.len() == k,
                forall|j: int| 0 <= j < k ==> !locked@[j],
            decreases n - k,
        {
            locked.push(false);
            k = k + 1;
        }
        let mut failed: usize = 0;
        let mut i: usize = n;
        proof {
            let w0 = old(self).universe.width as int;
            let h0 = old(self).universe.height as int;
            assert forall|p: Position|
                p.x < old(self).universe.width && p.y < old(self).universe.height implies index_spec(
                w0,
                p,
            ) < n as int by {
                assert(p.y * w0 + p.x < w0 * h0) by (nonlinear_arith)
                    requires
                        p.y < h0,
                        p.x < w0,
                        w0 >= 0;
            }
        }
        while i > 0
            invariant
                i <= n,
                n == old(self).universe.area@.len(),
                self.universe.wf(),
                self.universe.width == old(self).universe.width,
                self.universe.height == old(self).universe.height,
                self.universe.area@.len() == n,
                locked@.len() == n,
                forall|j: int| 0 <= j < n ==> !locked@[j],
                all_nonneg(self.universe.area@),
                all_nonneg(old(self).universe.area@),
                generators_kept(old(self).universe.area@, self.universe.area@),
                wood_not_created(old(self).universe.area@, self.universe.area@),
                all_swappable(old(self).universe.area@) ==> all_swappable(self.universe.area@)
                    && same_material_counts(old(self).universe.area@, self.universe.area@),
                no_fire(old(self).universe.area@) ==> no_fire(self.universe.area@) && wood_kept(
                    old(self).universe.area@,
                    self.universe.area@,
                ) && (forall|j: int| i <= j < n ==> self.universe.area@[j].handled),
                (all_inert(old(self).universe.area@) && (forall|j: int|
                    0 <= j < n ==> !old(self).universe.area@[j].handled)) ==> ((forall|j: int|
                    i <= j < n ==> self.universe.area@[j] == stopped_cell(
                        old(self).universe.area@[j].material,
                    )) && (forall|j: int|
                    0 <= j < i ==> self.universe.area@[j] == old(self).universe.area@[j])),
                lone_progress(
                    old(self).universe.area@,
                    self.universe.area@,
                    old(self).universe.width as int,
                    old(self).universe.height as int,
                    i as int,
                ),
            decreases i,
        {
            i = i - 1;
            let ghost pre = self.universe.area@;
            let pos = self.universe.i_to_pos(i);
            self.handle_collision(&pos, &mut locked, &mut failed);
            proof {
                if no_fire(old(self).universe.area@) {
                    assert(no_fire(pre));
                    assert(index_spec(self.universe.width as int, pos) == i as int);
                    assert(self.universe.area@[i as int].handled);
                    assert forall|j: int| i <= j < n implies self.universe.area@[j].handled by {
                        if j == i as int {
                            assert(self.universe.area@[i as int].handled);
                        } else {
                            assert(pre[j].handled);
                            assert(!locked@[j]);
                            assert(self.universe.area@[j].handled);
                        }
                    }
                }
                if all_inert(old(self).universe.area@) && (forall|j: int|
                    0 <= j < n ==> !old(self).universe.area@[j].handled) {
                    assert(all_inert(pre) && directions_spec(pre[i as int].material).len() == 0);
                    if !pre[i as int].handled {
                        assert(self.universe.area@ =~= pre.update(
                            i as int,
                            stopped_cell(pre[i as int].material),
                        ));
                    }
                }
                let w = old(self).universe.width as int;
                let h = old(self).universe.height as int;
                assert forall|p: Position|
                    (lone_sand(old(self).universe.area@, w, h, p) && !old(
                        self,
                    ).universe.area@[index_spec(w, p)].handled && old(
                        self,
                    ).universe.area@[index_spec(w, p)].velocity < i16::MAX) implies ((i as int
                        > index_spec(w, p) ==> lone_sand(self.universe.area@, w, h, p)
                        && self.universe.area@[index_spec(w, p)] == old(
                        self,
                    ).universe.area@[index_spec(w, p)]) && (i as int <= index_spec(w, p)
                        ==> lone_sand_falls(
                        self.universe.area@,
                        w,
                        h,
                        p,
                        old(self).universe.area@[index_spec(w, p)].velocity + 1,
                        old(self).universe.area@[index_spec(w, p)].velocity + 1,
                    ))) by {
                    let k = index_spec(w, p);
                    assert(p.y * w + p.x < w * h) by (nonlinear_arith)
                        requires p.y < h, p.x < w, w >= 0;
                    assert(k < n as int);
                    if i as int > k {
                        // The swept cell lies after the grain: it is Air and
                        // either already handled (left alone) or settled in
                        // place.
                        assert(lone_sand(pre, w, h, p));
                        assert(pre[i as int].material == Material::Air);
                        assert(directions_spec(Material::Air).len() == 0);
                        assert(lone_sand(self.universe.area@, w, h, p));
                        assert(self.universe.area@[k] == pre[k]);
                    } else if i as int == k {
                        // The sweep reached the grain itself: the handled
                        // position is exactly `p`.
                        vstd::arithmetic::div_mod::lemma_fundamental_div_mod_converse_div(
                            i as int,
                            w,
                            p.y as int,
                            p.x as int,
                        );
                        vstd::arithmetic::div_mod::lemma_fundamental_div_mod_converse_mod(
                            i as int,
                            w,
                            p.y as int,
                            p.x as int,
                        );
                        assert(pos == p);
                        assert(lone_sand(pre, w, h, p));
                        assert(pre[k] == old(self).universe.area@[k]);
                        assert(lone_sand_falls(
                            self.universe.area@,
                            w,
                            h,
                            p,
                            pre[k].velocity + 1,
                            pre[k].velocity + 1,
                        ));
                    } else {
                        // The grain has already fallen; the swept cell is Air
                        // and lies strictly before the grain's resting cell.
                        let v1p = old(self).universe.area@[k].velocity + 1;
                        assert(lone_sand_falls(pre, w, h, p, v1p, v1p));
                        let q = fallen_to(h, p, v1p);
                        vstd::arithmetic::mul::lemma_mul_inequality(p.y as int, q.y as int, w);
                        assert(index_spec(w, q) >= k);
                        assert(pre[i as int].material == Material::Air);
                        assert(directions_spec(Material::Air).len() == 0);
                        if pre[i as int].handled {
                            assert(self.universe.area@ == pre);
                        } else {
                            assert(self.universe.area@ == pre.update(
                                i as int,
                                stopped_cell(Material::Air),
                            ));
                        }
                        assert(q.y * w + q.x < w * h) by (nonlinear_arith)
                            requires q.y < h, q.x < w, w >= 0;
                        assert(index_spec(w, q) < n as int);
                        assert(self.universe.area@[index_spec(w, q)] == pre[index_spec(w, q)]);
                        assert(lone_sand(self.universe.area@, w, h, q));
                        assert(lone_sand_falls(self.universe.area@, w, h, p, v1p, v1p));
                    }
                }
                assert(lone_progress(
                    old(self).universe.area@,
                    self.universe.area@,
                    w,
                    h,
                    i as int,
                ));
            }
        }
        failed
    }

    /// Advances the simulation by one tick: the reset sweep followed by the
    /// stepping sweep.
    pub fn tick(&mut self)
        requires
            old(self).universe.wf(),
            all_nonneg(old(self).universe.area@),
        ensures
            Self::frame(*old(self), *final(self)),
            final(self).universe.wf(),
            all_nonneg(final(self).universe.area@),
            generators_kept(old(self).universe.area@, final(self).universe.area@),
            wood_not_created(old(self).universe.area@, final(self).universe.area@),
            all_swappable(old(self).universe.area@) ==> all_swappable(final(self).universe.area@)
                && same_material_counts(old(self).universe.area@, final(self).universe.area@),
            count_material(final(self).universe.area@, Material::Wood) <= count_material(
                old(self).universe.area@,
                Material::Wood,
            ),
            no_fire(old(self).universe.area@) ==> no_fire(final(self).universe.area@) && wood_kept(
                old(self).universe.area@,
                final(self).universe.area@,
            ) && (forall|i: int|
                0 <= i < final(self).universe.area@.len() ==> final(self).universe.area@[i].handled)
                && count_material(final(self).universe.area@, Material::Wood) == count_material(
                old(self).universe.area@,
                Material::Wood,
            ),
            all_inert(old(self).universe.area@) ==> (forall|i: int|
                0 <= i < final(self).universe.area@.len() ==> final(self).universe.area@[i]
                    == stopped_cell(old(self).universe.area@[i].material)),
            lone_sand_outcome(
                old(self).universe.area@,
                final(self).universe.area@,
                old(self).universe.width as int,
                old(self).universe.height as int,
            ),
    {
        self.set_all_unhandled();
        let ghost mid = self.universe.area@;
        let _failed = self.simulate();
        proof {
            let w = old(self).universe.width as int;
            let h = old(self).universe.height as int;
            assert forall|p: Position|
                (lone_sand(old(self).universe.area@, w, h, p) && old(
                    self,
                ).universe.area@[index_spec(w, p)].velocity < i16::MAX) implies lone_sand_falls(
                self.universe.area@,
                w,
                h,
                p,
                old(self).universe.area@[index_spec(w, p)].velocity + 1,
                old(self).universe.area@[index_spec(w, p)].velocity + 1,
            ) by {
                let k = index_spec(w, p);
                assert(p.y * w + p.x < w * h) by (nonlinear_arith)
                    requires p.y < h, p.x < w, w >= 0;
                assert(0 <= k < mid.len());
                assert(lone_sand(mid, w, h, p));
                assert(!mid[k].handled);
                assert(mid[k].velocity == old(self).universe.area@[k].velocity);
                assert(lone_sand_falls(
                    self.universe.area@,
                    w,
                    h,
                    p,
                    mid[k].velocity + 1,
                    mid[k].velocity + 1,
                ));
            }
            assert(lone_sand_outcome(old(self).universe.area@, self.universe.area@, w, h));
            if all_swappable(old(self).universe.area@) {
                assert(all_swappable(mid));
                assert forall|m: Material|
                    count_material(old(self).universe.area@, m) == count_material(mid, m) by {
                    lemma_count_material_same_positions(old(self).universe.area@, mid, m);
                }
                assert(same_material_counts(old(self).universe.area@, self.universe.area@));
            }
            lemma_count_material_mono(
                old(self).universe.area@,
                self.universe.area@,
                Material::Wood,
            );
            if no_fire(old(self).universe.area@) {
                lemma_count_material_same_positions(
                    old(self).universe.area@,
                    self.universe.area@,
                    Material::Wood,
                );
            }
        }
    }
}

/// The contiguous index range `[start, end)` that worker `i` of
/// `num_threads` sweeps. The last shard deliberately stops at `len - 1`,
/// leaving the final index out of every sweep.
pub fn shard_range(len: usize, num_threads: usize, i: usize) -> (r: (usize, usize))
    requires
        len >= 1,
        num_threads >= 1,
        i < num_threads,
    ensures
        r.0 == (len / num_threads) * i,
        i < num_threads - 1 ==> r.1 == (len / num_threads) * (i + 1),
        i == num_threads - 1 ==> r.1 == len - 1,
        r.1 <= len,
{
    let slice: usize = len / num_threads;
    proof {
        vstd::arithmetic::div_mod::lemma_fundamental_div_mod(len as int, num_threads as int);
        vstd::arithmetic::mul::lemma_mul_inequality(
            i as int + 1,
            num_threads as int,
            slice as int,
        );
        assert((i as int + 1) * slice <= num_threads * slice) by (nonlinear_arith)
            requires (i as int + 1) <= num_threads as int, slice >= 0;
        assert(num_threads * slice <= len) by (nonlinear_arith)
            requires
                len as int == num_threads as int * (len as int / num_threads as int) + len as int
                    % num_threads as int,
                slice == len as int / num_threads as int,
                len as int % num_threads as int >= 0;
        assert(slice * (i as int + 1) <= len) by (nonlinear_arith)
            requires (i as int + 1) * slice <= len;
        assert(slice * i as int <= slice * (i as int + 1)) by (nonlinear_arith)
            requires slice >= 0;
    }
    let start = slice * i;
    let end = if i == num_threads - 1 {
        len - 1
    } else {
        slice * (i + 1)
    };
    (start, end)
}

} // verus!
