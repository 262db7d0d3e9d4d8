use vstd::prelude::*;
use crate::direction::Direction;
use crate::direction::ExtDirection;
use crate::utils::{rand_select, rand_select3};

verus! {

/// The closed set of materials a cell can hold.
#[derive(Clone, Copy, PartialEq, Eq, Debug, Structural)]
pub enum Material {
    Sand,
    SandGenerator,
    Water,
    WaterGenerator,
    Air,
    Fire,
    Smoke,
    Vapor,
    Wood,
}

/// The outcome a material asks for after looking at one neighbour.
#[derive(Clone, Copy, PartialEq, Eq, Debug, Structural)]
pub enum CollisionDesire {
    /// Leave both cells as they are.
    Evade,
    /// Exchange the two cells, then keep stepping from the vacated side.
    SwapAndMove,
    /// Exchange the two cells and halt the moving particle.
    SwapAndStop,
    /// The neighbour's material becomes the given one; self is unchanged.
    Convert(Material),
    /// Self overwrites the neighbour with a copy of itself and becomes the
    /// given material.
    Consume(Material),
    /// Self becomes the given material; the neighbour is unchanged.
    GetConverted(Material),
    /// Both cells are overwritten: first the new self, then the new neighbour.
    Eradicate(Material, Material),
}

/// True when `d` points downward in any way.
pub open spec fn downward(d: Direction) -> bool {
    d == Direction::Down || d == Direction::LeftDown || d == Direction::RightDown
}

/// The preferred-direction list of each material, in the order the stepper
/// tries them.
pub open spec fn directions_spec(m: Material) -> Seq<ExtDirection> {
    match m {
        Material::Sand => seq![
            ExtDirection::One(Direction::Down),
            ExtDirection::Random(Direction::RightDown, Direction::LeftDown),
        ],
        Material::SandGenerator => seq![ExtDirection::One(Direction::Down)],
        Material::Water => seq![
            ExtDirection::One(Direction::Down),
            ExtDirection::Random(Direction::RightDown, Direction::LeftDown),
            ExtDirection::Random(Direction::Right, Direction::Left),
        ],
        Material::WaterGenerator => seq![ExtDirection::One(Direction::Down)],
        Material::Air => seq![],
        Material::Fire => seq![
            ExtDirection::One(Direction::Down),
            ExtDirection::Random(Direction::RightDown, Direction::LeftDown),
            ExtDirection::Random(Direction::Right, Direction::Left),
            ExtDirection::One(Direction::Up),
            ExtDirection::Random(Direction::RightUp, Direction::LeftUp),
        ],
        Material::Smoke => seq![
            ExtDirection::One(Direction::Up),
            ExtDirection::Random(Direction::RightUp, Direction::LeftUp),
            ExtDirection::Random(Direction::Right, Direction::Left),
        ],
        Material::Vapor => seq![
            ExtDirection::One(Direction::Up),
            ExtDirection::Random(Direction::RightUp, Direction::LeftUp),
            ExtDirection::Random(Direction::Right, Direction::Left),
        ],
        Material::Wood => seq![],
    }
}

/// Exactly the collision outcomes the rule table allows for `a` meeting `b`
/// in direction `d`. Deterministic entries admit a single desire; randomised
/// entries admit each of their alternatives.
pub open spec fn collide_spec(a: Material, b: Material, d: Direction, r: CollisionDesire) -> bool {
    match a {
        Material::Sand => match b {
            Material::Water => r == CollisionDesire::SwapAndStop || r == CollisionDesire::Evade,
            Material::Air => r == CollisionDesire::SwapAndMove,
            _ => r == CollisionDesire::Evade,
        },
        Material::SandGenerator => match b {
            Material::Air => r == CollisionDesire::Convert(Material::Sand) || r
                == CollisionDesire::Evade,
            _ => r == CollisionDesire::Evade,
        },
        Material::Water => match b {
            Material::Air => r == CollisionDesire::SwapAndMove || r == CollisionDesire::Evade,
            Material::Vapor | Material::Smoke => r == CollisionDesire::SwapAndMove || r
                == CollisionDesire::Evade,
            Material::Fire => r == CollisionDesire::Eradicate(Material::Vapor, Material::Smoke),
            _ => r == CollisionDesire::Evade,
        },
        Material::WaterGenerator => match b {
            Material::Air => r == CollisionDesire::Convert(Material::Water) || r
                == CollisionDesire::Evade,
            _ => r == CollisionDesire::Evade,
        },
        Material::Air => r == CollisionDesire::Evade,
        Material::Fire => match b {
            Material::Air | Material::Smoke | Material::Vapor => if downward(d) {
                r == CollisionDesire::SwapAndStop || r == CollisionDesire::Evade
            } else {
                r == CollisionDesire::Evade
            },
            Material::Water => r == CollisionDesire::Consume(Material::Vapor) || r
                == CollisionDesire::Eradicate(Material::Smoke, Material::Vapor),
            Material::Wood => r == CollisionDesire::Consume(Material::Smoke) || r
                == CollisionDesire::Consume(Material::Fire) || r == CollisionDesire::Evade,
            _ => r == CollisionDesire::Evade,
        },
        Material::Smoke => match b {
            Material::Air => r == CollisionDesire::SwapAndStop || r == CollisionDesire::Evade,
            Material::Vapor => r == CollisionDesire::SwapAndStop || r
                == CollisionDesire::Eradicate(Material::Water, Material::Air),
            _ => r == CollisionDesire::Evade,
        },
        Material::Vapor => match b {
            Material::Air => r == CollisionDesire::SwapAndStop || r == CollisionDesire::Evade,
            Material::Smoke => r == CollisionDesire::SwapAndStop || r
                == CollisionDesire::Eradicate(Material::Air, Material::Water),
            _ => r == CollisionDesire::Evade,
        },
        Material::Wood => r == CollisionDesire::Evade,
    }
}

impl Material {
    /// Returns the desired [Direction]s for neighbours to collide with.
    pub fn directions(&self) -> (r: Vec<ExtDirection>)
        ensures
            r@ == directions_spec(*self),
    {
        let r: Vec<ExtDirection> = match self {
            Material::Sand => vec![
                ExtDirection::One(Direction::Down),
                ExtDirection::Random(Direction::RightDown, Direction::LeftDown),
            ],
            Material::SandGenerator => vec![ExtDirection::One(Direction::Down)],
            Material::Water => vec![
                ExtDirection::One(Direction::Down),
                ExtDirection::Random(Direction::RightDown, Direction::LeftDown),
                ExtDirection::Random(Direction::Right, Direction::Left),
            ],
            Material::WaterGenerator => vec![ExtDirection::One(Direction::Down)],
            Material::Air => vec![],
            Material::Fire => vec![
                ExtDirection::One(Direction::Down),
                ExtDirection::Random(Direction::RightDown, Direction::LeftDown),
                ExtDirection::Random(Direction::Right, Direction::Left),
                ExtDirection::One(Direction::Up),
                ExtDirection::Random(Direction::RightUp, Direction::LeftUp),
            ],
            Material::Smoke => vec![
                ExtDirection::One(Direction::Up),
                ExtDirection::Random(Direction::RightUp, Direction::LeftUp),
                ExtDirection::Random(Direction::Right, Direction::Left),
            ],
            Material::Vapor => vec![
                ExtDirection::One(Direction::Up),
                ExtDirection::Random(Direction::RightUp, Direction::LeftUp),
                ExtDirection::Random(Direction::Right, Direction::Left),
            ],
            Material::Wood => vec![],
        };
        proof {
            assert(r@ =~= directions_spec(*self));
        }
        r
    }

    /// Returns the [CollisionDesire] for a collision with another [Material].
    pub fn collide(&self, other: &Self, dir: &Direction) -> (r: CollisionDesire)
        ensures
            collide_spec(*self, *other, *dir, r),
    {
        match self {
            Material::Sand => Self::collide_sand(other),
            Material::SandGenerator => Self::collide_sand_generator(other),
            Material::Water => Self::collide_water(other),
            Material::WaterGenerator => Self::collide_water_generator(other),
            Material::Air => Self::collide_air(other),
            Material::Fire => Self::collide_fire(other, dir),
            Material::Smoke => Self::collide_smoke(other),
            Material::Vapor => Self::collide_vapor(other),
            Material::Wood => Self::collide_wood(other),
        }
    }

    fn collide_sand(other: &Self) -> (r: CollisionDesire)
        ensures
            forall|d: Direction| collide_spec(Material::Sand, *other, d, r),
    {
        match other {
            Material::Water => rand_select(CollisionDesire::SwapAndStop, CollisionDesire::Evade),
            Material::Air => CollisionDesire::SwapAndMove,
            _ => CollisionDesire::Evade,
        }
    }

    fn collide_sand_generator(other: &Self) -> (r: CollisionDesire)
        ensures
            forall|d: Direction| collide_spec(Material::SandGenerator, *other, d, r),
    {
        match other {
            Material::Air => rand_select(
                CollisionDesire::Convert(Material::Sand),
                CollisionDesire::Evade,
            ),
            _ => CollisionDesire::Evade,
        }
    }

    fn collide_water(other: &Self) -> (r: CollisionDesire)
        ensures
            forall|d: Direction| collide_spec(Material::Water, *other, d, r),
    {
        match other {
            Material::Air => rand_select(CollisionDesire::SwapAndMove, CollisionDesire::Evade),
            Material::Vapor | Material::Smoke => rand_select(
                CollisionDesire::SwapAndMove,
                CollisionDesire::Evade,
            ),
            Material::Fire => CollisionDesire::Eradicate(Material::Vapor, Material::Smoke),
            _ => CollisionDesire::Evade,
        }
    }

    fn collide_water_generator(other: &Self) -> (r: CollisionDesire)
        ensures
            forall|d: Direction| collide_spec(Material::WaterGenerator, *other, d, r),
    {
        match other {
            Material::Air => rand_select(
                CollisionDesire::Convert(Material::Water),
                CollisionDesire::Evade,
            ),
            _ => CollisionDesire::Evade,
        }
    }

    // Air does not collide with anything on its own, at least not until gusts
    // of wind or similar features exist.
    fn collide_air(other: &Self) -> (r: CollisionDesire)
        ensures
            forall|d: Direction| collide_spec(Material::Air, *other, d, r),
    {
        CollisionDesire::Evade
    }

    fn collide_fire(other: &Self, dir: &Direction) -> (r: CollisionDesire)
        ensures
            collide_spec(Material::Fire, *other, *dir, r),
    {
        match other {
            Material::Air | Material::Smoke | Material::Vapor => match dir {
                Direction::Down | Direction::LeftDown | Direction::RightDown => rand_select(
                    CollisionDesire::SwapAndStop,
                    CollisionDesire::Evade,
                ),
                _ => CollisionDesire::Evade,
            },
            Material::Water => rand_select(
                CollisionDesire::Consume(Material::Vapor),
                CollisionDesire::Eradicate(Material::Smoke, Material::Vapor),
            ),
            Material::Wood => rand_select3(
                CollisionDesire::Consume(Material::Smoke),
                CollisionDesire::Consume(Material::Fire),
                CollisionDesire::Evade,
            ),
            _ => CollisionDesire::Evade,
        }
    }

    fn collide_smoke(other: &Self) -> (r: CollisionDesire)
        ensures
            forall|d: Direction| collide_spec(Material::Smoke, *other, d, r),
    {
        match other {
            Material::Air => rand_select(CollisionDesire::SwapAndStop, CollisionDesire::Evade),
            Material::Vapor => rand_select(
                CollisionDesire::SwapAndStop,
                CollisionDesire::Eradicate(Material::Water, Material::Air),
            ),
            _ => CollisionDesire::Evade,
        }
    }

    fn collide_vapor(other: &Self) -> (r: CollisionDesire)
        ensures
            forall|d: Direction| collide_spec(Material::Vapor, *other, d, r),
    {
        match other {
            Material::Air => rand_select(CollisionDesire::SwapAndStop, CollisionDesire::Evade),
            Material::Smoke => rand_select(
                CollisionDesire::SwapAndStop,
                CollisionDesire::Eradicate(Material::Air, Material::Water),
            ),
            _ => CollisionDesire::Evade,
        }
    }

    fn collide_wood(other: &Self) -> (r: CollisionDesire)
        ensures
            forall|d: Direction| collide_spec(Material::Wood, *other, d, r),
    {
        CollisionDesire::Evade
    }
}

/// Fire that meets Wood either consumes it, leaving Smoke or Fire behind,
/// or evades; in particular it never turns anything into Water or Vapor.
pub proof fn lemma_fire_on_wood(d: Direction, r: CollisionDesire)
    requires
        collide_spec(Material::Fire, Material::Wood, d, r),
    ensures
        r == CollisionDesire::Consume(Material::Smoke) || r == CollisionDesire::Consume(
            Material::Fire,
        ) || r == CollisionDesire::Evade,
{
}

} // verus!
