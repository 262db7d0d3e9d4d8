use sandspiel::cell_content::CellContent;
use sandspiel::direction::{Direction, ExtDirIterator, ExtDirection};
use sandspiel::material::{CollisionDesire, Material};
use sandspiel::render::{cell_to_color, content_to_char, get_as_string, material_from_byte, material_to_byte};
use sandspiel::sand_sim::{resolve_collision, shard_range, StepAction};
use sandspiel::universe::{neighbor_position, Position, Universe};
use sandspiel::utils::{rand_select, rand_select3};

const ALL_MATERIALS: [Material; 9] = [
    Material::Sand,
    Material::SandGenerator,
    Material::Water,
    Material::WaterGenerator,
    Material::Air,
    Material::Fire,
    Material::Smoke,
    Material::Vapor,
    Material::Wood,
];

#[test]
fn left_edge_has_no_left_neighbors() {
    let uni = Universe::new(3, 3);
    for dir in [Direction::Left, Direction::LeftUp, Direction::LeftDown] {
        assert!(uni.get_neighbor(&Position::new(0, 1), &dir).is_none());
        assert!(neighbor_position(3, 3, &Position::new(0, 1), &dir).is_none());
    }
    assert!(uni.get_neighbor(&Position::new(1, 1), &Direction::Left).is_some());
}

#[test]
fn edges_have_no_outside_neighbors() {
    let uni = Universe::new(3, 3);
    assert!(uni.get_neighbor(&Position::new(1, 0), &Direction::Up).is_none());
    assert!(uni.get_neighbor(&Position::new(1, 2), &Direction::Down).is_none());
    assert!(uni.get_neighbor(&Position::new(2, 1), &Direction::Right).is_none());
    assert!(uni.get_neighbor(&Position::new(2, 2), &Direction::RightDown).is_none());
    let (pos, _) = uni.get_neighbor(&Position::new(1, 1), &Direction::RightDown).unwrap();
    assert_eq!(pos, Position::new(2, 2));
}

#[test]
fn fire_on_wood_never_makes_water_or_vapor() {
    for _ in 0..200 {
        let desire = Material::Fire.collide(&Material::Wood, &Direction::Down);
        assert!(matches!(
            desire,
            CollisionDesire::Consume(Material::Smoke)
                | CollisionDesire::Consume(Material::Fire)
                | CollisionDesire::Evade
        ));
    }
}

#[test]
fn sand_on_air_always_swaps_and_moves() {
    for dir in [Direction::Down, Direction::RightDown, Direction::LeftDown] {
        let desire = Material::Sand.collide(&Material::Air, &dir);
        assert!(matches!(desire, CollisionDesire::SwapAndMove));
    }
}

#[test]
fn water_on_fire_always_eradicates() {
    let desire = Material::Water.collide(&Material::Fire, &Direction::Down);
    assert!(matches!(
        desire,
        CollisionDesire::Eradicate(Material::Vapor, Material::Smoke)
    ));
}

#[test]
fn fire_only_sinks_downward_through_air() {
    for _ in 0..100 {
        let up = Material::Fire.collide(&Material::Air, &Direction::Up);
        assert!(matches!(up, CollisionDesire::Evade));
        let right = Material::Fire.collide(&Material::Air, &Direction::Right);
        assert!(matches!(right, CollisionDesire::Evade));
        let down = Material::Fire.collide(&Material::Air, &Direction::Down);
        assert!(matches!(
            down,
            CollisionDesire::SwapAndStop | CollisionDesire::Evade
        ));
    }
}

#[test]
fn wood_and_air_never_act() {
    for other in ALL_MATERIALS {
        for dir in [Direction::Up, Direction::Down, Direction::Left] {
            assert!(matches!(
                Material::Wood.collide(&other, &dir),
                CollisionDesire::Evade
            ));
            assert!(matches!(
                Material::Air.collide(&other, &dir),
                CollisionDesire::Evade
            ));
        }
        assert!(Material::Air.directions().is_empty());
        assert!(Material::Wood.directions().is_empty());
    }
}

#[test]
fn preferred_directions_follow_the_table() {
    let sand = Material::Sand.directions();
    assert_eq!(sand.len(), 2);
    assert!(matches!(sand[0], ExtDirection::One(Direction::Down)));
    assert!(matches!(
        sand[1],
        ExtDirection::Random(Direction::RightDown, Direction::LeftDown)
    ));
    assert_eq!(Material::SandGenerator.directions().len(), 1);
    assert_eq!(Material::Water.directions().len(), 3);
    assert_eq!(Material::Fire.directions().len(), 5);
    assert_eq!(Material::Smoke.directions().len(), 3);
    assert_eq!(Material::Vapor.directions().len(), 3);
}

#[test]
fn ext_dir_iterator_expands_pairs_in_order() {
    for _ in 0..50 {
        let mut it = ExtDirIterator::new(vec![
            ExtDirection::One(Direction::Down),
            ExtDirection::Random(Direction::Right, Direction::Left),
        ]);
        let first = it.next().unwrap();
        assert_eq!(first, Direction::Down);
        let second = it.next().unwrap();
        let third = it.next().unwrap();
        assert!(
            (second == Direction::Right && third == Direction::Left)
                || (second == Direction::Left && third == Direction::Right)
        );
        assert!(it.next().is_none());
        assert!(it.next().is_none());
    }
}

#[test]
fn rand_select_returns_one_of_its_arguments() {
    let mut saw_a = false;
    let mut saw_b = false;
    for _ in 0..1000 {
        match rand_select(1u8, 2u8) {
            1 => saw_a = true,
            2 => saw_b = true,
            _ => panic!("rand_select invented a value"),
        }
    }
    assert!(saw_a && saw_b);
}

#[test]
fn rand_select3_returns_one_of_its_arguments() {
    let mut seen = [false; 3];
    for _ in 0..1000 {
        match rand_select3(0u8, 1u8, 2u8) {
            0 => seen[0] = true,
            1 => seen[1] = true,
            2 => seen[2] = true,
            _ => panic!("rand_select3 invented a value"),
        }
    }
    assert!(seen[0] && seen[1] && seen[2]);
}

#[test]
fn resolve_collision_swaps_sand_into_air() {
    let mut cur = CellContent::new(Material::Sand, false, 3);
    let mut other = CellContent::new(Material::Air, true, 0);
    let action = resolve_collision(&mut cur, &mut other, &Direction::Down);
    assert!(matches!(action, StepAction::Swapped));
    assert_eq!(cur.material, Material::Air);
    assert_eq!(other.material, Material::Sand);
    assert_eq!(other.velocity, 3);
    assert!(!other.handled);
}

#[test]
fn resolve_collision_eradicates_water_on_fire() {
    let mut cur = CellContent::new(Material::Water, false, 1);
    let mut other = CellContent::new(Material::Fire, false, 0);
    let action = resolve_collision(&mut cur, &mut other, &Direction::Down);
    assert!(matches!(action, StepAction::Halt));
    assert_eq!(cur.material, Material::Vapor);
    assert_eq!(other.material, Material::Smoke);
    assert!(cur.handled && other.handled);
    assert_eq!(cur.velocity, 0);
    assert_eq!(other.velocity, 0);
}

#[test]
fn material_bytes_round_trip() {
    for m in ALL_MATERIALS {
        let b = material_to_byte(&m);
        assert!(b <= 8);
        assert_eq!(material_from_byte(b), Some(m));
    }
    for b in 9..=255u8 {
        assert_eq!(material_from_byte(b), None);
    }
    assert_eq!(material_to_byte(&Material::Sand), 0);
    assert_eq!(material_to_byte(&Material::Air), 4);
    assert_eq!(material_to_byte(&Material::Wood), 8);
}

#[test]
fn colors_match_the_canonical_table() {
    let air = cell_to_color(&CellContent::new(Material::Air, false, 0));
    assert_eq!(air, [0xff, 0xff, 0xff, 0x00]);
    let water = cell_to_color(&CellContent::new(Material::Water, false, 0));
    assert_eq!(water, [0x00, 0x00, 0xff, 0xff]);
    let wood = cell_to_color(&CellContent::new(Material::Wood, false, 0));
    assert_eq!(wood, [0xde, 0xb8, 0x87, 0xff]);
    let smoke = cell_to_color(&CellContent::new(Material::Smoke, true, 1));
    assert_eq!(smoke, [0x7f, 0x7f, 0x7f, 0xff]);
}

#[test]
fn grid_renders_as_joined_rows() {
    let cells = vec![
        CellContent::new(Material::Sand, false, 0),
        CellContent::new(Material::Air, false, 0),
        CellContent::new(Material::WaterGenerator, false, 0),
        CellContent::new(Material::Fire, false, 0),
    ];
    let text = get_as_string(&cells, 2);
    assert_eq!(text, "\u{25a0} \nWf");
    assert_eq!(content_to_char(&cells[0]), '\u{25a0}');
    assert_eq!(content_to_char(&cells[2]), 'W');
}

#[test]
fn set_cell_overwrites_one_slot() {
    let mut uni = Universe::new(3, 3);
    uni.set_cell(&Position::new(1, 2), CellContent::new(Material::Sand, false, 2));
    assert_eq!(uni.area[2 * 3 + 1], CellContent::new(Material::Sand, false, 2));
    assert_eq!(uni.area[0].material, Material::Air);
    assert_eq!(uni.area.len(), 9);
}

#[test]
fn shard_range_partitions_with_dropped_tail() {
    assert_eq!(shard_range(10, 3, 0), (0, 3));
    assert_eq!(shard_range(10, 3, 1), (3, 6));
    assert_eq!(shard_range(10, 3, 2), (6, 9));
    assert_eq!(shard_range(7, 1, 0), (0, 6));
}
