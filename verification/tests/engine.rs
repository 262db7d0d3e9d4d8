use sandspiel::material::Material;
use sandspiel::sand_sim::Simulation;

const A: Material = Material::Air;
const S: Material = Material::Sand;
const W: Material = Material::Water;
const F: Material = Material::Fire;
const D: Material = Material::Wood;
const G: Material = Material::SandGenerator;

fn flat(rows: [[Material; 5]; 5]) -> Vec<Material> {
    let mut out = Vec::new();
    for row in rows.iter() {
        for cell in row.iter() {
            out.push(*cell);
        }
    }
    out
}

fn sim_from(rows: [[Material; 5]; 5]) -> Simulation {
    let mut sim = Simulation::new(5, 5);
    sim.fill(&flat(rows));
    sim
}

fn count(sim: &Simulation, m: Material) -> usize {
    sim.universe.area.iter().filter(|c| c.material == m).count()
}

fn material_at(sim: &Simulation, x: usize, y: usize) -> Material {
    sim.universe.area[y * 5 + x].material
}

#[test]
fn sand_falls_straight() {
    let mut sim = sim_from([
        [A, A, S, A, A],
        [A, A, A, A, A],
        [A, A, A, A, A],
        [A, A, A, A, A],
        [A, A, A, A, A],
    ]);
    sim.tick();
    assert_eq!(material_at(&sim, 2, 1), S);
    assert_eq!(count(&sim, S), 1);
    sim.tick();
    assert_eq!(material_at(&sim, 2, 3), S);
    assert_eq!(count(&sim, S), 1);
    sim.tick();
    assert_eq!(material_at(&sim, 2, 4), S);
    sim.tick();
    assert_eq!(material_at(&sim, 2, 4), S);
    assert_eq!(count(&sim, S), 1);
}

#[test]
fn sand_stacks() {
    let mut sim = sim_from([
        [A, A, S, A, A],
        [A, A, A, A, A],
        [A, A, S, A, A],
        [A, A, A, A, A],
        [A, A, S, A, A],
    ]);
    for _ in 0..20 {
        sim.tick();
    }
    assert_eq!(count(&sim, S), 3);
    for x in 0..5 {
        for y in 0..3 {
            assert_ne!(material_at(&sim, x, y), S);
        }
    }
}

#[test]
fn sand_through_water_keeps_both() {
    let mut sim = sim_from([
        [A, A, S, A, A],
        [A, A, A, A, A],
        [A, A, W, A, A],
        [A, A, A, A, A],
        [A, A, A, A, A],
    ]);
    for _ in 0..8 {
        sim.tick();
        assert_eq!(count(&sim, S), 1);
        assert_eq!(count(&sim, W), 1);
    }
}

#[test]
fn fire_burns_wood() {
    let mut sim = sim_from([
        [A, A, F, A, A],
        [A, A, A, A, A],
        [A, A, A, A, A],
        [A, A, A, A, A],
        [D, D, D, D, D],
    ]);
    let mut burned = false;
    for _ in 0..300 {
        sim.tick();
        assert_eq!(count(&sim, W), 0);
        if count(&sim, D) < 5 {
            burned = true;
            break;
        }
    }
    assert!(burned);
}

#[test]
fn water_meets_fire() {
    let mut sim = sim_from([
        [A, A, A, A, A],
        [A, A, A, A, A],
        [A, A, W, A, A],
        [A, A, W, A, A],
        [A, A, F, A, A],
    ]);
    sim.tick();
    assert!(count(&sim, W) <= 1);
    assert!(count(&sim, Material::Vapor) >= 1);
    assert!(count(&sim, F) <= 1);
}

#[test]
fn sand_generator_spawns() {
    let mut sim = sim_from([
        [A, G, A, A, A],
        [A, A, A, A, A],
        [A, A, A, A, A],
        [A, A, A, A, A],
        [A, A, A, A, A],
    ]);
    for _ in 0..60 {
        sim.tick();
    }
    assert_eq!(material_at(&sim, 1, 0), G);
    assert!(count(&sim, S) >= 1);
    let in_column = (0..5).filter(|y| material_at(&sim, 1, *y) == S).count();
    assert!(in_column >= 1);
}

#[test]
fn all_wood_is_a_fixed_point() {
    let mut sim = sim_from([[D; 5]; 5]);
    sim.tick();
    let after_one = sim.universe.area.clone();
    for c in &sim.universe.area {
        assert_eq!(c.material, D);
        assert_eq!(c.velocity, 0);
        assert!(c.handled);
    }
    sim.tick();
    assert_eq!(sim.universe.area, after_one);
}

#[test]
fn all_air_ticks_to_all_air() {
    let mut sim = Simulation::new(5, 5);
    sim.tick();
    for c in &sim.universe.area {
        assert_eq!(c.material, A);
        assert_eq!(c.velocity, 0);
        assert!(c.handled);
    }
}

#[test]
fn wood_count_is_conserved_without_fire() {
    let mut sim = sim_from([
        [A, S, A, W, A],
        [A, D, A, D, A],
        [A, A, S, A, A],
        [D, A, A, A, D],
        [A, W, A, S, A],
    ]);
    for _ in 0..15 {
        sim.tick();
        assert_eq!(count(&sim, D), 4);
    }
}

#[test]
fn every_cell_handled_after_a_tick() {
    let mut sim = sim_from([
        [A, S, A, W, A],
        [A, D, A, D, A],
        [A, A, S, A, A],
        [D, A, A, A, D],
        [A, W, A, S, A],
    ]);
    for _ in 0..10 {
        sim.tick();
        for c in &sim.universe.area {
            assert!(c.handled);
        }
    }
}

#[test]
fn velocity_never_negative_at_tick_boundary() {
    let mut sim = sim_from([
        [S, W, F, D, A],
        [A, A, A, A, A],
        [W, A, S, A, F],
        [A, A, A, A, A],
        [D, D, A, D, D],
    ]);
    for _ in 0..25 {
        sim.tick();
        for c in &sim.universe.area {
            assert!(c.velocity >= 0);
        }
    }
}

#[test]
fn fill_overwrites_a_prefix() {
    let mut sim = Simulation::new(3, 2);
    sim.fill(&vec![S, W, D]);
    assert_eq!(sim.universe.area[0].material, S);
    assert_eq!(sim.universe.area[1].material, W);
    assert_eq!(sim.universe.area[2].material, D);
    assert_eq!(sim.universe.area[3].material, A);
    for c in &sim.universe.area {
        assert_eq!(c.velocity, 0);
        assert!(!c.handled);
    }
}

#[test]
fn set_all_unhandled_clears_flags() {
    let mut sim = Simulation::new(2, 2);
    sim.tick();
    for c in &sim.universe.area {
        assert!(c.handled);
    }
    sim.set_all_unhandled();
    for c in &sim.universe.area {
        assert!(!c.handled);
    }
}
