use sandspiel::sandspiel_static_5::{CellMaterial, SandspielStatic5, StoredCell};

const S: CellMaterial = CellMaterial::Sand;
const W: CellMaterial = CellMaterial::Water;
const A: CellMaterial = CellMaterial::Air;

fn flat(rows: [[CellMaterial; 5]; 5]) -> Vec<CellMaterial> {
    let mut out = Vec::new();
    for row in rows.iter() {
        for cell in row.iter() {
            out.push(*cell);
        }
    }
    out
}

#[test]
fn sand_falls() {
    let snapshot_t0 = flat([
        [A, A, S, A, A],
        [A, A, A, A, A],
        [A, A, A, A, A],
        [A, A, A, A, A],
        [A, A, A, A, A],
    ]);
    let snapshot_t1 = flat([
        [A, A, A, A, A],
        [A, A, S, A, A],
        [A, A, A, A, A],
        [A, A, A, A, A],
        [A, A, A, A, A],
    ]);
    let snapshot_t2 = flat([
        [A, A, A, A, A],
        [A, A, A, A, A],
        [A, A, A, A, A],
        [A, A, S, A, A],
        [A, A, A, A, A],
    ]);
    let snapshot_t3 = flat([
        [A, A, A, A, A],
        [A, A, A, A, A],
        [A, A, A, A, A],
        [A, A, A, A, A],
        [A, A, S, A, A],
    ]);

    let mut spiel = SandspielStatic5::from_snapshot(&snapshot_t0);
    assert_eq!(spiel.snapshot(), snapshot_t0);
    spiel.run();
    assert_eq!(spiel.snapshot(), snapshot_t1);
    spiel.run();
    assert_eq!(spiel.snapshot(), snapshot_t2);
    spiel.run();
    assert_eq!(spiel.snapshot(), snapshot_t3);
}

#[test]
fn sand_blocks_sand() {
    let snapshot_t0 = flat([
        [A, A, S, A, A],
        [A, A, A, A, A],
        [A, A, S, A, A],
        [A, A, A, A, A],
        [A, A, S, A, A],
    ]);
    let snapshot_t1 = flat([
        [A, A, A, A, A],
        [A, A, S, A, A],
        [A, A, A, A, A],
        [A, A, S, A, A],
        [A, A, S, A, A],
    ]);
    let snapshot_t2 = flat([
        [A, A, A, A, A],
        [A, A, A, A, A],
        [A, A, A, A, A],
        [A, A, S, A, A],
        [A, A, S, S, A],
    ]);
    let snapshot_t3 = flat([
        [A, A, A, A, A],
        [A, A, A, A, A],
        [A, A, A, A, A],
        [A, A, A, A, A],
        [A, S, S, S, A],
    ]);
    let mut spiel = SandspielStatic5::from_snapshot(&snapshot_t0);
    assert_eq!(spiel.snapshot(), snapshot_t0);
    spiel.run();
    assert_eq!(spiel.snapshot(), snapshot_t1);
    spiel.run();
    assert_eq!(spiel.snapshot(), snapshot_t2);
    spiel.run();
    assert_eq!(spiel.snapshot(), snapshot_t3);
}

#[test]
fn snapshot_round_trip() {
    let snap = flat([
        [A, S, A, A, A],
        [A, A, W, A, A],
        [A, A, A, A, A],
        [A, A, A, A, S],
        [S, A, A, A, A],
    ]);
    let spiel = SandspielStatic5::from_snapshot(&snap);
    assert_eq!(spiel.snapshot(), snap);
}

#[test]
fn get_cell_reads_the_grid() {
    let mut field = Vec::new();
    for i in 0..25u16 {
        let m = if i == 7 { S } else { A };
        field.push(StoredCell(m, 0));
    }
    let spiel = SandspielStatic5::new(field);
    let cell = spiel.get_cell(2, 1);
    assert_eq!(cell.x, 2);
    assert_eq!(cell.y, 1);
    assert_eq!(cell.material, S);
    assert_eq!(cell.velocity, 0);
    assert_eq!(spiel.get_cell(0, 0).material, A);
}

#[test]
fn all_air_is_a_fixed_point() {
    let snap = flat([[A; 5]; 5]);
    let mut spiel = SandspielStatic5::from_snapshot(&snap);
    spiel.run();
    assert_eq!(spiel.snapshot(), snap);
}

#[test]
fn sand_sinks_through_water() {
    let snap = flat([
        [A, A, S, A, A],
        [A, A, W, A, A],
        [A, A, A, A, A],
        [A, A, A, A, A],
        [A, A, A, A, A],
    ]);
    let mut spiel = SandspielStatic5::from_snapshot(&snap);
    for _ in 0..10 {
        spiel.run();
    }
    let end = spiel.snapshot();
    assert_eq!(end.iter().filter(|m| **m == S).count(), 1);
    assert_eq!(end.iter().filter(|m| **m == W).count(), 1);
}
