use voxel_flow::cell::Cell;
use voxel_flow::flow::step;
use voxel_flow::flow::step_gravity;
use voxel_flow::flow::UNIT;
use voxel_flow::v3i::V3I;
use voxel_flow::world::World;

fn grid_with(size: V3I, cells: &[(i32, i32, i32, usize, u64)]) -> World {
    let mut w = World::create(size);
    for &(x, y, z, t, v) in cells {
        w.update(V3I::create(x, y, z), Cell { cell_type: t, volume: v });
    }
    w
}

fn volumes(w: &World, coords: &[(i32, i32, i32)]) -> Vec<u64> {
    coords.iter().map(|&(x, y, z)| w.get_unsafe(V3I::create(x, y, z)).volume).collect()
}

fn summed_by_hand(w: &World, size: V3I) -> u128 {
    let mut sum = 0u128;
    for x in 0..size.x {
        for y in 0..size.y {
            for z in 0..size.z {
                sum += w.get_unsafe(V3I::create(x, y, z)).volume as u128;
            }
        }
    }
    sum
}

// A 2x1x2 grid, one full cell of volume at (1,0,1), budget of one full cell:
// the loaded corner averages itself with its two in-bounds neighbours
// (divisor 3) and pushes a third each way, keeping the division remainder.
#[test]
fn step_example_two_by_one_by_two() {
    let size = V3I::create(2, 1, 2);
    let w = grid_with(size, &[(1, 0, 1, 0, UNIT)]);
    let next = step(&w, UNIT);
    let coords = [(0, 0, 0), (0, 0, 1), (1, 0, 0), (1, 0, 1)];
    assert_eq!(volumes(&next, &coords), vec![0, 333_333, 333_333, 333_334]);
}

// A corner cell has two in-bounds neighbours: it averages over 3 (self plus
// both), never over a fixed divisor of 5.
#[test]
fn step_corner_averages_only_in_bounds_neighbours() {
    let size = V3I::create(2, 1, 2);
    let w = grid_with(size, &[(0, 0, 0, 0, 600_000)]);
    let next = step(&w, UNIT);
    let coords = [(0, 0, 0), (0, 0, 1), (1, 0, 0), (1, 0, 1)];
    assert_eq!(volumes(&next, &coords), vec![200_000, 200_000, 200_000, 0]);
}

// Total volume is conserved exactly by a step, in both variants, with solids
// and boundary cells present.
#[test]
fn step_conserves_total_volume() {
    let size = V3I::create(3, 3, 3);
    let mut w = World::create(size);
    let mut n = 0u64;
    for x in 0..3 {
        for y in 0..3 {
            for z in 0..3 {
                let t = if (x + y + z) % 5 == 0 { 1 } else { 0 };
                let v = (n * 137_213) % UNIT;
                w.update(V3I::create(x, y, z), Cell { cell_type: t, volume: v });
                n += 1;
            }
        }
    }
    let before = w.total_volume();
    assert_eq!(before, summed_by_hand(&w, size));
    let mut cur = w;
    for _ in 0..4 {
        cur = step(&cur, 333_333);
        assert_eq!(cur.total_volume(), before);
    }
    for _ in 0..4 {
        cur = step_gravity(&cur, 333_333);
        assert_eq!(cur.total_volume(), before);
    }
}

// When every fluid cell holds the same volume, the base rule is idempotent:
// every target equals the current volume and every flow clamps to zero.
#[test]
fn step_uniform_volumes_are_an_equilibrium() {
    let size = V3I::create(3, 1, 3);
    let mut w = World::create(size);
    for x in 0..3 {
        for z in 0..3 {
            w.update(V3I::create(x, 0, z), Cell { cell_type: 0, volume: 700_000 });
        }
    }
    w.update(V3I::create(1, 0, 1), Cell { cell_type: 2, volume: 5 });
    let next = step(&w, UNIT);
    for x in 0..3 {
        for z in 0..3 {
            let c = next.get_unsafe(V3I::create(x, 0, z));
            if x == 1 && z == 1 {
                assert_eq!((c.cell_type, c.volume), (2, 5));
            } else {
                assert_eq!((c.cell_type, c.volume), (0, 700_000));
            }
        }
    }
}

// A solid cell neither receives nor emits flow, across any number of steps,
// and is excluded from its neighbours' averages: volume walled off behind it
// stays where it is.
#[test]
fn step_solid_cell_never_changes_volume() {
    let size = V3I::create(1, 1, 3);
    let w = grid_with(size, &[(0, 0, 0, 0, UNIT), (0, 0, 1, 1, 777)]);
    let mut cur = w;
    for _ in 0..5 {
        cur = step(&cur, UNIT);
        let coords = [(0, 0, 0), (0, 0, 1), (0, 0, 2)];
        assert_eq!(volumes(&cur, &coords), vec![UNIT, 777, 0]);
        assert_eq!(cur.get_unsafe(V3I::create(0, 0, 1)).cell_type, 1);
    }
    for _ in 0..5 {
        cur = step_gravity(&cur, UNIT);
        assert_eq!(cur.get_unsafe(V3I::create(0, 0, 1)).volume, 777);
    }
}

// Every flow is clamped by the per-tick budget, and a cell never pulls
// volume from a poorer neighbour: outflow only.
#[test]
fn step_budget_caps_each_flow() {
    let size = V3I::create(2, 1, 1);
    let w = grid_with(size, &[(1, 0, 0, 0, UNIT)]);
    let next = step(&w, 100);
    assert_eq!(volumes(&next, &[(0, 0, 0), (1, 0, 0)]), vec![100, 999_900]);
}

// A zero budget (the first tick's bootstrap policy) moves nothing.
#[test]
fn step_zero_budget_is_a_no_op() {
    let size = V3I::create(2, 1, 1);
    let w = grid_with(size, &[(1, 0, 0, 0, UNIT)]);
    let next = step(&w, 0);
    assert_eq!(volumes(&next, &[(0, 0, 0), (1, 0, 0)]), vec![0, UNIT]);
}

// Gravity sends volume straight down into an open cell before anything
// spreads sideways.
#[test]
fn step_gravity_fills_the_cell_below() {
    let size = V3I::create(1, 2, 1);
    let w = grid_with(size, &[(0, 1, 0, 0, UNIT)]);
    let next = step_gravity(&w, UNIT);
    assert_eq!(volumes(&next, &[(0, 0, 0), (0, 1, 0)]), vec![UNIT, 0]);
}

// The downward flow stops when the cell below holds one full unit.
#[test]
fn step_gravity_fills_below_only_to_one_unit() {
    let size = V3I::create(1, 2, 1);
    let w = grid_with(size, &[(0, 0, 0, 0, 800_000), (0, 1, 0, 0, 600_000)]);
    let next = step_gravity(&w, UNIT);
    assert_eq!(volumes(&next, &[(0, 0, 0), (0, 1, 0)]), vec![UNIT, 400_000]);
}

// A solid floor blocks the downward flow entirely.
#[test]
fn step_gravity_never_fills_a_solid_below() {
    let size = V3I::create(1, 2, 1);
    let w = grid_with(size, &[(0, 0, 0, 1, 0), (0, 1, 0, 0, UNIT)]);
    let next = step_gravity(&w, UNIT);
    assert_eq!(volumes(&next, &[(0, 0, 0), (0, 1, 0)]), vec![0, UNIT]);
}

// Once every fluid cell holds a full unit, even the gravity variant is
// idempotent: there is no room below and every target equals the volume.
#[test]
fn step_gravity_uniform_full_cells_are_an_equilibrium() {
    let size = V3I::create(2, 2, 2);
    let mut w = World::create(size);
    for x in 0..2 {
        for y in 0..2 {
            for z in 0..2 {
                w.update(V3I::create(x, y, z), Cell { cell_type: 0, volume: UNIT });
            }
        }
    }
    let next = step_gravity(&w, UNIT);
    for x in 0..2 {
        for y in 0..2 {
            for z in 0..2 {
                assert_eq!(next.get_unsafe(V3I::create(x, y, z)).volume, UNIT);
            }
        }
    }
}
