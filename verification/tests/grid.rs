use voxel_flow::cell::Cell;
use voxel_flow::v3i::V3I;
use voxel_flow::world::World;

#[test]
fn v3i_create_holds_components() {
    let v = V3I::create(1, -2, 3);
    assert_eq!(v.x, 1);
    assert_eq!(v.y, -2);
    assert_eq!(v.z, 3);
}

#[test]
fn v3i_zero_is_origin() {
    let v = V3I::zero();
    assert_eq!((v.x, v.y, v.z), (0, 0, 0));
}

#[test]
fn v3i_plus_adds_componentwise() {
    let a = V3I::create(1, 2, 3);
    let b = V3I::create(-1, 0, 4);
    let c = a.plus(b);
    assert_eq!((c.x, c.y, c.z), (0, 2, 7));
}

#[test]
fn cell_empty_is_fluid_with_no_volume() {
    let c = Cell::empty();
    assert_eq!(c.cell_type, 0);
    assert_eq!(c.volume, 0);
}

#[test]
fn world_create_fills_default_cells() {
    let w = World::create(V3I::create(2, 2, 2));
    for x in 0..2 {
        for y in 0..2 {
            for z in 0..2 {
                let c = w.get_unsafe(V3I::create(x, y, z));
                assert_eq!(c.cell_type, 0);
                assert_eq!(c.volume, 0);
            }
        }
    }
    assert_eq!(w.physics_fps, 0);
    let s = w.size();
    assert_eq!((s.x, s.y, s.z), (2, 2, 2));
}

#[test]
fn world_get_out_of_bounds_is_none() {
    let w = World::create(V3I::create(2, 1, 2));
    assert!(w.get(V3I::create(-1, 0, 0)).is_none());
    assert!(w.get(V3I::create(2, 0, 0)).is_none());
    assert!(w.get(V3I::create(0, 1, 0)).is_none());
    assert!(w.get(V3I::create(0, 0, 2)).is_none());
    assert!(w.get(V3I::create(1, 0, 1)).is_some());
}

#[test]
fn world_update_replaces_cell_in_bounds() {
    let mut w = World::create(V3I::create(2, 1, 2));
    let p = V3I::create(1, 0, 1);
    w.update(p, Cell { cell_type: 1, volume: 42 });
    let c = w.get_unsafe(p);
    assert_eq!(c.cell_type, 1);
    assert_eq!(c.volume, 42);
}

#[test]
fn world_update_out_of_bounds_is_ignored() {
    let mut w = World::create(V3I::create(2, 1, 2));
    w.update(V3I::create(5, 5, 5), Cell { cell_type: 1, volume: 9 });
    for x in 0..2 {
        for z in 0..2 {
            let c = w.get_unsafe(V3I::create(x, 0, z));
            assert_eq!(c.cell_type, 0);
            assert_eq!(c.volume, 0);
        }
    }
}

#[test]
fn world_row_major_layout_keeps_cells_apart() {
    let mut w = World::create(V3I::create(2, 3, 4));
    for x in 0..2 {
        for y in 0..3 {
            for z in 0..4 {
                let vol = (100 * x + 10 * y + z) as u64;
                w.update(V3I::create(x, y, z), Cell { cell_type: 0, volume: vol });
            }
        }
    }
    for x in 0..2 {
        for y in 0..3 {
            for z in 0..4 {
                let c = w.get_unsafe(V3I::create(x, y, z));
                assert_eq!(c.volume, (100 * x + 10 * y + z) as u64);
            }
        }
    }
}

#[test]
fn world_duplicate_is_a_deep_copy() {
    let mut w = World::create(V3I::create(2, 1, 1));
    w.update(V3I::create(0, 0, 0), Cell { cell_type: 0, volume: 7 });
    let mut copy = w.duplicate();
    assert_eq!(copy.get_unsafe(V3I::create(0, 0, 0)).volume, 7);
    copy.update(V3I::create(0, 0, 0), Cell { cell_type: 0, volume: 99 });
    assert_eq!(w.get_unsafe(V3I::create(0, 0, 0)).volume, 7);
    assert_eq!(copy.get_unsafe(V3I::create(0, 0, 0)).volume, 99);
}

#[test]
fn world_set_tick_rate_stamps_diagnostic() {
    let mut w = World::create(V3I::create(1, 1, 1));
    w.set_tick_rate(30);
    assert_eq!(w.physics_fps, 30);
    assert_eq!(w.get_unsafe(V3I::create(0, 0, 0)).volume, 0);
}
