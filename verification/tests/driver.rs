use std::time::Instant;

use voxel_flow::cell::Cell;
use voxel_flow::flow::UNIT;
use voxel_flow::sim::cancel_channel;
use voxel_flow::sim::flow_budget;
use voxel_flow::sim::run_driver;
use voxel_flow::sim::tick_rate_of;
use voxel_flow::sim::Harness;
use voxel_flow::sim::FLOW_CAP;
use voxel_flow::sim::NANOS_PER_SECOND;
use voxel_flow::v3i::V3I;
use voxel_flow::world::World;

fn seeded_world(size: V3I) -> World {
    let mut w = World::create(size);
    let mut n = 0u64;
    for x in 0..size.x {
        for y in 0..size.y {
            for z in 0..size.z {
                let t = if (x + z) % 4 == 3 { 1 } else { 0 };
                let v = (n * 271_829) % UNIT;
                w.update(V3I::create(x, y, z), Cell { cell_type: t, volume: v });
                n += 1;
            }
        }
    }
    w
}

#[test]
fn flow_budget_scales_by_elapsed_time() {
    // two full units per second, over half a second: one unit
    assert_eq!(flow_budget(2 * UNIT, NANOS_PER_SECOND / 2), UNIT);
    // no timing sample yet: the bootstrap budget is zero
    assert_eq!(flow_budget(2 * UNIT, 0), 0);
    // enormous rates and spans clamp at the cap
    assert_eq!(flow_budget(u64::MAX, u64::MAX), FLOW_CAP);
}

#[test]
fn tick_rate_handles_degenerate_timing() {
    assert_eq!(tick_rate_of(0), 0);
    assert_eq!(tick_rate_of(NANOS_PER_SECOND / 2), 2);
    assert_eq!(tick_rate_of(1), NANOS_PER_SECOND);
    assert_eq!(tick_rate_of(3 * NANOS_PER_SECOND), 0);
}

#[test]
fn harness_read_returns_the_seeded_grid() {
    let size = V3I::create(2, 1, 2);
    let mut w = World::create(size);
    w.update(V3I::create(1, 0, 1), Cell { cell_type: 0, volume: 321 });
    let h = Harness::new(w);
    let snap = h.read();
    assert_eq!(snap.get_unsafe(V3I::create(1, 0, 1)).volume, 321);
    assert_eq!(snap.get_unsafe(V3I::create(0, 0, 0)).volume, 0);
    let s = snap.size();
    assert_eq!((s.x, s.y, s.z), (2, 1, 2));
}

#[test]
fn harness_install_replaces_the_whole_grid() {
    let size = V3I::create(2, 1, 1);
    let mut a = World::create(size);
    a.update(V3I::create(0, 0, 0), Cell { cell_type: 0, volume: 300 });
    a.update(V3I::create(1, 0, 0), Cell { cell_type: 0, volume: 700 });
    let h = Harness::new(a);
    let mut b = World::create(size);
    b.update(V3I::create(0, 0, 0), Cell { cell_type: 0, volume: 500 });
    b.update(V3I::create(1, 0, 0), Cell { cell_type: 0, volume: 500 });
    h.install(b);
    let snap = h.read();
    assert_eq!(snap.get_unsafe(V3I::create(0, 0, 0)).volume, 500);
    assert_eq!(snap.get_unsafe(V3I::create(1, 0, 0)).volume, 500);
}

// Whatever grid a reader observes after any number of ticks, it is a whole
// snapshot: its total volume is exactly the seeded total — a torn mixture of
// two generations would break it — and solids are exactly where they were.
#[test]
fn driver_snapshots_keep_the_invariants() {
    let size = V3I::create(3, 2, 3);
    let w = seeded_world(size);
    let before = w.total_volume();
    let h = Harness::new(w);
    let (_tx, rx) = cancel_channel();
    run_driver(&h, &rx, 2 * UNIT, true, 50);
    let snap = h.read();
    assert_eq!(snap.total_volume(), before);
    for x in 0..size.x {
        for y in 0..size.y {
            for z in 0..size.z {
                let c = snap.get_unsafe(V3I::create(x, y, z));
                assert_eq!(c.cell_type, if (x + z) % 4 == 3 { 1 } else { 0 });
            }
        }
    }
}

// After the cancellation message is sent, the driver stops at the next tick
// boundary: a run that would otherwise last practically forever returns at
// once (generous slack for a loaded machine).
#[test]
fn driver_stops_promptly_after_cancellation() {
    let size = V3I::create(2, 2, 2);
    let h = Harness::new(seeded_world(size));
    let (tx, rx) = cancel_channel();
    assert!(tx.send());
    let t0 = Instant::now();
    run_driver(&h, &rx, 2 * UNIT, false, u64::MAX);
    assert!(t0.elapsed().as_secs() < 5);
}

#[test]
fn cancel_send_reports_a_gone_driver() {
    let (tx, rx) = cancel_channel();
    assert!(tx.send());
    drop(rx);
    assert!(!tx.send());
}
