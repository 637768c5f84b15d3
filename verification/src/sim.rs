//! The simulation driver and the shared-state harness.
//!
//! [`Harness::new`] seeds a reader/writer lock with the initial grid;
//! [`run_driver`] is the driver's whole loop, which the caller gives its own
//! unit of execution. Each tick the driver polls the one-shot cancellation
//! channel, clones the current snapshot under a read lock, runs the
//! diffusion step off-lock on the private copy with a budget derived from
//! the previous tick's duration, stamps the achieved tick rate on the
//! result and installs it as the new snapshot. Readers never see a mixture
//! of two snapshots: the lock's invariant holds of every grid ever
//! installed, so every read view is one whole grid of the fixed size with
//! the conserved total volume.

use vstd::prelude::*;

use vstd::math::min;
use vstd::rwlock::RwLock;
use vstd::rwlock::RwLockPredicate;
use crate::laws::lemma_step_conserves_volume;
use crate::flow::lemma_sum_bounds_entry;
use crate::flow::lemma_sum_nonneg;
use crate::flow::step_config;
use crate::flow::VOLUME_CAP;
use crate::flow::sum_ints;
use crate::flow::vols_of;
use crate::v3i::V3I;
use crate::world::World;
use crate::world::grid_len;

verus! {

pub const NANOS_PER_SECOND: u64 = 1_000_000_000;

/// Largest per-tick flow budget the driver ever uses.
pub const FLOW_CAP: u64 = 0x4000_0000;

/// Largest cell count of a grid the driver accepts.
pub const LEN_CAP: u64 = 0x400_0000;

/// Largest initial total volume the driver accepts.
pub const TOTAL_CAP: u64 = 0x100_0000_0000;

// ---------------------------------------------------------------------------
// Trusted views of the clock and of the one-shot cancellation channel.
// ---------------------------------------------------------------------------
/// Relies on std::time::Instant: an opaque reading of the monotonic clock.
#[verifier::external_type_specification]
#[verifier::external_body]
pub struct ExInstant(std::time::Instant);

/// Relies on std::time::Instant::now: the instant of the call; nothing is
/// assumed of its value.
pub assume_specification[ std::time::Instant::now ]() -> std::time::Instant;

/// Relies on std::time::Instant::elapsed: the span from the instant to now;
/// nothing is assumed of its value.
pub assume_specification[ std::time::Instant::elapsed ](i: &std::time::Instant) -> (d: std::time::Duration);

/// Relies on std::time::Duration::as_secs: the whole seconds of the span;
/// nothing is assumed of its value.
pub assume_specification[ std::time::Duration::as_secs ](d: &std::time::Duration) -> u64;

/// Relies on std::time::Duration::subsec_nanos: the fractional part of the
/// span, which its documentation bounds below one second's nanoseconds.
pub assume_specification[ std::time::Duration::subsec_nanos ](d: &std::time::Duration) -> (r: u32)
    ensures
        r < 1_000_000_000,
;

/// Relies on std::sync::mpsc::Sender: the sending half of a channel.
#[verifier::external_type_specification]
#[verifier::external_body]
#[verifier::reject_recursive_types(T)]
pub struct ExSender<T>(std::sync::mpsc::Sender<T>);

/// Relies on std::sync::mpsc::Receiver: the receiving half of a channel.
#[verifier::external_type_specification]
#[verifier::external_body]
#[verifier::reject_recursive_types(T)]
pub struct ExReceiver<T>(std::sync::mpsc::Receiver<T>);

/// Relies on std::sync::mpsc::channel: a connected sender/receiver pair.
#[verifier::external_body]
fn signal_channel() -> (std::sync::mpsc::Sender<bool>, std::sync::mpsc::Receiver<bool>) {
    std::sync::mpsc::channel()
}

/// Relies on Sender::send: true when the receiver is still connected, in
/// which case the message is queued; whether a later poll sees it depends on
/// timing, so nothing is assumed of it.
#[verifier::external_body]
fn send_signal(tx: &std::sync::mpsc::Sender<bool>) -> bool {
    match tx.send(true) {
        Ok(()) => true,
        Err(_) => false,
    }
}

/// Relies on Receiver::try_recv: non-blocking; true when a message was
/// pending. Whether one is depends on timing, so nothing is assumed of it.
#[verifier::external_body]
fn poll_signal(rx: &std::sync::mpsc::Receiver<bool>) -> bool {
    match rx.try_recv() {
        Ok(_) => true,
        Err(_) => false,
    }
}

// ---------------------------------------------------------------------------
// Tick bookkeeping.
// ---------------------------------------------------------------------------
/// The per-tick flow budget: the configured flow per second scaled by the
/// previous tick's duration, capped at [`FLOW_CAP`]. With no previous timing
/// sample (`delta_nanos == 0`) the budget is zero, so the very first tick
/// moves nothing: the documented bootstrap policy.
pub fn flow_budget(flow_per_sec: u64, delta_nanos: u64) -> (r: u64)
    ensures
        r as int == min(
            (flow_per_sec as int * delta_nanos as int) / (NANOS_PER_SECOND as int),
            FLOW_CAP as int,
        ),
{
    proof {
        assert((flow_per_sec as int) * (delta_nanos as int) <= (u64::MAX as int) * (
        u64::MAX as int)) by (nonlinear_arith)
            requires
                0 <= flow_per_sec as int <= u64::MAX as int,
                0 <= delta_nanos as int <= u64::MAX as int,
        ;
    }
    let product = (flow_per_sec as u128) * (delta_nanos as u128);
    let budget = product / (NANOS_PER_SECOND as u128);
    if budget >= (FLOW_CAP as u128) {
        FLOW_CAP
    } else {
        budget as u64
    }
}

/// Ticks per second achieved, from one tick's duration; zero when the clock
/// resolved no time at all, rather than a division fault.
pub fn tick_rate_of(delta_nanos: u64) -> (r: u64)
    ensures
        r as int == (if delta_nanos == 0 {
            0int
        } else {
            NANOS_PER_SECOND as int / delta_nanos as int
        }),
{
    if delta_nanos == 0 {
        0
    } else {
        NANOS_PER_SECOND / delta_nanos
    }
}

// ---------------------------------------------------------------------------
// The shared-state harness.
// ---------------------------------------------------------------------------
/// What is true of every grid the lock ever holds: well-formed, of the fixed
/// size, with the conserved total volume, and small enough that a step on it
/// can always be computed.
pub ghost struct WorldPred {
    pub size: V3I,
    pub total: int,
}

impl RwLockPredicate<World> for WorldPred {
    open spec fn inv(self, w: World) -> bool {
        &&& w.wf()
        &&& w@.size == self.size
        &&& sum_ints(vols_of(w@.cells)) == self.total
        &&& 0 <= self.total <= TOTAL_CAP as int
        &&& grid_len(self.size) <= LEN_CAP as int
    }
}

/// The shared-state harness: exactly one writer — the driver — periodically
/// replaces the whole grid, while readers obtain consistent snapshots at
/// will. Grids are never mutated in place once installed; the swap is the
/// only write-side critical section.
pub struct Harness {
    lock: RwLock<World, WorldPred>,
}

/// The sending half of the one-shot cancellation channel.
pub struct CancelSender {
    tx: std::sync::mpsc::Sender<bool>,
}

impl CancelSender {
    /// Tells the driver to stop after its current tick. True when the driver
    /// could still be reached.
    pub fn send(&self) -> bool {
        send_signal(&self.tx)
    }
}

/// The receiving half of the one-shot cancellation channel, polled by the
/// driver once per tick.
pub struct CancelReceiver {
    rx: std::sync::mpsc::Receiver<bool>,
}

/// The one-shot cancellation channel: at most one message is ever sent over
/// it, and the driver stops at the first tick boundary that observes it.
pub fn cancel_channel() -> (r: (CancelSender, CancelReceiver)) {
    let (tx, rx) = signal_channel();
    (CancelSender { tx }, CancelReceiver { rx })
}

impl Harness {
    /// The fixed size of every snapshot this harness holds.
    pub closed spec fn size_spec(&self) -> V3I {
        self.lock.pred().size
    }

    /// The conserved total volume of every snapshot this harness holds.
    pub closed spec fn total_spec(&self) -> int {
        self.lock.pred().total
    }

    /// Seeds the harness with the initial grid. The grid must be small
    /// enough, in cells and in total volume, that every later step is free
    /// of overflow; both bounds are generous for real worlds.
    pub fn new(initial: World) -> (h: Harness)
        requires
            initial.wf(),
            sum_ints(vols_of(initial@.cells)) <= TOTAL_CAP as int,
            grid_len(initial@.size) <= LEN_CAP as int,
        ensures
            h.size_spec() == initial@.size,
            h.total_spec() == sum_ints(vols_of(initial@.cells)),
    {
        let ghost pred = WorldPred {
            size: initial@.size,
            total: sum_ints(vols_of(initial@.cells)),
        };
        proof {
            lemma_sum_nonneg(vols_of(initial@.cells));
        }
        Harness { lock: RwLock::<World, WorldPred>::new(initial, Ghost(pred)) }
    }

    /// A consistent snapshot of the current grid: a whole grid some tick
    /// installed, never a mixture of two. It is well-formed, has the fixed
    /// size, and its volumes total exactly the initial grid's.
    pub fn read(&self) -> (w: World)
        ensures
            w.wf(),
            w@.size == self.size_spec(),
            sum_ints(vols_of(w@.cells)) == self.total_spec(),
            0 <= self.total_spec() <= TOTAL_CAP as int,
            grid_len(self.size_spec()) <= LEN_CAP as int,
    {
        let rh = self.lock.acquire_read();
        let w = rh.borrow().duplicate();
        rh.release_read();
        w
    }

    /// Replaces the currently visible grid with `w` in one step. Existing
    /// readers keep the old grid undisturbed; readers that begin after the
    /// install observe `w` or a later grid.
    pub fn install(&self, w: World)
        requires
            w.wf(),
            w@.size == self.size_spec(),
            sum_ints(vols_of(w@.cells)) == self.total_spec(),
    {
        let (_superseded, wh) = self.lock.acquire_write();
        wh.release_write(w);
    }
}

// ---------------------------------------------------------------------------
// The driver.
// ---------------------------------------------------------------------------
/// The whole driver, to be given its own unit of execution by the caller.
/// Each iteration is one tick: poll the cancellation channel (stop if the
/// message arrived), read and clone the current snapshot, run the diffusion
/// step off-lock with the budget derived from the previous tick's duration,
/// stamp the achieved tick rate, and install the result. The tick counter
/// doubles as the loop's termination witness; with `max_ticks == u64::MAX`
/// the run is unbounded in practice.
#[verifier::loop_isolation(false)]
pub fn run_driver(
    harness: &Harness,
    cancel: &CancelReceiver,
    flow_per_sec: u64,
    gravity: bool,
    max_ticks: u64,
) {
    let mut ticks: u64 = 0;
    let mut delta_nanos: u64 = 0;
    while ticks < max_ticks
        decreases max_ticks - ticks,
    {
        if poll_signal(&cancel.rx) {
            return ;
        }
        let tick_start = std::time::Instant::now();
        let max_flow = flow_budget(flow_per_sec, delta_nanos);

        // Clone the current snapshot under the read lock; compute off-lock.
        let snapshot = harness.read();

        proof {
            // The lock's invariant gives the headroom the step needs.
            let cells = snapshot@.cells;
            let mfi = max_flow as int;
            let clen = cells.len() as int;
            assert(5 * clen * mfi <= 5 * (LEN_CAP as int) * (FLOW_CAP as int))
                by (nonlinear_arith)
                requires
                    0 <= clen <= LEN_CAP as int,
                    0 <= mfi <= FLOW_CAP as int,
            ;
            assert forall|j: int| 0 <= j < clen implies #[trigger] vols_of(cells)[j] >= 0 by {
                assert(vols_of(cells)[j] == cells[j].volume as int);
            };
            assert forall|q: int| 0 <= q < clen implies (#[trigger] cells[q].volume as int) + 5
                * clen * mfi <= VOLUME_CAP as int by {
                lemma_sum_bounds_entry(vols_of(cells), q);
                assert(vols_of(cells)[q] == cells[q].volume as int);
            };
        }
        let mut new_world = step_config(&snapshot, max_flow, gravity);

        // Derive the next tick's budget and this tick's achieved rate from
        // this tick's duration; stalls count as two seconds at most.
        let d = tick_start.elapsed();
        let secs = d.as_secs();
        let nanos = d.subsec_nanos();
        delta_nanos = if secs >= 2 {
            2 * NANOS_PER_SECOND
        } else {
            secs * NANOS_PER_SECOND + nanos as u64
        };
        new_world.set_tick_rate(tick_rate_of(delta_nanos));

        proof {
            lemma_step_conserves_volume(
                snapshot@.size,
                snapshot@.cells,
                max_flow as int,
                gravity,
            );
        }
        harness.install(new_world);
        ticks = ticks + 1;
    }
}

} // verus!
