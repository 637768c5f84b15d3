//! The diffusion step: a pure function from an immutable prior grid and a
//! per-tick flow budget to a new grid with volume redistributed.
//!
//! Every serviced fluid cell averages itself with its in-bounds, non-solid
//! horizontal neighbours and pushes at most `max_flow` units of volume toward
//! each neighbour that sits below that average; a gravity variant first
//! pushes volume straight down until the cell below holds a full [`UNIT`].
//! All reads come from the prior grid and all writes go to a separate new
//! grid, so iteration order never changes the outcome of a serviced cell.

use vstd::prelude::*;

use vstd::arithmetic::div_mod::lemma_fundamental_div_mod;
use vstd::arithmetic::div_mod::lemma_fundamental_div_mod_converse;
use vstd::math::max;
use vstd::math::min;

use crate::cell::Cell;
use crate::v3i::V3I;
use crate::world::World;
use crate::world::grid_len;
use crate::world::in_bounds3;
use crate::world::index3;
use crate::world::lemma_index_bounds;
use crate::world::wf_size;

verus! {

/// One full cell of fluid, in fixed-point volume units.
pub const UNIT: u64 = 1_000_000;

/// Ceiling on cell volumes for which a step is guaranteed free of overflow;
/// see [`step_headroom`].
pub const VOLUME_CAP: u64 = 0x3000_0000_0000_0000;

// ---------------------------------------------------------------------------
// The four horizontal neighbour offsets, in the fixed service order that
// breaks ties when the flow budget runs out.
// ---------------------------------------------------------------------------
/// `x`-component of the `k`-th horizontal offset.
pub open spec fn hdir_dx(k: int) -> int {
    if k == 0 {
        -1
    } else if k == 1 {
        1
    } else {
        0
    }
}

/// `z`-component of the `k`-th horizontal offset.
pub open spec fn hdir_dz(k: int) -> int {
    if k == 2 {
        -1
    } else if k == 3 {
        1
    } else {
        0
    }
}

/// The `k`-th horizontal neighbour offset.
pub fn hdir(k: usize) -> (d: V3I)
    requires
        k < 4,
    ensures
        d.x as int == hdir_dx(k as int),
        d.y == 0,
        d.z as int == hdir_dz(k as int),
{
    if k == 0 {
        V3I::create(-1, 0, 0)
    } else if k == 1 {
        V3I::create(1, 0, 0)
    } else if k == 2 {
        V3I::create(0, 0, -1)
    } else {
        V3I::create(0, 0, 1)
    }
}

// ---------------------------------------------------------------------------
// Readings of the prior grid.
// ---------------------------------------------------------------------------
/// Whether `(x, y, z)` is an in-bounds, non-solid cell: one that may receive
/// flow and counts toward a neighbour average.
pub open spec fn nb_open(size: V3I, cells: Seq<Cell>, x: int, y: int, z: int) -> bool {
    in_bounds3(size, x, y, z) && cells[index3(size, x, y, z)].cell_type == 0
}

/// Volume of the prior cell at `(x, y, z)`.
pub open spec fn vol3(size: V3I, cells: Seq<Cell>, x: int, y: int, z: int) -> int {
    cells[index3(size, x, y, z)].volume as int
}

/// Summed prior volume of the open horizontal neighbours of `(x, y, z)`,
/// over service order positions `k..4`.
pub open spec fn nb_sum_from(size: V3I, cells: Seq<Cell>, x: int, y: int, z: int, k: int) -> int
    decreases 4 - k,
{
    if k >= 4 {
        0
    } else {
        (if nb_open(size, cells, x + hdir_dx(k), y, z + hdir_dz(k)) {
            vol3(size, cells, x + hdir_dx(k), y, z + hdir_dz(k))
        } else {
            0
        }) + nb_sum_from(size, cells, x, y, z, k + 1)
    }
}

/// Number of open horizontal neighbours of `(x, y, z)`, over service order
/// positions `k..4`.
pub open spec fn nb_count_from(size: V3I, cells: Seq<Cell>, x: int, y: int, z: int, k: int) -> int
    decreases 4 - k,
{
    if k >= 4 {
        0
    } else {
        (if nb_open(size, cells, x + hdir_dx(k), y, z + hdir_dz(k)) {
            1int
        } else {
            0int
        }) + nb_count_from(size, cells, x, y, z, k + 1)
    }
}

/// The local average a serviced cell relaxes toward: its own still-available
/// volume `rem0` averaged with its open horizontal neighbours. Missing or
/// solid neighbours are excluded from both sum and divisor.
pub open spec fn target_volume(size: V3I, cells: Seq<Cell>, x: int, y: int, z: int, rem0: int) -> int {
    (rem0 + nb_sum_from(size, cells, x, y, z, 0)) / (1 + nb_count_from(size, cells, x, y, z, 0))
}

// ---------------------------------------------------------------------------
// The flow rule.
// ---------------------------------------------------------------------------
/// A desired outflow clamped to be non-negative, at most what the cell still
/// has available, and at most the per-tick budget.
pub open spec fn clamp_flow(want: int, rem: int, mf: int) -> int {
    min(min(max(want, 0), rem), mf)
}

/// The downward flow of the gravity variant: fill the cell below up to one
/// [`UNIT`], bounded by the serviced cell's volume and the tick budget.
/// Meaningful only when the cell below is open.
pub open spec fn gravity_flow(size: V3I, cells: Seq<Cell>, x: int, y: int, z: int, mf: int) -> int {
    clamp_flow(UNIT - vol3(size, cells, x, y - 1, z), vol3(size, cells, x, y, z), mf)
}

/// The horizontal pass over service order positions `k..4`: `cur` holds the
/// volumes of the new grid so far and `rem` the serviced cell's volume still
/// available to push out. Each open neighbour receives its clamped flow
/// toward the precomputed target `tgt`; flows are computed from the prior
/// grid only.
pub open spec fn hpass(
    size: V3I,
    cells: Seq<Cell>,
    x: int,
    y: int,
    z: int,
    tgt: int,
    mf: int,
    k: int,
    cur: Seq<int>,
    rem: int,
) -> (Seq<int>, int)
    decreases 4 - k,
{
    if k >= 4 {
        (cur, rem)
    } else {
        let nx = x + hdir_dx(k);
        let nz = z + hdir_dz(k);
        if nb_open(size, cells, nx, y, nz) {
            let f = clamp_flow(tgt - vol3(size, cells, nx, y, nz), rem, mf);
            let ni = index3(size, nx, y, nz);
            hpass(size, cells, x, y, z, tgt, mf, k + 1, cur.update(ni, cur[ni] + f), rem - f)
        } else {
            hpass(size, cells, x, y, z, tgt, mf, k + 1, cur, rem)
        }
    }
}

/// Servicing one cell: solids are skipped; a fluid cell first sends the
/// gravity flow down (gravity variant only), then runs the horizontal pass
/// on what remains, and finally books the net change against its own volume.
pub open spec fn process_cell(
    size: V3I,
    cells: Seq<Cell>,
    cur: Seq<int>,
    x: int,
    y: int,
    z: int,
    mf: int,
    gravity: bool,
) -> Seq<int> {
    let i = index3(size, x, y, z);
    let c = cells[i];
    if c.cell_type != 0 {
        cur
    } else {
        let down_open = gravity && nb_open(size, cells, x, y - 1, z);
        let fd = if down_open {
            gravity_flow(size, cells, x, y, z, mf)
        } else {
            0
        };
        let cur1 = if down_open {
            let bi = index3(size, x, y - 1, z);
            cur.update(bi, cur[bi] + fd)
        } else {
            cur
        };
        let rem0 = c.volume - fd;
        let passed = if rem0 > 0 {
            hpass(size, cells, x, y, z, target_volume(size, cells, x, y, z, rem0), mf, 0, cur1, rem0)
        } else {
            (cur1, rem0)
        };
        passed.0.update(i, passed.0[i] + (passed.1 - c.volume))
    }
}

// ---------------------------------------------------------------------------
// Row-major coordinates of the n-th serviced cell.
// ---------------------------------------------------------------------------
pub open spec fn coord_x(size: V3I, i: int) -> int {
    i / (size.y as int * size.z as int)
}

pub open spec fn coord_y(size: V3I, i: int) -> int {
    (i % (size.y as int * size.z as int)) / (size.z as int)
}

pub open spec fn coord_z(size: V3I, i: int) -> int {
    (i % (size.y as int * size.z as int)) % (size.z as int)
}

/// The coordinate functions invert the row-major index of any in-bounds
/// position.
pub proof fn lemma_coords_of_index(size: V3I, x: int, y: int, z: int)
    requires
        wf_size(size),
        in_bounds3(size, x, y, z),
    ensures
        coord_x(size, index3(size, x, y, z)) == x,
        coord_y(size, index3(size, x, y, z)) == y,
        coord_z(size, index3(size, x, y, z)) == z,
{
    let sy = size.y as int;
    let sz = size.z as int;
    let i = index3(size, x, y, z);
    let r = y * sz + z;
    assert(0 <= r < sy * sz && i == x * (sy * sz) + r) by (nonlinear_arith)
        requires
            0 <= y < sy,
            0 <= z < sz,
            r == y * sz + z,
            i == x * sy * sz + y * sz + z,
    ;
    lemma_fundamental_div_mod_converse(i, sy * sz, x, r);
    lemma_fundamental_div_mod_converse(r, sz, y, z);
}

/// Every position `i` below the grid's length is the row-major index of an
/// in-bounds coordinate, recovered by the coordinate functions.
pub proof fn lemma_index_of_coords(size: V3I, i: int)
    requires
        wf_size(size),
        0 <= i < grid_len(size),
    ensures
        in_bounds3(size, coord_x(size, i), coord_y(size, i), coord_z(size, i)),
        index3(size, coord_x(size, i), coord_y(size, i), coord_z(size, i)) == i,
{
    let sx = size.x as int;
    let sy = size.y as int;
    let sz = size.z as int;
    assert(sx > 0 && sy > 0 && sz > 0 && sy * sz > 0) by (nonlinear_arith)
        requires
            0 <= sx,
            0 <= sy,
            0 <= sz,
            0 <= i < sx * sy * sz,
    ;
    let x = i / (sy * sz);
    let r = i % (sy * sz);
    lemma_fundamental_div_mod(i, sy * sz);
    let y = r / sz;
    let z = r % sz;
    lemma_fundamental_div_mod(r, sz);
    assert(0 <= x < sx && 0 <= y < sy && 0 <= z < sz && x * sy * sz + y * sz + z == i)
        by (nonlinear_arith)
        requires
            sy * sz > 0,
            sz > 0,
            0 <= i < sx * sy * sz,
            i == (sy * sz) * x + r,
            0 <= r < sy * sz,
            r == sz * y + z,
            0 <= z < sz,
    ;
}

// ---------------------------------------------------------------------------
// The whole step.
// ---------------------------------------------------------------------------
/// The volumes of a cell sequence, as mathematical integers.
pub open spec fn vols_of(cells: Seq<Cell>) -> Seq<int> {
    Seq::new(cells.len(), |i: int| cells[i].volume as int)
}

/// Volumes after servicing the first `n` cells in row-major order, starting
/// from a copy of the prior grid.
pub open spec fn step_upto(size: V3I, cells: Seq<Cell>, mf: int, gravity: bool, n: int) -> Seq<int>
    decreases n,
{
    if n <= 0 {
        vols_of(cells)
    } else {
        process_cell(
            size,
            cells,
            step_upto(size, cells, mf, gravity, n - 1),
            coord_x(size, n - 1),
            coord_y(size, n - 1),
            coord_z(size, n - 1),
            mf,
            gravity,
        )
    }
}

/// Volumes after one full diffusion step over the whole grid.
pub open spec fn step_vols(size: V3I, cells: Seq<Cell>, mf: int, gravity: bool) -> Seq<int> {
    step_upto(size, cells, mf, gravity, grid_len(size))
}

/// Cell volumes small enough that a step with budget `mf` can be computed in
/// 64-bit arithmetic: each cell may gain at most `mf` from each of its
/// neighbours' five flows per serviced cell.
pub open spec fn step_headroom(cells: Seq<Cell>, mf: int) -> bool {
    forall|q: int|
        0 <= q < cells.len() ==> (cells[q].volume as int) + 5 * cells.len() * mf <= VOLUME_CAP as int
}

// ---------------------------------------------------------------------------
// Facts about the model, used both to rule out overflow in the executable
// step and to prove the library's laws.
// ---------------------------------------------------------------------------
/// Sum of a sequence of integers.
pub open spec fn sum_ints(s: Seq<int>) -> int
    decreases s.len(),
{
    if s.len() == 0 {
        0
    } else {
        sum_ints(s.drop_last()) + s.last()
    }
}

/// Updating one entry moves the sum by the difference at that entry.
pub proof fn lemma_sum_update(s: Seq<int>, i: int, v: int)
    requires
        0 <= i < s.len(),
    ensures
        sum_ints(s.update(i, v)) == sum_ints(s) - s[i] + v,
    decreases s.len(),
{
    let t = s.update(i, v);
    if i == s.len() - 1 {
        assert(t.drop_last() =~= s.drop_last());
    } else {
        assert(t.drop_last() =~= s.drop_last().update(i, v));
        lemma_sum_update(s.drop_last(), i, v);
    }
}

/// A sum of non-negative entries is non-negative.
pub proof fn lemma_sum_nonneg(s: Seq<int>)
    requires
        forall|q: int| 0 <= q < s.len() ==> s[q] >= 0,
    ensures
        sum_ints(s) >= 0,
    decreases s.len(),
{
    if s.len() > 0 {
        lemma_sum_nonneg(s.drop_last());
    }
}

/// Each non-negative entry is bounded by the sum of its sequence.
pub proof fn lemma_sum_bounds_entry(s: Seq<int>, i: int)
    requires
        0 <= i < s.len(),
        forall|q: int| 0 <= q < s.len() ==> s[q] >= 0,
    ensures
        s[i] <= sum_ints(s),
    decreases s.len(),
{
    if i == s.len() - 1 {
        lemma_sum_nonneg(s.drop_last());
    } else {
        lemma_sum_bounds_entry(s.drop_last(), i);
    }
}

/// What one horizontal pass does, whatever the serviced cell and target: it
/// keeps the sequence length; it never drives `rem` negative; the volume it
/// takes from `rem` is exactly the volume it hands to neighbours; each cell
/// gains at most one flow of at most `mf` per remaining direction and loses
/// nothing; and solid cells are never touched.
pub proof fn lemma_hpass_facts(
    size: V3I,
    cells: Seq<Cell>,
    x: int,
    y: int,
    z: int,
    tgt: int,
    mf: int,
    k: int,
    cur: Seq<int>,
    rem: int,
)
    requires
        wf_size(size),
        cells.len() == grid_len(size),
        cur.len() == grid_len(size),
        0 <= k <= 4,
        rem >= 0,
        mf >= 0,
    ensures
        ({
            let passed = hpass(size, cells, x, y, z, tgt, mf, k, cur, rem);
            &&& passed.0.len() == cur.len()
            &&& 0 <= passed.1 <= rem
            &&& sum_ints(passed.0) + passed.1 == sum_ints(cur) + rem
            &&& forall|q: int|
                0 <= q < cur.len() ==> cur[q] <= #[trigger] passed.0[q] <= cur[q] + (4 - k) * mf
            &&& forall|q: int|
                0 <= q < cur.len() && cells[q].cell_type != 0 ==> #[trigger] passed.0[q] == cur[q]
        }),
    decreases 4 - k,
{
    if k < 4 {
        let nx = x + hdir_dx(k);
        let nz = z + hdir_dz(k);
        assert((3 - k) * mf + mf == (4 - k) * mf) by (nonlinear_arith);
        if nb_open(size, cells, nx, y, nz) {
            let f = clamp_flow(tgt - vol3(size, cells, nx, y, nz), rem, mf);
            let ni = index3(size, nx, y, nz);
            lemma_index_bounds(size, nx, y, nz);
            let cur2 = cur.update(ni, cur[ni] + f);
            lemma_sum_update(cur, ni, cur[ni] + f);
            lemma_hpass_facts(size, cells, x, y, z, tgt, mf, k + 1, cur2, rem - f);
        } else {
            lemma_hpass_facts(size, cells, x, y, z, tgt, mf, k + 1, cur, rem);
        }
    }
}

/// What servicing one cell does: the total volume is conserved exactly; no
/// volume goes negative; no cell gains more than five flows of at most `mf`;
/// cells other than the serviced one never lose volume; and a solid cell's
/// volume never changes, in either role.
pub proof fn lemma_process_cell_facts(
    size: V3I,
    cells: Seq<Cell>,
    cur: Seq<int>,
    x: int,
    y: int,
    z: int,
    mf: int,
    gravity: bool,
)
    requires
        wf_size(size),
        cells.len() == grid_len(size),
        cur.len() == grid_len(size),
        in_bounds3(size, x, y, z),
        mf >= 0,
        forall|q: int| 0 <= q < cur.len() ==> cur[q] >= 0,
        cur[index3(size, x, y, z)] >= cells[index3(size, x, y, z)].volume as int,
    ensures
        ({
            let nv = process_cell(size, cells, cur, x, y, z, mf, gravity);
            let ip = index3(size, x, y, z);
            &&& nv.len() == cur.len()
            &&& sum_ints(nv) == sum_ints(cur)
            &&& forall|q: int| 0 <= q < cur.len() ==> 0 <= #[trigger] nv[q] <= cur[q] + 5 * mf
            &&& forall|q: int| 0 <= q < cur.len() && q != ip ==> #[trigger] nv[q] >= cur[q]
            &&& forall|q: int|
                0 <= q < cur.len() && cells[q].cell_type != 0 ==> #[trigger] nv[q] == cur[q]
        }),
{
    let ip = index3(size, x, y, z);
    lemma_index_bounds(size, x, y, z);
    let c = cells[ip];
    if c.cell_type == 0 {
        let down_open = gravity && nb_open(size, cells, x, y - 1, z);
        let fd = if down_open {
            gravity_flow(size, cells, x, y, z, mf)
        } else {
            0
        };
        let cur1 = if down_open {
            let bi = index3(size, x, y - 1, z);
            cur.update(bi, cur[bi] + fd)
        } else {
            cur
        };
        if down_open {
            let bi = index3(size, x, y - 1, z);
            lemma_index_bounds(size, x, y - 1, z);
            assert(bi == ip - size.z as int) by (nonlinear_arith)
                requires
                    bi == x * size.y * size.z + (y - 1) * size.z + z,
                    ip == x * size.y * size.z + y * size.z + z,
            ;
            lemma_sum_update(cur, bi, cur[bi] + fd);
        }
        let rem0 = c.volume - fd;
        let passed = if rem0 > 0 {
            hpass(
                size,
                cells,
                x,
                y,
                z,
                target_volume(size, cells, x, y, z, rem0),
                mf,
                0,
                cur1,
                rem0,
            )
        } else {
            (cur1, rem0)
        };
        if rem0 > 0 {
            lemma_hpass_facts(
                size,
                cells,
                x,
                y,
                z,
                target_volume(size, cells, x, y, z, rem0),
                mf,
                0,
                cur1,
                rem0,
            );
        }
        lemma_sum_update(passed.0, ip, passed.0[ip] + (passed.1 - c.volume));
    }
}

/// What the first `n` servicings do, combined: length and total volume are
/// preserved, volumes stay non-negative and within the headroom each
/// servicing can add, cells not yet serviced have only gained volume, and
/// solid cells still hold exactly their prior volume.
pub proof fn lemma_step_upto_facts(size: V3I, cells: Seq<Cell>, mf: int, gravity: bool, n: int)
    requires
        wf_size(size),
        cells.len() == grid_len(size),
        0 <= n <= grid_len(size),
        mf >= 0,
    ensures
        ({
            let sv = step_upto(size, cells, mf, gravity, n);
            &&& sv.len() == cells.len()
            &&& sum_ints(sv) == sum_ints(vols_of(cells))
            &&& forall|q: int|
                0 <= q < cells.len() ==> 0 <= #[trigger] sv[q] <= (cells[q].volume as int) + 5 * n * mf
            &&& forall|q: int| n <= q < cells.len() ==> #[trigger] sv[q] >= cells[q].volume as int
            &&& forall|q: int|
                0 <= q < cells.len() && cells[q].cell_type != 0 ==> #[trigger] sv[q] == cells[q].volume as int
        }),
    decreases n,
{
    if n > 0 {
        lemma_step_upto_facts(size, cells, mf, gravity, n - 1);
        lemma_index_of_coords(size, n - 1);
        let prevv = step_upto(size, cells, mf, gravity, n - 1);
        let x = coord_x(size, n - 1);
        let y = coord_y(size, n - 1);
        let z = coord_z(size, n - 1);
        lemma_process_cell_facts(size, cells, prevv, x, y, z, mf, gravity);
        assert(5 * (n - 1) * mf + 5 * mf == 5 * n * mf) by (nonlinear_arith);
    }
}

/// Updating a cell updates the volume sequence pointwise.
pub proof fn lemma_vols_update(cells: Seq<Cell>, i: int, c: Cell)
    requires
        0 <= i < cells.len(),
    ensures
        vols_of(cells.update(i, c)) =~= vols_of(cells).update(i, c.volume as int),
{
}

/// Stepping the row-major counters `(x, y, z)` with carry visits the cell of
/// the next row-major index.
pub proof fn lemma_advance_coords(size: V3I, x: int, y: int, z: int, i: int)
    requires
        wf_size(size),
        in_bounds3(size, x, y, z),
        index3(size, x, y, z) == i,
    ensures
        z + 1 < size.z ==> in_bounds3(size, x, y, z + 1) && index3(size, x, y, z + 1) == i + 1,
        z + 1 == size.z && y + 1 < size.y ==> in_bounds3(size, x, y + 1, 0) && index3(
            size,
            x,
            y + 1,
            0,
        ) == i + 1,
        z + 1 == size.z && y + 1 == size.y && x + 1 < size.x ==> in_bounds3(size, x + 1, 0, 0)
            && index3(size, x + 1, 0, 0) == i + 1,
        z + 1 == size.z && y + 1 == size.y && x + 1 == size.x ==> i + 1 == grid_len(size),
{
    let sx = size.x as int;
    let sy = size.y as int;
    let sz = size.z as int;
    assert((y + 1) * sz == y * sz + sz && (x + 1) * sy * sz == x * sy * sz + sy * sz && sx * sy * sz
        == (sx - 1) * sy * sz + sy * sz && (sy - 1) * sz + sz == sy * sz) by (nonlinear_arith);
}

// ---------------------------------------------------------------------------
// The executable step.
// ---------------------------------------------------------------------------
/// Services one cell: reads the prior grid `prev`, books the serviced cell's
/// flows into `next`, whose volumes must be those produced by servicing the
/// earlier cells of this step.
#[verifier::loop_isolation(false)]
#[verifier::rlimit(60)]
fn service_cell(
    prev: &World,
    next: &mut World,
    x: i32,
    y: i32,
    z: i32,
    max_flow: u64,
    gravity: bool,
)
    requires
        prev.wf(),
        old(next).wf(),
        old(next)@.size == prev@.size,
        in_bounds3(prev@.size, x as int, y as int, z as int),
        forall|q: int|
            0 <= q < prev@.cells.len() ==> #[trigger] old(next)@.cells[q].cell_type
                == prev@.cells[q].cell_type,
        forall|q: int|
            0 <= q < prev@.cells.len() ==> (#[trigger] prev@.cells[q].volume as int)
                <= VOLUME_CAP as int,
        forall|q: int|
            0 <= q < prev@.cells.len() ==> (#[trigger] old(next)@.cells[q].volume as int) + 5 * (
            max_flow as int) <= u64::MAX as int,
        old(next)@.cells[index3(prev@.size, x as int, y as int, z as int)].volume
            >= prev@.cells[index3(prev@.size, x as int, y as int, z as int)].volume,
    ensures
        final(next).wf(),
        final(next)@.size == prev@.size,
        final(next)@.physics_fps == old(next)@.physics_fps,
        forall|q: int|
            0 <= q < prev@.cells.len() ==> #[trigger] final(next)@.cells[q].cell_type
                == prev@.cells[q].cell_type,
        vols_of(final(next)@.cells) == process_cell(
            prev@.size,
            prev@.cells,
            vols_of(old(next)@.cells),
            x as int,
            y as int,
            z as int,
            max_flow as int,
            gravity,
        ),
{
    let ghost size = prev@.size;
    let ghost cells = prev@.cells;
    let ghost xi = x as int;
    let ghost yi = y as int;
    let ghost zi = z as int;
    let ghost mfi = max_flow as int;
    let ghost cur0 = vols_of(old(next)@.cells);
    let ghost ip = index3(size, xi, yi, zi);
    proof {
        lemma_index_bounds(size, xi, yi, zi);
    }
    let p = V3I::create(x, y, z);
    let cell = prev.get_unsafe(p);
    if cell.cell_type != 0 {
        proof {
            assert(process_cell(size, cells, cur0, xi, yi, zi, mfi, gravity) =~= cur0);
        }
        return ;
    }
    let mut remaining = cell.volume;

    // Gravity sub-step: fill the open cell below up to one UNIT first.
    if gravity {
        let below = V3I::create(x, y - 1, z);
        match prev.get(below) {
            Some(nb) => {
                if nb.cell_type == 0 {
                    let flow: u64 = if nb.volume >= UNIT {
                        0
                    } else {
                        let room = UNIT - nb.volume;
                        let f1 = if room < cell.volume {
                            room
                        } else {
                            cell.volume
                        };
                        if f1 < max_flow {
                            f1
                        } else {
                            max_flow
                        }
                    };
                    proof {
                        lemma_index_bounds(size, xi, yi - 1, zi);
                        assert(flow as int == gravity_flow(size, cells, xi, yi, zi, mfi));
                    }
                    let curb = next.get_unsafe(below);
                    next.update(
                        below,
                        Cell { cell_type: curb.cell_type, volume: curb.volume + flow },
                    );
                    remaining = remaining - flow;
                }
            },
            None => {},
        }
    }
    let ghost down_open = gravity && nb_open(size, cells, xi, yi - 1, zi);
    let ghost fd = if down_open {
        gravity_flow(size, cells, xi, yi, zi, mfi)
    } else {
        0
    };
    let ghost bi = index3(size, xi, yi - 1, zi);
    let ghost cur1 = if down_open {
        cur0.update(bi, cur0[bi] + fd)
    } else {
        cur0
    };
    proof {
        if down_open {
            lemma_index_bounds(size, xi, yi - 1, zi);
            lemma_vols_update(old(next)@.cells, bi, next@.cells[bi]);
            assert(bi == ip - size.z as int) by (nonlinear_arith)
                requires
                    bi == xi * size.y * size.z + (yi - 1) * size.z + zi,
                    ip == xi * size.y * size.z + yi * size.z + zi,
            ;
        }
        assert(vols_of(next@.cells) =~= cur1);
        assert(remaining as int == cell.volume - fd);
    }
    let ghost rem0 = remaining as int;

    if remaining > 0 {
        // Average the still-available volume with the open horizontal
        // neighbours' prior volumes.
        let mut sum: u64 = remaining;
        let mut total: u64 = 1;
        let mut k: usize = 0;
        while k < 4
            invariant
                k <= 4,
                sum as int == rem0 + nb_sum_from(size, cells, xi, yi, zi, 0) - nb_sum_from(
                    size,
                    cells,
                    xi,
                    yi,
                    zi,
                    k as int,
                ),
                total as int == 1 + nb_count_from(size, cells, xi, yi, zi, 0) - nb_count_from(
                    size,
                    cells,
                    xi,
                    yi,
                    zi,
                    k as int,
                ),
                sum as int <= rem0 + (k as int) * (VOLUME_CAP as int),
                1 <= total as int <= 1 + k as int,
            decreases 4 - k,
        {
            let d = hdir(k);
            let nl = p.plus(d);
            let ghost nxi = xi + hdir_dx(k as int);
            let ghost nzi = zi + hdir_dz(k as int);
            proof {
                assert(nb_sum_from(size, cells, xi, yi, zi, k as int) == (if nb_open(
                    size,
                    cells,
                    nxi,
                    yi,
                    nzi,
                ) {
                    vol3(size, cells, nxi, yi, nzi)
                } else {
                    0
                }) + nb_sum_from(size, cells, xi, yi, zi, k as int + 1));
                assert(nb_count_from(size, cells, xi, yi, zi, k as int) == (if nb_open(
                    size,
                    cells,
                    nxi,
                    yi,
                    nzi,
                ) {
                    1int
                } else {
                    0int
                }) + nb_count_from(size, cells, xi, yi, zi, k as int + 1));
            }
            match prev.get(nl) {
                Some(nc) => {
                    if nc.cell_type == 0 {
                        proof {
                            lemma_index_bounds(size, nxi, yi, nzi);
                        }
                        sum = sum + nc.volume;
                        total = total + 1;
                    }
                },
                None => {},
            }
            k = k + 1;
        }
        proof {
            assert(nb_sum_from(size, cells, xi, yi, zi, 4) == 0);
            assert(nb_count_from(size, cells, xi, yi, zi, 4) == 0);
        }
        let target = sum / total;
        let ghost tgt = target_volume(size, cells, xi, yi, zi, rem0);
        proof {
            assert(target as int == tgt);
        }

        // Push the clamped flows, in the fixed service order.
        let mut k2: usize = 0;
        while k2 < 4
            invariant
                k2 <= 4,
                next.wf(),
                next@.size == size,
                next@.physics_fps == old(next)@.physics_fps,
                forall|q: int|
                    0 <= q < cells.len() ==> #[trigger] next@.cells[q].cell_type
                        == cells[q].cell_type,
                0 <= remaining as int <= rem0,
                hpass(
                    size,
                    cells,
                    xi,
                    yi,
                    zi,
                    tgt,
                    mfi,
                    k2 as int,
                    vols_of(next@.cells),
                    remaining as int,
                ) == hpass(size, cells, xi, yi, zi, tgt, mfi, 0, cur1, rem0),
                forall|q: int|
                    0 <= q < cells.len() ==> cur1[q] <= #[trigger] vols_of(next@.cells)[q]
                        <= cur1[q] + (k2 as int) * mfi,
            decreases 4 - k2,
        {
            let d = hdir(k2);
            let nl = p.plus(d);
            let ghost nxi = xi + hdir_dx(k2 as int);
            let ghost nzi = zi + hdir_dz(k2 as int);
            let ghost vols_before = vols_of(next@.cells);
            let ghost rem_before = remaining as int;
            proof {
                assert(((k2 + 1) as int) * mfi == (k2 as int) * mfi + mfi) by (nonlinear_arith);
            }
            match prev.get(nl) {
                Some(nc) => {
                    if nc.cell_type == 0 {
                        let flow: u64 = if target > nc.volume {
                            let want = target - nc.volume;
                            let f1 = if want < remaining {
                                want
                            } else {
                                remaining
                            };
                            if f1 < max_flow {
                                f1
                            } else {
                                max_flow
                            }
                        } else {
                            0
                        };
                        let ghost ni = index3(size, nxi, yi, nzi);
                        proof {
                            lemma_index_bounds(size, nxi, yi, nzi);
                            assert((k2 as int) * mfi <= 3 * mfi) by (nonlinear_arith)
                                requires
                                    0 <= k2 < 4,
                                    mfi >= 0,
                            ;
                            assert(flow as int == clamp_flow(
                                tgt - vol3(size, cells, nxi, yi, nzi),
                                remaining as int,
                                mfi,
                            ));
                            assert(cur1[ni] <= cur0[ni] + mfi);
                        }
                        let curn = next.get_unsafe(nl);
                        let ncell = Cell { cell_type: curn.cell_type, volume: curn.volume + flow };
                        let ghost cells_mid = next@.cells;
                        next.update(nl, ncell);
                        remaining = remaining - flow;
                        proof {
                            lemma_vols_update(cells_mid, ni, ncell);
                        }
                    }
                },
                None => {},
            }
            k2 = k2 + 1;
        }
        proof {
            assert(hpass(
                size,
                cells,
                xi,
                yi,
                zi,
                tgt,
                mfi,
                4,
                vols_of(next@.cells),
                remaining as int,
            ) == (vols_of(next@.cells), remaining as int));
        }
    }

    // Book the net change against the serviced cell's own volume.
    let curp = next.get_unsafe(p);
    proof {
        assert(cur1[ip] == cur0[ip]);
        assert(vols_of(next@.cells)[ip] >= cur1[ip]);
        assert(curp.volume >= cell.volume);
        assert(remaining as int <= cell.volume as int);
    }
    let newv = curp.volume - cell.volume + remaining;
    let pcell = Cell { cell_type: curp.cell_type, volume: newv };
    let ghost cells_end = next@.cells;
    next.update(p, pcell);
    proof {
        lemma_vols_update(cells_end, ip, pcell);
        assert(vols_of(next@.cells) =~= process_cell(
            size,
            cells,
            cur0,
            xi,
            yi,
            zi,
            mfi,
            gravity,
        ));
    }
}

/// One full diffusion step: every cell is serviced once, in row-major order,
/// reading the prior grid `prev` and writing a separate new grid. The result
/// has the same size, the same cell types and the same diagnostic tick rate;
/// its volumes are exactly the model's, cell by cell.
#[verifier::loop_isolation(false)]
#[verifier::rlimit(60)]
pub fn step_config(prev: &World, max_flow: u64, gravity: bool) -> (w: World)
    requires
        prev.wf(),
        step_headroom(prev@.cells, max_flow as int),
    ensures
        w.wf(),
        w@.size == prev@.size,
        w@.physics_fps == prev@.physics_fps,
        forall|q: int|
            0 <= q < prev@.cells.len() ==> #[trigger] w@.cells[q].cell_type
                == prev@.cells[q].cell_type,
        vols_of(w@.cells) == step_vols(prev@.size, prev@.cells, max_flow as int, gravity),
{
    let ghost sizev = prev@.size;
    let ghost cells = prev@.cells;
    let ghost mfi = max_flow as int;
    let size = prev.size();
    let n = (size.x * size.y * size.z) as usize;
    let mut next = prev.duplicate();
    let mut x: i32 = 0;
    let mut y: i32 = 0;
    let mut z: i32 = 0;
    let mut i: usize = 0;
    proof {
        if n > 0 {
            assert(sizev.x > 0 && sizev.y > 0 && sizev.z > 0) by (nonlinear_arith)
                requires
                    0 <= sizev.x && 0 <= sizev.y && 0 <= sizev.z,
                    0 < sizev.x as int * sizev.y as int * sizev.z as int,
            ;
            lemma_coords_of_index(sizev, 0, 0, 0);
        }
    }
    while i < n
        invariant
            next.wf(),
            next@.size == sizev,
            next@.physics_fps == prev@.physics_fps,
            forall|q: int|
                0 <= q < cells.len() ==> #[trigger] next@.cells[q].cell_type
                    == cells[q].cell_type,
            i <= n,
            i < n ==> x as int == coord_x(sizev, i as int) && y as int == coord_y(sizev, i as int)
                && z as int == coord_z(sizev, i as int),
            vols_of(next@.cells) == step_upto(sizev, cells, mfi, gravity, i as int),
        decreases n - i,
    {
        proof {
            lemma_index_of_coords(sizev, i as int);
            lemma_step_upto_facts(sizev, cells, mfi, gravity, i as int);
            let clen = cells.len() as int;
            let ii = i as int;
            assert(5 * clen * mfi >= 0 && 5 * ii * mfi + 5 * mfi <= 5 * clen * mfi)
                by (nonlinear_arith)
                requires
                    0 <= ii < clen,
                    mfi >= 0,
            ;
            let sv = step_upto(sizev, cells, mfi, gravity, ii);
            assert forall|q: int| 0 <= q < clen implies (#[trigger] next@.cells[q].volume as int)
                + 5 * mfi <= u64::MAX as int by {
                assert(vols_of(next@.cells)[q] == next@.cells[q].volume as int);
                assert(sv[q] <= cells[q].volume + 5 * ii * mfi);
                assert(cells[q].volume + 5 * clen * mfi <= VOLUME_CAP as int);
            };
            assert forall|q: int| 0 <= q < clen implies (#[trigger] cells[q].volume as int)
                <= VOLUME_CAP as int by {
                assert(cells[q].volume + 5 * clen * mfi <= VOLUME_CAP as int);
            };
            assert(sv[ii] >= cells[ii].volume as int);
            assert(vols_of(next@.cells)[ii] == next@.cells[ii].volume as int);
            assert(next@.cells[ii].volume >= cells[ii].volume);
        }
        service_cell(prev, &mut next, x, y, z, max_flow, gravity);
        proof {
            assert(vols_of(next@.cells) =~= step_upto(sizev, cells, mfi, gravity, i as int + 1));
        }
        let ghost pxi = x as int;
        let ghost pyi = y as int;
        let ghost pzi = z as int;
        i = i + 1;
        z = z + 1;
        if z == size.z {
            z = 0;
            y = y + 1;
            if y == size.y {
                y = 0;
                x = x + 1;
            }
        }
        proof {
            lemma_advance_coords(sizev, pxi, pyi, pzi, i as int - 1);
            if i < n {
                if pzi + 1 < sizev.z as int {
                    lemma_coords_of_index(sizev, pxi, pyi, pzi + 1);
                } else if pyi + 1 < sizev.y as int {
                    lemma_coords_of_index(sizev, pxi, pyi + 1, 0);
                } else {
                    lemma_coords_of_index(sizev, pxi + 1, 0, 0);
                }
            }
        }
    }
    next
}

/// One diffusion step under the base rule: horizontal redistribution only.
pub fn step(prev: &World, max_flow: u64) -> (w: World)
    requires
        prev.wf(),
        step_headroom(prev@.cells, max_flow as int),
    ensures
        w.wf(),
        w@.size == prev@.size,
        w@.physics_fps == prev@.physics_fps,
        forall|q: int|
            0 <= q < prev@.cells.len() ==> #[trigger] w@.cells[q].cell_type
                == prev@.cells[q].cell_type,
        vols_of(w@.cells) == step_vols(prev@.size, prev@.cells, max_flow as int, false),
{
    step_config(prev, max_flow, false)
}

/// One diffusion step of the terrain-aware variant: gravity first sends
/// volume straight down, then whatever remains spreads horizontally.
pub fn step_gravity(prev: &World, max_flow: u64) -> (w: World)
    requires
        prev.wf(),
        step_headroom(prev@.cells, max_flow as int),
    ensures
        w.wf(),
        w@.size == prev@.size,
        w@.physics_fps == prev@.physics_fps,
        forall|q: int|
            0 <= q < prev@.cells.len() ==> #[trigger] w@.cells[q].cell_type
                == prev@.cells[q].cell_type,
        vols_of(w@.cells) == step_vols(prev@.size, prev@.cells, max_flow as int, true),
{
    step_config(prev, max_flow, true)
}

} // verus!
