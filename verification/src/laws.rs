//! Laws of the diffusion step, stated over the mathematical model that the
//! executable step provably computes ([`crate::flow::step_config`]).

use vstd::prelude::*;

use vstd::arithmetic::div_mod::lemma_div_multiples_vanish;

use crate::cell::Cell;
use crate::v3i::V3I;
use crate::world::grid_len;
use crate::world::in_bounds3;
use crate::world::index3;
use crate::world::lemma_index_bounds;
use crate::world::wf_size;
use crate::flow::clamp_flow;
use crate::flow::hpass;
use crate::flow::lemma_index_of_coords;
use crate::flow::lemma_step_upto_facts;
use crate::flow::lemma_sum_bounds_entry;
use crate::flow::nb_count_from;
use crate::flow::nb_open;
use crate::flow::nb_sum_from;
use crate::flow::process_cell;
use crate::flow::step_upto;
use crate::flow::step_vols;
use crate::flow::sum_ints;
use crate::flow::target_volume;
use crate::flow::vol3;
use crate::flow::vols_of;

verus! {

/// Conservation: a diffusion step never creates or destroys volume. Summed
/// over the whole grid, the stepped volumes total exactly the prior total —
/// with or without solids, with or without boundary contact, in either
/// variant: every flow leaves one cell and lands in another, and volume near
/// an edge is simply not distributed beyond it.
pub proof fn lemma_step_conserves_volume(size: V3I, cells: Seq<Cell>, mf: int, gravity: bool)
    requires
        wf_size(size),
        cells.len() == grid_len(size),
        mf >= 0,
    ensures
        sum_ints(step_vols(size, cells, mf, gravity)) == sum_ints(vols_of(cells)),
{
    lemma_step_upto_facts(size, cells, mf, gravity, grid_len(size));
}

/// Non-negativity of flow: every flow a step computes — the clamp of a
/// desired outflow against the serviced cell's remaining volume and the tick
/// budget — is at least zero, at most `rem` and at most `mf`. A cell never
/// pulls volume from a neighbour: outflow only.
pub proof fn lemma_flow_bounds(want: int, rem: int, mf: int)
    requires
        rem >= 0,
        mf >= 0,
    ensures
        0 <= clamp_flow(want, rem, mf),
        clamp_flow(want, rem, mf) <= rem,
        clamp_flow(want, rem, mf) <= mf,
{
}

/// Solid exclusion, one step: a cell whose type is not fluid keeps exactly
/// its prior volume through a step of either variant. (By the model's
/// definition — [`nb_open`] — it is also excluded from every neighbour's
/// average and divisor.)
pub proof fn lemma_step_solid_fixed(size: V3I, cells: Seq<Cell>, mf: int, gravity: bool, q: int)
    requires
        wf_size(size),
        cells.len() == grid_len(size),
        mf >= 0,
        0 <= q < cells.len(),
        cells[q].cell_type != 0,
    ensures
        step_vols(size, cells, mf, gravity)[q] == cells[q].volume as int,
{
    lemma_step_upto_facts(size, cells, mf, gravity, grid_len(size));
}

// ---------------------------------------------------------------------------
// Iterated steps.
// ---------------------------------------------------------------------------
/// The cell sequence after one step: types unchanged, volumes stepped.
pub open spec fn step_cells(size: V3I, cells: Seq<Cell>, mf: int, gravity: bool) -> Seq<Cell> {
    Seq::new(
        cells.len(),
        |q: int|
            Cell {
                cell_type: cells[q].cell_type,
                volume: step_vols(size, cells, mf, gravity)[q] as u64,
            },
    )
}

/// The cell sequence after `n` steps.
pub open spec fn step_cells_n(size: V3I, cells: Seq<Cell>, mf: int, gravity: bool, n: nat) -> Seq<
    Cell,
>
    decreases n,
{
    if n == 0 {
        cells
    } else {
        step_cells(size, step_cells_n(size, cells, mf, gravity, (n - 1) as nat), mf, gravity)
    }
}

/// As long as the grid's total volume fits the volume scalar, [`step_cells`]
/// is a faithful image of the stepped model: same length, same types, its
/// volumes exactly the model's, and the total conserved.
pub proof fn lemma_step_cells_faithful(size: V3I, cells: Seq<Cell>, mf: int, gravity: bool)
    requires
        wf_size(size),
        cells.len() == grid_len(size),
        mf >= 0,
        sum_ints(vols_of(cells)) <= u64::MAX as int,
    ensures
        ({
            let stepped = step_cells(size, cells, mf, gravity);
            &&& stepped.len() == cells.len()
            &&& forall|q: int|
                0 <= q < cells.len() ==> #[trigger] stepped[q].cell_type == cells[q].cell_type
            &&& vols_of(stepped) =~= step_vols(size, cells, mf, gravity)
            &&& sum_ints(vols_of(stepped)) == sum_ints(vols_of(cells))
        }),
{
    lemma_step_upto_facts(size, cells, mf, gravity, grid_len(size));
    let sv = step_vols(size, cells, mf, gravity);
    let stepped = step_cells(size, cells, mf, gravity);
    assert forall|q: int| 0 <= q < cells.len() implies #[trigger] vols_of(stepped)[q] == sv[q] by {
        lemma_sum_bounds_entry(sv, q);
        assert(0 <= sv[q] <= u64::MAX as int);
    };
    assert(vols_of(stepped) =~= sv);
}

/// Solid exclusion, any number of steps: marking a cell solid means its
/// volume never changes across any number of steps of either variant.
pub proof fn lemma_steps_solid_fixed(
    size: V3I,
    cells: Seq<Cell>,
    mf: int,
    gravity: bool,
    n: nat,
    q: int,
)
    requires
        wf_size(size),
        cells.len() == grid_len(size),
        mf >= 0,
        sum_ints(vols_of(cells)) <= u64::MAX as int,
        0 <= q < cells.len(),
        cells[q].cell_type != 0,
    ensures
        ({
            let after = step_cells_n(size, cells, mf, gravity, n);
            &&& after.len() == cells.len()
            &&& after[q].cell_type == cells[q].cell_type
            &&& after[q].volume == cells[q].volume
            &&& sum_ints(vols_of(after)) == sum_ints(vols_of(cells))
        }),
    decreases n,
{
    if n > 0 {
        lemma_steps_solid_fixed(size, cells, mf, gravity, (n - 1) as nat, q);
        let before = step_cells_n(size, cells, mf, gravity, (n - 1) as nat);
        assert forall|r: int| 0 <= r < before.len() implies #[trigger] before[r].cell_type
            == cells[r].cell_type by {
            lemma_steps_cells_types(size, cells, mf, gravity, (n - 1) as nat, r);
        }
        lemma_step_cells_faithful(size, before, mf, gravity);
        lemma_step_solid_fixed(size, before, mf, gravity, q);
        assert(step_cells_n(size, cells, mf, gravity, n)[q].volume as int == step_vols(
            size,
            before,
            mf,
            gravity,
        )[q]);
    }
}

/// Across any number of steps, every cell keeps its type: a step moves
/// volume only.
pub proof fn lemma_steps_cells_types(
    size: V3I,
    cells: Seq<Cell>,
    mf: int,
    gravity: bool,
    n: nat,
    q: int,
)
    requires
        0 <= q < cells.len(),
    ensures
        step_cells_n(size, cells, mf, gravity, n).len() == cells.len(),
        step_cells_n(size, cells, mf, gravity, n)[q].cell_type == cells[q].cell_type,
    decreases n,
{
    if n > 0 {
        lemma_steps_cells_types(size, cells, mf, gravity, (n - 1) as nat, q);
    }
}

// ---------------------------------------------------------------------------
// Equilibrium idempotence.
// ---------------------------------------------------------------------------
/// The count of open horizontal neighbours lies between 0 and 4.
proof fn lemma_nb_count_range(size: V3I, cells: Seq<Cell>, x: int, y: int, z: int, k: int)
    requires
        0 <= k <= 4,
    ensures
        0 <= nb_count_from(size, cells, x, y, z, k) <= 4 - k,
    decreases 4 - k,
{
    if k < 4 {
        lemma_nb_count_range(size, cells, x, y, z, k + 1);
    }
}

/// When every fluid cell holds volume `v`, the open-neighbour sum is `v`
/// times the open-neighbour count.
proof fn lemma_uniform_nb_sum(
    size: V3I,
    cells: Seq<Cell>,
    x: int,
    y: int,
    z: int,
    v: int,
    k: int,
)
    requires
        wf_size(size),
        cells.len() == grid_len(size),
        0 <= k <= 4,
        forall|q: int|
            0 <= q < cells.len() && cells[q].cell_type == 0 ==> #[trigger] cells[q].volume as int
                == v,
    ensures
        nb_sum_from(size, cells, x, y, z, k) == v * nb_count_from(size, cells, x, y, z, k),
    decreases 4 - k,
{
    if k < 4 {
        lemma_uniform_nb_sum(size, cells, x, y, z, v, k + 1);
        let nx = x + crate::flow::hdir_dx(k);
        let nz = z + crate::flow::hdir_dz(k);
        let c1 = nb_count_from(size, cells, x, y, z, k + 1);
        if nb_open(size, cells, nx, y, nz) {
            lemma_index_bounds(size, nx, y, nz);
            assert(vol3(size, cells, nx, y, nz) == v);
            assert(v * (c1 + 1) == v * c1 + v) by (nonlinear_arith);
        }
    } else {
        assert(v * 0 == 0) by (nonlinear_arith);
    }
}

/// When every flow of a horizontal pass is clamped to zero — the target
/// equals every open neighbour's volume — the pass changes nothing.
proof fn lemma_hpass_uniform(
    size: V3I,
    cells: Seq<Cell>,
    x: int,
    y: int,
    z: int,
    v: int,
    mf: int,
    k: int,
    cur: Seq<int>,
    rem: int,
)
    requires
        wf_size(size),
        cells.len() == grid_len(size),
        cur.len() == grid_len(size),
        0 <= k <= 4,
        rem >= 0,
        mf >= 0,
        forall|q: int|
            0 <= q < cells.len() && cells[q].cell_type == 0 ==> #[trigger] cells[q].volume as int
                == v,
    ensures
        hpass(size, cells, x, y, z, v, mf, k, cur, rem) == (cur, rem),
    decreases 4 - k,
{
    if k < 4 {
        let nx = x + crate::flow::hdir_dx(k);
        let nz = z + crate::flow::hdir_dz(k);
        if nb_open(size, cells, nx, y, nz) {
            lemma_index_bounds(size, nx, y, nz);
            let ni = index3(size, nx, y, nz);
            assert(clamp_flow(v - vol3(size, cells, nx, y, nz), rem, mf) == 0);
            assert(cur.update(ni, cur[ni] + 0) =~= cur);
        }
        lemma_hpass_uniform(size, cells, x, y, z, v, mf, k + 1, cur, rem);
    }
}

/// Servicing any one cell of a uniform grid changes nothing: the target
/// equals the current volume everywhere, so every flow clamps to zero. In
/// the gravity variant the cells must hold at least one full unit each, so
/// that the downward flow clamps to zero as well.
proof fn lemma_process_cell_uniform(
    size: V3I,
    cells: Seq<Cell>,
    cur: Seq<int>,
    x: int,
    y: int,
    z: int,
    mf: int,
    gravity: bool,
    v: int,
)
    requires
        wf_size(size),
        cells.len() == grid_len(size),
        cur.len() == grid_len(size),
        in_bounds3(size, x, y, z),
        mf >= 0,
        gravity ==> v >= crate::flow::UNIT as int,
        forall|q: int|
            0 <= q < cells.len() && cells[q].cell_type == 0 ==> #[trigger] cells[q].volume as int
                == v,
    ensures
        process_cell(size, cells, cur, x, y, z, mf, gravity) == cur,
{
    let ip = index3(size, x, y, z);
    lemma_index_bounds(size, x, y, z);
    let c = cells[ip];
    if c.cell_type == 0 {
        if gravity && nb_open(size, cells, x, y - 1, z) {
            lemma_index_bounds(size, x, y - 1, z);
            let bi = index3(size, x, y - 1, z);
            assert(crate::flow::gravity_flow(size, cells, x, y, z, mf) == 0);
            assert(cur.update(bi, cur[bi] + 0) =~= cur);
        }
        let rem0 = c.volume as int;
        assert(rem0 == v);
        if rem0 > 0 {
            let cnt = nb_count_from(size, cells, x, y, z, 0);
            lemma_nb_count_range(size, cells, x, y, z, 0);
            lemma_uniform_nb_sum(size, cells, x, y, z, v, 0);
            assert(rem0 + nb_sum_from(size, cells, x, y, z, 0) == (1 + cnt) * v)
                by (nonlinear_arith)
                requires
                    rem0 == v,
                    nb_sum_from(size, cells, x, y, z, 0) == v * cnt,
            ;
            lemma_div_multiples_vanish(v, 1 + cnt);
            assert(target_volume(size, cells, x, y, z, rem0) == v);
            lemma_hpass_uniform(size, cells, x, y, z, v, mf, 0, cur, rem0);
        }
        assert(cur.update(ip, cur[ip] + 0) =~= cur);
    }
}

/// Equilibrium idempotence: under the base rule, if every fluid cell holds
/// one same volume `v`, a step leaves every volume unchanged — each cell's
/// target already equals its current volume. The same holds for the gravity
/// variant once every fluid cell holds at least one full unit, so the
/// downward flow clamps to zero too. (Below one unit the gravity variant is
/// not idempotent: a part-filled cell above an open one still sends volume
/// down.)
pub proof fn lemma_step_equilibrium(
    size: V3I,
    cells: Seq<Cell>,
    mf: int,
    gravity: bool,
    v: int,
)
    requires
        wf_size(size),
        cells.len() == grid_len(size),
        mf >= 0,
        gravity ==> v >= crate::flow::UNIT as int,
        forall|q: int|
            0 <= q < cells.len() && cells[q].cell_type == 0 ==> #[trigger] cells[q].volume as int
                == v,
    ensures
        step_vols(size, cells, mf, gravity) == vols_of(cells),
{
    lemma_step_upto_equilibrium(size, cells, mf, gravity, v, grid_len(size));
}

proof fn lemma_step_upto_equilibrium(
    size: V3I,
    cells: Seq<Cell>,
    mf: int,
    gravity: bool,
    v: int,
    n: int,
)
    requires
        wf_size(size),
        cells.len() == grid_len(size),
        0 <= n <= grid_len(size),
        mf >= 0,
        gravity ==> v >= crate::flow::UNIT as int,
        forall|q: int|
            0 <= q < cells.len() && cells[q].cell_type == 0 ==> #[trigger] cells[q].volume as int
                == v,
    ensures
        step_upto(size, cells, mf, gravity, n) == vols_of(cells),
    decreases n,
{
    if n > 0 {
        lemma_step_upto_equilibrium(size, cells, mf, gravity, v, n - 1);
        lemma_index_of_coords(size, n - 1);
        lemma_process_cell_uniform(
            size,
            cells,
            vols_of(cells),
            crate::flow::coord_x(size, n - 1),
            crate::flow::coord_y(size, n - 1),
            crate::flow::coord_z(size, n - 1),
            mf,
            gravity,
            v,
        );
    }
}

} // verus!
