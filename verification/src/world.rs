//! The voxel grid: a flat, row-major container of cells sized by a 3-vector.

use vstd::prelude::*;

use crate::cell::Cell;
use crate::v3i::V3I;

verus! {

/// Mathematical image of a [`World`]: its size, its cells as a sequence in
/// row-major order (`z` fastest-varying), and the diagnostic tick rate.
#[verifier::ext_equal]
pub ghost struct WorldView {
    pub size: V3I,
    pub cells: Seq<Cell>,
    pub physics_fps: u64,
}

/// Number of cells a grid of this size holds.
pub open spec fn grid_len(size: V3I) -> int {
    size.x * size.y * size.z
}

/// A usable grid size: no negative extent, and small enough that every
/// row-major index fits the machine arithmetic of the accessors.
pub open spec fn wf_size(size: V3I) -> bool {
    &&& 0 <= size.x
    &&& 0 <= size.y
    &&& 0 <= size.z
    &&& 0 <= size.x * size.y <= i32::MAX
    &&& 0 <= size.x * size.y * size.z <= i32::MAX
}

/// Whether the position `(x, y, z)` lies inside a grid of the given size.
pub open spec fn in_bounds3(size: V3I, x: int, y: int, z: int) -> bool {
    &&& 0 <= x < size.x
    &&& 0 <= y < size.y
    &&& 0 <= z < size.z
}

/// Row-major index of the position `(x, y, z)`, `z` fastest-varying.
pub open spec fn index3(size: V3I, x: int, y: int, z: int) -> int {
    x * size.y * size.z + y * size.z + z
}

/// Whether the coordinate `v` lies inside a grid of the given size.
pub open spec fn in_bounds(size: V3I, v: V3I) -> bool {
    in_bounds3(size, v.x as int, v.y as int, v.z as int)
}

/// Row-major index of the coordinate `v`.
pub open spec fn cell_index(size: V3I, v: V3I) -> int {
    index3(size, v.x as int, v.y as int, v.z as int)
}

/// The row-major index of an in-bounds position is itself in bounds, and so
/// are the partial products and sums the accessors compute on the way there.
pub proof fn lemma_index_bounds(size: V3I, x: int, y: int, z: int)
    requires
        wf_size(size),
        in_bounds3(size, x, y, z),
    ensures
        0 <= index3(size, x, y, z) < grid_len(size),
        0 <= x * size.y <= i32::MAX,
        0 <= x * size.y * size.z,
        0 <= y * size.z,
        x * size.y * size.z + y * size.z >= 0,
{
    assert(0 <= index3(size, x, y, z) < grid_len(size) && 0 <= x * size.y <= i32::MAX && 0 <= x
        * size.y * size.z && 0 <= y * size.z && x * size.y * size.z + y * size.z >= 0)
        by (nonlinear_arith)
        requires
            0 <= x < size.x,
            0 <= y < size.y,
            0 <= z < size.z,
            0 <= size.x * size.y <= i32::MAX,
            0 <= size.x * size.y * size.z <= i32::MAX,
    ;
}

impl WorldView {
    /// Well-formedness: the size is usable and the cell sequence has exactly
    /// one entry per in-bounds coordinate.
    pub open spec fn wf(&self) -> bool {
        &&& wf_size(self.size)
        &&& self.cells.len() == grid_len(self.size)
    }
}

/// The full 3D array of cells plus its size. A grid never resizes after
/// creation; each simulation tick produces a brand-new grid value.
/// `physics_fps` is a diagnostic updated once per completed tick, not part of
/// the physical model.
pub struct World {
    size: V3I,
    cells: Vec<Cell>,
    pub physics_fps: u64,
}

impl View for World {
    type V = WorldView;

    closed spec fn view(&self) -> WorldView {
        WorldView { size: self.size, cells: self.cells@, physics_fps: self.physics_fps }
    }
}

impl World {
    pub open spec fn wf(&self) -> bool {
        self@.wf()
    }

    /// Allocates a grid of default cells: fluid type, no volume.
    pub fn create(size: V3I) -> (w: World)
        requires
            wf_size(size),
        ensures
            w.wf(),
            w@.size == size,
            w@.physics_fps == 0,
            forall|i: int|
                0 <= i < grid_len(size) ==> w@.cells[i] == (Cell { cell_type: 0usize, volume: 0u64 }),
    {
        let n = (size.x * size.y * size.z) as usize;
        let mut cells: Vec<Cell> = Vec::new();
        let mut i: usize = 0;
        while i < n
            invariant
                i <= n,
                cells@.len() == i,
                forall|k: int| 0 <= k < i ==> cells@[k] == (Cell { cell_type: 0usize, volume: 0u64 }),
            decreases n - i,
        {
            cells.push(Cell::empty());
            i = i + 1;
        }
        World { size, cells, physics_fps: 0 }
    }

    /// The fixed size this grid was created with.
    pub fn size(&self) -> (s: V3I)
        ensures
            s == self@.size,
    {
        self.size
    }

    /// The cell at `v`, or nothing when `v` lies outside the grid. Grid
    /// boundaries are a normal condition, never a fault: a missing neighbour
    /// is simply excluded from averaging.
    pub fn get(&self, v: V3I) -> (r: Option<Cell>)
        requires
            self.wf(),
        ensures
            r == (if in_bounds(self@.size, v) {
                Some(self@.cells[cell_index(self@.size, v)])
            } else {
                None::<Cell>
            }),
    {
        let size = self.size;
        if v.x < size.x && v.y < size.y && v.z < size.z && v.x >= 0 && v.y >= 0 && v.z >= 0 {
            Some(self.get_unsafe(v))
        } else {
            None
        }
    }

    /// The cell at `v`. The caller must guarantee that `v` is in bounds;
    /// there is no runtime recovery for a violation.
    pub fn get_unsafe(&self, v: V3I) -> (c: Cell)
        requires
            self.wf(),
            in_bounds(self@.size, v),
        ensures
            c == self@.cells[cell_index(self@.size, v)],
    {
        proof {
            lemma_index_bounds(self@.size, v.x as int, v.y as int, v.z as int);
        }
        let size = self.size;
        let i = (v.x * size.y * size.z + v.y * size.z + v.z) as usize;
        self.cells[i]
    }

    /// Replaces the cell at `v` when `v` is in bounds; out-of-range writes
    /// are dropped silently, by design.
    pub fn update(&mut self, v: V3I, c: Cell)
        requires
            old(self).wf(),
        ensures
            final(self).wf(),
            final(self)@.size == old(self)@.size,
            final(self)@.physics_fps == old(self)@.physics_fps,
            final(self)@.cells == (if in_bounds(old(self)@.size, v) {
                old(self)@.cells.update(cell_index(old(self)@.size, v), c)
            } else {
                old(self)@.cells
            }),
    {
        let size = self.size;
        if v.x < size.x && v.y < size.y && v.z < size.z && v.x >= 0 && v.y >= 0 && v.z >= 0 {
            proof {
                lemma_index_bounds(self@.size, v.x as int, v.y as int, v.z as int);
            }
            let i = (v.x * size.y * size.z + v.y * size.z + v.z) as usize;
            self.cells[i] = c;
        }
    }

    /// The summed volume of every cell. A sum of 64-bit volumes always fits
    /// 128 bits, so no grid is too full to total.
    pub fn total_volume(&self) -> (r: u128)
        ensures
            r as int == crate::flow::sum_ints(crate::flow::vols_of(self@.cells)),
    {
        let ghost vs = crate::flow::vols_of(self@.cells);
        let n = self.cells.len();
        let mut acc: u128 = 0;
        let mut i: usize = 0;
        while i < n
            invariant
                i <= n,
                n == self.cells@.len(),
                vs == crate::flow::vols_of(self@.cells),
                acc as int == crate::flow::sum_ints(vs.subrange(0, i as int)),
                acc as int <= (i as int) * (u64::MAX as int),
            decreases n - i,
        {
            proof {
                assert(((i + 1) as int) * (u64::MAX as int) == (i as int) * (u64::MAX as int)
                    + u64::MAX as int) by (nonlinear_arith);
                assert(((i + 1) as int) * (u64::MAX as int) <= 0x1_0000_0000_0000_0000int * (
                u64::MAX as int)) by (nonlinear_arith)
                    requires
                        0 <= (i + 1) as int <= 0x1_0000_0000_0000_0000int,
                ;
                assert(vs.subrange(0, i as int + 1).drop_last() =~= vs.subrange(0, i as int));
            }
            acc = acc + (self.cells[i].volume as u128);
            i = i + 1;
        }
        proof {
            assert(vs.subrange(0, n as int) =~= vs);
        }
        acc
    }

    /// Stamps the diagnostic tick rate; the cells and the size are untouched.
    pub fn set_tick_rate(&mut self, ticks_per_second: u64)
        ensures
            final(self)@ == (WorldView { physics_fps: ticks_per_second, ..old(self)@ }),
    {
        self.physics_fps = ticks_per_second;
    }

    /// A full deep copy, used once per tick as the writable target that the
    /// diffusion step fills in from the read-only source.
    pub fn duplicate(&self) -> (w: World)
        ensures
            w@ == self@,
    {
        let n = self.cells.len();
        let mut cells: Vec<Cell> = Vec::new();
        let mut i: usize = 0;
        while i < n
            invariant
                i <= n,
                n == self.cells@.len(),
                cells@.len() == i,
                forall|k: int| 0 <= k < i ==> cells@[k] == self.cells@[k],
            decreases n - i,
        {
            cells.push(self.cells[i]);
            i = i + 1;
        }
        let w = World { size: self.size, cells, physics_fps: self.physics_fps };
        proof {
            assert(w@.cells =~= self@.cells);
            assert(w@ =~= self@);
        }
        w
    }
}

} // verus!
