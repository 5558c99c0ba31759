use vstd::prelude::*;

verus! {

/// Largest side length a grid may have. It keeps every cell index, the
/// 4·side·side byte budget and the noise coordinate arithmetic comfortably
/// inside machine integers.
pub const MAX_SIDE: usize = 4096;

/// Side length of the chunk that `zero` builds.
pub const SQUARE: usize = 128;

/// Why a grid operation was refused.
#[derive(Clone, Copy, Debug, PartialEq, Eq)]
pub enum GridError {
    /// A side length of zero was requested.
    SideZero,
    /// A side length above `MAX_SIDE` was requested.
    SideTooLarge,
    /// A cell outside the grid was addressed.
    OutOfBounds,
    /// A byte buffer of the wrong length was offered for decoding.
    BufferSize,
}

/// A square grid of height samples.
///
/// Each cell holds the IEEE-754 bit pattern of a 32-bit float. The grid never
/// does float arithmetic itself: it stores, serves and serializes the
/// patterns, and callers that want the numeric value reinterpret the bits.
/// Cells are kept row-major: cell (x, y) lives at index y·side + x.
pub struct TerrainChunk {
    side: usize,
    cells: Vec<u32>,
}

impl View for TerrainChunk {
    type V = Seq<u32>;

    closed spec fn view(&self) -> Seq<u32> {
        self.cells@
    }
}

impl TerrainChunk {
    /// The side length, as a mathematical number.
    pub closed spec fn side_spec(&self) -> nat {
        self.side as nat
    }

    /// A grid is well formed when its side is positive and within `MAX_SIDE`,
    /// and the backing storage holds exactly side·side cells.
    pub open spec fn wf(&self) -> bool {
        1 <= self.side_spec()
            && self.side_spec() <= MAX_SIDE as nat
            && self@.len() == self.side_spec() * self.side_spec()
    }

    /// The bit pattern stored at cell (x, y).
    pub open spec fn at(&self, x: int, y: int) -> u32 {
        self@[y * self.side_spec() as int + x]
    }

    /// The number of cells in the backing storage.
    pub(crate) fn len_cells(&self) -> (r: usize)
        ensures
            r == self@.len(),
    {
        self.cells.len()
    }

    /// Reads the cell at a flat row-major index.
    pub(crate) fn cell_at(&self, i: usize) -> (r: u32)
        requires
            i < self@.len(),
        ensures
            r == self@[i as int],
    {
        self.cells[i]
    }

    /// Writes the cell at a flat row-major index.
    pub(crate) fn set_flat(&mut self, i: usize, bits: u32)
        requires
            i < old(self)@.len(),
        ensures
            final(self).side_spec() == old(self).side_spec(),
            final(self)@ == old(self)@.update(i as int, bits),
    {
        self.cells[i] = bits;
    }

    /// Allocates a zero-filled side×side grid; the bit pattern 0 encodes 0.0.
    pub(crate) fn zeros(side: usize) -> (r: TerrainChunk)
        requires
            1 <= side <= MAX_SIDE,
        ensures
            r.wf(),
            r.side_spec() == side,
            r@ == Seq::new((side * side) as nat, |i: int| 0u32),
    {
        proof {
            lemma_grid_index(0, (side - 1) as int, side as int);
        }
        let n: usize = side * side;
        let mut cells: Vec<u32> = Vec::with_capacity(n);
        let mut i: usize = 0;
        while i < n
            invariant
                i <= n,
                cells@.len() == i,
                forall|j: int| 0 <= j < i ==> cells@[j] == 0u32,
            decreases n - i,
        {
            cells.push(0u32);
            i = i + 1;
        }
        proof {
            assert(cells@ =~= Seq::new((side * side) as nat, |i: int| 0u32));
        }
        TerrainChunk { side, cells }
    }

    /// Builds a zero-filled square grid of the given side length, or reports
    /// exactly why the side length is unacceptable.
    pub fn create(side: usize) -> (r: Result<TerrainChunk, GridError>)
        ensures
            (1 <= side <= MAX_SIDE) <==> r is Ok,
            r matches Ok(g) ==> g.wf() && g.side_spec() == side && g@ == Seq::new(
                (side * side) as nat,
                |i: int| 0u32,
            ),
            side == 0 ==> r == Result::<TerrainChunk, GridError>::Err(GridError::SideZero),
            side > MAX_SIDE ==> r == Result::<TerrainChunk, GridError>::Err(
                GridError::SideTooLarge,
            ),
    {
        if side == 0 {
            Err(GridError::SideZero)
        } else if side > MAX_SIDE {
            Err(GridError::SideTooLarge)
        } else {
            Ok(Self::zeros(side))
        }
    }

    /// Builds the zero-filled `SQUARE`×`SQUARE` grid.
    pub fn zero() -> (r: TerrainChunk)
        ensures
            r.wf(),
            r.side_spec() == SQUARE,
            r@ == Seq::new((SQUARE * SQUARE) as nat, |i: int| 0u32),
    {
        Self::zeros(SQUARE)
    }

    /// The side length of the grid.
    pub fn side(&self) -> (r: usize)
        ensures
            r == self.side_spec(),
    {
        self.side
    }

    /// Writes the bit pattern at cell (x, y); every other cell is untouched.
    pub fn set(&mut self, x: usize, y: usize, bits: u32)
        requires
            old(self).wf(),
            x < old(self).side_spec(),
            y < old(self).side_spec(),
        ensures
            final(self).wf(),
            final(self).side_spec() == old(self).side_spec(),
            final(self)@ == old(self)@.update(
                y * old(self).side_spec() as int + x,
                bits,
            ),
            final(self).at(x as int, y as int) == bits,
    {
        proof {
            lemma_grid_index(x as int, y as int, self.side as int);
        }
        let i: usize = y * self.side + x;
        self.cells[i] = bits;
    }

    /// Reads the bit pattern at cell (x, y).
    pub fn get(&self, x: usize, y: usize) -> (r: u32)
        requires
            self.wf(),
            x < self.side_spec(),
            y < self.side_spec(),
        ensures
            r == self.at(x as int, y as int),
    {
        proof {
            lemma_grid_index(x as int, y as int, self.side as int);
        }
        let i: usize = y * self.side + x;
        self.cells[i]
    }

    /// Bounds-checked write: refuses any cell outside the grid and then
    /// leaves the grid unchanged.
    pub fn try_set(&mut self, x: usize, y: usize, bits: u32) -> (r: Result<(), GridError>)
        requires
            old(self).wf(),
        ensures
            final(self).wf(),
            final(self).side_spec() == old(self).side_spec(),
            (x < old(self).side_spec() && y < old(self).side_spec()) <==> r is Ok,
            r is Ok ==> final(self)@ == old(self)@.update(
                y * old(self).side_spec() as int + x,
                bits,
            ),
            r is Err ==> final(self)@ == old(self)@ && r == Result::<(), GridError>::Err(
                GridError::OutOfBounds,
            ),
    {
        if x < self.side && y < self.side {
            self.set(x, y, bits);
            Ok(())
        } else {
            Err(GridError::OutOfBounds)
        }
    }

    /// Bounds-checked read: `None` exactly when the cell is outside the grid.
    pub fn try_get(&self, x: usize, y: usize) -> (r: Option<u32>)
        requires
            self.wf(),
        ensures
            (x < self.side_spec() && y < self.side_spec()) <==> r is Some,
            r matches Some(bits) ==> bits == self.at(x as int, y as int),
    {
        if x < self.side && y < self.side {
            Some(self.get(x, y))
        } else {
            None
        }
    }
}

/// Row-major indexing stays inside the cell storage, and the storage size
/// stays inside machine integers.
pub(crate) proof fn lemma_grid_index(x: int, y: int, side: int)
    by (nonlinear_arith)
    requires
        0 <= x < side,
        0 <= y < side,
        side <= 4096,
    ensures
        0 <= y * side + x,
        y * side + x < side * side,
        side * side <= 16777216,
{
}

} // verus!
