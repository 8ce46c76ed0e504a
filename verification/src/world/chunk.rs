use vstd::prelude::*;

use crate::world::block::Block;

verus! {

/// The largest extent a chunk may have along one axis.
pub const MAX_CHUNK_EXTENT: usize = 0xFFFF_FFFF;

/// Unique decomposition of a mixed-radix number: if `low` digits lie below
/// `radix`, equal values have equal digits.
proof fn lemma_mixed_radix_unique(a1: int, b1: int, a2: int, b2: int, radix: int)
    requires
        0 <= a1 < radix,
        0 <= a2 < radix,
        0 <= b1,
        0 <= b2,
        a1 + radix * b1 == a2 + radix * b2,
    ensures
        a1 == a2,
        b1 == b2,
{
    if b1 < b2 {
        assert(radix * b2 == radix * b1 + radix * (b2 - b1)) by (nonlinear_arith);
        assert(radix * (b2 - b1) >= radix) by (nonlinear_arith)
            requires
                b2 - b1 >= 1,
                radix > 0,
        ;
    } else if b2 < b1 {
        assert(radix * b1 == radix * b2 + radix * (b1 - b2)) by (nonlinear_arith);
        assert(radix * (b1 - b2) >= radix) by (nonlinear_arith)
            requires
                b1 - b2 >= 1,
                radix > 0,
        ;
    }
}

/// A digit below `radix` plus `radix` times a number below `bound` stays
/// below `radix * bound`.
pub(crate) proof fn lemma_mixed_radix_bound(a: int, b: int, radix: int, bound: int)
    requires
        0 <= a < radix,
        0 <= b < bound,
    ensures
        0 <= a + radix * b < radix * bound,
        radix * b <= radix * bound,
{
    assert(radix * b <= radix * (bound - 1)) by (nonlinear_arith)
        requires
            0 <= b <= bound - 1,
            radix > 0,
    ;
    assert(radix * (bound - 1) == radix * bound - radix) by (nonlinear_arith);
    assert(0 <= radix * b) by (nonlinear_arith)
        requires
            0 <= b,
            radix > 0,
    ;
}

/// A box of blocks: `size_x * size_y * size_z` cells at chunk coordinates
/// `offset` in the world grid of chunks.
#[derive(Debug)]
pub struct Chunk {
    offset_x: i32,
    offset_y: i32,
    offset_z: i32,
    size_x: usize,
    size_y: usize,
    size_z: usize,
    blocks: Vec<Block>,
}

impl Chunk {
    pub closed spec fn sx(&self) -> nat {
        self.size_x as nat
    }

    pub closed spec fn sy(&self) -> nat {
        self.size_y as nat
    }

    pub closed spec fn sz(&self) -> nat {
        self.size_z as nat
    }

    pub closed spec fn ox(&self) -> int {
        self.offset_x as int
    }

    pub closed spec fn oy(&self) -> int {
        self.offset_y as int
    }

    pub closed spec fn oz(&self) -> int {
        self.offset_z as int
    }

    /// The storage holds one block per cell.
    pub closed spec fn wf(&self) -> bool {
        &&& self.blocks@.len() == self.size_x * self.size_y * self.size_z
        &&& self.size_x <= MAX_CHUNK_EXTENT
        &&& self.size_y <= MAX_CHUNK_EXTENT
        &&& self.size_z <= MAX_CHUNK_EXTENT
    }

    /// Every extent of a well-formed chunk is at most `MAX_CHUNK_EXTENT`.
    pub proof fn lemma_extent_bounded(&self)
        requires
            self.wf(),
        ensures
            self.sx() <= MAX_CHUNK_EXTENT,
            self.sy() <= MAX_CHUNK_EXTENT,
            self.sz() <= MAX_CHUNK_EXTENT,
    {
    }

    /// Whether `(x, y, z)` is a cell of this chunk.
    pub open spec fn in_bounds(&self, x: int, y: int, z: int) -> bool {
        &&& 0 <= x < self.sx()
        &&& 0 <= y < self.sy()
        &&& 0 <= z < self.sz()
    }

    spec fn index_of(&self, x: int, y: int, z: int) -> int {
        x + self.size_x * (y + self.size_y * z)
    }

    /// The block in cell `(x, y, z)`.
    pub closed spec fn at(&self, x: int, y: int, z: int) -> Block {
        self.blocks@[self.index_of(x, y, z)]
    }

    /// The world coordinate of the chunk's lowest layer.
    pub open spec fn spec_world_y(&self) -> int {
        self.oy() * self.sy()
    }

    /// Same offset and extent; only the blocks may differ.
    pub open spec fn same_shape(&self, other: &Chunk) -> bool {
        &&& self.sx() == other.sx()
        &&& self.sy() == other.sy()
        &&& self.sz() == other.sz()
        &&& self.ox() == other.ox()
        &&& self.oy() == other.oy()
        &&& self.oz() == other.oz()
    }

    proof fn lemma_index_in_range(&self, x: int, y: int, z: int)
        requires
            self.wf(),
            self.in_bounds(x, y, z),
        ensures
            0 <= self.index_of(x, y, z) < self.blocks@.len(),
            self.size_y * z + y < self.size_y * self.size_z,
            self.size_y * self.size_z <= self.blocks@.len(),
    {
        lemma_mixed_radix_bound(y, z, self.size_y as int, self.size_z as int);
        lemma_mixed_radix_bound(
            x,
            y + self.size_y * z,
            self.size_x as int,
            self.size_y * self.size_z,
        );
        assert(self.size_x * (self.size_y * self.size_z) == self.size_x * self.size_y
            * self.size_z) by (nonlinear_arith);
        assert(self.size_y * self.size_z <= self.size_x * (self.size_y * self.size_z))
            by (nonlinear_arith)
            requires
                self.size_x >= 1,
                self.size_y * self.size_z >= 0,
        ;
    }

    proof fn lemma_index_injective(&self, x1: int, y1: int, z1: int, x2: int, y2: int, z2: int)
        requires
            self.wf(),
            self.in_bounds(x1, y1, z1),
            self.in_bounds(x2, y2, z2),
            self.index_of(x1, y1, z1) == self.index_of(x2, y2, z2),
        ensures
            x1 == x2 && y1 == y2 && z1 == z2,
    {
        assert(0 <= self.size_y * z1) by (nonlinear_arith)
            requires
                0 <= z1,
        ;
        assert(0 <= self.size_y * z2) by (nonlinear_arith)
            requires
                0 <= z2,
        ;
        lemma_mixed_radix_unique(
            x1,
            y1 + self.size_y * z1,
            x2,
            y2 + self.size_y * z2,
            self.size_x as int,
        );
        lemma_mixed_radix_unique(y1, z1, y2, z2, self.size_y as int);
    }

    fn index(&self, x: usize, y: usize, z: usize) -> (i: usize)
        requires
            self.wf(),
            self.in_bounds(x as int, y as int, z as int),
        ensures
            i as int == self.index_of(x as int, y as int, z as int),
            i < self.blocks@.len(),
    {
        proof {
            assert(self.blocks@.len() == self.blocks.len());
            self.lemma_index_in_range(x as int, y as int, z as int);
            lemma_mixed_radix_bound(x as int, y + self.size_y * z, self.size_x as int, self.size_y * self.size_z);
            assert(self.size_y * z <= self.size_y * z + y);
        }
        let column = y + self.size_y * z;
        x + self.size_x * column
    }

    /// The position of cell `(x, y, z)` when the cells are listed with `x`
    /// fastest, then `y`, then `z`.
    pub open spec fn cell_index(&self, x: int, y: int, z: int) -> int {
        x + self.sx() * (y + self.sy() * z)
    }

    /// The number of cells.
    pub open spec fn volume_spec(&self) -> nat {
        self.sx() * self.sy() * self.sz()
    }

    /// The position of every cell lies below the number of cells.
    pub proof fn lemma_cell_index_in_range(&self, x: int, y: int, z: int)
        requires
            self.wf(),
            self.in_bounds(x, y, z),
        ensures
            0 <= self.cell_index(x, y, z) < self.volume_spec(),
    {
        self.lemma_index_in_range(x, y, z);
    }

    /// Distinct cells have distinct positions in the listing of all cells.
    pub proof fn lemma_cell_index_injective(&self, x1: int, y1: int, z1: int, x2: int, y2: int, z2: int)
        requires
            self.wf(),
            self.in_bounds(x1, y1, z1),
            self.in_bounds(x2, y2, z2),
            self.cell_index(x1, y1, z1) == self.cell_index(x2, y2, z2),
        ensures
            x1 == x2 && y1 == y2 && z1 == z2,
    {
        self.lemma_index_injective(x1, y1, z1, x2, y2, z2);
    }

    /// The number of cells.
    pub fn volume(&self) -> (n: usize)
        requires
            self.wf(),
        ensures
            n == self.volume_spec(),
    {
        self.blocks.len()
    }

    /// The position of cell `(x, y, z)` in the listing of all cells, `x`
    /// fastest, then `y`, then `z`.
    pub fn cell_index_of(&self, x: usize, y: usize, z: usize) -> (i: usize)
        requires
            self.wf(),
            self.in_bounds(x as int, y as int, z as int),
        ensures
            i == self.cell_index(x as int, y as int, z as int),
            i < self.volume_spec(),
    {
        self.index(x, y, z)
    }

    /// A chunk at chunk coordinates `(offset_x, offset_y, offset_z)` with the
    /// given extent, filled with air.
    pub fn new(
        offset_x: i32,
        offset_y: i32,
        offset_z: i32,
        size_x: usize,
        size_y: usize,
        size_z: usize,
    ) -> (chunk: Chunk)
        requires
            size_x <= MAX_CHUNK_EXTENT,
            size_y <= MAX_CHUNK_EXTENT,
            size_z <= MAX_CHUNK_EXTENT,
            size_x * size_y * size_z <= usize::MAX,
        ensures
            chunk.wf(),
            chunk.sx() == size_x,
            chunk.sy() == size_y,
            chunk.sz() == size_z,
            chunk.ox() == offset_x,
            chunk.oy() == offset_y,
            chunk.oz() == offset_z,
            forall|x: int, y: int, z: int|
                chunk.in_bounds(x, y, z) ==> #[trigger] chunk.at(x, y, z) == Block::Air,
    {
        assert(size_x * size_y <= size_x * size_y * size_z || size_z == 0) by (nonlinear_arith);
        let total: usize = if size_z == 0 {
            0
        } else {
            assert(size_x * size_y <= size_x * size_y * size_z) by (nonlinear_arith)
                requires
                    size_z >= 1,
            ;
            size_x * size_y * size_z
        };
        assert(total == size_x * size_y * size_z) by (nonlinear_arith)
            requires
                size_z == 0 ==> total == 0,
                size_z != 0 ==> total == size_x * size_y * size_z,
        ;
        let mut blocks: Vec<Block> = Vec::new();
        let mut i: usize = 0;
        while i < total
            invariant
                i <= total,
                blocks@.len() == i,
                forall|j: int| 0 <= j < i ==> blocks@[j] == Block::Air,
            decreases total - i,
        {
            blocks.push(Block::Air);
            i = i + 1;
        }
        let chunk = Chunk { offset_x, offset_y, offset_z, size_x, size_y, size_z, blocks };
        assert forall|x: int, y: int, z: int| chunk.in_bounds(x, y, z) implies #[trigger] chunk.at(
            x,
            y,
            z,
        ) == Block::Air by {
            chunk.lemma_index_in_range(x, y, z);
        }
        chunk
    }

    pub fn size_x(&self) -> (n: usize)
        ensures
            n == self.sx(),
    {
        self.size_x
    }

    pub fn size_y(&self) -> (n: usize)
        ensures
            n == self.sy(),
    {
        self.size_y
    }

    pub fn size_z(&self) -> (n: usize)
        ensures
            n == self.sz(),
    {
        self.size_z
    }

    /// The chunk coordinates of this chunk.
    pub fn offset(&self) -> (o: (i32, i32, i32))
        ensures
            o.0 == self.ox(),
            o.1 == self.oy(),
            o.2 == self.oz(),
    {
        (self.offset_x, self.offset_y, self.offset_z)
    }

    /// The world coordinate of the chunk's lowest layer: its vertical chunk
    /// coordinate times its height.
    pub fn world_y(&self) -> (y: i64)
        requires
            self.wf(),
        ensures
            y == self.spec_world_y(),
    {
        assert(-0x8000_0000_0000_0000 <= self.offset_y * self.size_y <= 0x7FFF_FFFF_FFFF_FFFF)
            by (nonlinear_arith)
            requires
                -0x8000_0000 <= self.offset_y < 0x8000_0000,
                0 <= self.size_y <= 0xFFFF_FFFF,
        ;
        (self.offset_y as i64) * (self.size_y as i64)
    }

    /// Whether `(x, y, z)` is a cell of this chunk.
    pub fn check_index(&self, x: i64, y: i64, z: i64) -> (inside: bool)
        ensures
            inside == self.in_bounds(x as int, y as int, z as int),
    {
        0 <= x && 0 <= y && 0 <= z && (x as u64) < (self.size_x as u64) && (y as u64) < (
        self.size_y as u64) && (z as u64) < (self.size_z as u64)
    }

    /// The block in cell `(x, y, z)`.
    pub fn get(&self, x: usize, y: usize, z: usize) -> (b: Block)
        requires
            self.wf(),
            self.in_bounds(x as int, y as int, z as int),
        ensures
            b == self.at(x as int, y as int, z as int),
    {
        let i = self.index(x, y, z);
        self.blocks[i]
    }

    /// Puts `b` in cell `(x, y, z)`; every other cell keeps its block.
    pub fn set(&mut self, x: usize, y: usize, z: usize, b: Block)
        requires
            old(self).wf(),
            old(self).in_bounds(x as int, y as int, z as int),
        ensures
            final(self).wf(),
            final(self).same_shape(&*old(self)),
            final(self).at(x as int, y as int, z as int) == b,
            forall|i: int, j: int, k: int|
                old(self).in_bounds(i, j, k) && !(i == x && j == y && k == z)
                    ==> #[trigger] final(self).at(i, j, k) == old(self).at(i, j, k),
    {
        let idx = self.index(x, y, z);
        self.blocks.set(idx, b);
        proof {
            assert forall|i: int, j: int, k: int|
                old(self).in_bounds(i, j, k) && !(i == x && j == y && k == z) implies #[trigger] self.at(
                i,
                j,
                k,
            ) == old(self).at(i, j, k) by {
                old(self).lemma_index_in_range(i, j, k);
                if old(self).index_of(i, j, k) == idx as int {
                    old(self).lemma_index_injective(i, j, k, x as int, y as int, z as int);
                }
            }
        }
    }

    /// Puts `b` in every cell.
    pub fn fill(&mut self, b: Block)
        requires
            old(self).wf(),
        ensures
            final(self).wf(),
            final(self).same_shape(&*old(self)),
            forall|x: int, y: int, z: int|
                final(self).in_bounds(x, y, z) ==> #[trigger] final(self).at(x, y, z) == b,
    {
        let n = self.blocks.len();
        let mut i: usize = 0;
        while i < n
            invariant
                i <= n,
                n == self.blocks@.len(),
                self.wf(),
                self.same_shape(&*old(self)),
                forall|j: int| 0 <= j < i ==> self.blocks@[j] == b,
            decreases n - i,
        {
            self.blocks.set(i, b);
            i = i + 1;
        }
        proof {
            assert forall|x: int, y: int, z: int| self.in_bounds(x, y, z) implies #[trigger] self.at(
                x,
                y,
                z,
            ) == b by {
                self.lemma_index_in_range(x, y, z);
            }
        }
    }

    /// Puts `b` in the cells `(x, y, z)` with `from <= y < to`; every other
    /// cell keeps its block.
    pub fn fill_column(&mut self, x: usize, z: usize, from: usize, to: usize, b: Block)
        requires
            old(self).wf(),
            0 <= x < old(self).sx(),
            0 <= z < old(self).sz(),
            from <= to <= old(self).sy(),
        ensures
            final(self).wf(),
            final(self).same_shape(&*old(self)),
            forall|i: int, j: int, k: int|
                old(self).in_bounds(i, j, k) ==> #[trigger] final(self).at(i, j, k) == (if i == x
                    && k == z && from <= j < to {
                    b
                } else {
                    old(self).at(i, j, k)
                }),
    {
        let mut y = from;
        while y < to
            invariant
                from <= y <= to,
                to <= old(self).sy(),
                0 <= x < old(self).sx(),
                0 <= z < old(self).sz(),
                self.wf(),
                self.same_shape(&*old(self)),
                forall|i: int, j: int, k: int|
                    old(self).in_bounds(i, j, k) ==> #[trigger] self.at(i, j, k) == (if i == x && k
                        == z && from <= j < y {
                        b
                    } else {
                        old(self).at(i, j, k)
                    }),
            decreases to - y,
        {
            self.set(x, y, z, b);
            y = y + 1;
        }
    }
}

} // verus!
