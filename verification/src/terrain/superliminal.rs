use vstd::prelude::*;

use crate::engine::neighbors::{von_neumann3, von_neumann3_offsets};
use crate::engine::random::random_chance;
use crate::world::block::Block;
use crate::world::chunk::Chunk;

verus! {

/// Sparse blocks scattered over the faces of a chunk, leaving its inside
/// open.
#[derive(Debug)]
pub struct SuperLiminal;

/// Whether the face neighbour `k` of cell `(x, y, z)` lies outside `chunk`.
pub open spec fn neighbor_outside(chunk: &Chunk, x: int, y: int, z: int, k: int) -> bool {
    let d = von_neumann3_offsets()[k];
    !chunk.in_bounds(x + d.0, y + d.1, z + d.2)
}

/// Whether some face neighbour of cell `(x, y, z)` lies outside `chunk`.
pub open spec fn has_outside_neighbor(chunk: &Chunk, x: int, y: int, z: int) -> bool {
    exists|k: int| 0 <= k < 6 && #[trigger] neighbor_outside(chunk, x, y, z, k)
}

/// Whether cell `(x, y, z)` lies on a face of `chunk`.
pub open spec fn on_chunk_face(chunk: &Chunk, x: int, y: int, z: int) -> bool {
    x == 0 || x == chunk.sx() - 1 || y == 0 || y == chunk.sy() - 1 || z == 0 || z == chunk.sz()
        - 1
}

/// The blocks the super liminal biome scatters.
pub open spec fn is_scattered_block(b: Block) -> bool {
    b == Block::Light || b == Block::AlmondWater || b == Block::Plain || b == Block::Distressed1
        || b == Block::Corrupt1
}

/// Whether the super liminal biome may leave `after` in a cell that held
/// `before`: a cell on a face of the chunk keeps its block or gets a
/// scattered block; an inner cell keeps its block.
pub open spec fn superliminal_allows(before: Block, after: Block, on_face: bool) -> bool {
    if on_face {
        after == before || is_scattered_block(after)
    } else {
        after == before
    }
}

/// A cell of a chunk has a face neighbour outside the chunk exactly when it
/// lies on one of the chunk's faces.
pub proof fn lemma_outside_neighbor_iff_on_face(chunk: &Chunk, x: int, y: int, z: int)
    requires
        chunk.in_bounds(x, y, z),
    ensures
        has_outside_neighbor(chunk, x, y, z) <==> on_chunk_face(chunk, x, y, z),
{
    if on_chunk_face(chunk, x, y, z) {
        if x == chunk.sx() - 1 {
            assert(neighbor_outside(chunk, x, y, z, 0));
        } else if x == 0 {
            assert(neighbor_outside(chunk, x, y, z, 1));
        } else if y == chunk.sy() - 1 {
            assert(neighbor_outside(chunk, x, y, z, 2));
        } else if y == 0 {
            assert(neighbor_outside(chunk, x, y, z, 3));
        } else if z == chunk.sz() - 1 {
            assert(neighbor_outside(chunk, x, y, z, 4));
        } else {
            assert(neighbor_outside(chunk, x, y, z, 5));
        }
    }
}

/// Whether some face neighbour of cell `(x, y, z)` lies outside `chunk`.
pub fn touches_outside(chunk: &Chunk, x: usize, y: usize, z: usize) -> (outside: bool)
    requires
        chunk.wf(),
        chunk.in_bounds(x as int, y as int, z as int),
    ensures
        outside == has_outside_neighbor(chunk, x as int, y as int, z as int),
        outside == on_chunk_face(chunk, x as int, y as int, z as int),
{
    proof {
        chunk.lemma_extent_bounded();
        lemma_outside_neighbor_iff_on_face(chunk, x as int, y as int, z as int);
    }
    let offsets = von_neumann3();
    let mut outside = false;
    let mut k: usize = 0;
    while k < 6
        invariant
            k <= 6,
            offsets@ == von_neumann3_offsets(),
            chunk.in_bounds(x as int, y as int, z as int),
            x <= 0xFFFF_FFFF,
            y <= 0xFFFF_FFFF,
            z <= 0xFFFF_FFFF,
            outside == exists|j: int|
                0 <= j < k && #[trigger] neighbor_outside(chunk, x as int, y as int, z as int, j),
        decreases 6 - k,
    {
        let (dx, dy, dz) = offsets[k];
        let inside = chunk.check_index(x as i64 + dx as i64, y as i64 + dy as i64, z as i64 + dz as i64);
        proof {
            assert(offsets@[k as int] == (dx, dy, dz));
            assert(!inside <==> neighbor_outside(chunk, x as int, y as int, z as int, k as int));
        }
        if !inside {
            outside = true;
        }
        k = k + 1;
    }
    outside
}

/// The block picked by the draws of `pick_scattered_block`, taken in order:
/// light if `light` came up, else almond water if `water` did, else plain if
/// `plain` did, else distressed if `distressed` did, else corrupt.
pub fn scattered_block_from(light: bool, water: bool, plain: bool, distressed: bool) -> (b: Block)
    ensures
        b == (if light {
            Block::Light
        } else if water {
            Block::AlmondWater
        } else if plain {
            Block::Plain
        } else if distressed {
            Block::Distressed1
        } else {
            Block::Corrupt1
        }),
        is_scattered_block(b),
{
    if light {
        Block::Light
    } else if water {
        Block::AlmondWater
    } else if plain {
        Block::Plain
    } else if distressed {
        Block::Distressed1
    } else {
        Block::Corrupt1
    }
}

/// Draws a scattered block: light with chance one in a hundred, else almond
/// water with chance one in twenty, else plain, distressed or corrupt with
/// chances one in two, one in four and one in four. Draws stop at the first
/// success.
pub fn pick_scattered_block() -> (b: Block)
    ensures
        is_scattered_block(b),
{
    let light = random_chance(1, 100);
    let water = if light {
        false
    } else {
        random_chance(1, 20)
    };
    let plain = if light || water {
        false
    } else {
        random_chance(1, 2)
    };
    let distressed = if light || water || plain {
        false
    } else {
        random_chance(1, 2)
    };
    scattered_block_from(light, water, plain, distressed)
}

/// The block the scatter leaves in cell `(x, y, z)` of `chunk`, given one
/// draw per cell (see `Chunk::cell_index`): a cell on a face of the chunk
/// whose draw holds a block gets it; every other cell keeps its block.
pub open spec fn scattered_cell(chunk: &Chunk, draws: Seq<Option<Block>>, x: int, y: int, z: int) -> Block {
    let d = draws[chunk.cell_index(x, y, z)];
    if on_chunk_face(chunk, x, y, z) && d is Some {
        d->0
    } else {
        chunk.at(x, y, z)
    }
}

/// Applies one draw per cell to `chunk`, listed as `Chunk::cell_index`
/// orders the cells: a cell on a face of the chunk whose draw holds a block
/// gets that block; inner cells, and cells whose draw is `None`, keep theirs.
pub fn scatter_from(chunk: &mut Chunk, draws: &Vec<Option<Block>>)
    requires
        old(chunk).wf(),
        draws@.len() == old(chunk).volume_spec(),
    ensures
        final(chunk).wf(),
        final(chunk).same_shape(&*old(chunk)),
        forall|x: int, y: int, z: int|
            old(chunk).in_bounds(x, y, z) ==> #[trigger] final(chunk).at(x, y, z) == scattered_cell(
                &*old(chunk),
                draws@,
                x,
                y,
                z,
            ),
{
    let size_x = chunk.size_x();
    let size_y = chunk.size_y();
    let size_z = chunk.size_z();
    let mut z: usize = 0;
    while z < size_z
        invariant
            z <= size_z,
            size_x == old(chunk).sx(),
            size_y == old(chunk).sy(),
            size_z == old(chunk).sz(),
            draws@.len() == old(chunk).volume_spec(),
            chunk.wf(),
            chunk.same_shape(&*old(chunk)),
            forall|i: int, j: int, k: int|
                old(chunk).in_bounds(i, j, k) ==> #[trigger] chunk.at(i, j, k) == (if k < z {
                    scattered_cell(&*old(chunk), draws@, i, j, k)
                } else {
                    old(chunk).at(i, j, k)
                }),
        decreases size_z - z,
    {
        let mut y: usize = 0;
        while y < size_y
            invariant
                y <= size_y,
                z < size_z,
                size_x == old(chunk).sx(),
                size_y == old(chunk).sy(),
                size_z == old(chunk).sz(),
                draws@.len() == old(chunk).volume_spec(),
                chunk.wf(),
                chunk.same_shape(&*old(chunk)),
                forall|i: int, j: int, k: int|
                    old(chunk).in_bounds(i, j, k) ==> #[trigger] chunk.at(i, j, k) == (if k < z || (k
                        == z && j < y) {
                        scattered_cell(&*old(chunk), draws@, i, j, k)
                    } else {
                        old(chunk).at(i, j, k)
                    }),
            decreases size_y - y,
        {
            let mut x: usize = 0;
            while x < size_x
                invariant
                    x <= size_x,
                    y < size_y,
                    z < size_z,
                    size_x == old(chunk).sx(),
                    size_y == old(chunk).sy(),
                    size_z == old(chunk).sz(),
                    draws@.len() == old(chunk).volume_spec(),
                    chunk.wf(),
                    chunk.same_shape(&*old(chunk)),
                    forall|i: int, j: int, k: int|
                        old(chunk).in_bounds(i, j, k) ==> #[trigger] chunk.at(i, j, k) == (if k < z
                            || (k == z && j < y) || (k == z && j == y && i < x) {
                            scattered_cell(&*old(chunk), draws@, i, j, k)
                        } else {
                            old(chunk).at(i, j, k)
                        }),
                decreases size_x - x,
            {
                if touches_outside(chunk, x, y, z) {
                    let i = chunk.cell_index_of(x, y, z);
                    if let Some(b) = draws[i] {
                        chunk.set(x, y, z, b);
                    }
                }
                x = x + 1;
            }
            y = y + 1;
        }
        z = z + 1;
    }
}

/// Draws the scatter for `chunk`: for each cell on a face, with chance one
/// in forty, a scattered block picked by `pick_scattered_block`. The result
/// lists one draw per cell in `Chunk::cell_index` order.
pub fn draw_scatter(chunk: &Chunk) -> (draws: Vec<Option<Block>>)
    requires
        chunk.wf(),
    ensures
        draws@.len() == chunk.volume_spec(),
        forall|i: int| 0 <= i < draws@.len() && #[trigger] draws@[i] is Some ==> is_scattered_block(draws@[i]->0),
        forall|x: int, y: int, z: int|
            chunk.in_bounds(x, y, z) && !on_chunk_face(chunk, x, y, z) ==> #[trigger] draws@[chunk.cell_index(x, y, z)] is None,
{
    let n = chunk.volume();
    let mut draws: Vec<Option<Block>> = Vec::new();
    let mut i: usize = 0;
    while i < n
        invariant
            i <= n,
            draws@.len() == i,
            forall|j: int| 0 <= j < i ==> #[trigger] draws@[j] is None,
        decreases n - i,
    {
        draws.push(None);
        i = i + 1;
    }
    proof {
        assert forall|x: int, y: int, z: int|
            chunk.in_bounds(x, y, z) && !on_chunk_face(chunk, x, y, z) implies #[trigger] draws@[chunk.cell_index(x, y, z)] is None by {
            chunk.lemma_cell_index_in_range(x, y, z);
        }
    }
    let size_x = chunk.size_x();
    let size_y = chunk.size_y();
    let size_z = chunk.size_z();
    let mut z: usize = 0;
    while z < size_z
        invariant
            z <= size_z,
            size_x == chunk.sx(),
            size_y == chunk.sy(),
            size_z == chunk.sz(),
            chunk.wf(),
            draws@.len() == n,
            n == chunk.volume_spec(),
            forall|i: int| 0 <= i < draws@.len() && #[trigger] draws@[i] is Some ==> is_scattered_block(draws@[i]->0),
            forall|x: int, y: int, z: int|
                chunk.in_bounds(x, y, z) && !on_chunk_face(chunk, x, y, z) ==> #[trigger] draws@[chunk.cell_index(x, y, z)] is None,
        decreases size_z - z,
    {
        let mut y: usize = 0;
        while y < size_y
            invariant
                y <= size_y,
                z < size_z,
                size_x == chunk.sx(),
                size_y == chunk.sy(),
                size_z == chunk.sz(),
                chunk.wf(),
                draws@.len() == n,
                n == chunk.volume_spec(),
                forall|i: int| 0 <= i < draws@.len() && #[trigger] draws@[i] is Some ==> is_scattered_block(draws@[i]->0),
                forall|x: int, y: int, z: int|
                    chunk.in_bounds(x, y, z) && !on_chunk_face(chunk, x, y, z) ==> #[trigger] draws@[chunk.cell_index(x, y, z)] is None,
            decreases size_y - y,
        {
            let mut x: usize = 0;
            while x < size_x
                invariant
                    x <= size_x,
                    y < size_y,
                    z < size_z,
                    size_x == chunk.sx(),
                    size_y == chunk.sy(),
                    size_z == chunk.sz(),
                    chunk.wf(),
                    draws@.len() == n,
                    n == chunk.volume_spec(),
                    forall|i: int| 0 <= i < draws@.len() && #[trigger] draws@[i] is Some ==> is_scattered_block(draws@[i]->0),
                    forall|x: int, y: int, z: int|
                        chunk.in_bounds(x, y, z) && !on_chunk_face(chunk, x, y, z) ==> #[trigger] draws@[chunk.cell_index(x, y, z)] is None,
                decreases size_x - x,
            {
                if touches_outside(chunk, x, y, z) && random_chance(1, 40) {
                    let b = pick_scattered_block();
                    let i = chunk.cell_index_of(x, y, z);
                    let ghost before = draws@;
                    draws.set(i, Some(b));
                    proof {
                        assert forall|p: int, q: int, r: int|
                            chunk.in_bounds(p, q, r) && !on_chunk_face(chunk, p, q, r) implies #[trigger] draws@[chunk.cell_index(p, q, r)] is None by {
                            chunk.lemma_cell_index_in_range(p, q, r);
                            if chunk.cell_index(p, q, r) == i as int {
                                chunk.lemma_cell_index_injective(p, q, r, x as int, y as int, z as int);
                            }
                            assert(before[chunk.cell_index(p, q, r)] is None);
                        }
                    }
                }
                x = x + 1;
            }
            y = y + 1;
        }
        z = z + 1;
    }
    draws
}

/// How the scatter treats each cell: a cell on a face of the chunk whose
/// draw holds a block ends up holding exactly that block; every other cell,
/// inner cells included, keeps the block it had.
pub proof fn lemma_scatter_places_drawn_blocks(
    chunk: &Chunk,
    draws: Seq<Option<Block>>,
    x: int,
    y: int,
    z: int,
)
    requires
        chunk.in_bounds(x, y, z),
    ensures
        ((x == 0 || x == chunk.sx() - 1 || y == 0 || y == chunk.sy() - 1 || z == 0 || z
            == chunk.sz() - 1) && draws[chunk.cell_index(x, y, z)] is Some) ==> scattered_cell(
            chunk,
            draws,
            x,
            y,
            z,
        ) == draws[chunk.cell_index(x, y, z)]->0,
        !((x == 0 || x == chunk.sx() - 1 || y == 0 || y == chunk.sy() - 1 || z == 0 || z
            == chunk.sz() - 1) && draws[chunk.cell_index(x, y, z)] is Some) ==> scattered_cell(
            chunk,
            draws,
            x,
            y,
            z,
        ) == chunk.at(x, y, z),
{
}

impl SuperLiminal {
    /// Draws, for every cell on a face of the chunk, whether it is replaced
    /// (chance one in forty) and by which scattered block, applies the draws
    /// with `scatter_from`, and returns them, one per cell in
    /// `Chunk::cell_index` order.
    pub fn generate(&self, chunk: &mut Chunk) -> (draws: Vec<Option<Block>>)
        requires
            old(chunk).wf(),
        ensures
            final(chunk).wf(),
            final(chunk).same_shape(&*old(chunk)),
            forall|x: int, y: int, z: int|
                old(chunk).in_bounds(x, y, z) ==> superliminal_allows(
                    old(chunk).at(x, y, z),
                    #[trigger] final(chunk).at(x, y, z),
                    on_chunk_face(&*old(chunk), x, y, z),
                ),
            draws@.len() == old(chunk).volume_spec(),
            forall|i: int| 0 <= i < draws@.len() && #[trigger] draws@[i] is Some ==> is_scattered_block(draws@[i]->0),
            forall|x: int, y: int, z: int|
                old(chunk).in_bounds(x, y, z) && !on_chunk_face(&*old(chunk), x, y, z) ==> #[trigger] draws@[old(chunk).cell_index(x, y, z)] is None,
            forall|x: int, y: int, z: int|
                old(chunk).in_bounds(x, y, z) ==> #[trigger] final(chunk).at(x, y, z) == scattered_cell(
                    &*old(chunk),
                    draws@,
                    x,
                    y,
                    z,
                ),
            forall|x: int, y: int, z: int|
                old(chunk).in_bounds(x, y, z) ==> (#[trigger] final(chunk).at(x, y, z) == match draws@[old(chunk).cell_index(x, y, z)] {
                    Some(b) => b,
                    None => old(chunk).at(x, y, z),
                }),
    {
        let draws = draw_scatter(chunk);
        scatter_from(chunk, &draws);
        proof {
            assert forall|x: int, y: int, z: int| old(chunk).in_bounds(x, y, z) implies superliminal_allows(
                old(chunk).at(x, y, z),
                #[trigger] chunk.at(x, y, z),
                on_chunk_face(&*old(chunk), x, y, z),
            ) && chunk.at(x, y, z) == match draws@[old(chunk).cell_index(x, y, z)] {
                Some(b) => b,
                None => old(chunk).at(x, y, z),
            } by {
                old(chunk).lemma_cell_index_in_range(x, y, z);
                let i = old(chunk).cell_index(x, y, z);
                if draws@[i] is Some {
                    assert(is_scattered_block(draws@[i]->0));
                }
            }
        }
        draws
    }
}

} // verus!
