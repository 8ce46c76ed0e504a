use vstd::prelude::*;

use crate::world::block::Block;
use crate::world::chunk::Chunk;

verus! {

/// A floor of plain blocks cut into square pits, with lights set into the
/// grid lines.
#[derive(Debug)]
pub struct Pitfalls;

/// Whether column `(x, z)` of a chunk `size_x` by `size_z` wide is a pit:
/// it lies off every fifth line in both directions and off the far edges.
pub open spec fn is_pit_column(size_x: int, size_z: int, x: int, z: int) -> bool {
    x % 5 != 0 && z % 5 != 0 && x != size_x - 1 && z != size_z - 1
}

/// The block the pitfalls biome leaves in cell `(x, y, z)`: air down a pit,
/// a light on the floor where two grid lines cross, plain block elsewhere.
pub open spec fn pitfalls_block(size_x: int, size_z: int, x: int, y: int, z: int) -> Block {
    if is_pit_column(size_x, size_z, x, z) {
        Block::Air
    } else if y == 0 && x % 5 == 0 && z % 5 == 0 {
        Block::Light
    } else {
        Block::Plain
    }
}

/// The shape of the pitfalls floor: every fifth line in each direction and
/// the far edges stay solid, lights sit only on the floor where two such
/// lines cross, and every other column is a pit of air from bottom to top.
pub proof fn lemma_pitfalls_layout(size_x: int, size_z: int, x: int, y: int, z: int)
    ensures
        (x % 5 == 0 || z % 5 == 0 || x == size_x - 1 || z == size_z - 1) ==> pitfalls_block(
            size_x,
            size_z,
            x,
            y,
            z,
        ) != Block::Air,
        pitfalls_block(size_x, size_z, x, y, z) == Block::Light <==> (y == 0 && x % 5 == 0 && z % 5
            == 0),
        !(x % 5 == 0 || z % 5 == 0 || x == size_x - 1 || z == size_z - 1) ==> pitfalls_block(
            size_x,
            size_z,
            x,
            y,
            z,
        ) == Block::Air,
        pitfalls_block(size_x, size_z, x, y, z) == Block::Air || pitfalls_block(size_x, size_z, x, y, z)
            == Block::Light || pitfalls_block(size_x, size_z, x, y, z) == Block::Plain,
{
}

impl Pitfalls {
    /// Fills `chunk` with the pitfalls pattern, whatever it held before.
    pub fn generate(&self, chunk: &mut Chunk)
        requires
            old(chunk).wf(),
            old(chunk).sx() > 0 && old(chunk).sz() > 0 ==> old(chunk).sy() > 0,
        ensures
            final(chunk).wf(),
            final(chunk).same_shape(&*old(chunk)),
            forall|x: int, y: int, z: int|
                final(chunk).in_bounds(x, y, z) ==> #[trigger] final(chunk).at(x, y, z)
                    == pitfalls_block(final(chunk).sx() as int, final(chunk).sz() as int, x, y, z),
    {
        chunk.fill(Block::Plain);
        let size_z = chunk.size_z();
        let mut z: usize = 0;
        while z < size_z
            invariant
                z <= size_z,
                size_z == chunk.sz(),
                chunk.wf(),
                chunk.same_shape(&*old(chunk)),
                chunk.sx() > 0 && chunk.sz() > 0 ==> chunk.sy() > 0,
                forall|i: int, j: int, k: int|
                    chunk.in_bounds(i, j, k) ==> #[trigger] chunk.at(i, j, k) == (if k < z {
                        pitfalls_block(chunk.sx() as int, chunk.sz() as int, i, j, k)
                    } else {
                        Block::Plain
                    }),
            decreases size_z - z,
        {
            Self::generate_row(chunk, z);
            z = z + 1;
        }
    }

    /// Lays out row `z`, whose cells are all plain beforehand.
    fn generate_row(chunk: &mut Chunk, z: usize)
        requires
            old(chunk).wf(),
            z < old(chunk).sz(),
            old(chunk).sx() > 0 ==> old(chunk).sy() > 0,
            forall|i: int, j: int|
                old(chunk).in_bounds(i, j, z as int) ==> #[trigger] old(chunk).at(i, j, z as int)
                    == Block::Plain,
        ensures
            final(chunk).wf(),
            final(chunk).same_shape(&*old(chunk)),
            forall|i: int, j: int, k: int|
                old(chunk).in_bounds(i, j, k) ==> #[trigger] final(chunk).at(i, j, k) == (if k == z {
                    pitfalls_block(old(chunk).sx() as int, old(chunk).sz() as int, i, j, k)
                } else {
                    old(chunk).at(i, j, k)
                }),
    {
        let size_x = chunk.size_x();
        let size_y = chunk.size_y();
        let size_z = chunk.size_z();
        let mut x: usize = 0;
        while x < size_x
            invariant
                x <= size_x,
                size_x == old(chunk).sx(),
                size_y == old(chunk).sy(),
                size_z == old(chunk).sz(),
                z < size_z,
                size_x > 0 ==> size_y > 0,
                chunk.wf(),
                chunk.same_shape(&*old(chunk)),
                forall|i: int, j: int|
                    old(chunk).in_bounds(i, j, z as int) ==> #[trigger] old(chunk).at(i, j, z as int)
                        == Block::Plain,
                forall|i: int, j: int, k: int|
                    old(chunk).in_bounds(i, j, k) ==> #[trigger] chunk.at(i, j, k) == (if k == z
                        && i < x {
                        pitfalls_block(size_x as int, size_z as int, i, j, k)
                    } else {
                        old(chunk).at(i, j, k)
                    }),
            decreases size_x - x,
        {
            if x % 5 == 0 && z % 5 == 0 {
                chunk.set(x, 0, z, Block::Light);
            }
            if !(x % 5 == 0 || z % 5 == 0 || x == size_x - 1 || z == size_z - 1) {
                chunk.fill_column(x, z, 0, size_y, Block::Air);
            }
            x = x + 1;
        }
    }
}

} // verus!
