use vstd::prelude::*;

use crate::world::block::{is_wall_block, Block};
use crate::world::chunk::Chunk;

verus! {

/// A ceiling of wall blocks; high enough up, an exit door with its sign
/// stands in the middle of the floor.
#[derive(Debug)]
pub struct Escape;

/// The world height above which escape chunks hold the exit.
pub const EXIT_ALTITUDE: i64 = 32;

/// Whether an escape chunk whose lowest layer is at world height `world_y`
/// holds the exit.
pub open spec fn holds_exit(world_y: int) -> bool {
    world_y > EXIT_ALTITUDE
}

/// Whether the escape biome may leave `after` in cell `(x, y, z)` of a chunk
/// of the given extent, at world height `world_y`, that held `before`: the
/// exit door two blocks tall under its sign at the middle column when the
/// chunk holds the exit, a wall block anywhere else in the top layer, the
/// rest untouched.
pub open spec fn escape_allows(
    before: Block,
    after: Block,
    size_x: int,
    size_y: int,
    size_z: int,
    world_y: int,
    x: int,
    y: int,
    z: int,
) -> bool {
    if holds_exit(world_y) && x == size_x / 2 && z == size_z / 2 && y < 3 {
        if y == 2 {
            after == Block::ExitSign
        } else {
            after == Block::ExitDoor
        }
    } else if y == size_y - 1 {
        is_wall_block(after)
    } else {
        after == before
    }
}

/// Where the escape biome builds: above world height 32 the middle column
/// (`size_x / 2`, `size_z / 2`) holds the exit door in its two lowest cells
/// and the exit sign above them; every other cell of the top layer is a wall
/// block; the rest keeps its block. At or below height 32 there is no exit.
pub proof fn lemma_escape_layout(
    before: Block,
    after: Block,
    size_x: int,
    size_y: int,
    size_z: int,
    world_y: int,
    x: int,
    y: int,
    z: int,
)
    requires
        0 <= y < size_y,
        escape_allows(before, after, size_x, size_y, size_z, world_y, x, y, z),
    ensures
        world_y > 32 && x == size_x / 2 && z == size_z / 2 && y <= 1 ==> after == Block::ExitDoor,
        world_y > 32 && x == size_x / 2 && z == size_z / 2 && y == 2 ==> after == Block::ExitSign,
        world_y <= 32 && y == size_y - 1 ==> (after == Block::Plain || after == Block::Distressed1
            || after == Block::Distressed2 || after == Block::Distressed3),
        world_y <= 32 && y < size_y - 1 ==> after == before,
        !(x == size_x / 2 && z == size_z / 2) && y < size_y - 1 ==> after == before,
{
}

impl Escape {
    /// Lays the escape ceiling, each block distressed with chance one in
    /// two, and the exit when the chunk is high enough.
    pub fn generate(&self, chunk: &mut Chunk)
        requires
            old(chunk).wf(),
            old(chunk).sx() > 0 && old(chunk).sz() > 0 ==> old(chunk).sy() >= 1,
            holds_exit(old(chunk).spec_world_y()) ==> old(chunk).sx() > 0 && old(chunk).sz() > 0
                && old(chunk).sy() >= 3,
        ensures
            final(chunk).wf(),
            final(chunk).same_shape(&*old(chunk)),
            forall|x: int, y: int, z: int|
                old(chunk).in_bounds(x, y, z) ==> escape_allows(
                    old(chunk).at(x, y, z),
                    #[trigger] final(chunk).at(x, y, z),
                    old(chunk).sx() as int,
                    old(chunk).sy() as int,
                    old(chunk).sz() as int,
                    old(chunk).spec_world_y(),
                    x,
                    y,
                    z,
                ),
    {
        let size_x = chunk.size_x();
        let size_y = chunk.size_y();
        let size_z = chunk.size_z();
        let mut z: usize = 0;
        while z < size_z
            invariant
                z <= size_z,
                size_x == old(chunk).sx(),
                size_y == old(chunk).sy(),
                size_z == old(chunk).sz(),
                size_x > 0 && size_z > 0 ==> size_y >= 1,
                chunk.wf(),
                chunk.same_shape(&*old(chunk)),
                forall|i: int, j: int, k: int|
                    old(chunk).in_bounds(i, j, k) ==> if k < z && j == size_y - 1 {
                        is_wall_block(#[trigger] chunk.at(i, j, k))
                    } else {
                        chunk.at(i, j, k) == old(chunk).at(i, j, k)
                    },
            decreases size_z - z,
        {
            let mut x: usize = 0;
            while x < size_x
                invariant
                    x <= size_x,
                    z < size_z,
                    size_x == old(chunk).sx(),
                    size_y == old(chunk).sy(),
                    size_z == old(chunk).sz(),
                    size_x > 0 ==> size_y >= 1,
                    chunk.wf(),
                    chunk.same_shape(&*old(chunk)),
                    forall|i: int, j: int, k: int|
                        old(chunk).in_bounds(i, j, k) ==> if (k < z || (k == z && i < x)) && j
                            == size_y - 1 {
                            is_wall_block(#[trigger] chunk.at(i, j, k))
                        } else {
                            chunk.at(i, j, k) == old(chunk).at(i, j, k)
                        },
                decreases size_x - x,
            {
                let b = Block::wall_block(1, 2);
                chunk.set(x, size_y - 1, z, b);
                x = x + 1;
            }
            z = z + 1;
        }
        if chunk.world_y() > EXIT_ALTITUDE {
            chunk.set(size_x / 2, 0, size_z / 2, Block::ExitDoor);
            chunk.set(size_x / 2, 1, size_z / 2, Block::ExitDoor);
            chunk.set(size_x / 2, 2, size_z / 2, Block::ExitSign);
        }
    }
}

} // verus!
