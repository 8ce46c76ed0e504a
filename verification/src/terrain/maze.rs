use vstd::prelude::*;

use crate::terrain::{column_flag, column_flag_at};
use crate::world::block::Block;
use crate::world::chunk::Chunk;

verus! {

/// A low room: plain ceiling over a grid of possible lights, with almond
/// water scattered on the floor.
#[derive(Debug)]
pub struct Maze;

/// The block the maze biome leaves in cell `(x, y, z)` of a chunk
/// `size_y` high, given the cell's block before and the column's feature
/// flags.
pub open spec fn maze_block(
    before: Block,
    size_y: int,
    x: int,
    y: int,
    z: int,
    light: bool,
    water: bool,
) -> Block {
    if y == 0 && water {
        Block::AlmondWater
    } else if y == size_y - 1 {
        Block::Plain
    } else if y == size_y - 2 {
        if light && x % 5 == 0 && z % 5 == 0 {
            Block::Light
        } else {
            Block::Plain
        }
    } else {
        before
    }
}

/// Where the maze puts its features: the top layer is plain; the layer
/// below it holds a light only where the column's light flag is set and both
/// coordinates are multiples of five, and is plain elsewhere; almond water
/// lies on the floor exactly where the water flag is set; every other cell
/// keeps its block.
pub proof fn lemma_maze_features(
    before: Block,
    size_y: int,
    x: int,
    y: int,
    z: int,
    light: bool,
    water: bool,
)
    requires
        size_y >= 2,
        0 <= y < size_y,
    ensures
        y == 0 && water ==> maze_block(before, size_y, x, y, z, light, water) == Block::AlmondWater,
        !(y == 0 && water) && y == size_y - 1 ==> maze_block(before, size_y, x, y, z, light, water)
            == Block::Plain,
        !(y == 0 && water) && y == size_y - 2 && (x % 5 != 0 || z % 5 != 0 || !light) ==> maze_block(
            before,
            size_y,
            x,
            y,
            z,
            light,
            water,
        ) == Block::Plain,
        !(y == 0 && water) && y == size_y - 2 && x % 5 == 0 && z % 5 == 0 && light ==> maze_block(
            before,
            size_y,
            x,
            y,
            z,
            light,
            water,
        ) == Block::Light,
        !(y == 0 && water) && y < size_y - 2 ==> maze_block(before, size_y, x, y, z, light, water)
            == before,
{
}

impl Maze {
    /// Lays the maze ceiling and floor features into `chunk`.
    ///
    /// `light_spots` and `water_spots` hold one flag per column (see
    /// `column_flag`): whether the feature noise asks for a ceiling light
    /// in that column, and for almond water on its floor. A light goes only
    /// where both coordinates are multiples of five.
    pub fn generate(&self, chunk: &mut Chunk, light_spots: &Vec<bool>, water_spots: &Vec<bool>)
        requires
            old(chunk).wf(),
            old(chunk).sx() > 0 && old(chunk).sz() > 0 ==> old(chunk).sy() >= 2,
            light_spots@.len() == old(chunk).sx() * old(chunk).sz(),
            water_spots@.len() == old(chunk).sx() * old(chunk).sz(),
        ensures
            final(chunk).wf(),
            final(chunk).same_shape(&*old(chunk)),
            forall|x: int, y: int, z: int|
                old(chunk).in_bounds(x, y, z) ==> #[trigger] final(chunk).at(x, y, z) == maze_block(
                    old(chunk).at(x, y, z),
                    old(chunk).sy() as int,
                    x,
                    y,
                    z,
                    column_flag(light_spots@, old(chunk).sx() as int, x, z),
                    column_flag(water_spots@, old(chunk).sx() as int, x, z),
                ),
    {
        let size_z = chunk.size_z();
        let mut z: usize = 0;
        while z < size_z
            invariant
                z <= size_z,
                size_z == old(chunk).sz(),
                chunk.wf(),
                chunk.same_shape(&*old(chunk)),
                old(chunk).sx() > 0 && old(chunk).sz() > 0 ==> old(chunk).sy() >= 2,
                light_spots@.len() == old(chunk).sx() * old(chunk).sz(),
                water_spots@.len() == old(chunk).sx() * old(chunk).sz(),
                forall|i: int, j: int, k: int|
                    old(chunk).in_bounds(i, j, k) ==> #[trigger] chunk.at(i, j, k) == (if k < z {
                        maze_block(
                            old(chunk).at(i, j, k),
                            old(chunk).sy() as int,
                            i,
                            j,
                            k,
                            column_flag(light_spots@, old(chunk).sx() as int, i, k),
                            column_flag(water_spots@, old(chunk).sx() as int, i, k),
                        )
                    } else {
                        old(chunk).at(i, j, k)
                    }),
            decreases size_z - z,
        {
            let ghost before = *chunk;
            Self::generate_row(chunk, z, light_spots, water_spots);
            proof {
                assert forall|i: int, j: int, k: int| old(chunk).in_bounds(i, j, k) implies #[trigger] chunk.at(
                    i,
                    j,
                    k,
                ) == (if k < z + 1 {
                    maze_block(
                        old(chunk).at(i, j, k),
                        old(chunk).sy() as int,
                        i,
                        j,
                        k,
                        column_flag(light_spots@, old(chunk).sx() as int, i, k),
                        column_flag(water_spots@, old(chunk).sx() as int, i, k),
                    )
                } else {
                    old(chunk).at(i, j, k)
                }) by {
                    assert(before.in_bounds(i, j, k));
                }
            }
            z = z + 1;
        }
    }

    fn generate_row(chunk: &mut Chunk, z: usize, light_spots: &Vec<bool>, water_spots: &Vec<bool>)
        requires
            old(chunk).wf(),
            z < old(chunk).sz(),
            old(chunk).sx() > 0 ==> old(chunk).sy() >= 2,
            light_spots@.len() == old(chunk).sx() * old(chunk).sz(),
            water_spots@.len() == old(chunk).sx() * old(chunk).sz(),
        ensures
            final(chunk).wf(),
            final(chunk).same_shape(&*old(chunk)),
            forall|i: int, j: int, k: int|
                old(chunk).in_bounds(i, j, k) ==> #[trigger] final(chunk).at(i, j, k) == (if k == z {
                    maze_block(
                        old(chunk).at(i, j, k),
                        old(chunk).sy() as int,
                        i,
                        j,
                        k,
                        column_flag(light_spots@, old(chunk).sx() as int, i, k),
                        column_flag(water_spots@, old(chunk).sx() as int, i, k),
                    )
                } else {
                    old(chunk).at(i, j, k)
                }),
    {
        let size_x = chunk.size_x();
        let size_y = chunk.size_y();
        let size_z = chunk.size_z();
        let mut x: usize = 0;
        while x < size_x
            invariant
                x <= size_x,
                size_x == old(chunk).sx(),
                size_y == old(chunk).sy(),
                size_z == old(chunk).sz(),
                z < size_z,
                size_x > 0 ==> size_y >= 2,
                light_spots@.len() == size_x * size_z,
                water_spots@.len() == size_x * size_z,
                chunk.wf(),
                chunk.same_shape(&*old(chunk)),
                forall|i: int, j: int, k: int|
                    old(chunk).in_bounds(i, j, k) ==> #[trigger] chunk.at(i, j, k) == (if k == z
                        && i < x {
                        maze_block(
                            old(chunk).at(i, j, k),
                            size_y as int,
                            i,
                            j,
                            k,
                            column_flag(light_spots@, size_x as int, i, k),
                            column_flag(water_spots@, size_x as int, i, k),
                        )
                    } else {
                        old(chunk).at(i, j, k)
                    }),
            decreases size_x - x,
        {
            chunk.set(x, size_y - 1, z, Block::Plain);
            chunk.set(x, size_y - 2, z, Block::Plain);
            if x % 5 == 0 && z % 5 == 0 && column_flag_at(light_spots, size_x, size_z, x, z) {
                chunk.set(x, size_y - 2, z, Block::Light);
            }
            if column_flag_at(water_spots, size_x, size_z, x, z) {
                chunk.set(x, 0, z, Block::AlmondWater);
            }
            x = x + 1;
        }
    }
}

} // verus!
