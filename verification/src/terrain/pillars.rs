use vstd::prelude::*;

use crate::world::block::{is_wall_block, Block};
use crate::world::chunk::Chunk;

verus! {

/// A hall of square pillars under a wall-block ceiling set with lights.
#[derive(Debug)]
pub struct Pillars;

/// Whether column `(x, z)` holds a pillar.
pub open spec fn is_pillar_column(x: int, z: int) -> bool {
    x % 5 == 0 && z % 5 == 0
}

/// Whether the pillars biome may leave `after` in cell `(x, y, z)` of a
/// chunk `size_y` high that held `before`: wall blocks in the two ceiling
/// layers and down every pillar, a light in the lower ceiling layer where
/// both coordinates are multiples of eight, the rest untouched.
pub open spec fn pillars_allows(before: Block, after: Block, size_y: int, x: int, y: int, z: int) -> bool {
    if y == size_y - 1 {
        is_wall_block(after)
    } else if y == size_y - 2 {
        if x % 8 == 0 && z % 8 == 0 {
            after == Block::Light
        } else {
            is_wall_block(after)
        }
    } else if is_pillar_column(x, z) && y < size_y - 2 {
        is_wall_block(after)
    } else {
        after == before
    }
}

/// Where the pillars biome builds: the top two layers, and every column
/// whose coordinates are both multiples of five from the floor up; lights
/// appear only in the second layer from the top, where both coordinates are
/// multiples of eight; everything else keeps its block.
pub proof fn lemma_pillars_layout(before: Block, after: Block, size_y: int, x: int, y: int, z: int)
    requires
        0 <= y < size_y,
        pillars_allows(before, after, size_y, x, y, z),
    ensures
        after == Block::Light && before != Block::Light ==> y == size_y - 2 && x % 8 == 0 && z % 8
            == 0,
        y == size_y - 2 && x % 8 == 0 && z % 8 == 0 ==> after == Block::Light,
        y == size_y - 1 ==> (after == Block::Plain || after == Block::Distressed1 || after
            == Block::Distressed2 || after == Block::Distressed3),
        y < size_y - 2 && x % 5 == 0 && z % 5 == 0 ==> (after == Block::Plain || after
            == Block::Distressed1 || after == Block::Distressed2 || after == Block::Distressed3),
        y < size_y - 2 && !(x % 5 == 0 && z % 5 == 0) ==> after == before,
{
}

impl Pillars {
    /// Raises the ceiling and pillars in `chunk`. Each wall block is drawn at
    /// random: ceiling blocks are distressed with chance one in twenty,
    /// pillar blocks with chance three in forty.
    pub fn generate(&self, chunk: &mut Chunk)
        requires
            old(chunk).wf(),
            old(chunk).sx() > 0 && old(chunk).sz() > 0 ==> old(chunk).sy() >= 2,
        ensures
            final(chunk).wf(),
            final(chunk).same_shape(&*old(chunk)),
            forall|x: int, y: int, z: int|
                old(chunk).in_bounds(x, y, z) ==> pillars_allows(
                    old(chunk).at(x, y, z),
                    #[trigger] final(chunk).at(x, y, z),
                    old(chunk).sy() as int,
                    x,
                    y,
                    z,
                ),
    {
        let size_z = chunk.size_z();
        let mut z: usize = 0;
        while z < size_z
            invariant
                z <= size_z,
                size_z == old(chunk).sz(),
                chunk.wf(),
                chunk.same_shape(&*old(chunk)),
                old(chunk).sx() > 0 && old(chunk).sz() > 0 ==> old(chunk).sy() >= 2,
                forall|i: int, j: int, k: int|
                    old(chunk).in_bounds(i, j, k) ==> if k < z {
                        pillars_allows(
                            old(chunk).at(i, j, k),
                            #[trigger] chunk.at(i, j, k),
                            old(chunk).sy() as int,
                            i,
                            j,
                            k,
                        )
                    } else {
                        chunk.at(i, j, k) == old(chunk).at(i, j, k)
                    },
            decreases size_z - z,
        {
            let ghost before = *chunk;
            Self::generate_row(chunk, z);
            proof {
                assert forall|i: int, j: int, k: int| old(chunk).in_bounds(i, j, k) implies if k < z
                    + 1 {
                    pillars_allows(
                        old(chunk).at(i, j, k),
                        #[trigger] chunk.at(i, j, k),
                        old(chunk).sy() as int,
                        i,
                        j,
                        k,
                    )
                } else {
                    chunk.at(i, j, k) == old(chunk).at(i, j, k)
                } by {
                    assert(before.in_bounds(i, j, k));
                    assert(before.at(i, j, k) == chunk.at(i, j, k) || k == z);
                }
            }
            z = z + 1;
        }
    }

    fn generate_row(chunk: &mut Chunk, z: usize)
        requires
            old(chunk).wf(),
            z < old(chunk).sz(),
            old(chunk).sx() > 0 ==> old(chunk).sy() >= 2,
        ensures
            final(chunk).wf(),
            final(chunk).same_shape(&*old(chunk)),
            forall|i: int, j: int, k: int|
                old(chunk).in_bounds(i, j, k) ==> if k == z {
                    pillars_allows(
                        old(chunk).at(i, j, k),
                        #[trigger] final(chunk).at(i, j, k),
                        old(chunk).sy() as int,
                        i,
                        j,
                        k,
                    )
                } else {
                    final(chunk).at(i, j, k) == old(chunk).at(i, j, k)
                },
    {
        let size_x = chunk.size_x();
        let size_y = chunk.size_y();
        let mut x: usize = 0;
        while x < size_x
            invariant
                x <= size_x,
                size_x == old(chunk).sx(),
                size_y == old(chunk).sy(),
                z < old(chunk).sz(),
                size_x > 0 ==> size_y >= 2,
                chunk.wf(),
                chunk.same_shape(&*old(chunk)),
                forall|i: int, j: int, k: int|
                    old(chunk).in_bounds(i, j, k) ==> if k == z && i < x {
                        pillars_allows(
                            old(chunk).at(i, j, k),
                            #[trigger] chunk.at(i, j, k),
                            size_y as int,
                            i,
                            j,
                            k,
                        )
                    } else {
                        chunk.at(i, j, k) == old(chunk).at(i, j, k)
                    },
            decreases size_x - x,
        {
            Self::generate_column(chunk, x, z);
            x = x + 1;
        }
    }

    fn generate_column(chunk: &mut Chunk, x: usize, z: usize)
        requires
            old(chunk).wf(),
            x < old(chunk).sx(),
            z < old(chunk).sz(),
            old(chunk).sy() >= 2,
        ensures
            final(chunk).wf(),
            final(chunk).same_shape(&*old(chunk)),
            forall|i: int, j: int, k: int|
                old(chunk).in_bounds(i, j, k) ==> if i == x && k == z {
                    pillars_allows(
                        old(chunk).at(i, j, k),
                        #[trigger] final(chunk).at(i, j, k),
                        old(chunk).sy() as int,
                        i,
                        j,
                        k,
                    )
                } else {
                    final(chunk).at(i, j, k) == old(chunk).at(i, j, k)
                },
    {
        let size_y = chunk.size_y();
        let top = Block::wall_block(1, 20);
        chunk.set(x, size_y - 1, z, top);
        let ceiling = Block::wall_block(1, 20);
        chunk.set(x, size_y - 2, z, ceiling);
        if x % 8 == 0 && z % 8 == 0 {
            chunk.set(x, size_y - 2, z, Block::Light);
        }
        if !(x % 5 == 0 && z % 5 == 0) {
            return;
        }
        let mut y: usize = 0;
        while y < size_y - 2
            invariant
                y <= size_y - 2,
                size_y == old(chunk).sy(),
                size_y >= 2,
                x < old(chunk).sx(),
                z < old(chunk).sz(),
                x % 5 == 0 && z % 5 == 0,
                chunk.wf(),
                chunk.same_shape(&*old(chunk)),
                forall|i: int, j: int, k: int|
                    old(chunk).in_bounds(i, j, k) ==> if i == x && k == z && (j < y || j >= size_y
                        - 2) {
                        pillars_allows(
                            old(chunk).at(i, j, k),
                            #[trigger] chunk.at(i, j, k),
                            size_y as int,
                            i,
                            j,
                            k,
                        )
                    } else {
                        chunk.at(i, j, k) == old(chunk).at(i, j, k)
                    },
            decreases size_y - 2 - y,
        {
            let b = Block::wall_block(3, 40);
            chunk.set(x, y, z, b);
            y = y + 1;
        }
    }
}

} // verus!
