pub mod escape;
pub mod maze;
pub mod pillars;
pub mod pitfalls;
pub mod superliminal;

use vstd::prelude::*;

use crate::terrain::maze::{maze_block, Maze};
use crate::terrain::pillars::{pillars_allows, Pillars};
use crate::terrain::pitfalls::{pitfalls_block, Pitfalls};
use crate::terrain::superliminal::{on_chunk_face, superliminal_allows, SuperLiminal};
use crate::world::chunk::{lemma_mixed_radix_bound, Chunk};

verus! {

/// The entry of a per-column mask for column `(x, z)` of a chunk `size_x`
/// wide: masks list the columns row by row, `x` fastest.
pub open spec fn column_flag(mask: Seq<bool>, size_x: int, x: int, z: int) -> bool {
    mask[x + size_x * z]
}

/// Reads the flag of column `(x, z)` from a mask of a `size_x` by `size_z`
/// chunk.
pub fn column_flag_at(mask: &Vec<bool>, size_x: usize, size_z: usize, x: usize, z: usize) -> (flag:
    bool)
    requires
        mask@.len() == size_x * size_z,
        x < size_x,
        z < size_z,
    ensures
        flag == column_flag(mask@, size_x as int, x as int, z as int),
{
    proof {
        assert(mask@.len() == mask.len());
        lemma_mixed_radix_bound(x as int, z as int, size_x as int, size_z as int);
    }
    mask[x + size_x * z]
}

/// The biomes a chunk can be generated as.
#[derive(Debug, Clone, Copy, PartialEq, Eq, Structural, Hash)]
pub enum BiomeKind {
    Parkour,
    Maze,
    DarkMaze,
    EmptyDark,
    Pillars,
    Pitfalls,
    SuperLiminal,
}

/// Whether a chunk at chunk coordinates `(x, _, z)` lies in the spawn area,
/// the three by three columns of chunks around the origin.
pub open spec fn in_spawn_area_spec(x: int, z: int) -> bool {
    -1 <= x <= 1 && -1 <= z <= 1
}

/// Whether `chunk` lies in the spawn area.
pub fn in_spawn_area(chunk: &Chunk) -> (spawn: bool)
    ensures
        spawn == in_spawn_area_spec(chunk.ox(), chunk.oz()),
        spawn == (-1 <= chunk.ox() && chunk.ox() <= 1 && -1 <= chunk.oz() && chunk.oz() <= 1),
{
    let (x, _, z) = chunk.offset();
    -1 <= x && x <= 1 && -1 <= z && z <= 1
}

/// The biome `chunk` is generated as: the spawn area is always empty and
/// dark; elsewhere the biome that the noise classified it as.
pub fn chunk_biome(chunk: &Chunk, classified: BiomeKind) -> (biome: BiomeKind)
    ensures
        biome == generated_biome(chunk, classified),
{
    if in_spawn_area(chunk) {
        BiomeKind::EmptyDark
    } else {
        classified
    }
}

/// The biome a chunk is generated as, given the biome the noise classified
/// it as.
pub open spec fn generated_biome(chunk: &Chunk, classified: BiomeKind) -> BiomeKind {
    if in_spawn_area_spec(chunk.ox(), chunk.oz()) {
        BiomeKind::EmptyDark
    } else {
        classified
    }
}

/// Whether `chunk` has the layers the generator of `biome` needs: two for
/// the maze and the pillars, one for the pitfalls.
pub open spec fn has_layers_for(chunk: &Chunk, biome: BiomeKind) -> bool {
    chunk.sx() > 0 && chunk.sz() > 0 ==> match biome {
        BiomeKind::Maze | BiomeKind::Pillars => chunk.sy() >= 2,
        BiomeKind::Pitfalls => chunk.sy() >= 1,
        _ => true,
    }
}

/// The spawn area is the three by three square of chunk columns around the
/// origin: a chunk whose horizontal chunk coordinates both lie in -1..=1 is
/// generated empty and dark, and every other chunk as the biome the noise
/// classified it as, whatever its height.
pub proof fn lemma_spawn_area_is_three_by_three(chunk: &Chunk, classified: BiomeKind)
    ensures
        (-1 <= chunk.ox() <= 1 && -1 <= chunk.oz() <= 1) ==> generated_biome(chunk, classified)
            == BiomeKind::EmptyDark,
        (chunk.ox() < -1 || chunk.ox() > 1 || chunk.oz() < -1 || chunk.oz() > 1) ==> generated_biome(
            chunk,
            classified,
        ) == classified,
{
}

/// Generates `chunk` as the biome its position calls for (`chunk_biome`)
/// and returns that biome. The maze reads its per-column feature flags from
/// `light_spots` and `water_spots`. The parkour, dark maze and empty dark
/// generators are not part of this library: chunks of those biomes keep
/// their blocks.
pub fn form_chunk(
    chunk: &mut Chunk,
    classified: BiomeKind,
    light_spots: &Vec<bool>,
    water_spots: &Vec<bool>,
) -> (biome: BiomeKind)
    requires
        old(chunk).wf(),
        light_spots@.len() == old(chunk).sx() * old(chunk).sz(),
        water_spots@.len() == old(chunk).sx() * old(chunk).sz(),
        has_layers_for(&*old(chunk), generated_biome(&*old(chunk), classified)),
    ensures
        biome == generated_biome(&*old(chunk), classified),
        (-1 <= old(chunk).ox() <= 1 && -1 <= old(chunk).oz() <= 1) ==> biome == BiomeKind::EmptyDark,
        !(-1 <= old(chunk).ox() <= 1 && -1 <= old(chunk).oz() <= 1) ==> biome == classified,
        final(chunk).wf(),
        final(chunk).same_shape(&*old(chunk)),
        forall|x: int, y: int, z: int|
            old(chunk).in_bounds(x, y, z) ==> match biome {
                BiomeKind::Maze => #[trigger] final(chunk).at(x, y, z) == maze_block(
                    old(chunk).at(x, y, z),
                    old(chunk).sy() as int,
                    x,
                    y,
                    z,
                    column_flag(light_spots@, old(chunk).sx() as int, x, z),
                    column_flag(water_spots@, old(chunk).sx() as int, x, z),
                ),
                BiomeKind::Pitfalls => final(chunk).at(x, y, z) == pitfalls_block(
                    old(chunk).sx() as int,
                    old(chunk).sz() as int,
                    x,
                    y,
                    z,
                ),
                BiomeKind::Pillars => pillars_allows(
                    old(chunk).at(x, y, z),
                    final(chunk).at(x, y, z),
                    old(chunk).sy() as int,
                    x,
                    y,
                    z,
                ),
                BiomeKind::SuperLiminal => superliminal_allows(
                    old(chunk).at(x, y, z),
                    final(chunk).at(x, y, z),
                    on_chunk_face(&*old(chunk), x, y, z),
                ),
                _ => final(chunk).at(x, y, z) == old(chunk).at(x, y, z),
            },
{
    let biome = chunk_biome(chunk, classified);
    match biome {
        BiomeKind::Maze => Maze.generate(chunk, light_spots, water_spots),
        BiomeKind::Pitfalls => Pitfalls.generate(chunk),
        BiomeKind::Pillars => Pillars.generate(chunk),
        BiomeKind::SuperLiminal => {
            SuperLiminal.generate(chunk);
        },
        BiomeKind::Parkour | BiomeKind::DarkMaze | BiomeKind::EmptyDark => {},
    }
    biome
}

} // verus!
