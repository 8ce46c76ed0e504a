use liminal::engine::neighbors::von_neumann3;
use liminal::terrain::escape::Escape;
use liminal::terrain::maze::Maze;
use liminal::terrain::pillars::Pillars;
use liminal::terrain::pitfalls::Pitfalls;
use liminal::terrain::superliminal::{
    draw_scatter, pick_scattered_block, scatter_from, scattered_block_from, touches_outside, SuperLiminal,
};
use liminal::terrain::{chunk_biome, column_flag_at, form_chunk, in_spawn_area, BiomeKind};
use liminal::world::block::Block;
use liminal::world::chunk::Chunk;

fn cells(c: &Chunk) -> Vec<(usize, usize, usize)> {
    let mut v = Vec::new();
    for z in 0..c.size_z() {
        for y in 0..c.size_y() {
            for x in 0..c.size_x() {
                v.push((x, y, z));
            }
        }
    }
    v
}

fn is_wall(b: Block) -> bool {
    matches!(b, Block::Plain | Block::Distressed1 | Block::Distressed2 | Block::Distressed3)
}

#[test]
fn new_chunk_is_air() {
    let c = Chunk::new(1, -2, 3, 4, 5, 6);
    assert_eq!((c.size_x(), c.size_y(), c.size_z()), (4, 5, 6));
    assert_eq!(c.offset(), (1, -2, 3));
    assert_eq!(c.world_y(), -10);
    for (x, y, z) in cells(&c) {
        assert_eq!(c.get(x, y, z), Block::Air);
    }
}

#[test]
fn set_then_get() {
    let mut c = Chunk::new(0, 0, 0, 3, 4, 5);
    c.set(2, 3, 4, Block::ExitSign);
    c.set(0, 1, 2, Block::Tape);
    for (x, y, z) in cells(&c) {
        let expected = match (x, y, z) {
            (2, 3, 4) => Block::ExitSign,
            (0, 1, 2) => Block::Tape,
            _ => Block::Air,
        };
        assert_eq!(c.get(x, y, z), expected);
    }
}

#[test]
fn fill_and_fill_column() {
    let mut c = Chunk::new(0, 0, 0, 3, 4, 2);
    c.fill(Block::Plain);
    c.fill_column(1, 1, 1, 3, Block::Light);
    for (x, y, z) in cells(&c) {
        let expected = if x == 1 && z == 1 && (1..3).contains(&y) { Block::Light } else { Block::Plain };
        assert_eq!(c.get(x, y, z), expected);
    }
}

#[test]
fn check_index_bounds() {
    let c = Chunk::new(0, 0, 0, 2, 3, 4);
    assert!(c.check_index(0, 0, 0));
    assert!(c.check_index(1, 2, 3));
    assert!(!c.check_index(2, 0, 0));
    assert!(!c.check_index(0, 3, 0));
    assert!(!c.check_index(0, 0, 4));
    assert!(!c.check_index(-1, 0, 0));
}

#[test]
fn empty_chunk_has_no_cells() {
    let c = Chunk::new(0, 0, 0, 0, 5, 5);
    assert!(!c.check_index(0, 0, 0));
}

#[test]
fn face_neighbours() {
    assert_eq!(von_neumann3(), [(1, 0, 0), (-1, 0, 0), (0, 1, 0), (0, -1, 0), (0, 0, 1), (0, 0, -1)]);
}

#[test]
fn pitfalls_pattern() {
    let mut c = Chunk::new(4, 0, 4, 12, 3, 8);
    c.set(3, 1, 3, Block::Tape);
    Pitfalls.generate(&mut c);
    for (x, y, z) in cells(&c) {
        let pit = x % 5 != 0 && z % 5 != 0 && x != 11 && z != 7;
        let expected = if pit {
            Block::Air
        } else if y == 0 && x % 5 == 0 && z % 5 == 0 {
            Block::Light
        } else {
            Block::Plain
        };
        assert_eq!(c.get(x, y, z), expected, "cell {:?}", (x, y, z));
    }
    assert_eq!(c.get(3, 1, 3), Block::Air);
    assert_eq!(c.get(5, 0, 5), Block::Light);
    assert_eq!(c.get(5, 1, 5), Block::Plain);
    assert_eq!(c.get(11, 1, 3), Block::Plain);
}

#[test]
fn maze_features() {
    let (sx, sy, sz) = (6usize, 4usize, 6usize);
    let mut c = Chunk::new(3, 0, 3, sx, sy, sz);
    c.set(2, 1, 2, Block::Tape);
    let mut lights = vec![false; sx * sz];
    let mut water = vec![false; sx * sz];
    lights[0 + sx * 0] = true;
    lights[5 + sx * 5] = true;
    lights[1 + sx * 1] = true;
    water[3 + sx * 4] = true;
    assert!(column_flag_at(&lights, sx, sz, 5, 5));
    assert!(!column_flag_at(&lights, sx, sz, 4, 5));
    Maze.generate(&mut c, &lights, &water);
    for (x, y, z) in cells(&c) {
        let expected = if y == 0 && x == 3 && z == 4 {
            Block::AlmondWater
        } else if y == sy - 1 {
            Block::Plain
        } else if y == sy - 2 {
            if (x, z) == (0, 0) || (x, z) == (5, 5) { Block::Light } else { Block::Plain }
        } else if (x, y, z) == (2, 1, 2) {
            Block::Tape
        } else {
            Block::Air
        };
        assert_eq!(c.get(x, y, z), expected, "cell {:?}", (x, y, z));
    }
}

#[test]
fn maze_two_layers_water_wins() {
    let mut c = Chunk::new(3, 0, 3, 1, 2, 1);
    Maze.generate(&mut c, &vec![true], &vec![true]);
    assert_eq!(c.get(0, 0, 0), Block::AlmondWater);
    assert_eq!(c.get(0, 1, 0), Block::Plain);
}

#[test]
fn pillars_layout() {
    let (sx, sy, sz) = (17usize, 6usize, 11usize);
    let mut c = Chunk::new(0, 0, 0, sx, sy, sz);
    Pillars.generate(&mut c);
    for (x, y, z) in cells(&c) {
        let b = c.get(x, y, z);
        if y == sy - 1 {
            assert!(is_wall(b));
        } else if y == sy - 2 {
            if x % 8 == 0 && z % 8 == 0 {
                assert_eq!(b, Block::Light);
            } else {
                assert!(is_wall(b));
            }
        } else if x % 5 == 0 && z % 5 == 0 {
            assert!(is_wall(b));
        } else {
            assert_eq!(b, Block::Air);
        }
    }
}

#[test]
fn escape_high_chunk_has_exit() {
    let mut c = Chunk::new(0, 5, 0, 7, 8, 9);
    assert_eq!(c.world_y(), 40);
    Escape.generate(&mut c);
    assert_eq!(c.get(3, 0, 4), Block::ExitDoor);
    assert_eq!(c.get(3, 1, 4), Block::ExitDoor);
    assert_eq!(c.get(3, 2, 4), Block::ExitSign);
    for (x, y, z) in cells(&c) {
        let b = c.get(x, y, z);
        if (x, z) == (3, 4) && y < 3 {
            continue;
        }
        if y == 7 {
            assert!(is_wall(b));
        } else {
            assert_eq!(b, Block::Air);
        }
    }
}

#[test]
fn escape_low_chunk_has_no_exit() {
    let mut c = Chunk::new(0, 4, 0, 7, 8, 9);
    assert_eq!(c.world_y(), 32);
    Escape.generate(&mut c);
    for (x, y, z) in cells(&c) {
        let b = c.get(x, y, z);
        if y == 7 {
            assert!(is_wall(b));
        } else {
            assert_eq!(b, Block::Air);
        }
    }
}

#[test]
fn boundary_cells() {
    let c = Chunk::new(0, 0, 0, 3, 3, 3);
    assert!(!touches_outside(&c, 1, 1, 1));
    assert!(touches_outside(&c, 0, 1, 1));
    assert!(touches_outside(&c, 1, 2, 1));
    assert!(touches_outside(&c, 1, 1, 0));
    let flat = Chunk::new(0, 0, 0, 5, 1, 5);
    assert!(touches_outside(&flat, 2, 0, 2));
}

#[test]
fn superliminal_leaves_inside_open() {
    let mut c = Chunk::new(0, 0, 0, 6, 6, 6);
    for _ in 0..20 {
        SuperLiminal.generate(&mut c);
    }
    for (x, y, z) in cells(&c) {
        let b = c.get(x, y, z);
        let face = x == 0 || x == 5 || y == 0 || y == 5 || z == 0 || z == 5;
        if face {
            assert!(matches!(
                b,
                Block::Air | Block::Light | Block::AlmondWater | Block::Plain | Block::Distressed1 | Block::Corrupt1
            ));
        } else {
            assert_eq!(b, Block::Air);
        }
    }
}

#[test]
fn scattered_choice() {
    assert_eq!(scattered_block_from(true, true, true, true), Block::Light);
    assert_eq!(scattered_block_from(false, true, true, true), Block::AlmondWater);
    assert_eq!(scattered_block_from(false, false, true, false), Block::Plain);
    assert_eq!(scattered_block_from(false, false, false, true), Block::Distressed1);
    assert_eq!(scattered_block_from(false, false, false, false), Block::Corrupt1);
    for _ in 0..100 {
        assert!(matches!(
            pick_scattered_block(),
            Block::Light | Block::AlmondWater | Block::Plain | Block::Distressed1 | Block::Corrupt1
        ));
    }
}

#[test]
fn spawn_area_is_empty_dark() {
    let origin = Chunk::new(0, 3, 0, 1, 1, 1);
    let corner = Chunk::new(-1, 0, 1, 1, 1, 1);
    let outside = Chunk::new(2, 0, 0, 1, 1, 1);
    assert!(in_spawn_area(&origin));
    assert!(in_spawn_area(&corner));
    assert!(!in_spawn_area(&outside));
    assert_eq!(chunk_biome(&origin, BiomeKind::Pillars), BiomeKind::EmptyDark);
    assert_eq!(chunk_biome(&outside, BiomeKind::Pillars), BiomeKind::Pillars);
    assert_eq!(chunk_biome(&Chunk::new(0, 0, -2, 1, 1, 1), BiomeKind::Maze), BiomeKind::Maze);
}

#[test]
fn cell_index_order() {
    let c = Chunk::new(0, 0, 0, 3, 4, 5);
    assert_eq!(c.volume(), 60);
    assert_eq!(c.cell_index_of(0, 0, 0), 0);
    assert_eq!(c.cell_index_of(2, 0, 0), 2);
    assert_eq!(c.cell_index_of(0, 1, 0), 3);
    assert_eq!(c.cell_index_of(0, 0, 1), 12);
    assert_eq!(c.cell_index_of(2, 3, 4), 59);
}

#[test]
fn scatter_applies_draws_on_faces_only() {
    let mut c = Chunk::new(0, 0, 0, 3, 3, 3);
    let mut draws = vec![Some(Block::Light); c.volume()];
    let corner = c.cell_index_of(0, 0, 0);
    let side = c.cell_index_of(2, 1, 1);
    draws[corner] = Some(Block::Corrupt1);
    draws[side] = None;
    scatter_from(&mut c, &draws);
    for (x, y, z) in cells(&c) {
        let expected = if (x, y, z) == (1, 1, 1) || (x, y, z) == (2, 1, 1) {
            Block::Air
        } else if (x, y, z) == (0, 0, 0) {
            Block::Corrupt1
        } else {
            Block::Light
        };
        assert_eq!(c.get(x, y, z), expected, "cell {:?}", (x, y, z));
    }
}

#[test]
fn drawn_scatter_holds_scattered_blocks() {
    let c = Chunk::new(0, 0, 0, 8, 8, 8);
    for _ in 0..20 {
        let draws = draw_scatter(&c);
        assert_eq!(draws.len(), 512);
        for d in draws.iter().flatten() {
            assert!(matches!(
                d,
                Block::Light | Block::AlmondWater | Block::Plain | Block::Distressed1 | Block::Corrupt1
            ));
        }
        assert!(draws[c.cell_index_of(3, 3, 3)].is_none());
    }
}

#[test]
fn form_chunk_dispatch() {
    let mut spawn = Chunk::new(1, 0, -1, 6, 3, 6);
    let lights = vec![false; 36];
    let water = vec![false; 36];
    assert_eq!(form_chunk(&mut spawn, BiomeKind::Pitfalls, &lights, &water), BiomeKind::EmptyDark);
    for (x, y, z) in cells(&spawn) {
        assert_eq!(spawn.get(x, y, z), Block::Air);
    }
    let mut pits = Chunk::new(5, 0, 0, 6, 3, 6);
    assert_eq!(form_chunk(&mut pits, BiomeKind::Pitfalls, &lights, &water), BiomeKind::Pitfalls);
    assert_eq!(pits.get(0, 0, 0), Block::Light);
    assert_eq!(pits.get(1, 1, 1), Block::Air);
    assert_eq!(pits.get(5, 1, 1), Block::Plain);
    let mut maze = Chunk::new(5, 0, 0, 6, 3, 6);
    let mut water_here = vec![false; 36];
    water_here[1 + 6 * 2] = true;
    assert_eq!(form_chunk(&mut maze, BiomeKind::Maze, &lights, &water_here), BiomeKind::Maze);
    assert_eq!(maze.get(1, 0, 2), Block::AlmondWater);
    assert_eq!(maze.get(0, 2, 0), Block::Plain);
    assert_eq!(maze.get(0, 1, 0), Block::Plain);
    assert_eq!(maze.get(0, 0, 0), Block::Air);
}

#[test]
fn drawn_scatter_skips_inner_cells() {
    let c = Chunk::new(0, 0, 0, 5, 4, 6);
    for _ in 0..20 {
        let draws = draw_scatter(&c);
        for (x, y, z) in cells(&c) {
            let face = x == 0 || x == 4 || y == 0 || y == 3 || z == 0 || z == 5;
            if !face {
                assert!(draws[c.cell_index_of(x, y, z)].is_none());
            }
        }
    }
}
