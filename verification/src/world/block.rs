use vstd::prelude::*;

use crate::engine::random::{random_below, random_chance};
use crate::visual::light::{Light, MAX_LIGHT};

verus! {

/// How a block shows up when rendered.
#[derive(Debug, Clone, Copy, PartialEq, Eq, Structural, PartialOrd, Ord, Hash)]
pub enum Visibility {
    Invisible,
    Opaque,
    PartialOpaque,
    Transparent,
}

impl Default for Visibility {
    fn default() -> (v: Visibility)
        ensures
            v == Visibility::Invisible,
    {
        Visibility::Invisible
    }
}

/// The reduced model a partial block is drawn with. Each form stands for a
/// fixed placement, rotation about the vertical axis and scale of the unit
/// cube inside its cell.
#[derive(Debug, Clone, Copy, PartialEq, Eq, Structural, Hash)]
pub enum PartialForm {
    /// A slim upright bottle standing on the floor of the cell.
    AlmondWaterBottle,
    /// A flat strip lying on the floor of the cell.
    TapeStrip,
}

/// The geometry a block contributes to its chunk's mesh.
#[derive(Debug, Clone, Copy, PartialEq, Eq, Structural, Hash)]
pub enum EmittedMesh {
    RectilinearFull,
    Decorator,
    RectilinearPartial(PartialForm),
}

impl Default for EmittedMesh {
    fn default() -> (m: EmittedMesh)
        ensures
            m == EmittedMesh::RectilinearFull,
    {
        EmittedMesh::RectilinearFull
    }
}

/// A kind of block. `BlockCounter` is not a real block: its discriminant is
/// the number of real blocks.
#[derive(Debug, Clone, Copy, PartialEq, Eq, Structural, PartialOrd, Ord, Hash)]
pub enum Block {
    Air,
    Light,
    Plain,
    AlmondWater,
    Distressed1,
    Distressed2,
    Distressed3,
    Corrupt1,
    Corrupt2,
    Corrupt3,
    ExitSign,
    ExitDoor,
    NotExit,
    Tape,
    BlockCounter,
}

impl Default for Block {
    fn default() -> (b: Block)
        ensures
            b == Block::Air,
    {
        Block::Air
    }
}

/// The number of real blocks, the discriminant of `Block::BlockCounter`.
pub const BLOCK_COUNT: usize = 14;

/// Every real block, in the order in which `Block::all` lists them.
pub open spec fn all_blocks() -> Seq<Block> {
    seq![
        Block::Air,
        Block::Light,
        Block::AlmondWater,
        Block::Plain,
        Block::Distressed1,
        Block::Distressed2,
        Block::Distressed3,
        Block::Corrupt1,
        Block::Corrupt2,
        Block::Corrupt3,
        Block::ExitSign,
        Block::ExitDoor,
        Block::NotExit,
        Block::Tape,
    ]
}

/// The discriminant of a block, in declaration order.
pub open spec fn spec_discriminant(b: Block) -> u8 {
    match b {
        Block::Air => 0,
        Block::Light => 1,
        Block::Plain => 2,
        Block::AlmondWater => 3,
        Block::Distressed1 => 4,
        Block::Distressed2 => 5,
        Block::Distressed3 => 6,
        Block::Corrupt1 => 7,
        Block::Corrupt2 => 8,
        Block::Corrupt3 => 9,
        Block::ExitSign => 10,
        Block::ExitDoor => 11,
        Block::NotExit => 12,
        Block::Tape => 13,
        Block::BlockCounter => 14,
    }
}

/// The block whose discriminant is `value`.
pub open spec fn spec_from_discriminant(value: u8) -> Block
    recommends
        value <= 14,
{
    if value == 0 {
        Block::Air
    } else if value == 1 {
        Block::Light
    } else if value == 2 {
        Block::Plain
    } else if value == 3 {
        Block::AlmondWater
    } else if value == 4 {
        Block::Distressed1
    } else if value == 5 {
        Block::Distressed2
    } else if value == 6 {
        Block::Distressed3
    } else if value == 7 {
        Block::Corrupt1
    } else if value == 8 {
        Block::Corrupt2
    } else if value == 9 {
        Block::Corrupt3
    } else if value == 10 {
        Block::ExitSign
    } else if value == 11 {
        Block::ExitDoor
    } else if value == 12 {
        Block::NotExit
    } else if value == 13 {
        Block::Tape
    } else {
        Block::BlockCounter
    }
}

/// The display name of a block.
pub open spec fn block_name(b: Block) -> Seq<char> {
    match b {
        Block::Air => "air"@,
        Block::Plain => "plain"@,
        Block::Light => "light"@,
        Block::Distressed1 => "distressed1"@,
        Block::Distressed2 => "distressed2"@,
        Block::Distressed3 => "distressed3"@,
        Block::AlmondWater => "almondwater"@,
        Block::Corrupt1 => "corrupt1"@,
        Block::Corrupt2 => "corrupt2"@,
        Block::Corrupt3 => "corrupt3"@,
        Block::ExitSign => "exitsign"@,
        Block::ExitDoor => "door"@,
        Block::NotExit => "notexit"@,
        Block::Tape => "tape"@,
        Block::BlockCounter => ""@,
    }
}

/// How much light a block absorbs.
pub open spec fn block_opacity(b: Block) -> nat {
    match b {
        Block::Air | Block::Light | Block::AlmondWater | Block::ExitSign | Block::ExitDoor
        | Block::NotExit | Block::Tape => 0,
        Block::Corrupt1 | Block::Corrupt2 | Block::Corrupt3 => 3,
        _ => MAX_LIGHT as nat,
    }
}

/// How a block is seen.
pub open spec fn block_visibility(b: Block) -> Visibility {
    match b {
        Block::Air => Visibility::Invisible,
        Block::AlmondWater | Block::Tape => Visibility::PartialOpaque,
        _ => Visibility::Opaque,
    }
}

/// The light a block gives off, if any.
pub open spec fn block_emissivity(b: Block) -> Option<nat> {
    match b {
        Block::Light => Some(MAX_LIGHT as nat),
        Block::Corrupt1 | Block::Corrupt2 | Block::Corrupt3 => Some(5),
        Block::ExitSign => Some(9),
        Block::ExitDoor => Some(4),
        Block::NotExit => Some(6),
        _ => None,
    }
}

/// The mesh a block contributes.
pub open spec fn block_mesh(b: Block) -> EmittedMesh {
    match b {
        Block::AlmondWater => EmittedMesh::RectilinearPartial(PartialForm::AlmondWaterBottle),
        Block::Tape => EmittedMesh::RectilinearPartial(PartialForm::TapeStrip),
        _ => EmittedMesh::RectilinearFull,
    }
}

/// The blocks a wall is built from: plain wall or one of its distressed
/// variants.
pub open spec fn is_wall_block(b: Block) -> bool {
    b == Block::Plain || is_special_wall(b)
}

/// The distressed wall variants, in the order `Block::wall_block_from`
/// indexes them.
pub open spec fn special_walls() -> Seq<Block> {
    seq![Block::Distressed1, Block::Distressed2, Block::Distressed3]
}

/// The corrupted variants, in the order `Block::corrupt_block_from` indexes
/// them.
pub open spec fn corrupt_blocks() -> Seq<Block> {
    seq![Block::Corrupt1, Block::Corrupt2, Block::Corrupt3]
}

pub open spec fn is_special_wall(b: Block) -> bool {
    b == Block::Distressed1 || b == Block::Distressed2 || b == Block::Distressed3
}

pub open spec fn is_corrupt(b: Block) -> bool {
    b == Block::Corrupt1 || b == Block::Corrupt2 || b == Block::Corrupt3
}

/// `Block::all` lists every real block exactly once, and nothing else: its
/// length is the discriminant of `BlockCounter`.
pub proof fn lemma_all_blocks_enumerates_real_blocks()
    ensures
        all_blocks().len() == BLOCK_COUNT,
        BLOCK_COUNT == spec_discriminant(Block::BlockCounter),
        all_blocks().no_duplicates(),
        forall|b: Block| #[trigger] all_blocks().contains(b) <==> b != Block::BlockCounter,
{
    assert forall|b: Block| #[trigger] all_blocks().contains(b) <==> b != Block::BlockCounter by {
        if b != Block::BlockCounter {
            let i: int = match b {
                Block::Air => 0,
                Block::Light => 1,
                Block::AlmondWater => 2,
                Block::Plain => 3,
                Block::Distressed1 => 4,
                Block::Distressed2 => 5,
                Block::Distressed3 => 6,
                Block::Corrupt1 => 7,
                Block::Corrupt2 => 8,
                Block::Corrupt3 => 9,
                Block::ExitSign => 10,
                Block::ExitDoor => 11,
                Block::NotExit => 12,
                Block::Tape => 13,
                Block::BlockCounter => 0,
            };
            assert(all_blocks()[i] == b);
        }
    }
}

/// Converting a block to its discriminant and back gives the same block, and
/// every discriminant up to that of `BlockCounter` names exactly one block.
pub proof fn lemma_discriminant_roundtrip(b: Block, value: u8)
    ensures
        spec_from_discriminant(spec_discriminant(b)) == b,
        spec_discriminant(b) <= 14,
        value <= 14 ==> spec_discriminant(spec_from_discriminant(value)) == value,
{
}

/// Distinct blocks have distinct names, so a block is known by its name.
pub proof fn lemma_names_distinct(a: Block, b: Block)
    ensures
        a != b ==> block_name(a) != block_name(b),
{
    reveal_strlit("air");
    reveal_strlit("plain");
    reveal_strlit("light");
    reveal_strlit("distressed1");
    reveal_strlit("distressed2");
    reveal_strlit("distressed3");
    reveal_strlit("almondwater");
    reveal_strlit("corrupt1");
    reveal_strlit("corrupt2");
    reveal_strlit("corrupt3");
    reveal_strlit("exitsign");
    reveal_strlit("door");
    reveal_strlit("notexit");
    reveal_strlit("tape");
    reveal_strlit("");
    if a != b {
        let na = block_name(a);
        let nb = block_name(b);
        if na.len() == nb.len() && na.len() > 0 {
            assert(na[0] != nb[0] || na[na.len() - 1] != nb[nb.len() - 1] || na[2] != nb[2]);
        }
    }
}

/// Air, the empty block, is the only invisible block; it neither absorbs nor
/// gives off light.
pub proof fn lemma_air_is_empty_space(b: Block)
    ensures
        block_visibility(b) == Visibility::Invisible <==> b == Block::Air,
        block_opacity(Block::Air) == 0,
        block_emissivity(Block::Air) is None,
{
}

/// Every block other than almond water and tape is drawn as a full cube;
/// almond water is drawn as the bottle and tape as the strip.
pub proof fn lemma_full_cube_unless_partial(b: Block)
    ensures
        b != Block::AlmondWater && b != Block::Tape ==> block_mesh(b) == EmittedMesh::RectilinearFull,
        block_mesh(Block::AlmondWater) == EmittedMesh::RectilinearPartial(PartialForm::AlmondWaterBottle),
        block_mesh(Block::Tape) == EmittedMesh::RectilinearPartial(PartialForm::TapeStrip),
        block_mesh(b) != EmittedMesh::Decorator,
{
}

/// How blocks treat light: a block absorbs all light exactly when it is
/// seen as opaque and gives off no light of its own; the three corrupted
/// blocks, and only they, absorb some light (three levels) while letting the
/// rest through; every other block lets all light through. A block that
/// gives off light is seen as opaque, only the light block shines at full
/// strength, and the corrupted blocks all shine alike, at five. No block is
/// transparent.
pub proof fn lemma_light_and_visibility(b: Block)
    ensures
        block_opacity(b) == MAX_LIGHT as nat <==> (block_visibility(b) == Visibility::Opaque
            && block_emissivity(b) is None),
        block_opacity(b) == 3 <==> (b == Block::Corrupt1 || b == Block::Corrupt2 || b
            == Block::Corrupt3),
        block_opacity(b) != MAX_LIGHT as nat && block_opacity(b) != 3 ==> block_opacity(b) == 0,
        block_emissivity(b) is Some ==> block_visibility(b) == Visibility::Opaque,
        block_emissivity(b) == Some(MAX_LIGHT as nat) <==> b == Block::Light,
        (b == Block::Corrupt1 || b == Block::Corrupt2 || b == Block::Corrupt3) ==> block_emissivity(b)
            == Some(5nat),
        block_visibility(b) != Visibility::Transparent,
{
}

/// A block is drawn with a reduced partial model exactly when it is only
/// partially opaque.
pub proof fn lemma_partial_mesh_iff_partially_opaque(b: Block)
    ensures
        block_mesh(b) is RectilinearPartial <==> block_visibility(b) == Visibility::PartialOpaque,
{
}

/// Every opacity and every emitted light lies within the light range.
pub proof fn lemma_light_values_in_range(b: Block)
    ensures
        block_opacity(b) <= MAX_LIGHT as nat,
        block_emissivity(b) matches Some(l) ==> l <= MAX_LIGHT as nat,
{
}

impl Block {
    /// The block that fills empty space.
    pub fn empty() -> (b: Block)
        ensures
            b == Block::Air,
    {
        Block::Air
    }

    /// Every real block, each exactly once.
    pub fn all() -> (blocks: [Block; 14])
        ensures
            blocks@ == all_blocks(),
    {
        let blocks = [
            Block::Air,
            Block::Light,
            Block::AlmondWater,
            Block::Plain,
            Block::Distressed1,
            Block::Distressed2,
            Block::Distressed3,
            Block::Corrupt1,
            Block::Corrupt2,
            Block::Corrupt3,
            Block::ExitSign,
            Block::ExitDoor,
            Block::NotExit,
            Block::Tape,
        ];
        assert(blocks@ =~= all_blocks());
        blocks
    }

    /// The display name of this block.
    pub fn name(&self) -> (name: &'static str)
        ensures
            name@ == block_name(*self),
    {
        match self {
            Block::Air => "air",
            Block::Plain => "plain",
            Block::Light => "light",
            Block::Distressed1 => "distressed1",
            Block::Distressed2 => "distressed2",
            Block::Distressed3 => "distressed3",
            Block::AlmondWater => "almondwater",
            Block::Corrupt1 => "corrupt1",
            Block::Corrupt2 => "corrupt2",
            Block::Corrupt3 => "corrupt3",
            Block::ExitSign => "exitsign",
            Block::ExitDoor => "door",
            Block::NotExit => "notexit",
            Block::Tape => "tape",
            Block::BlockCounter => "",
        }
    }

    /// How much light this block absorbs.
    pub fn opacity(&self) -> (light: Light)
        ensures
            light@ == block_opacity(*self),
            light.wf(),
    {
        match self {
            Block::Air => Light::new(0),
            Block::Light => Light::new(0),
            Block::AlmondWater => Light::new(0),
            Block::ExitSign => Light::new(0),
            Block::ExitDoor => Light::new(0),
            Block::NotExit => Light::new(0),
            Block::Corrupt1 => Light::new(3),
            Block::Corrupt2 => Light::new(3),
            Block::Corrupt3 => Light::new(3),
            Block::Tape => Light::new(0),
            _ => Light::max_light(),
        }
    }

    /// How this block is seen.
    pub fn visibility(&self) -> (v: Visibility)
        ensures
            v == block_visibility(*self),
    {
        match self {
            Block::Air => Visibility::Invisible,
            Block::AlmondWater => Visibility::PartialOpaque,
            Block::Tape => Visibility::PartialOpaque,
            _ => Visibility::Opaque,
        }
    }

    /// The light this block gives off, if any.
    pub fn emissivity(&self) -> (light: Option<Light>)
        ensures
            match light {
                Some(l) => block_emissivity(*self) == Some(l@) && l.wf(),
                None => block_emissivity(*self) is None,
            },
    {
        match self {
            Block::Light => Some(Light::max_light()),
            Block::Corrupt1 => Some(Light::new(5)),
            Block::Corrupt2 => Some(Light::new(5)),
            Block::Corrupt3 => Some(Light::new(5)),
            Block::ExitSign => Some(Light::new(9)),
            Block::ExitDoor => Some(Light::new(4)),
            Block::NotExit => Some(Light::new(6)),
            _ => None,
        }
    }

    /// The mesh this block contributes.
    pub fn mesh_style(&self) -> (mesh: EmittedMesh)
        ensures
            mesh == block_mesh(*self),
            *self != Block::AlmondWater && *self != Block::Tape ==> mesh == EmittedMesh::RectilinearFull,
    {
        match self {
            Block::AlmondWater => EmittedMesh::RectilinearPartial(PartialForm::AlmondWaterBottle),
            Block::Tape => EmittedMesh::RectilinearPartial(PartialForm::TapeStrip),
            _ => EmittedMesh::RectilinearFull,
        }
    }

    /// The discriminant of this block.
    pub fn discriminant(&self) -> (value: u8)
        ensures
            value == spec_discriminant(*self),
    {
        match self {
            Block::Air => 0,
            Block::Light => 1,
            Block::Plain => 2,
            Block::AlmondWater => 3,
            Block::Distressed1 => 4,
            Block::Distressed2 => 5,
            Block::Distressed3 => 6,
            Block::Corrupt1 => 7,
            Block::Corrupt2 => 8,
            Block::Corrupt3 => 9,
            Block::ExitSign => 10,
            Block::ExitDoor => 11,
            Block::NotExit => 12,
            Block::Tape => 13,
            Block::BlockCounter => 14,
        }
    }

    /// The block whose discriminant is `value`.
    pub fn from_discriminant(value: u8) -> (b: Block)
        requires
            value <= 14,
        ensures
            b == spec_from_discriminant(value),
            spec_discriminant(b) == value,
    {
        match value {
            0 => Block::Air,
            1 => Block::Light,
            2 => Block::Plain,
            3 => Block::AlmondWater,
            4 => Block::Distressed1,
            5 => Block::Distressed2,
            6 => Block::Distressed3,
            7 => Block::Corrupt1,
            8 => Block::Corrupt2,
            9 => Block::Corrupt3,
            10 => Block::ExitSign,
            11 => Block::ExitDoor,
            12 => Block::NotExit,
            13 => Block::Tape,
            _ => Block::BlockCounter,
        }
    }

    /// The real block at position `index` of `Block::all`.
    pub fn from_all_index(index: usize) -> (b: Block)
        requires
            index < BLOCK_COUNT,
        ensures
            b == all_blocks()[index as int],
    {
        let blocks = Block::all();
        blocks[index]
    }

    /// A real block drawn uniformly at random.
    pub fn random() -> (b: Block)
        ensures
            all_blocks().contains(b),
    {
        let index = random_below(BLOCK_COUNT);
        let b = Block::from_all_index(index);
        assert(all_blocks()[index as int] == b);
        b
    }

    /// The wall block chosen by the two draws of `wall_block`: a distressed
    /// variant, picked by `index`, when `special` came up, else plain wall.
    pub fn wall_block_from(special: bool, index: usize) -> (b: Block)
        requires
            index < 3,
        ensures
            special ==> b == special_walls()[index as int],
            !special ==> b == Block::Plain,
    {
        if special {
            let specials = [Block::Distressed1, Block::Distressed2, Block::Distressed3];
            assert(specials@ =~= special_walls());
            return specials[index];
        }
        Block::Plain
    }

    /// A wall block: with chance `numerator / denominator` one of the three
    /// distressed variants, each equally likely, else plain wall.
    pub fn wall_block(numerator: u32, denominator: u32) -> (b: Block)
        requires
            0 < denominator,
            numerator <= denominator,
        ensures
            is_wall_block(b),
            numerator == 0 ==> b == Block::Plain,
            numerator == denominator ==> is_special_wall(b),
    {
        if random_chance(numerator, denominator) {
            let index = random_below(3);
            return Block::wall_block_from(true, index);
        }
        Block::wall_block_from(false, 0)
    }

    /// The corrupt block chosen by the draws of `corrupt_block`: plain wall
    /// when `plain` came up, else the corrupted variant picked by `index`.
    pub fn corrupt_block_from(plain: bool, index: usize) -> (b: Block)
        requires
            index < 3,
        ensures
            plain ==> b == Block::Plain,
            !plain ==> b == corrupt_blocks()[index as int],
    {
        if plain {
            return Block::Plain;
        }
        let corrupt = [Block::Corrupt1, Block::Corrupt2, Block::Corrupt3];
        assert(corrupt@ =~= corrupt_blocks());
        corrupt[index]
    }

    /// A corrupted block: with chance `numerator / denominator` plain wall,
    /// else one of the three corrupted variants, each equally likely.
    pub fn corrupt_block(numerator: u32, denominator: u32) -> (b: Block)
        requires
            0 < denominator,
            numerator <= denominator,
        ensures
            b == Block::Plain || is_corrupt(b),
            numerator == 0 ==> is_corrupt(b),
            numerator == denominator ==> b == Block::Plain,
    {
        if random_chance(numerator, denominator) {
            return Block::corrupt_block_from(true, 0);
        }
        let index = random_below(3);
        Block::corrupt_block_from(false, index)
    }
}

} // verus!
