use liminal::visual::light::{Light, MAX_LIGHT};
use liminal::world::block::{Block, EmittedMesh, PartialForm, Visibility, BLOCK_COUNT};

const REAL: [Block; 14] = [
    Block::Air,
    Block::Light,
    Block::Plain,
    Block::AlmondWater,
    Block::Distressed1,
    Block::Distressed2,
    Block::Distressed3,
    Block::Corrupt1,
    Block::Corrupt2,
    Block::Corrupt3,
    Block::ExitSign,
    Block::ExitDoor,
    Block::NotExit,
    Block::Tape,
];

#[test]
fn empty_is_air() {
    assert_eq!(Block::empty(), Block::Air);
    assert_eq!(Block::default(), Block::Air);
    assert_eq!(Visibility::default(), Visibility::Invisible);
    assert_eq!(EmittedMesh::default(), EmittedMesh::RectilinearFull);
}

#[test]
fn all_lists_each_real_block_once() {
    let all = Block::all();
    assert_eq!(all.len(), BLOCK_COUNT);
    assert_eq!(
        all,
        [
            Block::Air,
            Block::Light,
            Block::AlmondWater,
            Block::Plain,
            Block::Distressed1,
            Block::Distressed2,
            Block::Distressed3,
            Block::Corrupt1,
            Block::Corrupt2,
            Block::Corrupt3,
            Block::ExitSign,
            Block::ExitDoor,
            Block::NotExit,
            Block::Tape,
        ]
    );
    for b in REAL {
        assert_eq!(all.iter().filter(|&&x| x == b).count(), 1);
    }
    assert!(!all.contains(&Block::BlockCounter));
    assert_eq!(Block::BlockCounter.discriminant() as usize, BLOCK_COUNT);
}

#[test]
fn names() {
    assert_eq!(Block::Air.name(), "air");
    assert_eq!(Block::Plain.name(), "plain");
    assert_eq!(Block::Light.name(), "light");
    assert_eq!(Block::Distressed1.name(), "distressed1");
    assert_eq!(Block::Distressed2.name(), "distressed2");
    assert_eq!(Block::Distressed3.name(), "distressed3");
    assert_eq!(Block::AlmondWater.name(), "almondwater");
    assert_eq!(Block::Corrupt1.name(), "corrupt1");
    assert_eq!(Block::Corrupt2.name(), "corrupt2");
    assert_eq!(Block::Corrupt3.name(), "corrupt3");
    assert_eq!(Block::ExitSign.name(), "exitsign");
    assert_eq!(Block::ExitDoor.name(), "door");
    assert_eq!(Block::NotExit.name(), "notexit");
    assert_eq!(Block::Tape.name(), "tape");
    assert_eq!(Block::BlockCounter.name(), "");
}

#[test]
fn names_are_distinct() {
    for a in REAL {
        for b in REAL {
            assert_eq!(a == b, a.name() == b.name());
        }
    }
}

#[test]
fn opacity_levels() {
    for b in [
        Block::Air,
        Block::Light,
        Block::AlmondWater,
        Block::ExitSign,
        Block::ExitDoor,
        Block::NotExit,
        Block::Tape,
    ] {
        assert_eq!(b.opacity().level(), 0);
    }
    for b in [Block::Corrupt1, Block::Corrupt2, Block::Corrupt3] {
        assert_eq!(b.opacity().level(), 3);
    }
    for b in [
        Block::Plain,
        Block::Distressed1,
        Block::Distressed2,
        Block::Distressed3,
        Block::BlockCounter,
    ] {
        assert_eq!(b.opacity(), Light::max_light());
        assert_eq!(b.opacity().level(), MAX_LIGHT);
    }
}

#[test]
fn visibility_of_blocks() {
    assert_eq!(Block::Air.visibility(), Visibility::Invisible);
    assert_eq!(Block::AlmondWater.visibility(), Visibility::PartialOpaque);
    assert_eq!(Block::Tape.visibility(), Visibility::PartialOpaque);
    for b in REAL {
        if b != Block::Air && b != Block::AlmondWater && b != Block::Tape {
            assert_eq!(b.visibility(), Visibility::Opaque);
        }
    }
}

#[test]
fn emissivity_of_blocks() {
    assert_eq!(Block::Light.emissivity().map(|l| l.level()), Some(MAX_LIGHT));
    assert_eq!(Block::Corrupt1.emissivity().map(|l| l.level()), Some(5));
    assert_eq!(Block::Corrupt2.emissivity().map(|l| l.level()), Some(5));
    assert_eq!(Block::Corrupt3.emissivity().map(|l| l.level()), Some(5));
    assert_eq!(Block::ExitSign.emissivity().map(|l| l.level()), Some(9));
    assert_eq!(Block::ExitDoor.emissivity().map(|l| l.level()), Some(4));
    assert_eq!(Block::NotExit.emissivity().map(|l| l.level()), Some(6));
    for b in [
        Block::Air,
        Block::Plain,
        Block::AlmondWater,
        Block::Distressed1,
        Block::Distressed2,
        Block::Distressed3,
        Block::Tape,
    ] {
        assert_eq!(b.emissivity(), None);
    }
}

#[test]
fn mesh_styles() {
    assert_eq!(
        Block::AlmondWater.mesh_style(),
        EmittedMesh::RectilinearPartial(PartialForm::AlmondWaterBottle)
    );
    assert_eq!(Block::Tape.mesh_style(), EmittedMesh::RectilinearPartial(PartialForm::TapeStrip));
    assert_eq!(Block::Plain.mesh_style(), EmittedMesh::RectilinearFull);
    assert_eq!(Block::Air.mesh_style(), EmittedMesh::RectilinearFull);
    for b in REAL {
        let partial = matches!(b.mesh_style(), EmittedMesh::RectilinearPartial(_));
        assert_eq!(partial, b.visibility() == Visibility::PartialOpaque);
    }
}

#[test]
fn discriminant_roundtrip() {
    for v in 0u8..=14 {
        assert_eq!(Block::from_discriminant(v).discriminant(), v);
    }
    for b in REAL {
        assert_eq!(Block::from_discriminant(b.discriminant()), b);
    }
    assert_eq!(Block::from_discriminant(2), Block::Plain);
    assert_eq!(Block::from_discriminant(3), Block::AlmondWater);
    assert_eq!(Block::from_discriminant(14), Block::BlockCounter);
}

#[test]
fn all_index() {
    assert_eq!(Block::from_all_index(0), Block::Air);
    assert_eq!(Block::from_all_index(2), Block::AlmondWater);
    assert_eq!(Block::from_all_index(3), Block::Plain);
    assert_eq!(Block::from_all_index(13), Block::Tape);
}

#[test]
fn random_blocks_are_real() {
    for _ in 0..500 {
        let b = Block::random();
        assert!(REAL.contains(&b));
    }
}

#[test]
fn wall_block_choices() {
    assert_eq!(Block::wall_block_from(false, 2), Block::Plain);
    assert_eq!(Block::wall_block_from(true, 0), Block::Distressed1);
    assert_eq!(Block::wall_block_from(true, 1), Block::Distressed2);
    assert_eq!(Block::wall_block_from(true, 2), Block::Distressed3);
    for _ in 0..200 {
        assert_eq!(Block::wall_block(0, 7), Block::Plain);
        let special = Block::wall_block(5, 5);
        assert!(matches!(special, Block::Distressed1 | Block::Distressed2 | Block::Distressed3));
        let any = Block::wall_block(1, 2);
        assert!(matches!(
            any,
            Block::Plain | Block::Distressed1 | Block::Distressed2 | Block::Distressed3
        ));
    }
}

#[test]
fn corrupt_block_choices() {
    assert_eq!(Block::corrupt_block_from(true, 1), Block::Plain);
    assert_eq!(Block::corrupt_block_from(false, 0), Block::Corrupt1);
    assert_eq!(Block::corrupt_block_from(false, 1), Block::Corrupt2);
    assert_eq!(Block::corrupt_block_from(false, 2), Block::Corrupt3);
    for _ in 0..200 {
        assert_eq!(Block::corrupt_block(3, 3), Block::Plain);
        let c = Block::corrupt_block(0, 3);
        assert!(matches!(c, Block::Corrupt1 | Block::Corrupt2 | Block::Corrupt3));
    }
}

#[test]
fn light_levels() {
    assert_eq!(Light::new(7).level(), 7);
    assert_eq!(Light::max_light().level(), MAX_LIGHT);
    assert_eq!(Light::new(MAX_LIGHT), Light::max_light());
}
