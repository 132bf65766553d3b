use voxel_engine::chunk::Chunk;
use voxel_engine::coords::RelativeCoordinates;
use voxel_engine::identifier::GlobalIdentifier;
use voxel_engine::palette::VoxelPalette;

fn counting_codes() -> [u16; 4096] {
    let mut voxels = [0u16; 4096];
    for i in 0..4096 {
        voxels[i] = i as u16;
    }
    voxels
}

fn global_of(f: impl Fn(usize) -> GlobalIdentifier) -> Box<[GlobalIdentifier; 4096]> {
    let cells: Vec<GlobalIdentifier> = (0..4096).map(f).collect();
    match cells.try_into() {
        Ok(cells) => cells,
        Err(_) => unreachable!(),
    }
}

#[test]
fn chunk_new_is_unmodified() {
    let chunk = Chunk::new([0u16; 4096]);
    assert!(!chunk.modified);
}

#[test]
fn get_voxel_reads_x_plus_16_y_plus_256_z() {
    let chunk = Chunk::new(counting_codes());
    assert_eq!(chunk.get_voxel(RelativeCoordinates::new(0, 0, 0)), Some(0));
    assert_eq!(chunk.get_voxel(RelativeCoordinates::new(1, 0, 0)), Some(1));
    assert_eq!(chunk.get_voxel(RelativeCoordinates::new(0, 1, 0)), Some(16));
    assert_eq!(chunk.get_voxel(RelativeCoordinates::new(0, 0, 1)), Some(256));
    assert_eq!(chunk.get_voxel(RelativeCoordinates::new(3, 2, 1)), Some(291));
    assert_eq!(chunk.get_voxel(RelativeCoordinates::new(15, 15, 15)), Some(4095));
    for x in 0..16i64 {
        for y in 0..16i64 {
            for z in 0..16i64 {
                assert_eq!(chunk.get_voxel(RelativeCoordinates::new(x, y, z)), Some((x + 16 * y + 256 * z) as u16));
            }
        }
    }
}

#[test]
fn get_voxel_outside_the_chunk_is_none() {
    let chunk = Chunk::new(counting_codes());
    assert_eq!(chunk.get_voxel(RelativeCoordinates::new(16, 0, 0)), None);
    assert_eq!(chunk.get_voxel(RelativeCoordinates::new(-1, 5, 5)), None);
    assert_eq!(chunk.get_voxel(RelativeCoordinates::new(0, 0, 16)), None);
    assert_eq!(chunk.get_voxel(RelativeCoordinates::new(0, 16, 0)), None);
    assert_eq!(chunk.get_voxel(RelativeCoordinates::new(0, -1, 0)), None);
    assert_eq!(chunk.get_voxel(RelativeCoordinates::new(i64::MAX, i64::MAX, i64::MAX)), None);
    assert_eq!(chunk.get_voxel(RelativeCoordinates::new(i64::MIN, 0, 0)), None);
    assert_eq!(chunk.get_voxel(RelativeCoordinates::new(4096, 0, 0)), None);
}

#[test]
fn from_global_interns_in_storage_order() {
    let mut palette = VoxelPalette::new();
    let global = global_of(|i| GlobalIdentifier::new("t", &format!("v{}", i % 5)));
    let chunk = Chunk::from_global(&global, &mut palette);
    assert!(!chunk.modified);
    assert_eq!(palette.len(), 5);
    for x in 0..16i64 {
        for y in 0..16i64 {
            for z in 0..16i64 {
                let flat = x + 16 * y + 256 * z;
                assert_eq!(chunk.get_voxel(RelativeCoordinates::new(x, y, z)), Some((flat % 5) as u16));
            }
        }
    }
    for k in 0..5 {
        assert_eq!(palette.get(&GlobalIdentifier::new("t", &format!("v{}", k))), Some(k as u16));
    }
}

#[test]
fn from_global_reuses_codes_of_the_palette() {
    let mut palette = VoxelPalette::new();
    assert_eq!(palette.intern(&GlobalIdentifier::new("t", "stone")), 0);
    assert_eq!(palette.intern(&GlobalIdentifier::new("t", "dirt")), 1);
    let global = global_of(|i| {
        if i < 10 {
            GlobalIdentifier::new("t", "grass")
        } else if i < 20 {
            GlobalIdentifier::new("t", "dirt")
        } else {
            GlobalIdentifier::new("t", "stone")
        }
    });
    let chunk = Chunk::from_global(&global, &mut palette);
    assert_eq!(palette.len(), 3);
    assert_eq!(palette.get(&GlobalIdentifier::new("t", "grass")), Some(2));
    assert_eq!(chunk.get_voxel(RelativeCoordinates::new(0, 0, 0)), Some(2));
    assert_eq!(chunk.get_voxel(RelativeCoordinates::new(9, 0, 0)), Some(2));
    assert_eq!(chunk.get_voxel(RelativeCoordinates::new(10, 0, 0)), Some(1));
    assert_eq!(chunk.get_voxel(RelativeCoordinates::new(3, 1, 0)), Some(1));
    assert_eq!(chunk.get_voxel(RelativeCoordinates::new(4, 1, 0)), Some(0));
    assert_eq!(chunk.get_voxel(RelativeCoordinates::new(15, 15, 15)), Some(0));
}

#[test]
fn from_global_of_4096_different_types() {
    let mut palette = VoxelPalette::new();
    let global = global_of(|i| GlobalIdentifier::new("t", &format!("v{}", i)));
    let chunk = Chunk::from_global(&global, &mut palette);
    assert_eq!(palette.len(), 4096);
    assert_eq!(chunk.get_voxel(RelativeCoordinates::new(0, 0, 0)), Some(0));
    assert_eq!(chunk.get_voxel(RelativeCoordinates::new(15, 15, 15)), Some(4095));
    assert_eq!(chunk.get_voxel(RelativeCoordinates::new(5, 6, 7)), Some(5 + 96 + 1792));
}
