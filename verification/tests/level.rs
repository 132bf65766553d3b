use voxel_engine::coords::{ChunkCoordinates, RelativeCoordinates};
use voxel_engine::identifier::GlobalIdentifier;
use voxel_engine::level::Level;

fn voxels_of(f: impl Fn(usize) -> GlobalIdentifier) -> Box<[GlobalIdentifier; 4096]> {
    let cells: Vec<GlobalIdentifier> = (0..4096).map(f).collect();
    match cells.try_into() {
        Ok(cells) => cells,
        Err(_) => unreachable!(),
    }
}

fn all_of(pack: &str, obj: &str) -> Box<[GlobalIdentifier; 4096]> {
    voxels_of(|_| GlobalIdentifier::new(pack, obj))
}

fn every_code(level: &Level, coords: ChunkCoordinates) -> Vec<u16> {
    let chunk = match level.get_chunk(coords) {
        Some(chunk) => chunk,
        None => panic!("no chunk"),
    };
    let mut codes = Vec::new();
    for z in 0..16 {
        for y in 0..16 {
            for x in 0..16 {
                match chunk.get_voxel(RelativeCoordinates::new(x, y, z)) {
                    Some(code) => codes.push(code),
                    None => panic!("no voxel"),
                }
            }
        }
    }
    codes
}

#[test]
fn level_new_has_no_chunks_and_no_types() {
    let level = Level::new();
    assert_eq!(level.palette().len(), 0);
    assert!(level.get_chunk(ChunkCoordinates::new(0, 0, 0)).is_none());
    assert!(level.get_chunk(ChunkCoordinates::new(-1, 7, 3)).is_none());
}

#[test]
fn add_global_chunk_stores_the_chunk_in_local_codes() {
    let mut level = Level::new();
    let at = ChunkCoordinates::new(2, -3, 4);
    level.add_global_chunk(at, *voxels_of(|i| {
        if i % 2 == 0 {
            GlobalIdentifier::new("required", "air")
        } else {
            GlobalIdentifier::new("base", "dev_tile")
        }
    }));
    assert_eq!(level.palette().len(), 2);
    assert_eq!(level.palette().get(&GlobalIdentifier::new("required", "air")), Some(0));
    assert_eq!(level.palette().get(&GlobalIdentifier::new("base", "dev_tile")), Some(1));
    let codes = every_code(&level, at);
    for i in 0..4096 {
        assert_eq!(codes[i], (i % 2) as u16);
    }
    assert!(!level.get_chunk(at).map(|c| c.modified).unwrap_or(true));
    assert!(level.get_chunk(ChunkCoordinates::new(2, -3, 5)).is_none());
    assert!(level.get_chunk(ChunkCoordinates::new(2, -2, 4)).is_none());
    assert!(level.get_chunk(ChunkCoordinates::new(3, -3, 4)).is_none());
}

#[test]
fn air_gets_code_zero_only_if_interned_first() {
    let mut level = Level::new();
    level.add_global_chunk(ChunkCoordinates::new(0, -1, 0), *all_of("base", "dev_tile"));
    level.add_global_chunk(ChunkCoordinates::new(0, 0, 0), *all_of("required", "air"));
    assert_eq!(level.palette().get(&GlobalIdentifier::new("base", "dev_tile")), Some(0));
    assert_eq!(level.palette().get(&GlobalIdentifier::new("required", "air")), Some(1));
}

#[test]
fn every_stored_code_is_in_the_palette() {
    let mut level = Level::new();
    let places = [
        ChunkCoordinates::new(0, 0, 0),
        ChunkCoordinates::new(0, 0, 1),
        ChunkCoordinates::new(-5, 9, 1),
        ChunkCoordinates::new(0, 0, 0),
        ChunkCoordinates::new(i64::MAX, i64::MIN, 0),
    ];
    for (round, &at) in places.iter().enumerate() {
        level.add_global_chunk(at, *voxels_of(|i| GlobalIdentifier::new("t", &format!("v{}", (i * (round + 1)) % 37))));
        let types = level.palette().len();
        for &seen in places[..=round].iter() {
            for code in every_code(&level, seen) {
                assert!((code as usize) < types);
            }
        }
    }
    assert_eq!(level.palette().len(), 37);
}

#[test]
fn add_global_chunk_twice_keeps_only_the_second() {
    let mut level = Level::new();
    let at = ChunkCoordinates::new(1, 1, 1);
    level.add_global_chunk(at, *voxels_of(|i| GlobalIdentifier::new("t", &format!("a{}", i % 3))));
    level.add_global_chunk(at, *voxels_of(|i| {
        if i < 100 {
            GlobalIdentifier::new("t", "b")
        } else {
            GlobalIdentifier::new("t", "a2")
        }
    }));
    assert_eq!(level.palette().len(), 4);
    assert_eq!(level.palette().get(&GlobalIdentifier::new("t", "b")), Some(3));
    let codes = every_code(&level, at);
    for i in 0..4096 {
        assert_eq!(codes[i], if i < 100 { 3 } else { 2 });
    }
}

#[test]
fn add_global_chunk_leaves_other_chunks_alone() {
    let mut level = Level::new();
    let first = ChunkCoordinates::new(0, 0, 0);
    let second = ChunkCoordinates::new(0, 0, -1);
    level.add_global_chunk(first, *voxels_of(|i| GlobalIdentifier::new("t", &format!("a{}", i % 3))));
    let before = every_code(&level, first);
    level.add_global_chunk(second, *all_of("t", "other"));
    assert_eq!(every_code(&level, first), before);
    assert_eq!(every_code(&level, second), vec![3u16; 4096]);
    level.add_global_chunk(second, *all_of("t", "a1"));
    assert_eq!(every_code(&level, first), before);
    assert_eq!(every_code(&level, second), vec![1u16; 4096]);
    assert_eq!(level.palette().len(), 4);
}

#[test]
fn palette_codes_survive_later_chunks() {
    let mut level = Level::new();
    level.add_global_chunk(ChunkCoordinates::new(0, 0, 0), *voxels_of(|i| GlobalIdentifier::new("t", &format!("v{}", i % 10))));
    for k in 0..10 {
        assert_eq!(level.palette().get(&GlobalIdentifier::new("t", &format!("v{}", k))), Some(k as u16));
    }
    level.add_global_chunk(ChunkCoordinates::new(1, 0, 0), *voxels_of(|i| GlobalIdentifier::new("t", &format!("v{}", 19 - i % 20))));
    for k in 0..10 {
        assert_eq!(level.palette().get(&GlobalIdentifier::new("t", &format!("v{}", k))), Some(k as u16));
    }
    assert_eq!(level.palette().get(&GlobalIdentifier::new("t", "v19")), Some(10));
    assert_eq!(level.palette().get(&GlobalIdentifier::new("t", "v10")), Some(19));
    assert_eq!(level.palette().len(), 20);
}

#[test]
fn level_has_room_for_agrees_with_the_palette() {
    let mut level = Level::new();
    for round in 0..16 {
        let batch = voxels_of(|i| GlobalIdentifier::new("t", &format!("v{}", round * 4096 + i)));
        assert!(level.has_room_for(&batch));
        level.add_global_chunk(ChunkCoordinates::new(round as i64, 0, 0), *batch);
    }
    assert_eq!(level.palette().len(), 65536);
    assert!(level.has_room_for(&all_of("t", "v65535")));
    assert!(!level.has_room_for(&all_of("t", "v65536")));
}
