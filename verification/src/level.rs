use crate::chunk::{Chunk, ChunkModel, CHUNK_VOLUME};
use crate::coords::ChunkCoordinates;
use crate::identifier::{names, GlobalIdentifier, Name};
use crate::palette::{
    encode, intern_all, lemma_intern_all, palette_ok, VoxelPalette, PALETTE_CAPACITY,
};
use std::collections::HashMap;
use vstd::prelude::*;

verus! {

/// A chunk fits a palette when it holds one code for each voxel and every
/// code is one that the palette has assigned.
pub open spec fn chunk_ok(palette: Seq<Name>, chunk: ChunkModel) -> bool {
    &&& chunk.codes.len() == CHUNK_VOLUME
    &&& forall|i: int| 0 <= i < chunk.codes.len() ==> (#[trigger] chunk.codes[i]) < palette.len()
}

/// The mathematical value of a level: its palette in code order, and its
/// chunks by their coordinates.
pub struct LevelModel {
    pub palette: Seq<Name>,
    pub chunks: Map<ChunkCoordinates, ChunkModel>,
}

impl LevelModel {
    /// A level with no voxel type and no chunk.
    pub open spec fn empty() -> LevelModel {
        LevelModel { palette: Seq::empty(), chunks: Map::empty() }
    }

    /// No code dangles: the palette has no repeats and is within its
    /// capacity, and every stored chunk fits it.
    pub open spec fn wf(self) -> bool {
        &&& palette_ok(self.palette)
        &&& forall|c: ChunkCoordinates| #[trigger]
            self.chunks.contains_key(c) ==> chunk_ok(self.palette, self.chunks[c])
    }

    /// Whether the palette has room for the voxel types of `batch`.
    pub open spec fn has_room_for(self, batch: Seq<Name>) -> bool {
        intern_all(self.palette, batch).len() <= PALETTE_CAPACITY
    }

    /// The chunk that `batch` becomes when it is stored in this level.
    pub open spec fn encoded(self, batch: Seq<Name>) -> ChunkModel {
        ChunkModel { codes: encode(intern_all(self.palette, batch), batch), modified: false }
    }

    /// The level after the voxels `batch` are stored at `coords`: the
    /// palette has interned every name of the batch, and the chunk at
    /// `coords` is the batch in local codes, whatever was there before.
    pub open spec fn add_global_chunk(self, coords: ChunkCoordinates, batch: Seq<Name>) -> LevelModel {
        LevelModel {
            palette: intern_all(self.palette, batch),
            chunks: self.chunks.insert(coords, self.encoded(batch)),
        }
    }
}

/// Storing a chunk leaves no code dangling: the new chunk's codes and those
/// of every chunk stored before are codes of the grown palette.
pub proof fn lemma_add_keeps_integrity(level: LevelModel, coords: ChunkCoordinates, batch: Seq<Name>)
    requires
        level.wf(),
        batch.len() == CHUNK_VOLUME,
        level.has_room_for(batch),
    ensures
        level.add_global_chunk(coords, batch).wf(),
        forall|i: int|
            0 <= i < batch.len() ==> level.add_global_chunk(coords, batch).palette[(
            #[trigger] level.encoded(batch).codes[i]) as int] == batch[i],
{
    let after = level.add_global_chunk(coords, batch);
    lemma_intern_all(level.palette, batch);
    assert forall|i: int| 0 <= i < batch.len() implies (#[trigger] level.encoded(batch).codes[i])
        < after.palette.len() && after.palette[level.encoded(batch).codes[i] as int] == batch[i] by {
        assert(after.palette.contains(batch[i]));
    }
    assert forall|c: ChunkCoordinates| #[trigger] after.chunks.contains_key(c) implies chunk_ok(
        after.palette,
        after.chunks[c],
    ) by {
        if c != coords {
            assert(level.chunks.contains_key(c));
        }
    }
}

/// Storing a second chunk at the same coordinates leaves only the second
/// one there; no other chunk is touched by either.
pub proof fn lemma_add_overwrites(
    level: LevelModel,
    coords: ChunkCoordinates,
    first: Seq<Name>,
    second: Seq<Name>,
)
    ensures
        level.add_global_chunk(coords, first).add_global_chunk(coords, second).chunks
            == level.chunks.insert(
            coords,
            level.add_global_chunk(coords, first).encoded(second),
        ),
        level.add_global_chunk(coords, first).add_global_chunk(coords, second).chunks[coords]
            == level.add_global_chunk(coords, first).encoded(second),
        forall|c: ChunkCoordinates|
            c != coords ==> (#[trigger] level.add_global_chunk(coords, first).add_global_chunk(
                coords,
                second,
            ).chunks.contains_key(c) <==> level.chunks.contains_key(c)),
        forall|c: ChunkCoordinates|
            c != coords && level.chunks.contains_key(c) ==> #[trigger] level.add_global_chunk(
                coords,
                first,
            ).add_global_chunk(coords, second).chunks[c] == level.chunks[c],
{
    let once = level.add_global_chunk(coords, first);
    let twice = once.add_global_chunk(coords, second);
    assert(twice.chunks =~= level.chunks.insert(coords, once.encoded(second)));
}

/// One voxel world: a palette of the voxel types met so far and the chunks
/// generated so far, stored in that palette's local codes.
pub struct Level {
    palette: VoxelPalette,
    chunks: HashMap<i64, HashMap<i64, HashMap<i64, Chunk>>>,
}

impl View for Level {
    type V = LevelModel;

    closed spec fn view(&self) -> LevelModel {
        LevelModel {
            palette: self.palette@,
            chunks: Map::new(
                |c: ChunkCoordinates| self.stores(c),
                |c: ChunkCoordinates| self.chunks@[c.x]@[c.y]@[c.z]@,
            ),
        }
    }
}

impl Level {
    spec fn stores(&self, c: ChunkCoordinates) -> bool {
        &&& self.chunks@.contains_key(c.x)
        &&& self.chunks@[c.x]@.contains_key(c.y)
        &&& self.chunks@[c.x]@[c.y]@.contains_key(c.z)
    }

    /// What the representation keeps beyond what the model shows.
    pub closed spec fn inv(&self) -> bool {
        self.palette.inv()
    }

    /// Well-formedness: the representation is in order and no stored code
    /// dangles.
    pub open spec fn wf(&self) -> bool {
        &&& self.inv()
        &&& self@.wf()
    }

    pub fn new() -> (level: Level)
        ensures
            level.wf(),
            level@ == LevelModel::empty(),
    {
        let level = Level { palette: VoxelPalette::new(), chunks: HashMap::new() };
        assert(level@.chunks =~= Map::empty());
        level
    }

    /// The level's palette.
    pub fn palette(&self) -> (palette: &VoxelPalette)
        requires
            self.wf(),
        ensures
            palette.wf(),
            palette@ == self@.palette,
    {
        &self.palette
    }

    /// The chunk stored at `coords`, if one was generated there.
    pub fn get_chunk(&self, coords: ChunkCoordinates) -> (chunk: Option<&Chunk>)
        ensures
            chunk is Some <==> self@.chunks.contains_key(coords),
            chunk matches Some(c) ==> c@ == self@.chunks[coords],
    {
        match self.chunks.get(&coords.x) {
            Some(plane) => match plane.get(&coords.y) {
                Some(column) => column.get(&coords.z),
                None => None,
            },
            None => None,
        }
    }

    /// Whether the palette has room for the voxel types of `global`, which
    /// is what [`Level::add_global_chunk`] asks for.
    pub fn has_room_for(&self, global: &[GlobalIdentifier; 4096]) -> (fits: bool)
        requires
            self.wf(),
        ensures
            fits == self@.has_room_for(names(global@)),
    {
        self.palette.has_room_for(global)
    }

    /// Stores the voxels `global_chunk` at `chunk_coords`, interning every
    /// identifier into the palette. A chunk that was stored there before is
    /// replaced as a whole.
    pub fn add_global_chunk(&mut self, chunk_coords: ChunkCoordinates, global_chunk: [GlobalIdentifier; 4096])
        requires
            old(self).wf(),
            old(self)@.has_room_for(names(global_chunk@)),
        ensures
            final(self).wf(),
            final(self)@ == old(self)@.add_global_chunk(chunk_coords, names(global_chunk@)),
    {
        let ghost batch = names(global_chunk@);
        let chunk = Chunk::from_global(&global_chunk, &mut self.palette);
        let mut plane = match self.chunks.remove(&chunk_coords.x) {
            Some(plane) => plane,
            None => HashMap::new(),
        };
        let mut column = match plane.remove(&chunk_coords.y) {
            Some(column) => column,
            None => HashMap::new(),
        };
        column.insert(chunk_coords.z, chunk);
        plane.insert(chunk_coords.y, column);
        self.chunks.insert(chunk_coords.x, plane);
        proof {
            let target = old(self)@.add_global_chunk(chunk_coords, batch);
            assert forall|c: ChunkCoordinates| self.stores(c) <==> target.chunks.contains_key(c) by {
                if c != chunk_coords {
                    assert(self.stores(c) <==> old(self).stores(c));
                }
            }
            assert forall|c: ChunkCoordinates| self.stores(c) implies self@.chunks[c]
                == target.chunks[c] by {
                if c != chunk_coords {
                    assert(old(self).stores(c));
                }
            }
            assert(self@.chunks =~= target.chunks);
            lemma_add_keeps_integrity(old(self)@, chunk_coords, batch);
        }
    }
}

} // verus!
