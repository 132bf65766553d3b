use crate::chunk::CHUNK_VOLUME;
use crate::coords::ChunkCoordinates;
use crate::identifier::{air_name, names, GlobalIdentifier, Name};
use vstd::hash_map::StringHashMap;
use vstd::prelude::*;
use vstd::string::StringExecFns;

pub mod base;

verus! {

/// The names of the voxels of a generated chunk, or `None` where nothing
/// was generated.
pub open spec fn chunk_names(chunk: Option<[GlobalIdentifier; 4096]>) -> Option<Seq<Name>> {
    match chunk {
        Some(voxels) => Some(names(voxels@)),
        None => None,
    }
}

/// A content provider: the voxel and level types that it contributes, and
/// the generator that fills the chunks of its levels.
///
/// Every identifier that a pack hands out should carry the pack's own name
/// in its `pack` part.
pub trait Pack: Send + Sync {
    /// The voxels that the pack generates for a chunk of a level, as a
    /// function of the level and the chunk's coordinates, or `None` where
    /// it generates nothing for them. A pack that wants its generator
    /// verified says here what it generates; of a pack that does not,
    /// nothing is known.
    open spec fn generated(&self, level: Name, coords: ChunkCoordinates) -> Option<Seq<Name>> {
        arbitrary()
    }

    /// Whether the pack lists voxel types of its own. One that does says
    /// so here and states its list where it implements `get_voxels`.
    open spec fn declares_voxels(&self) -> bool {
        false
    }

    /// Whether the pack lists level types of its own. One that does says
    /// so here and states its list where it implements `get_levels`.
    open spec fn declares_levels(&self) -> bool {
        false
    }

    /// Every voxel type that the pack contributes: none, for a pack that
    /// lists none of its own.
    fn get_voxels(&self) -> (voxels: Vec<GlobalIdentifier>)
        ensures
            !self.declares_voxels() ==> voxels@ == Seq::<GlobalIdentifier>::empty(),
    {
        Vec::new()
    }

    /// Every level type that the pack contributes: none, for a pack that
    /// lists none of its own.
    fn get_levels(&self) -> (levels: Vec<GlobalIdentifier>)
        ensures
            !self.declares_levels() ==> levels@ == Seq::<GlobalIdentifier>::empty(),
    {
        Vec::new()
    }

    /// Generates one chunk. The identifiers that it returns are interned
    /// into the palette of the level that holds the chunk. `None` says that
    /// the pack cannot generate for these arguments; a voxel that is not
    /// there is `required:air`, never a missing entry.
    fn generate(&self, level_id: GlobalIdentifier, coords: ChunkCoordinates) -> (chunk: Option<
        [GlobalIdentifier; 4096],
    >)
        ensures
            chunk_names(chunk) == self.generated(level_id@, coords),
    ;
}

/// A registered pack, owned by the registry and reached through the
/// trait's methods.
pub struct PackEntry {
    pub pack: Box<dyn Pack>,
}

/// The packs of a session by their names, with the voxel and level types
/// that they declare gathered into two lists.
pub struct RegisteredPacks {
    pub contents: StringHashMap<PackEntry>,
    pub voxels: Vec<GlobalIdentifier>,
    pub levels: Vec<GlobalIdentifier>,
}

fn entry<P: Pack + 'static>(pack: P) -> PackEntry {
    PackEntry { pack: Box::new(pack) }
}

impl RegisteredPacks {
    /// What the registry generates for a chunk of a level: the chunk's
    /// worth of voxels that the pack named by the level's `pack` part
    /// generates, and nothing where no pack has that name.
    pub open spec fn generated(&self, level: Name, coords: ChunkCoordinates) -> Option<Seq<Name>> {
        if self.contents@.contains_key(level.pack) {
            match self.contents@[level.pack].pack.generated(level, coords) {
                Some(batch) if batch.len() == CHUNK_VOLUME => Some(batch),
                _ => None,
            }
        } else {
            None
        }
    }

    /// The registry of a session: the base pack under the name `base`, and
    /// the lists of declared types, the voxel list headed by `required:air`,
    /// which exists whatever the packs declare.
    pub fn new() -> (packs: RegisteredPacks)
        ensures
            packs.contents@.dom() == set!["base"@],
            names(packs.voxels@) == seq![
                air_name(),
                base::base_name("dev_tile"@),
                base::base_name("err_tile"@),
            ],
            names(packs.levels@) == seq![base::base_name("dev_level"@)],
    {
        let mut packs = RegisteredPacks {
            contents: StringHashMap::new(),
            voxels: Vec::new(),
            levels: Vec::new(),
        };
        let base_pack = base::VoxelEngineBase::new();
        let mut voxels = base_pack.get_voxels();
        let mut levels = base_pack.get_levels();
        packs.contents.insert(String::from_str("base"), entry(base_pack));
        let ghost base_voxels = names(voxels@);
        packs.voxels.push(GlobalIdentifier::new("required", "air"));
        packs.voxels.append(&mut voxels);
        packs.levels.append(&mut levels);
        assert(packs.contents@.dom() =~= set!["base"@]);
        assert(names(packs.voxels@) =~= seq![air_name()] + base_voxels);
        assert(names(packs.voxels@) =~= seq![
            air_name(),
            base::base_name("dev_tile"@),
            base::base_name("err_tile"@),
        ]);
        packs
    }

    /// Hands the request to the pack named by the level's `pack` part.
    /// `None` where no pack has that name, or where the pack generates
    /// nothing.
    pub fn generate(&self, level_id: GlobalIdentifier, coords: ChunkCoordinates) -> (chunk: Option<
        [GlobalIdentifier; 4096],
    >)
        ensures
            chunk_names(chunk) == self.generated(level_id@, coords),
    {
        match self.contents.get(level_id.pack.as_str()) {
            Some(entry) => entry.pack.generate(level_id, coords),
            None => None,
        }
    }
}

} // verus!
