use crate::coords::ChunkCoordinates;
use crate::identifier::{air_name, names, GlobalIdentifier, Name};
use crate::packs::Pack;
use vstd::hash_map::StringHashMap;
use vstd::prelude::*;

verus! {

/// The name of an object of the base pack.
pub open spec fn base_name(obj: Seq<char>) -> Name {
    Name { pack: "base"@, obj: obj }
}

/// A chunk's worth of voxels that are all `name`.
pub open spec fn uniform(name: Name) -> Seq<Name> {
    Seq::new(4096, |i: int| name)
}

/// What the base pack generates: for its `dev_level`, a flat world whose
/// chunks are all air from chunk height 0 upward and all `dev_tile` below;
/// for any other level, nothing.
pub open spec fn base_generated(level: Name, coords: ChunkCoordinates) -> Option<Seq<Name>> {
    if level == base_name("dev_level"@) {
        if coords.y >= 0 {
            Some(uniform(air_name()))
        } else {
            Some(uniform(base_name("dev_tile"@)))
        }
    } else {
        None
    }
}

/// `std::array::from_fn`, with a function that clones `id` for every
/// position: all 4096 cells of the array it returns are copies of `id`.
#[verifier::external_body]
fn filled(id: &GlobalIdentifier) -> (cells: [GlobalIdentifier; 4096])
    ensures
        names(cells@) == uniform(id@),
{
    std::array::from_fn(|_| id.clone())
}

/// An extension of the base pack.
pub trait VoxelEngineBaseAddon: Send + Sync {

}

/// The pack that ships with the engine: two development tiles and one flat
/// development level.
pub struct VoxelEngineBase {
    registered_addons: StringHashMap<Box<dyn VoxelEngineBaseAddon>>,
    voxels: Vec<GlobalIdentifier>,
    levels: Vec<GlobalIdentifier>,
}

impl VoxelEngineBase {
    /// The names of the voxel types that the pack contributes.
    pub closed spec fn voxel_names(&self) -> Seq<Name> {
        names(self.voxels@)
    }

    /// The names of the level types that the pack contributes.
    pub closed spec fn level_names(&self) -> Seq<Name> {
        names(self.levels@)
    }

    pub fn new() -> (pack: VoxelEngineBase)
        ensures
            pack.voxel_names() == seq![base_name("dev_tile"@), base_name("err_tile"@)],
            pack.level_names() == seq![base_name("dev_level"@)],
    {
        let mut pack = VoxelEngineBase {
            registered_addons: StringHashMap::new(),
            voxels: Vec::new(),
            levels: Vec::new(),
        };
        let dev_tile = pack.get_identifier("dev_tile");
        pack.voxels.push(dev_tile);
        let err_tile = pack.get_identifier("err_tile");
        pack.voxels.push(err_tile);
        let dev_level = pack.get_identifier("dev_level");
        pack.levels.push(dev_level);
        assert(names(pack.voxels@) =~= seq![base_name("dev_tile"@), base_name("err_tile"@)]);
        assert(names(pack.levels@) =~= seq![base_name("dev_level"@)]);
        pack
    }

    /// The identifier of the base pack's object `obj`.
    pub fn get_identifier(&self, obj: &str) -> (id: GlobalIdentifier)
        ensures
            id@ == base_name(obj@),
    {
        GlobalIdentifier::new("base", obj)
    }
}

fn copies(ids: &Vec<GlobalIdentifier>) -> (out: Vec<GlobalIdentifier>)
    ensures
        names(out@) == names(ids@),
{
    let mut out: Vec<GlobalIdentifier> = Vec::new();
    let mut i: usize = 0;
    while i < ids.len()
        invariant
            i <= ids@.len(),
            out@.len() == i,
            forall|k: int| 0 <= k < i ==> out@[k]@ == ids@[k]@,
        decreases ids@.len() - i,
    {
        out.push(ids[i].clone());
        i = i + 1;
    }
    out
}

impl Pack for VoxelEngineBase {
    open spec fn declares_voxels(&self) -> bool {
        true
    }

    open spec fn declares_levels(&self) -> bool {
        true
    }

    open spec fn generated(&self, level: Name, coords: ChunkCoordinates) -> Option<Seq<Name>> {
        base_generated(level, coords)
    }

    fn get_voxels(&self) -> (voxels: Vec<GlobalIdentifier>)
        ensures
            names(voxels@) == self.voxel_names(),
    {
        copies(&self.voxels)
    }

    fn get_levels(&self) -> (levels: Vec<GlobalIdentifier>)
        ensures
            names(levels@) == self.level_names(),
    {
        copies(&self.levels)
    }

    fn generate(&self, level_id: GlobalIdentifier, coords: ChunkCoordinates) -> (chunk: Option<
        [GlobalIdentifier; 4096],
    >) {
        if level_id == self.get_identifier("dev_level") {
            if coords.y >= 0 {
                Some(filled(&GlobalIdentifier::new("required", "air")))
            } else {
                Some(filled(&self.get_identifier("dev_tile")))
            }
        } else {
            None
        }
    }
}

} // verus!
