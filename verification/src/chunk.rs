use crate::coords::RelativeCoordinates;
use crate::identifier::{names, GlobalIdentifier};
use crate::palette::{
    encode, intern_all, lemma_code_of, lemma_intern_all_grows, lemma_intern_one, VoxelPalette,
    PALETTE_CAPACITY,
};
use vstd::prelude::*;

verus! {

/// Number of voxels in a chunk: 16 on each of three axes.
pub const CHUNK_VOLUME: usize = 4096;

/// The mathematical value of a chunk: one local code for each voxel, the
/// voxel at offset `(x, y, z)` at position `x + 16 * y + 256 * z`, and
/// whether the chunk was changed after it was generated.
pub struct ChunkModel {
    pub codes: Seq<u16>,
    pub modified: bool,
}

/// A 16 x 16 x 16 block of voxels, each stored as the local code that its
/// level's palette gave to its type.
pub struct Chunk {
    voxels: [u16; 4096],
    pub modified: bool,
}

impl View for Chunk {
    type V = ChunkModel;

    closed spec fn view(&self) -> ChunkModel {
        ChunkModel { codes: self.voxels@, modified: self.modified }
    }
}

impl Chunk {
    /// A chunk always holds one code for each of its voxels.
    pub proof fn lemma_volume(&self)
        ensures
            self@.codes.len() == CHUNK_VOLUME,
    {
    }

    pub fn new(voxels: [u16; 4096]) -> (chunk: Chunk)
        ensures
            chunk@ == (ChunkModel { codes: voxels@, modified: false }),
    {
        Chunk { voxels: voxels, modified: false }
    }

    /// Builds a chunk from the identifiers of its voxels, interning each of
    /// them into `palette` in storage order.
    pub fn from_global(global: &[GlobalIdentifier; 4096], palette: &mut VoxelPalette) -> (chunk:
        Chunk)
        requires
            old(palette).wf(),
            intern_all(old(palette)@, names(global@)).len() <= PALETTE_CAPACITY,
        ensures
            final(palette).wf(),
            final(palette)@ == intern_all(old(palette)@, names(global@)),
            chunk@ == (ChunkModel {
                codes: encode(final(palette)@, names(global@)),
                modified: false,
            }),
    {
        let ghost batch = names(global@);
        let ghost start = palette@;
        let mut voxels: [u16; 4096] = [0u16; 4096];
        let mut i: usize = 0;
        while i < 4096
            invariant
                i <= 4096,
                batch == names(global@),
                batch.len() == 4096,
                start.no_duplicates(),
                intern_all(start, batch).len() <= PALETTE_CAPACITY,
                palette.wf(),
                palette@ == intern_all(start, batch.take(i as int)),
                forall|j: int|
                    0 <= j < i ==> (#[trigger] voxels@[j]) < palette@.len() && palette@[voxels@[j] as int]
                        == batch[j],
            decreases 4096 - i,
        {
            let ghost before = palette@;
            proof {
                let longer = batch.take(i as int + 1);
                assert(longer.drop_last() =~= batch.take(i as int));
                lemma_intern_all_grows(start, batch, i as int + 1);
                lemma_intern_one(before, batch[i as int]);
            }
            let code = palette.intern(&global[i]);
            voxels[i] = code;
            i = i + 1;
        }
        proof {
            assert(batch.take(4096) =~= batch);
            assert forall|j: int| 0 <= j < 4096 implies voxels@[j] == encode(palette@, batch)[j] by {
                lemma_code_of(palette@, batch[j], voxels@[j] as int);
            }
            assert(voxels@ =~= encode(palette@, batch));
        }
        Chunk { voxels: voxels, modified: false }
    }

    /// The local code of the voxel at `coords`, or `None` where `coords`
    /// does not lie inside a chunk.
    pub fn get_voxel(&self, coords: RelativeCoordinates) -> (voxel: Option<u16>)
        ensures
            voxel == if coords.inside() {
                Some(self@.codes[coords.flat_index()])
            } else {
                None
            },
    {
        if coords.inside_chunk() {
            let index: usize = (coords.x + 16 * coords.y + 256 * coords.z) as usize;
            Some(self.voxels[index])
        } else {
            None
        }
    }
}

} // verus!
