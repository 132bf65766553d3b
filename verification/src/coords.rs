use vstd::prelude::*;

verus! {

/// Position of a voxel inside its level.
#[derive(Clone, Copy, Debug, PartialEq, Eq, Hash, Structural)]
pub struct LevelCoordinates {
    pub x: i64,
    pub y: i64,
    pub z: i64,
}

/// Position of a chunk inside its level, counted in chunks.
#[derive(Clone, Copy, Debug, PartialEq, Eq, Hash, Structural)]
pub struct ChunkCoordinates {
    pub x: i64,
    pub y: i64,
    pub z: i64,
}

/// Position of a voxel inside its chunk. Meaningful only while every
/// component lies in `0..16`; other values are representable so that callers
/// can probe and be told so.
#[derive(Clone, Copy, Debug, PartialEq, Eq, Hash, Structural)]
pub struct RelativeCoordinates {
    pub x: i64,
    pub y: i64,
    pub z: i64,
}

/// Index of the chunk that holds position `a` on one axis: `a / 16` rounded
/// toward negative infinity.
pub open spec fn chunk_axis(a: int) -> int {
    a / 16
}

/// Offset of position `a` inside its chunk on one axis: the remainder in
/// `0..16`.
pub open spec fn relative_axis(a: int) -> int {
    a % 16
}

/// Position on one axis of the voxel at offset `rel` of chunk `chunk`.
pub open spec fn level_axis(chunk: int, rel: int) -> int {
    chunk * 16 + rel
}

fn floor_axis(a: i64) -> (q: i64)
    ensures
        q == chunk_axis(a as int),
{
    let q: i64 = a / 16;
    if a % 16 < 0 {
        q - 1
    } else {
        q
    }
}

fn offset_axis(a: i64) -> (r: i64)
    ensures
        r == relative_axis(a as int),
        0 <= r < 16,
{
    let r: i64 = a % 16;
    if r < 0 {
        r + 16
    } else {
        r
    }
}

fn join_axis(chunk: i64, rel: i64) -> (a: Option<i64>)
    ensures
        match a {
            Some(v) => v == level_axis(chunk as int, rel as int),
            None => !(i64::MIN <= level_axis(chunk as int, rel as int) <= i64::MAX),
        },
{
    let wide: i128 = (chunk as i128) * 16 + (rel as i128);
    if wide < (i64::MIN as i128) || wide > (i64::MAX as i128) {
        None
    } else {
        Some(wide as i64)
    }
}

impl LevelCoordinates {
    pub fn new(x: i64, y: i64, z: i64) -> (c: LevelCoordinates)
        ensures
            c == (LevelCoordinates { x, y, z }),
    {
        LevelCoordinates { x: x, y: y, z: z }
    }

    /// The chunk that holds this position.
    pub open spec fn chunk(self) -> ChunkCoordinates {
        ChunkCoordinates {
            x: chunk_axis(self.x as int) as i64,
            y: chunk_axis(self.y as int) as i64,
            z: chunk_axis(self.z as int) as i64,
        }
    }

    /// This position counted from the corner of its chunk.
    pub open spec fn relative(self) -> RelativeCoordinates {
        RelativeCoordinates {
            x: relative_axis(self.x as int) as i64,
            y: relative_axis(self.y as int) as i64,
            z: relative_axis(self.z as int) as i64,
        }
    }

    /// Whether the voxel at offset `rel` of chunk `chunk` has a position
    /// that fits the coordinate type.
    pub open spec fn representable(chunk: ChunkCoordinates, rel: RelativeCoordinates) -> bool {
        &&& i64::MIN <= level_axis(chunk.x as int, rel.x as int) <= i64::MAX
        &&& i64::MIN <= level_axis(chunk.y as int, rel.y as int) <= i64::MAX
        &&& i64::MIN <= level_axis(chunk.z as int, rel.z as int) <= i64::MAX
    }

    /// The position `chunk * 16 + rel`, axis by axis.
    pub open spec fn compose(chunk: ChunkCoordinates, rel: RelativeCoordinates) -> LevelCoordinates {
        LevelCoordinates {
            x: level_axis(chunk.x as int, rel.x as int) as i64,
            y: level_axis(chunk.y as int, rel.y as int) as i64,
            z: level_axis(chunk.z as int, rel.z as int) as i64,
        }
    }

    /// Converts to chunk space, rounding each axis toward negative infinity.
    pub fn to_chunk(&self) -> (c: ChunkCoordinates)
        ensures
            c == self.chunk(),
            c.x == chunk_axis(self.x as int),
            c.y == chunk_axis(self.y as int),
            c.z == chunk_axis(self.z as int),
    {
        ChunkCoordinates {
            x: floor_axis(self.x),
            y: floor_axis(self.y),
            z: floor_axis(self.z),
        }
    }

    /// Converts to chunk-relative space, taking the non-negative remainder on
    /// each axis.
    pub fn to_relative(&self) -> (r: RelativeCoordinates)
        ensures
            r == self.relative(),
            r.x == relative_axis(self.x as int),
            r.y == relative_axis(self.y as int),
            r.z == relative_axis(self.z as int),
            r.inside(),
    {
        RelativeCoordinates {
            x: offset_axis(self.x),
            y: offset_axis(self.y),
            z: offset_axis(self.z),
        }
    }

    /// Rebuilds a level position from a chunk and an offset inside it, or
    /// `None` where that position does not fit the coordinate type.
    pub fn from_chunk_relative(chunk: ChunkCoordinates, rel: RelativeCoordinates) -> (c: Option<
        LevelCoordinates,
    >)
        ensures
            c is Some <==> Self::representable(chunk, rel),
            c is Some ==> c->0 == Self::compose(chunk, rel),
            c matches Some(p) ==> {
                &&& p.x == level_axis(chunk.x as int, rel.x as int)
                &&& p.y == level_axis(chunk.y as int, rel.y as int)
                &&& p.z == level_axis(chunk.z as int, rel.z as int)
            },
    {
        match (join_axis(chunk.x, rel.x), join_axis(chunk.y, rel.y), join_axis(chunk.z, rel.z)) {
            (Some(x), Some(y), Some(z)) => Some(LevelCoordinates { x, y, z }),
            _ => None,
        }
    }
}

impl ChunkCoordinates {
    pub fn new(x: i64, y: i64, z: i64) -> (c: ChunkCoordinates)
        ensures
            c == (ChunkCoordinates { x, y, z }),
    {
        ChunkCoordinates { x: x, y: y, z: z }
    }
}

impl RelativeCoordinates {
    pub fn new(x: i64, y: i64, z: i64) -> (c: RelativeCoordinates)
        ensures
            c == (RelativeCoordinates { x, y, z }),
    {
        RelativeCoordinates { x: x, y: y, z: z }
    }

    /// Whether all three components lie in `0..16`.
    pub open spec fn inside(self) -> bool {
        &&& 0 <= self.x < 16
        &&& 0 <= self.y < 16
        &&& 0 <= self.z < 16
    }

    /// Position of this offset in a chunk's flat storage.
    pub open spec fn flat_index(self) -> int {
        self.x + 16 * self.y + 256 * self.z
    }

    pub fn inside_chunk(&self) -> (b: bool)
        ensures
            b == self.inside(),
    {
        0 <= self.x && self.x < 16 && 0 <= self.y && self.y < 16 && 0 <= self.z && self.z < 16
    }
}

/// Splitting a level position into its chunk and its offset inside that
/// chunk loses nothing: the offset lies inside the chunk, and
/// `chunk * 16 + offset` is the position again on every axis.
pub proof fn lemma_coordinate_round_trip(c: LevelCoordinates)
    ensures
        c.relative().inside(),
        level_axis(c.chunk().x as int, c.relative().x as int) == c.x,
        level_axis(c.chunk().y as int, c.relative().y as int) == c.y,
        level_axis(c.chunk().z as int, c.relative().z as int) == c.z,
        LevelCoordinates::representable(c.chunk(), c.relative()),
        LevelCoordinates::compose(c.chunk(), c.relative()) == c,
{
}

} // verus!
