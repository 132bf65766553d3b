use crate::coords::ChunkCoordinates;
use crate::identifier::{names, GlobalIdentifier, Name};
use crate::level::{Level, LevelModel};
use crate::packs::{chunk_names, RegisteredPacks};
use vstd::prelude::*;

verus! {

/// How a request to generate a chunk ended.
#[derive(Clone, Copy, Debug, PartialEq, Eq, Structural)]
pub enum Generation {
    /// The chunk was generated and stored, in place of any chunk that was
    /// at its coordinates.
    Stored,
    /// No pack generates for this level and these coordinates.
    NoGenerator,
    /// A chunk was generated for a level that the universe does not hold.
    UnknownLevel,
    /// The level's palette has no room for the voxel types of the chunk.
    PaletteFull,
}

/// The mathematical value of a universe: its levels by name.
pub type UniverseModel = Map<Name, LevelModel>;

/// The universe after the levels of `catalog` are registered: every level
/// that was there stays as it was, and every other name of the catalog has
/// an empty level.
pub open spec fn with_levels(before: UniverseModel, catalog: Seq<Name>) -> UniverseModel {
    Map::new(
        |name: Name| before.contains_key(name) || catalog.contains(name),
        |name: Name|
            if before.contains_key(name) {
                before[name]
            } else {
                LevelModel::empty()
            },
    )
}

/// The names of `catalog` that have no level yet.
pub open spec fn new_levels(before: UniverseModel, catalog: Seq<Name>) -> Set<Name> {
    Set::new(|name: Name| catalog.contains(name) && !before.contains_key(name))
}

/// How a request ends that produced `generated` for the level `level`.
pub open spec fn outcome_of(before: UniverseModel, level: Name, generated: Option<Seq<Name>>) -> Generation {
    match generated {
        None => Generation::NoGenerator,
        Some(batch) => if !before.contains_key(level) {
            Generation::UnknownLevel
        } else if !before[level].has_room_for(batch) {
            Generation::PaletteFull
        } else {
            Generation::Stored
        },
    }
}

/// The universe after a request that produced `generated` for the chunk at
/// `coords` of the level `level`: the chunk is stored in that level where
/// the request ends as [`Generation::Stored`], and nothing changes
/// otherwise.
pub open spec fn after_generation(
    before: UniverseModel,
    level: Name,
    coords: ChunkCoordinates,
    generated: Option<Seq<Name>>,
) -> UniverseModel {
    match generated {
        Some(batch) if outcome_of(before, level, generated) == Generation::Stored => before.insert(
            level,
            before[level].add_global_chunk(coords, batch),
        ),
        _ => before,
    }
}

/// Registering a catalog a second time adds no level and changes nothing.
pub proof fn lemma_add_levels_idempotent(before: UniverseModel, catalog: Seq<Name>)
    ensures
        new_levels(with_levels(before, catalog), catalog) == Set::<Name>::empty(),
        new_levels(with_levels(before, catalog), catalog).len() == 0,
        with_levels(with_levels(before, catalog), catalog) == with_levels(before, catalog),
{
    let once = with_levels(before, catalog);
    assert(new_levels(once, catalog) =~= Set::<Name>::empty());
    assert(with_levels(once, catalog) =~= once);
}

/// The levels that a catalog adds are finitely many, at most as many as the
/// catalog has entries, so that their number is a count.
pub proof fn lemma_new_levels_bounded(before: UniverseModel, catalog: Seq<Name>)
    ensures
        new_levels(before, catalog).finite(),
        new_levels(before, catalog).len() <= catalog.len(),
    decreases catalog.len(),
{
    if catalog.len() == 0 {
        assert(new_levels(before, catalog) =~= Set::<Name>::empty());
    } else {
        let front = catalog.drop_last();
        lemma_new_levels_bounded(before, front);
        lemma_new_levels_step(before, catalog);
    }
}

/// The names that a catalog adds are those that its front part adds,
/// with its last name where that one is new.
proof fn lemma_new_levels_step(before: UniverseModel, catalog: Seq<Name>)
    requires
        catalog.len() > 0,
    ensures
        new_levels(before, catalog) == if with_levels(before, catalog.drop_last()).contains_key(
            catalog.last(),
        ) {
            new_levels(before, catalog.drop_last())
        } else {
            new_levels(before, catalog.drop_last()).insert(catalog.last())
        },
        !with_levels(before, catalog.drop_last()).contains_key(catalog.last()) ==> !new_levels(
            before,
            catalog.drop_last(),
        ).contains(catalog.last()),
        with_levels(before, catalog) == if with_levels(before, catalog.drop_last()).contains_key(
            catalog.last(),
        ) {
            with_levels(before, catalog.drop_last())
        } else {
            with_levels(before, catalog.drop_last()).insert(catalog.last(), LevelModel::empty())
        },
{
    let front = catalog.drop_last();
    let last = catalog.last();
    assert forall|name: Name| catalog.contains(name) <==> (front.contains(name) || name == last) by {
        if catalog.contains(name) {
            let i = choose|i: int| 0 <= i < catalog.len() && catalog[i] == name;
            if i < front.len() {
                assert(front[i] == name);
            }
        }
        if front.contains(name) {
            let i = choose|i: int| 0 <= i < front.len() && front[i] == name;
            assert(catalog[i] == name);
        }
        if name == last {
            assert(catalog[catalog.len() - 1] == name);
        }
    }
    if with_levels(before, front).contains_key(last) {
        assert(new_levels(before, catalog) =~= new_levels(before, front));
        assert(with_levels(before, catalog) =~= with_levels(before, front));
    } else {
        assert(new_levels(before, catalog) =~= new_levels(before, front).insert(last));
        assert(with_levels(before, catalog) =~= with_levels(before, front).insert(
            last,
            LevelModel::empty(),
        ));
    }
}

struct LevelEntry {
    id: GlobalIdentifier,
    level: Level,
}

/// Every level of a session, by its identifier.
pub struct Universe {
    levels: Vec<LevelEntry>,
}

impl View for Universe {
    type V = UniverseModel;

    closed spec fn view(&self) -> UniverseModel {
        Map::new(|name: Name| self.holds(name), |name: Name| self.levels@[self.position(name)].level@)
    }
}

impl Universe {
    spec fn holds(&self, name: Name) -> bool {
        exists|i: int| 0 <= i < self.levels@.len() && (#[trigger] self.levels@[i]).id@ == name
    }

    spec fn position(&self, name: Name) -> int {
        choose|i: int| 0 <= i < self.levels@.len() && (#[trigger] self.levels@[i]).id@ == name
    }

    /// No identifier has two levels, and every level keeps its own
    /// representation in order.
    pub closed spec fn inv(&self) -> bool {
        &&& forall|i: int, j: int|
            0 <= i < j < self.levels@.len() ==> (#[trigger] self.levels@[i]).id@ != (
            #[trigger] self.levels@[j]).id@
        &&& forall|i: int| 0 <= i < self.levels@.len() ==> (#[trigger] self.levels@[i]).level.wf()
    }

    /// Well-formedness: the representation is in order and no level holds
    /// a dangling code.
    pub open spec fn wf(&self) -> bool {
        &&& self.inv()
        &&& forall|name: Name| #[trigger] self@.contains_key(name) ==> self@[name].wf()
    }

    proof fn lemma_position(&self, i: int)
        requires
            self.inv(),
            0 <= i < self.levels@.len(),
        ensures
            self.holds(self.levels@[i].id@),
            self.position(self.levels@[i].id@) == i,
            self@.contains_key(self.levels@[i].id@),
            self@[self.levels@[i].id@] == self.levels@[i].level@,
    {
        let name = self.levels@[i].id@;
        assert(self.holds(name));
        let p = self.position(name);
        if p < i {
            assert(self.levels@[p].id@ != self.levels@[i].id@);
        } else if i < p {
            assert(self.levels@[i].id@ != self.levels@[p].id@);
        }
    }

    proof fn lemma_wf(&self)
        requires
            self.inv(),
        ensures
            self.wf(),
    {
        assert forall|name: Name| #[trigger] self@.contains_key(name) implies self@[name].wf() by {
            let p = self.position(name);
            assert(self.levels@[p].level.wf());
        }
    }

    pub fn new() -> (universe: Universe)
        ensures
            universe.wf(),
            universe@ == Map::<Name, LevelModel>::empty(),
    {
        Universe { levels: Vec::new() }
    }

    fn find(&self, id: &GlobalIdentifier) -> (at: Option<usize>)
        requires
            self.inv(),
        ensures
            at is Some <==> self@.contains_key(id@),
            at matches Some(i) ==> i < self.levels@.len() && self.levels@[i as int].id@ == id@
                && self.levels@[i as int].level@ == self@[id@],
    {
        let mut i: usize = 0;
        while i < self.levels.len()
            invariant
                i <= self.levels@.len(),
                self.inv(),
                forall|k: int| 0 <= k < i ==> (#[trigger] self.levels@[k]).id@ != id@,
            decreases self.levels@.len() - i,
        {
            if self.levels[i].id == *id {
                proof {
                    self.lemma_position(i as int);
                }
                return Some(i);
            }
            i = i + 1;
        }
        None
    }

    /// The level registered under `id`, if there is one.
    pub fn get_level(&self, id: &GlobalIdentifier) -> (level: Option<&Level>)
        requires
            self.wf(),
        ensures
            level is Some <==> self@.contains_key(id@),
            level matches Some(l) ==> l.wf() && l@ == self@[id@],
    {
        match self.find(id) {
            Some(i) => Some(&self.levels[i].level),
            None => None,
        }
    }

    /// Registers an empty level for every identifier of `catalog` that has
    /// none yet, and returns how many levels that added.
    pub fn add_levels(&mut self, catalog: &Vec<GlobalIdentifier>) -> (added: usize)
        requires
            old(self).wf(),
        ensures
            final(self).wf(),
            final(self)@ == with_levels(old(self)@, names(catalog@)),
            added == new_levels(old(self)@, names(catalog@)).len(),
    {
        let ghost declared = names(catalog@);
        let mut added: usize = 0;
        let mut i: usize = 0;
        proof {
            assert(new_levels(self@, declared.take(0)) =~= Set::<Name>::empty());
        }
        while i < catalog.len()
            invariant
                i <= catalog@.len(),
                declared == names(catalog@),
                self.inv(),
                self@ == with_levels(old(self)@, declared.take(i as int)),
                new_levels(old(self)@, declared.take(i as int)).finite(),
                added == new_levels(old(self)@, declared.take(i as int)).len(),
                added <= i,
            decreases catalog@.len() - i,
        {
            proof {
                let longer = declared.take(i as int + 1);
                assert(longer.drop_last() =~= declared.take(i as int));
                lemma_new_levels_step(old(self)@, longer);
            }
            if self.find(&catalog[i]).is_none() {
                let ghost before = *self;
                self.levels.push(LevelEntry { id: catalog[i].clone(), level: Level::new() });
                added = added + 1;
                proof {
                    let name = catalog@[i as int]@;
                    let last = self.levels@.len() - 1;
                    assert forall|k: int| 0 <= k < last implies (#[trigger] self.levels@[k]).id@
                        != name by {
                        assert(self.levels@[k] == before.levels@[k]);
                        before.lemma_position(k);
                    }
                    assert forall|k: int| 0 <= k < self.levels@.len() implies (
                    #[trigger] self.levels@[k]).level.wf() by {
                        if k < last {
                            assert(self.levels@[k] == before.levels@[k]);
                        }
                    }
                    assert forall|n: Name| self@.contains_key(n) <==> (before@.contains_key(n) || n
                        == name) by {
                        if self.holds(n) {
                            let p = self.position(n);
                            if p < last {
                                assert(before.levels@[p].id@ == n);
                            }
                        }
                        if before.holds(n) {
                            let p = before.position(n);
                            assert(self.levels@[p].id@ == n);
                        }
                        if n == name {
                            assert(self.levels@[last].id@ == n);
                        }
                    }
                    assert forall|n: Name| before@.contains_key(n) implies self@[n] == before@[n] by {
                        let p = before.position(n);
                        assert(self.levels@[p] == before.levels@[p]);
                        self.lemma_position(p);
                    }
                    self.lemma_position(last);
                    assert(self@ =~= before@.insert(name, LevelModel::empty()));
                }
            }
            i = i + 1;
        }
        proof {
            assert(declared.take(catalog@.len() as int) =~= declared);
            self.lemma_wf();
        }
        added
    }

    /// Stores what a pack generated for the chunk at `coords` of the level
    /// `level_id`, and says how the request ended. Nothing changes unless
    /// it ended as [`Generation::Stored`].
    pub fn store_generated(
        &mut self,
        level_id: &GlobalIdentifier,
        coords: ChunkCoordinates,
        generated: Option<[GlobalIdentifier; 4096]>,
    ) -> (outcome: Generation)
        requires
            old(self).wf(),
        ensures
            final(self).wf(),
            outcome == outcome_of(old(self)@, level_id@, chunk_names(generated)),
            final(self)@ == after_generation(old(self)@, level_id@, coords, chunk_names(generated)),
    {
        match generated {
            None => Generation::NoGenerator,
            Some(chunk) => match self.find(level_id) {
                None => Generation::UnknownLevel,
                Some(i) => {
                    if !self.levels[i].level.has_room_for(&chunk) {
                        Generation::PaletteFull
                    } else {
                        self.store_at(i, coords, chunk);
                        Generation::Stored
                    }
                },
            },
        }
    }

    fn store_at(&mut self, i: usize, coords: ChunkCoordinates, chunk: [GlobalIdentifier; 4096])
        requires
            old(self).wf(),
            i < old(self).levels@.len(),
            old(self).levels@[i as int].level@.has_room_for(names(chunk@)),
        ensures
            final(self).wf(),
            final(self)@ == old(self)@.insert(
                old(self).levels@[i as int].id@,
                old(self).levels@[i as int].level@.add_global_chunk(coords, names(chunk@)),
            ),
    {
        let ghost name = self.levels@[i as int].id@;
        self.levels[i].level.add_global_chunk(coords, chunk);
        proof {
            assert forall|k: int| 0 <= k < self.levels@.len() && k != i implies self.levels@[k]
                == old(self).levels@[k] by {}
            assert forall|k: int| 0 <= k < self.levels@.len() implies (#[trigger] self.levels@[k]).id@
                == old(self).levels@[k].id@ by {}
            assert forall|n: Name| self@.contains_key(n) <==> old(self)@.contains_key(n) by {
                if self.holds(n) {
                    let p = self.position(n);
                    assert(old(self).levels@[p].id@ == n);
                }
                if old(self).holds(n) {
                    let p = old(self).position(n);
                    assert(self.levels@[p].id@ == n);
                }
            }
            assert forall|n: Name| old(self)@.contains_key(n) && n != name implies self@[n] == old(
                self,
            )@[n] by {
                let p = old(self).position(n);
                old(self).lemma_position(p);
                assert(self.levels@[p] == old(self).levels@[p]);
                self.lemma_position(p);
            }
            old(self).lemma_position(i as int);
            self.lemma_position(i as int);
            assert(self@ =~= old(self)@.insert(
                name,
                old(self).levels@[i as int].level@.add_global_chunk(coords, names(chunk@)),
            ));
            self.lemma_wf();
        }
    }

    /// Asks the registry for the chunk at `coords` of the level `level_id`
    /// and stores what comes back, for any level and any coordinates.
    pub fn try_generate(
        &mut self,
        registered_packs: &RegisteredPacks,
        level_id: GlobalIdentifier,
        coords: ChunkCoordinates,
    ) -> (outcome: Generation)
        requires
            old(self).wf(),
        ensures
            final(self).wf(),
            outcome == outcome_of(
                old(self)@,
                level_id@,
                registered_packs.generated(level_id@, coords),
            ),
            final(self)@ == after_generation(
                old(self)@,
                level_id@,
                coords,
                registered_packs.generated(level_id@, coords),
            ),
    {
        let generated = registered_packs.generate(level_id.clone(), coords);
        self.store_generated(&level_id, coords, generated)
    }

    /// Generates the chunk at `coords` of the level `level_id` and stores
    /// it, in place of any chunk that was there. Returns whether a chunk was
    /// generated; nothing changes where none was.
    ///
    /// To ask for a chunk that a pack generates for a level that the
    /// universe does not hold is an error of the caller.
    pub fn generate(
        &mut self,
        registered_packs: &RegisteredPacks,
        level_id: GlobalIdentifier,
        coords: ChunkCoordinates,
    ) -> (success: bool)
        requires
            old(self).wf(),
            registered_packs.generated(level_id@, coords) is Some ==> outcome_of(
                old(self)@,
                level_id@,
                registered_packs.generated(level_id@, coords),
            ) == Generation::Stored,
        ensures
            final(self).wf(),
            success == registered_packs.generated(level_id@, coords) is Some,
            final(self)@ == after_generation(
                old(self)@,
                level_id@,
                coords,
                registered_packs.generated(level_id@, coords),
            ),
    {
        let generated = registered_packs.generate(level_id.clone(), coords);
        match generated {
            None => false,
            Some(chunk) => {
                let at = self.find(&level_id);
                self.store_at(at.unwrap(), coords, chunk);
                true
            },
        }
    }
}

} // verus!
