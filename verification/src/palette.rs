use crate::identifier::{names, GlobalIdentifier, Name};
use bimap::BiHashMap;
use vstd::prelude::*;

verus! {

/// Number of distinct voxel types one palette can hold: every value of a
/// 16-bit local code.
pub const PALETTE_CAPACITY: u32 = 65536;

/// `bimap::BiHashMap`, the two-way hash map that backs a palette. Its inside
/// is not visible to the verifier; what it holds is named by
/// [`palette_entries`].
#[verifier::external_type_specification]
#[verifier::external_body]
#[verifier::reject_recursive_types(L)]
#[verifier::reject_recursive_types(R)]
#[verifier::reject_recursive_types(LS)]
#[verifier::reject_recursive_types(RS)]
pub struct ExBiHashMap<L, R, LS, RS>(BiHashMap<L, R, LS, RS>);

/// The left-right pairs that a two-way map holds, as a map from each local
/// code to the name of the identifier paired with it.
pub uninterp spec fn palette_entries(m: BiHashMap<u16, GlobalIdentifier>) -> Map<u16, Name>;

/// The pairs of a two-way map with nothing in it.
pub open spec fn no_entries() -> Map<u16, Name> {
    Map::empty()
}

/// The pairs after `(code, name)` is put into a two-way map that held
/// `before`: a pair that had the same code or the same name is gone, every
/// other pair stays, and `code` is paired with `name`.
pub open spec fn with_pair(before: Map<u16, Name>, code: u16, name: Name) -> Map<u16, Name> {
    Map::new(
        |c: u16| c == code || (before.contains_key(c) && before[c] != name),
        |c: u16|
            if c == code {
                name
            } else {
                before[c]
            },
    )
}

/// `BiHashMap::new`: the map it returns holds no pair.
#[verifier::external_body]
fn entries_new() -> (entries: BiHashMap<u16, GlobalIdentifier>)
    ensures
        palette_entries(entries) == no_entries(),
{
    BiHashMap::new()
}

/// `BiHashMap::contains_right`: whether some pair of the map has an
/// identifier equal to `id` on its right.
#[verifier::external_body]
fn entries_contains_right(entries: &BiHashMap<u16, GlobalIdentifier>, id: &GlobalIdentifier) -> (found:
    bool)
    ensures
        found == palette_entries(*entries).contains_value(id@),
{
    entries.contains_right(id)
}

/// `BiHashMap::get_by_right`: the code paired with an identifier equal to
/// `id`, or `None` where the map has no such pair.
#[verifier::external_body]
fn entries_get_by_right(entries: &BiHashMap<u16, GlobalIdentifier>, id: &GlobalIdentifier) -> (code:
    Option<u16>)
    ensures
        match code {
            Some(c) => palette_entries(*entries).contains_key(c) && palette_entries(*entries)[c]
                == id@,
            None => !palette_entries(*entries).contains_value(id@),
        },
{
    entries.get_by_right(id).copied()
}

/// `BiHashMap::insert`: removes the pair with this code and the pair with
/// this identifier, where there are such, then adds the new pair.
#[verifier::external_body]
fn entries_insert(entries: &mut BiHashMap<u16, GlobalIdentifier>, code: u16, id: GlobalIdentifier)
    ensures
        palette_entries(*final(entries)) == with_pair(palette_entries(*old(entries)), code, id@),
{
    entries.insert(code, id);
}

/// A palette as a sequence fits a level when no name occurs twice and every
/// position is a 16-bit code.
pub open spec fn palette_ok(palette: Seq<Name>) -> bool {
    &&& palette.no_duplicates()
    &&& palette.len() <= PALETTE_CAPACITY
}

/// The palette after `name` is interned: unchanged where the name is already
/// in it, else longer by that name.
pub open spec fn intern_one(palette: Seq<Name>, name: Name) -> Seq<Name> {
    if palette.contains(name) {
        palette
    } else {
        palette.push(name)
    }
}

/// The palette after every name of `batch` is interned, first to last.
pub open spec fn intern_all(palette: Seq<Name>, batch: Seq<Name>) -> Seq<Name>
    decreases batch.len(),
{
    if batch.len() == 0 {
        palette
    } else {
        intern_one(intern_all(palette, batch.drop_last()), batch.last())
    }
}

/// The local code of `name`: its position in the palette.
pub open spec fn code_of(palette: Seq<Name>, name: Name) -> int {
    palette.index_of(name)
}

/// The local codes of a batch of names, position by position.
pub open spec fn encode(palette: Seq<Name>, batch: Seq<Name>) -> Seq<u16> {
    Seq::new(batch.len(), |i: int| code_of(palette, batch[i]) as u16)
}

/// In a palette without repeats, a name found at a position has that
/// position as its code.
pub proof fn lemma_code_of(palette: Seq<Name>, name: Name, code: int)
    requires
        palette.no_duplicates(),
        0 <= code < palette.len(),
        palette[code] == name,
    ensures
        code_of(palette, name) == code,
{
    assert(palette.contains(name));
}

/// Interning keeps a palette free of repeats, keeps every code that was
/// assigned, and leaves the name at its code.
pub proof fn lemma_intern_one(palette: Seq<Name>, name: Name)
    requires
        palette.no_duplicates(),
    ensures
        intern_one(palette, name).no_duplicates(),
        palette.len() <= intern_one(palette, name).len() <= palette.len() + 1,
        intern_one(palette, name).contains(name),
        0 <= code_of(intern_one(palette, name), name) < intern_one(palette, name).len(),
        intern_one(palette, name)[code_of(intern_one(palette, name), name)] == name,
        forall|i: int| 0 <= i < palette.len() ==> intern_one(palette, name)[i] == palette[i],
{
    let after = intern_one(palette, name);
    if !palette.contains(name) {
        assert(after[palette.len() as int] == name);
    }
    assert(after.contains(name));
}

/// Interning a batch keeps a palette free of repeats, keeps every code that
/// was assigned, and gives every name of the batch a code.
pub proof fn lemma_intern_all(palette: Seq<Name>, batch: Seq<Name>)
    requires
        palette.no_duplicates(),
    ensures
        intern_all(palette, batch).no_duplicates(),
        palette.len() <= intern_all(palette, batch).len() <= palette.len() + batch.len(),
        forall|i: int| 0 <= i < palette.len() ==> intern_all(palette, batch)[i] == palette[i],
        forall|j: int| 0 <= j < batch.len() ==> intern_all(palette, batch).contains(#[trigger] batch[j]),
    decreases batch.len(),
{
    if batch.len() > 0 {
        let front = batch.drop_last();
        let mid = intern_all(palette, front);
        lemma_intern_all(palette, front);
        lemma_intern_one(mid, batch.last());
        let after = intern_all(palette, batch);
        assert forall|j: int| 0 <= j < batch.len() implies after.contains(#[trigger] batch[j]) by {
            if j < front.len() {
                assert(front[j] == batch[j]);
                assert(mid.contains(front[j]));
                let k = choose|k: int| 0 <= k < mid.len() && mid[k] == batch[j];
                assert(after[k] == batch[j]);
            }
        }
    }
}

/// A palette only grows while a batch is interned: after any first part of
/// the batch it is no longer than after the whole.
pub proof fn lemma_intern_all_grows(palette: Seq<Name>, batch: Seq<Name>, n: int)
    requires
        palette.no_duplicates(),
        0 <= n <= batch.len(),
    ensures
        intern_all(palette, batch.take(n)).len() <= intern_all(palette, batch).len(),
    decreases batch.len() - n,
{
    if n == batch.len() {
        assert(batch.take(n) =~= batch);
    } else {
        lemma_intern_all_grows(palette, batch, n + 1);
        let longer = batch.take(n + 1);
        assert(longer.drop_last() =~= batch.take(n));
        lemma_intern_all(palette, batch.take(n));
        lemma_intern_one(intern_all(palette, batch.take(n)), longer.last());
    }
}

/// Interning the same name a second time changes nothing and finds the
/// same code.
pub proof fn lemma_intern_idempotent(palette: Seq<Name>, name: Name)
    ensures
        intern_one(intern_one(palette, name), name) == intern_one(palette, name),
        code_of(intern_one(intern_one(palette, name), name), name) == code_of(
            intern_one(palette, name),
            name,
        ),
{
    let once = intern_one(palette, name);
    if !palette.contains(name) {
        assert(once[palette.len() as int] == name);
    }
    assert(once.contains(name));
}

/// Interning a name leaves the code of every name that already had one.
pub proof fn lemma_intern_keeps_codes(palette: Seq<Name>, name: Name, earlier: Name)
    requires
        palette.no_duplicates(),
        palette.contains(earlier),
    ensures
        code_of(intern_one(palette, name), earlier) == code_of(palette, earlier),
{
    lemma_intern_one(palette, name);
    let c = code_of(palette, earlier);
    lemma_code_of(intern_one(palette, name), earlier, c);
}

/// Names that are all different, interned into an empty palette, get the
/// codes 0, 1, 2, ... in the order in which they come.
pub proof fn lemma_intern_distinct_in_order(batch: Seq<Name>)
    requires
        batch.no_duplicates(),
    ensures
        intern_all(Seq::empty(), batch) == batch,
        forall|i: int| 0 <= i < batch.len() ==> code_of(intern_all(Seq::empty(), batch), #[trigger] batch[i]) == i,
    decreases batch.len(),
{
    if batch.len() > 0 {
        let front = batch.drop_last();
        lemma_intern_distinct_in_order(front);
        assert(!front.contains(batch.last())) by {
            if front.contains(batch.last()) {
                let k = choose|k: int| 0 <= k < front.len() && front[k] == batch.last();
                assert(batch[k] == batch[batch.len() - 1]);
            }
        }
        assert(front.push(batch.last()) =~= batch);
    }
    assert forall|i: int| 0 <= i < batch.len() implies code_of(batch, #[trigger] batch[i]) == i by {
        lemma_code_of(batch, batch[i], i);
    }
}

/// The names found in `batch` at the positions `at`.
spec fn names_at(batch: Seq<Name>, at: Seq<usize>) -> Seq<Name> {
    Seq::new(at.len(), |k: int| batch[at[k] as int])
}

/// The voxel types that a level has met so far, each with its local code.
/// Codes are handed out densely from 0 in the order in which identifiers are
/// first interned, and never change or go away.
pub struct VoxelPalette {
    entries: BiHashMap<u16, GlobalIdentifier>,
    next_local: u32,
}

impl View for VoxelPalette {
    type V = Seq<Name>;

    /// The names in code order: the name at position `c` has local code `c`.
    closed spec fn view(&self) -> Seq<Name> {
        Seq::new(self.next_local as nat, |c: int| palette_entries(self.entries)[c as u16])
    }
}

impl VoxelPalette {
    /// The two directions of the map agree with the counter: exactly the
    /// codes below it are taken.
    pub closed spec fn inv(&self) -> bool {
        &&& self.next_local <= PALETTE_CAPACITY
        &&& forall|c: u16| palette_entries(self.entries).contains_key(c) <==> c < self.next_local
    }

    /// Well-formedness: the representation is in order, no name has two
    /// codes, and the palette is within its capacity.
    pub open spec fn wf(&self) -> bool {
        &&& self.inv()
        &&& palette_ok(self@)
    }

    proof fn lemma_contains(&self, name: Name)
        requires
            self.inv(),
        ensures
            self@.contains(name) <==> palette_entries(self.entries).contains_value(name),
    {
        let held = palette_entries(self.entries);
        if self@.contains(name) {
            let i = choose|i: int| 0 <= i < self@.len() && self@[i] == name;
            assert(held.contains_key(i as u16) && held[i as u16] == name);
        }
        if held.contains_value(name) {
            let c = choose|c: u16| held.contains_key(c) && held[c] == name;
            assert(self@[c as int] == name);
        }
    }

    pub fn new() -> (palette: VoxelPalette)
        ensures
            palette.wf(),
            palette@ == Seq::<Name>::empty(),
    {
        VoxelPalette { entries: entries_new(), next_local: 0 }
    }

    /// Number of voxel types in the palette.
    pub fn len(&self) -> (n: usize)
        requires
            self.wf(),
        ensures
            n == self@.len(),
    {
        self.next_local as usize
    }

    /// Whether `id` has a local code.
    pub fn contains(&self, id: &GlobalIdentifier) -> (found: bool)
        requires
            self.wf(),
        ensures
            found == self@.contains(id@),
    {
        proof {
            self.lemma_contains(id@);
        }
        entries_contains_right(&self.entries, id)
    }

    /// The local code of `id`, if it has one.
    pub fn get(&self, id: &GlobalIdentifier) -> (code: Option<u16>)
        requires
            self.wf(),
        ensures
            code is Some <==> self@.contains(id@),
            code matches Some(c) ==> c == code_of(self@, id@) && c < self@.len() && self@[c as int]
                == id@,
    {
        proof {
            self.lemma_contains(id@);
        }
        let code = entries_get_by_right(&self.entries, id);
        proof {
            if let Some(c) = code {
                lemma_code_of(self@, id@, c as int);
            }
        }
        code
    }

    /// Whether interning every identifier of `global` would stay within the
    /// capacity of the palette.
    pub fn has_room_for(&self, global: &[GlobalIdentifier; 4096]) -> (fits: bool)
        requires
            self.wf(),
        ensures
            fits == (intern_all(self@, names(global@)).len() <= PALETTE_CAPACITY),
    {
        let ghost batch = names(global@);
        let held: usize = self.len();
        if held + 4096 <= PALETTE_CAPACITY as usize {
            // Room for 4096 new types, whatever the batch holds.
            proof {
                lemma_intern_all(self@, batch);
            }
            return true;
        }
        // Positions in `global` at which a type that the palette lacks
        // occurs for the first time.
        let mut fresh: Vec<usize> = Vec::new();
        let mut i: usize = 0;
        while i < 4096
            invariant
                i <= 4096,
                self.wf(),
                batch == names(global@),
                batch.len() == 4096,
                fresh@.len() <= i,
                forall|k: int| 0 <= k < fresh@.len() ==> (#[trigger] fresh@[k]) < i,
                intern_all(self@, batch.take(i as int)) == self@ + names_at(batch, fresh@),
            decreases 4096 - i,
        {
            let ghost so_far = self@ + names_at(batch, fresh@);
            proof {
                let longer = batch.take(i as int + 1);
                assert(longer.drop_last() =~= batch.take(i as int));
            }
            let mut known: bool = self.contains(&global[i]);
            let mut k: usize = 0;
            proof {
                if known {
                    let p = choose|p: int| 0 <= p < self@.len() && self@[p] == batch[i as int];
                    assert(so_far[p] == batch[i as int]);
                }
            }
            while !known && k < fresh.len()
                invariant
                    k <= fresh@.len(),
                    i < 4096,
                    batch == names(global@),
                    batch.len() == 4096,
                    forall|j: int| 0 <= j < fresh@.len() ==> (#[trigger] fresh@[j]) < i,
                    known ==> so_far.contains(batch[i as int]),
                    !known ==> !self@.contains(batch[i as int]),
                    !known ==> forall|j: int|
                        0 <= j < k ==> (#[trigger] names_at(batch, fresh@)[j]) != batch[i as int],
                    so_far == self@ + names_at(batch, fresh@),
                decreases fresh@.len() - k, if known { 0int } else { 1int },
            {
                let at: usize = fresh[k];
                if global[at] == global[i] {
                    known = true;
                    proof {
                        assert(so_far[self@.len() + k] == batch[i as int]);
                    }
                } else {
                    k = k + 1;
                }
            }
            if !known {
                proof {
                    assert(!so_far.contains(batch[i as int])) by {
                        if so_far.contains(batch[i as int]) {
                            let p = choose|p: int| 0 <= p < so_far.len() && so_far[p] == batch[i as int];
                            if p < self@.len() {
                                assert(self@[p] == batch[i as int]);
                            } else {
                                assert(names_at(batch, fresh@)[p - self@.len()] == batch[i as int]);
                            }
                        }
                    }
                    assert(so_far.push(batch[i as int]) =~= self@ + names_at(
                        batch,
                        fresh@.push(i),
                    ));
                }
                fresh.push(i);
            }
            i = i + 1;
        }
        proof {
            assert(batch.take(4096) =~= batch);
        }
        held + fresh.len() <= PALETTE_CAPACITY as usize
    }

    /// Returns the local code of `id`, giving it the next unused code if it
    /// has none yet. Codes already assigned stay as they are.
    pub fn intern(&mut self, id: &GlobalIdentifier) -> (code: u16)
        requires
            old(self).wf(),
            intern_one(old(self)@, id@).len() <= PALETTE_CAPACITY,
        ensures
            final(self).wf(),
            final(self)@ == intern_one(old(self)@, id@),
            code == code_of(final(self)@, id@),
            code < final(self)@.len(),
            final(self)@[code as int] == id@,
    {
        proof {
            self.lemma_contains(id@);
            lemma_intern_one(self@, id@);
        }
        if !entries_contains_right(&self.entries, id) {
            let ghost before = palette_entries(self.entries);
            let fresh: u16 = self.next_local as u16;
            entries_insert(&mut self.entries, fresh, id.clone());
            self.next_local = self.next_local + 1;
            proof {
                let after = palette_entries(self.entries);
                assert forall|c: u16| after.contains_key(c) <==> c < self.next_local by {
                    if c < fresh {
                        assert(before.contains_key(c));
                    }
                }
                assert forall|c: int| 0 <= c < fresh implies self@[c] == old(self)@[c] by {
                    assert(before.contains_key(c as u16));
                }
                assert(self@ =~= old(self)@.push(id@));
            }
        }
        proof {
            self.lemma_contains(id@);
        }
        let code = entries_get_by_right(&self.entries, id);
        proof {
            if let Some(c) = code {
                lemma_code_of(self@, id@, c as int);
            }
        }
        code.unwrap()
    }
}

} // verus!
