use vstd::prelude::*;
use vstd::std_specs::cmp::PartialEqSpecImpl;
use vstd::string::StringExecFns;

verus! {

/// The mathematical value of an identifier: its pack and object names as
/// character sequences.
pub struct Name {
    pub pack: Seq<char>,
    pub obj: Seq<char>,
}

impl Name {
    /// The printed form `pack:obj`.
    pub open spec fn text(self) -> Seq<char> {
        self.pack + seq![':'] + self.obj
    }
}

/// The reserved identifier of empty space, `required:air`.
pub open spec fn air_name() -> Name {
    Name { pack: "required"@, obj: "air"@ }
}

/// The names of a sequence of identifiers, position by position.
pub open spec fn names(ids: Seq<GlobalIdentifier>) -> Seq<Name> {
    ids.map_values(|id: GlobalIdentifier| id@)
}

/// A namespaced name of a voxel type or a level type. `pack` names the
/// content provider and must be unique among providers; `obj` need only be
/// unique within its pack. Two identifiers are equal, and hash alike, when
/// both parts are equal.
#[derive(Debug, Hash)]
pub struct GlobalIdentifier {
    pub pack: String,
    pub obj: String,
}

impl View for GlobalIdentifier {
    type V = Name;

    open spec fn view(&self) -> Name {
        Name { pack: self.pack@, obj: self.obj@ }
    }
}

impl PartialEq for GlobalIdentifier {
    fn eq(&self, other: &Self) -> (r: bool) {
        self.pack == other.pack && self.obj == other.obj
    }
}

impl PartialEqSpecImpl for GlobalIdentifier {
    open spec fn obeys_eq_spec() -> bool {
        true
    }

    open spec fn eq_spec(&self, other: &Self) -> bool {
        self@ == other@
    }
}

impl Eq for GlobalIdentifier {

}

impl Clone for GlobalIdentifier {
    fn clone(&self) -> (copy: Self)
        ensures
            copy@ == self@,
    {
        GlobalIdentifier { pack: self.pack.clone(), obj: self.obj.clone() }
    }
}

impl GlobalIdentifier {
    pub fn new(pack: &str, obj: &str) -> (id: GlobalIdentifier)
        ensures
            id@ == (Name { pack: pack@, obj: obj@ }),
    {
        GlobalIdentifier { pack: String::from_str(pack), obj: String::from_str(obj) }
    }

    /// The printed form `pack:obj`, for diagnostics.
    pub fn to_string(&self) -> (s: String)
        ensures
            s@ == self@.text(),
    {
        let mut s = self.pack.clone();
        proof {
            reveal_strlit(":");
        }
        s.append(":");
        s.append(self.obj.as_str());
        assert(":"@ =~= seq![':']);
        s
    }
}

} // verus!
