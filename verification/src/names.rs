//! The names that ids stand for.
use vstd::hash_map::StringHashMap;
use vstd::prelude::*;
use vstd::string::*;

use crate::text::str_opt;

verus! {

/// The display names of users, user groups or channels, by their Slack id.
pub struct NameMap {
    names: StringHashMap<String>,
}

impl View for NameMap {
    type V = Map<Seq<char>, Seq<char>>;

    closed spec fn view(&self) -> Map<Seq<char>, Seq<char>> {
        self.names@.map_values(|s: String| s@)
    }
}

/// The name of `id`, or `id` itself where it has none.
pub open spec fn name_or_id(names: Map<Seq<char>, Seq<char>>, id: Seq<char>) -> Seq<char> {
    if names.contains_key(id) {
        names[id]
    } else {
        id
    }
}

impl NameMap {
    /// A map without names.
    pub fn new() -> (r: NameMap)
        ensures
            r@ == Map::<Seq<char>, Seq<char>>::empty(),
    {
        let r = NameMap { names: StringHashMap::new() };
        assert(r@ =~= Map::<Seq<char>, Seq<char>>::empty());
        r
    }

    /// Names `id`, in place of a name that it may have had.
    pub fn insert(&mut self, id: String, name: String)
        ensures
            final(self)@ == old(self)@.insert(id@, name@),
    {
        self.names.insert(id, name);
        assert(self@ =~= old(self)@.insert(id@, name@));
    }

    /// How many ids are named.
    pub fn len(&self) -> (r: usize)
        ensures
            r == self@.dom().len(),
    {
        assert(self@.dom() =~= self.names@.dom());
        self.names.len()
    }

    /// The name of `id`.
    pub fn get(&self, id: &str) -> (r: Option<&str>)
        ensures
            str_opt(r) == (if self@.contains_key(id@) {
                Some(self@[id@])
            } else {
                None
            }),
    {
        match self.names.get(id) {
            Some(name) => Some(name.as_str()),
            None => None,
        }
    }

    /// The name of `id`, or `id` itself where it has none.
    pub fn name_or_id<'a>(&'a self, id: &'a str) -> (r: &'a str)
        ensures
            r@ == name_or_id(self@, id@),
    {
        match self.get(id) {
            Some(name) => name,
            None => id,
        }
    }
}

/// An id that is named is shown by that name, whatever it is; one that is not, by itself.
/// Naming one id changes nothing for the others.
pub proof fn law_names_stand_for_ids(
    names: Map<Seq<char>, Seq<char>>,
    id: Seq<char>,
    name: Seq<char>,
    other: Seq<char>,
)
    ensures
        name_or_id(names.insert(id, name), id) == name,
        name_or_id(names.remove(id), id) == id,
        other != id ==> name_or_id(names.insert(id, name), other) == name_or_id(names, other),
{
}

} // verus!
