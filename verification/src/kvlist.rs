//! User-staged key/value edits.
//!
//! Editors stage new entries in a plain ordered list before committing them
//! into a property map; committing applies the staged pairs in order, later
//! entries overriding earlier ones and any existing key.

use vstd::prelude::*;
use crate::strmap::StrMap;

verus! {

/// Applies the staged pairs to `m` in order: each pair inserts (or
/// replaces) its key.
pub open spec fn insert_all(m: Map<Seq<char>, String>, adds: Seq<(String, String)>) -> Map<
    Seq<char>,
    String,
>
    decreases adds.len(),
{
    if adds.len() == 0 {
        m
    } else {
        insert_all(m, adds.drop_last()).insert(adds.last().0@, adds.last().1)
    }
}

/// A list of user-entered key/value pairs, in entry order.
pub struct EditableKVList {
    list: Vec<(String, String)>,
}

impl EditableKVList {
    /// The staged pairs, in entry order.
    pub closed spec fn list_spec(self) -> Seq<(String, String)> {
        self.list@
    }

    /// An empty list.
    pub fn new() -> (r: Self)
        ensures
            r.list_spec().len() == 0,
    {
        EditableKVList { list: Vec::new() }
    }

    /// Read access to the staged pairs.
    pub fn list(&self) -> (r: &Vec<(String, String)>)
        ensures
            r@ == self.list_spec(),
    {
        &self.list
    }

    /// Write access to the staged pairs, for an editor widget.
    pub fn list_mut(&mut self) -> (r: &mut Vec<(String, String)>)
        ensures
            r@ == old(self).list_spec(),
            final(self).list_spec() == final(r)@,
    {
        &mut self.list
    }

    /// Appends one staged pair.
    pub fn push(&mut self, key: String, value: String)
        ensures
            final(self).list_spec() == old(self).list_spec().push((key, value)),
    {
        self.list.push((key, value));
    }

    /// Hands the staged pairs out, leaving the list empty.
    pub fn take(&mut self) -> (r: Vec<(String, String)>)
        ensures
            r@ == old(self).list_spec(),
            final(self).list_spec().len() == 0,
    {
        let mut out: Vec<(String, String)> = Vec::new();
        core::mem::swap(&mut out, &mut self.list);
        out
    }

    /// Drops every staged pair.
    pub fn clear(&mut self)
        ensures
            final(self).list_spec().len() == 0,
    {
        self.list.clear();
    }
}

impl Default for EditableKVList {
    fn default() -> (r: Self)
        ensures
            r.list_spec().len() == 0,
    {
        EditableKVList { list: Vec::new() }
    }
}

/// A property map under edit, together with the entries staged to join it.
pub struct MapEditor {
    properties: StrMap<String>,
    user_additions: EditableKVList,
}

impl MapEditor {
    /// The map under edit.
    pub closed spec fn props_spec(self) -> StrMap<String> {
        self.properties
    }

    /// The staged additions.
    pub closed spec fn additions_spec(self) -> Seq<(String, String)> {
        self.user_additions.list_spec()
    }

    /// The held map is sorted.
    pub closed spec fn wf(self) -> bool {
        self.properties.wf()
    }

    /// An empty editor.
    pub fn new() -> (r: Self)
        ensures
            r.wf(),
            r.props_spec()@ == Map::<Seq<char>, String>::empty(),
            r.additions_spec().len() == 0,
    {
        MapEditor { properties: StrMap::new(), user_additions: EditableKVList::new() }
    }

    /// Replaces the map under edit, keeping the staged additions.
    pub fn set_map(&mut self, map: StrMap<String>)
        requires
            map.wf(),
        ensures
            final(self).wf(),
            final(self).props_spec() == map,
            final(self).additions_spec() == old(self).additions_spec(),
    {
        self.properties = map;
    }

    /// Write access to the staged additions.
    pub fn additions_mut(&mut self) -> (r: &mut EditableKVList)
        ensures
            *r == old(self).user_additions_field(),
            final(self).props_spec() == old(self).props_spec(),
            final(self).wf() == old(self).wf(),
            final(self).additions_spec() == final(r).list_spec(),
    {
        &mut self.user_additions
    }

    /// The staged-additions field (for `additions_mut`'s contract).
    pub closed spec fn user_additions_field(self) -> EditableKVList {
        self.user_additions
    }

    /// Commits the staged additions into the map, in order, and hands the
    /// whole map out; the editor is left empty.
    pub fn take(&mut self) -> (r: StrMap<String>)
        requires
            old(self).wf(),
        ensures
            r.wf(),
            r@ == insert_all(old(self).props_spec()@, old(self).additions_spec()),
            final(self).wf(),
            final(self).props_spec()@ == Map::<Seq<char>, String>::empty(),
            final(self).additions_spec().len() == 0,
    {
        let adds = self.user_additions.take();
        let mut i: usize = 0;
        while i < adds.len()
            invariant
                self.wf(),
                self.user_additions.list_spec().len() == 0,
                adds@ == old(self).additions_spec(),
                i <= adds@.len(),
                self.properties@ == insert_all(old(self).props_spec()@, adds@.take(i as int)),
            decreases adds@.len() - i,
        {
            let k = adds[i].0.clone();
            let v = adds[i].1.clone();
            self.properties.insert(k, v);
            proof {
                assert(adds@.take(i + 1).drop_last() =~= adds@.take(i as int));
                assert(adds@.take(i + 1).last() == adds@[i as int]);
            }
            i = i + 1;
        }
        proof {
            assert(adds@.take(adds@.len() as int) =~= adds@);
        }
        let mut out = StrMap::new();
        core::mem::swap(&mut out, &mut self.properties);
        out
    }
}

impl Default for MapEditor {
    fn default() -> (r: Self)
        ensures
            r.wf(),
            r.props_spec()@ == Map::<Seq<char>, String>::empty(),
            r.additions_spec().len() == 0,
    {
        MapEditor { properties: StrMap::new(), user_additions: EditableKVList::new() }
    }
}

} // verus!
