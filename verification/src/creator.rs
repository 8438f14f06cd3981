//! Object creation: tracked factories and the request a user's choice
//! produces.
//!
//! Factory globals are tracked by id; the user picks one, enters
//! properties, and the creation request names the factory and carries the
//! entered pairs in order. A selection whose factory has disappeared
//! resets to no factory.

use vstd::prelude::*;
use std::collections::BTreeMap;
use crate::kvlist::EditableKVList;
use crate::protocol::ObjectType;
use crate::protocol::Request;

verus! {

broadcast use vstd::laws_cmp::group_laws_cmp;

/// One tracked factory global: its name, what it creates, and the id of
/// its owning global (for info display).
pub struct Factory {
    pub name: String,
    pub object_type: ObjectType,
    pub global: u32,
}

/// The object-creation helper.
pub struct ObjectCreator {
    factories: BTreeMap<u32, Factory>,
    selected_factory: Option<u32>,
    props: EditableKVList,
}

impl ObjectCreator {
    /// The tracked factories by id.
    pub closed spec fn factories_spec(self) -> Map<u32, Factory> {
        self.factories@
    }

    /// The currently selected factory id, if any.
    pub closed spec fn selected_spec(self) -> Option<u32> {
        self.selected_factory
    }

    /// The user-entered property pairs, in entry order.
    pub closed spec fn props_spec(self) -> Seq<(String, String)> {
        self.props.list_spec()
    }

    /// An empty helper: no factories, no selection, no properties.
    pub fn new() -> (s: Self)
        ensures
            s.factories_spec() == Map::<u32, Factory>::empty(),
            s.selected_spec() is None,
            s.props_spec().len() == 0,
    {
        ObjectCreator {
            factories: BTreeMap::new(),
            selected_factory: None,
            props: EditableKVList::new(),
        }
    }

    /// Tracks (or re-tracks) a factory global.
    pub fn add_factory(&mut self, id: u32, name: &str, object_type: ObjectType, global: u32)
        ensures
            final(self).factories_spec().dom() == old(self).factories_spec().dom().insert(id),
            ({
                let f = final(self).factories_spec()[id];
                f.name@ == name@ && f.object_type == object_type && f.global == global
            }),
            forall|o: u32|
                o != id && old(self).factories_spec().contains_key(o) ==> #[trigger] final(self).factories_spec()[o] == old(self).factories_spec()[o],
            final(self).selected_spec() == old(self).selected_spec(),
            final(self).props_spec() == old(self).props_spec(),
    {
        let f = Factory { name: name.to_owned(), object_type, global };
        self.factories.insert(id, f);
        proof {
            assert(self.factories_spec().dom() =~= old(self).factories_spec().dom().insert(id));
        }
    }

    /// Stops tracking a factory (its owning global was removed).
    pub fn remove_factory(&mut self, id: u32)
        ensures
            final(self).factories_spec() == old(self).factories_spec().remove(id),
            final(self).selected_spec() == old(self).selected_spec(),
            final(self).props_spec() == old(self).props_spec(),
    {
        let removed = self.factories.remove(&id);
        proof {
            if removed is None {
                assert(self.factories_spec() =~= old(self).factories_spec().remove(id));
            }
        }
    }

    /// Selects a factory by id (or none).
    pub fn select_factory(&mut self, id: Option<u32>)
        ensures
            final(self).selected_spec() == id,
            final(self).factories_spec() == old(self).factories_spec(),
            final(self).props_spec() == old(self).props_spec(),
    {
        self.selected_factory = id;
    }

    /// Drops a selection whose factory is no longer tracked, and reports
    /// the selection that remains.
    pub fn validate_selection(&mut self) -> (r: Option<u32>)
        ensures
            final(self).factories_spec() == old(self).factories_spec(),
            final(self).props_spec() == old(self).props_spec(),
            r == final(self).selected_spec(),
            match old(self).selected_spec() {
                Some(id) => if old(self).factories_spec().contains_key(id) {
                    r == Some(id)
                } else {
                    r is None
                },
                None => r is None,
            },
    {
        match self.selected_factory {
            Some(id) => {
                if self.factories.contains_key(&id) {
                    Some(id)
                } else {
                    self.selected_factory = None;
                    None
                }
            },
            None => None,
        }
    }

    /// The tracked factory with this id, if any.
    pub fn factory(&self, id: u32) -> (r: Option<&Factory>)
        ensures
            match r {
                Some(f) => self.factories_spec().contains_key(id) && *f
                    == self.factories_spec()[id],
                None => !self.factories_spec().contains_key(id),
            },
    {
        self.factories.get(&id)
    }

    /// Write access to the staged property pairs.
    pub fn props_mut(&mut self) -> (r: &mut EditableKVList)
        ensures
            r.list_spec() == old(self).props_spec(),
            final(self).props_spec() == final(r).list_spec(),
            final(self).factories_spec() == old(self).factories_spec(),
            final(self).selected_spec() == old(self).selected_spec(),
    {
        &mut self.props
    }

    /// The creation request for the selected factory: it names the
    /// factory, declares what it creates, and carries the entered pairs in
    /// order. With no valid selection there is nothing to send.
    pub fn create_request(&self) -> (r: Option<Request>)
        ensures
            match self.selected_spec() {
                Some(id) => if self.factories_spec().contains_key(id) {
                    r matches Some(q) && (q matches Request::CreateObject(t, n, p) && t
                        == self.factories_spec()[id].object_type && n
                        == self.factories_spec()[id].name && p@ == self.props_spec())
                } else {
                    r is None
                },
                None => r is None,
            },
    {
        let id = match self.selected_factory {
            Some(id) => id,
            None => {
                return None;
            },
        };
        let f = match self.factories.get(&id) {
            Some(f) => f,
            None => {
                return None;
            },
        };
        let list = self.props.list();
        let mut pairs: Vec<(String, String)> = Vec::new();
        let mut i: usize = 0;
        while i < list.len()
            invariant
                i <= list@.len(),
                pairs@ =~= list@.take(i as int),
            decreases list@.len() - i,
        {
            pairs.push((list[i].0.clone(), list[i].1.clone()));
            i = i + 1;
        }
        proof {
            assert(pairs@ =~= list@);
        }
        Some(Request::CreateObject(f.object_type, f.name.clone(), pairs))
    }

    /// Clears the selection and the entered properties.
    pub fn clear(&mut self)
        ensures
            final(self).factories_spec() == old(self).factories_spec(),
            final(self).selected_spec() is None,
            final(self).props_spec().len() == 0,
    {
        self.selected_factory = None;
        self.props.clear();
    }
}

} // verus!
