//! The metadata mirror: a flat store per metadata global.
//!
//! Each metadata global owns a set of records keyed by a string key; a
//! record carries the subject id it concerns, an optional type, and a
//! value. Records are upserted by property events carrying a value and
//! deleted by events without one; a clear wipes every record of one
//! metadata global while the global's entry itself stays.

use vstd::prelude::*;
use std::collections::BTreeMap;
use crate::protocol::ObjectMethod;
use crate::protocol::Request;
use crate::strmap::StrMap;

verus! {

broadcast use vstd::laws_cmp::group_laws_cmp;

/// One metadata record: the subject it concerns, its declared type if
/// any, and its value.
pub struct Property {
    pub subject: u32,
    pub type_: Option<String>,
    pub value: String,
}

impl Property {
    /// The request that sets this record under `key` on metadata global
    /// `id` (value present).
    pub fn set_request(&self, id: u32, key: String) -> (r: Request)
        ensures
            r matches Request::CallObjectMethod(i, m) && i == id && (
            m matches ObjectMethod::MetadataSetProperty { subject, key: k, type_, value } && subject
                == self.subject && k == key && type_ == self.type_ && value == Some(self.value)),
    {
        Request::CallObjectMethod(
            id,
            ObjectMethod::MetadataSetProperty {
                subject: self.subject,
                key,
                type_: clone_opt(&self.type_),
                value: Some(self.value.clone()),
            },
        )
    }

    /// The request that clears the record under `key` on metadata global
    /// `id` (no value).
    pub fn clear_request(&self, id: u32, key: String) -> (r: Request)
        ensures
            r matches Request::CallObjectMethod(i, m) && i == id && (
            m matches ObjectMethod::MetadataSetProperty { subject, key: k, type_, value } && subject
                == self.subject && k == key && type_ == self.type_ && value is None),
    {
        Request::CallObjectMethod(
            id,
            ObjectMethod::MetadataSetProperty {
                subject: self.subject,
                key,
                type_: clone_opt(&self.type_),
                value: None,
            },
        )
    }
}

/// A copy of an optional string, equal to what it copies.
fn clone_opt(o: &Option<String>) -> (r: Option<String>)
    ensures
        r == *o,
{
    match o {
        Some(s) => Some(s.clone()),
        None => None,
    }
}

/// One mirrored metadata global: its display name, its records, and the
/// records the user has authored but not sent.
pub struct Metadata {
    pub name: String,
    pub properties: StrMap<Property>,
    pub user_properties: Vec<(String, Property)>,
}

/// The metadata mirror, keyed by the owning metadata global's id.
pub struct MetadataEditor {
    metadatas: BTreeMap<u32, Metadata>,
}

impl MetadataEditor {
    /// The mirrored metadata globals by id.
    pub closed spec fn map_spec(self) -> Map<u32, Metadata> {
        self.metadatas@
    }

    /// Every held record map is sorted.
    pub open spec fn wf(self) -> bool {
        forall|id: u32|
            self.map_spec().contains_key(id) ==> (#[trigger] self.map_spec()[id]).properties.wf()
    }

    /// An empty mirror.
    pub fn new() -> (s: Self)
        ensures
            s.wf(),
            s.map_spec() == Map::<u32, Metadata>::empty(),
    {
        MetadataEditor { metadatas: BTreeMap::new() }
    }

    /// Records that a metadata global exists; an id already present keeps
    /// its records and its name.
    pub fn add_metadata(&mut self, id: u32, name: &str)
        requires
            old(self).wf(),
        ensures
            final(self).wf(),
            final(self).map_spec().dom() == old(self).map_spec().dom().insert(id),
            old(self).map_spec().contains_key(id) ==> final(self).map_spec() == old(self).map_spec(),
            !old(self).map_spec().contains_key(id) ==> {
                let m = final(self).map_spec()[id];
                &&& m.name@ == name@
                &&& m.properties@ == Map::<Seq<char>, Property>::empty()
                &&& m.user_properties@.len() == 0
            },
            forall|o: u32|
                o != id && old(self).map_spec().contains_key(o) ==> #[trigger] final(self).map_spec()[o] == old(self).map_spec()[o],
    {
        if self.metadatas.contains_key(&id) {
            proof {
                assert(self.map_spec().dom() =~= old(self).map_spec().dom().insert(id));
            }
            return ;
        }
        let m = Metadata {
            name: name.to_owned(),
            properties: StrMap::new(),
            user_properties: Vec::new(),
        };
        self.metadatas.insert(id, m);
        proof {
            assert(self.map_spec().dom() =~= old(self).map_spec().dom().insert(id));
            assert forall|o: u32| self.map_spec().contains_key(o) implies (
            #[trigger] self.map_spec()[o]).properties.wf() by {
                if o != id {
                    assert(self.map_spec()[o] == old(self).map_spec()[o]);
                }
            }
        }
    }

    /// Upserts one record: replaces the record under `key` if one exists,
    /// else inserts it; a metadata global not seen before is created with
    /// the given name.
    pub fn add_property(
        &mut self,
        id: u32,
        name: String,
        subject: u32,
        key: String,
        type_: Option<String>,
        value: String,
    )
        requires
            old(self).wf(),
        ensures
            final(self).wf(),
            final(self).map_spec().dom() == old(self).map_spec().dom().insert(id),
            ({
                let m = final(self).map_spec()[id];
                let before = if old(self).map_spec().contains_key(id) {
                    old(self).map_spec()[id].properties@
                } else {
                    Map::<Seq<char>, Property>::empty()
                };
                &&& m.properties@ == before.insert(
                    key@,
                    Property { subject, type_, value },
                )
                &&& m.name == (if old(self).map_spec().contains_key(id) {
                    old(self).map_spec()[id].name
                } else {
                    name
                })
                &&& (old(self).map_spec().contains_key(id) ==> m.user_properties == old(self).map_spec()[id].user_properties)
                &&& (!old(self).map_spec().contains_key(id) ==> m.user_properties@.len() == 0)
            }),
            forall|o: u32|
                o != id && old(self).map_spec().contains_key(o) ==> #[trigger] final(self).map_spec()[o] == old(self).map_spec()[o],
    {
        let prop = Property { subject, type_, value };
        match self.metadatas.remove(&id) {
            Some(mut m) => {
                proof {
                    assert(m == old(self).map_spec()[id]);
                    assert(old(self).map_spec()[id].properties.wf());
                }
                m.properties.insert(key, prop);
                let ghost m2 = m;
                self.metadatas.insert(id, m);
                proof {
                    assert(self.map_spec().dom() =~= old(self).map_spec().dom().insert(id));
                    assert forall|o: u32| self.map_spec().contains_key(o) implies (
                    #[trigger] self.map_spec()[o]).properties.wf() by {
                        if o != id {
                            assert(self.map_spec()[o] == old(self).map_spec()[o]);
                        } else {
                            assert(self.map_spec()[o] == m2);
                        }
                    }
                }
            },
            None => {
                let mut properties = StrMap::new();
                properties.insert(key, prop);
                let m = Metadata { name, properties, user_properties: Vec::new() };
                let ghost m2 = m;
                self.metadatas.insert(id, m);
                proof {
                    assert(self.map_spec().dom() =~= old(self).map_spec().dom().insert(id));
                    assert forall|o: u32| self.map_spec().contains_key(o) implies (
                    #[trigger] self.map_spec()[o]).properties.wf() by {
                        if o != id {
                            assert(self.map_spec()[o] == old(self).map_spec()[o]);
                        } else {
                            assert(self.map_spec()[o] == m2);
                        }
                    }
                }
            },
        }
    }

    /// Forgets a metadata global and all its records (its removal).
    pub fn remove_metadata(&mut self, id: u32)
        requires
            old(self).wf(),
        ensures
            final(self).wf(),
            final(self).map_spec() == old(self).map_spec().remove(id),
    {
        let removed = self.metadatas.remove(&id);
        proof {
            if removed is None {
                assert(self.map_spec() =~= old(self).map_spec().remove(id));
            }
            assert forall|o: u32| self.map_spec().contains_key(o) implies (
            #[trigger] self.map_spec()[o]).properties.wf() by {
                assert(self.map_spec()[o] == old(self).map_spec()[o]);
            }
        }
    }

    /// Deletes the record under `key` for metadata global `id`; the
    /// global's entry itself stays. Absent ids are ignored.
    pub fn remove_property(&mut self, id: u32, key: &str)
        requires
            old(self).wf(),
        ensures
            final(self).wf(),
            final(self).map_spec().dom() == old(self).map_spec().dom(),
            old(self).map_spec().contains_key(id) ==> {
                let m = final(self).map_spec()[id];
                &&& m.properties@ == old(self).map_spec()[id].properties@.remove(key@)
                &&& m.name == old(self).map_spec()[id].name
                &&& m.user_properties == old(self).map_spec()[id].user_properties
            },
            forall|o: u32|
                o != id && old(self).map_spec().contains_key(o) ==> #[trigger] final(self).map_spec()[o] == old(self).map_spec()[o],
    {
        match self.metadatas.remove(&id) {
            Some(mut m) => {
                proof {
                    assert(m == old(self).map_spec()[id]);
                    assert(old(self).map_spec()[id].properties.wf());
                }
                m.properties.remove(key);
                let ghost m2 = m;
                self.metadatas.insert(id, m);
                proof {
                    assert(self.map_spec().dom() =~= old(self).map_spec().dom());
                    assert forall|o: u32| self.map_spec().contains_key(o) implies (
                    #[trigger] self.map_spec()[o]).properties.wf() by {
                        if o != id {
                            assert(self.map_spec()[o] == old(self).map_spec()[o]);
                        } else {
                            assert(self.map_spec()[o] == m2);
                        }
                    }
                }
            },
            None => {
                proof {
                    assert(self.map_spec() =~= old(self).map_spec());
                }
            },
        }
    }

    /// Empties the whole record map for metadata global `id`; the global's
    /// entry itself stays. Absent ids are ignored.
    pub fn clear_properties(&mut self, id: u32)
        requires
            old(self).wf(),
        ensures
            final(self).wf(),
            final(self).map_spec().dom() == old(self).map_spec().dom(),
            old(self).map_spec().contains_key(id) ==> {
                let m = final(self).map_spec()[id];
                &&& m.properties@ == Map::<Seq<char>, Property>::empty()
                &&& m.name == old(self).map_spec()[id].name
                &&& m.user_properties == old(self).map_spec()[id].user_properties
            },
            forall|o: u32|
                o != id && old(self).map_spec().contains_key(o) ==> #[trigger] final(self).map_spec()[o] == old(self).map_spec()[o],
    {
        match self.metadatas.remove(&id) {
            Some(mut m) => {
                m.properties.clear();
                let ghost m2 = m;
                self.metadatas.insert(id, m);
                proof {
                    assert(self.map_spec().dom() =~= old(self).map_spec().dom());
                    assert forall|o: u32| self.map_spec().contains_key(o) implies (
                    #[trigger] self.map_spec()[o]).properties.wf() by {
                        if o != id {
                            assert(self.map_spec()[o] == old(self).map_spec()[o]);
                        } else {
                            assert(self.map_spec()[o] == m2);
                        }
                    }
                }
            },
            None => {
                proof {
                    assert(self.map_spec() =~= old(self).map_spec());
                }
            },
        }
    }

    /// The record map of one metadata global, if mirrored.
    pub fn metadata(&self, id: u32) -> (r: Option<&Metadata>)
        ensures
            match r {
                Some(m) => self.map_spec().contains_key(id) && *m == self.map_spec()[id],
                None => !self.map_spec().contains_key(id),
            },
    {
        self.metadatas.get(&id)
    }

    /// The request that wipes every record of metadata global `id`.
    pub fn clear_request(id: u32) -> (r: Request)
        ensures
            r == Request::CallObjectMethod(id, ObjectMethod::MetadataClear),
    {
        Request::CallObjectMethod(id, ObjectMethod::MetadataClear)
    }
}

/// Upserting a record twice under one key leaves exactly the second
/// record: the map holds one entry for the key, carrying the later value.
pub proof fn lemma_upsert_twice(
    m: Map<Seq<char>, Property>,
    k: Seq<char>,
    p1: Property,
    p2: Property,
)
    ensures
        m.insert(k, p1).insert(k, p2)[k] == p2,
        m.insert(k, p1).insert(k, p2).dom() == m.dom().insert(k),
{
    assert(m.insert(k, p1).insert(k, p2).dom() =~= m.dom().insert(k));
}

/// Deleting a key after inserting it leaves no record for that key, and
/// every other record as it was.
pub proof fn lemma_delete_inserted(m: Map<Seq<char>, Property>, k: Seq<char>, p: Property)
    ensures
        !m.insert(k, p).remove(k).contains_key(k),
        forall|k2: Seq<char>|
            k2 != k && m.contains_key(k2) ==> #[trigger] m.insert(k, p).remove(k)[k2] == m[k2],
{
}

} // verus!
