//! The mirror's representation of one remote object.
//!
//! A `Global` is created on first sight, updated in place by later info and
//! property events, and destroyed on removal. Its display name and its
//! parent are never pushed by the daemon: both are derived from the current
//! properties, and recomputed whenever the properties change.

use vstd::prelude::*;
use crate::kvlist::EditableKVList;
use crate::kvlist::insert_all;
use crate::protocol::ObjectMethod;
use crate::protocol::ObjectType;
use crate::protocol::Permissions;
use crate::protocol::Request;
use crate::strmap::StrMap;
use crate::text::CharsOrder;
use crate::text::chars_have_suffix;
use crate::text::chars_vec;
use crate::text::cmp_chars;
use crate::text::has_suffix;
use crate::text::parse_u32;
use crate::text::spec_parse_u32;

verus! {

/// The character view of an optional string.
pub open spec fn opt_view(o: Option<String>) -> Option<Seq<char>> {
    match o {
        Some(s) => Some(s@),
        None => None,
    }
}

/// The type-specific candidate key whose value names the object, first
/// present wins: nick, then description, then name for devices and nodes;
/// the one fixed key for ports and cores; nothing for other types.
pub open spec fn priority_name_key(t: ObjectType, m: Map<Seq<char>, String>) -> Option<Seq<char>> {
    match t {
        ObjectType::Device => if m.contains_key("device.nick"@) {
            Some("device.nick"@)
        } else if m.contains_key("device.description"@) {
            Some("device.description"@)
        } else if m.contains_key("device.name"@) {
            Some("device.name"@)
        } else {
            None
        },
        ObjectType::Node => if m.contains_key("node.nick"@) {
            Some("node.nick"@)
        } else if m.contains_key("node.description"@) {
            Some("node.description"@)
        } else if m.contains_key("node.name"@) {
            Some("node.name"@)
        } else {
            None
        },
        ObjectType::Port => if m.contains_key("port.name"@) {
            Some("port.name"@)
        } else {
            None
        },
        ObjectType::Core => if m.contains_key("core.name"@) {
            Some("core.name"@)
        } else {
            None
        },
        _ => None,
    }
}

/// Whether a property key may serve as a fallback name source: it ends in
/// `.name`, is not `library.name`, and is `factory.name` only on a factory.
pub open spec fn name_key_acceptable(t: ObjectType, k: Seq<char>) -> bool {
    &&& has_suffix(k, ".name"@)
    &&& k != "library.name"@
    &&& (t == ObjectType::Factory || k != "factory.name"@)
}

/// The first acceptable fallback key, scanning the keys in map order.
pub open spec fn first_fallback(t: ObjectType, keys: Seq<Seq<char>>) -> Option<Seq<char>>
    decreases keys.len(),
{
    if keys.len() == 0 {
        None
    } else if name_key_acceptable(t, keys[0]) {
        Some(keys[0])
    } else {
        first_fallback(t, keys.drop_first())
    }
}

/// The display name derived from the properties: the value of the first
/// present priority key, else the value of the first acceptable `.name`
/// key in key order, else nothing.
pub open spec fn derived_name(
    t: ObjectType,
    m: Map<Seq<char>, String>,
    keys: Seq<Seq<char>>,
) -> Option<Seq<char>> {
    match priority_name_key(t, m) {
        Some(k) => Some(m[k]@),
        None => match first_fallback(t, keys) {
            Some(k) => Some(m[k]@),
            None => None,
        },
    }
}

/// The property key that names an object's parent: nodes hang under their
/// device (else their client), ports under their node, nothing else has a
/// parent.
pub open spec fn parent_key(t: ObjectType, m: Map<Seq<char>, String>) -> Option<Seq<char>> {
    match t {
        ObjectType::Node => if m.contains_key("device.id"@) {
            Some("device.id"@)
        } else if m.contains_key("client.id"@) {
            Some("client.id"@)
        } else {
            None
        },
        ObjectType::Port => if m.contains_key("node.id"@) {
            Some("node.id"@)
        } else {
            None
        },
        _ => None,
    }
}

/// The parent id derived from the properties; a missing or non-numeric
/// value leaves the parent unset.
pub open spec fn derived_parent(t: ObjectType, m: Map<Seq<char>, String>) -> Option<u32> {
    match parent_key(t, m) {
        Some(k) => spec_parse_u32(m[k]@),
        None => None,
    }
}

/// If the first `i` keys are not acceptable, the fallback scan's outcome
/// is decided by the rest.
proof fn lemma_fallback_skip(t: ObjectType, keys: Seq<Seq<char>>, i: int)
    requires
        0 <= i <= keys.len(),
        forall|j: int| 0 <= j < i ==> !name_key_acceptable(t, #[trigger] keys[j]),
    ensures
        first_fallback(t, keys) == first_fallback(t, keys.skip(i)),
    decreases i,
{
    if i > 0 {
        lemma_fallback_skip(t, keys.drop_first(), i - 1);
        assert(keys.drop_first().skip(i - 1) =~= keys.skip(i));
    } else {
        assert(keys.skip(0) =~= keys);
    }
}

/// Object-type-specific extension state: clients carry their permission
/// lists and staged edits; every other type carries only its type.
pub enum ObjectData {
    Client {
        /// The known permission list, replaced wholesale by each
        /// permissions event.
        permissions: Option<Vec<Permissions>>,
        /// Permission entries the user staged for addition.
        user_permissions: Vec<Permissions>,
        /// Property entries the user staged for addition.
        user_properties: EditableKVList,
    },
    Other(ObjectType),
}

impl ObjectData {
    /// The object type this data belongs to.
    pub open spec fn spec_type(self) -> ObjectType {
        match self {
            ObjectData::Client { .. } => ObjectType::Client,
            ObjectData::Other(t) => t,
        }
    }

    /// Fresh extension state for an object of the given type.
    pub fn new(object_type: ObjectType) -> (d: Self)
        ensures
            d.spec_type() == object_type,
            object_type == ObjectType::Client ==> (d matches ObjectData::Client {
                permissions,
                user_permissions,
                user_properties,
            } && permissions is None && user_permissions@.len() == 0
                && user_properties.list_spec().len() == 0),
            object_type != ObjectType::Client ==> d == ObjectData::Other(object_type),
    {
        match object_type {
            ObjectType::Client => ObjectData::Client {
                permissions: None,
                user_permissions: Vec::new(),
                user_properties: EditableKVList::new(),
            },
            t => ObjectData::Other(t),
        }
    }

    /// The object type this data belongs to.
    pub fn pipewire_type(&self) -> (t: &ObjectType)
        ensures
            *t == self.spec_type(),
    {
        match self {
            ObjectData::Client { .. } => &ObjectType::Client,
            ObjectData::Other(t) => t,
        }
    }

    /// Replaces the known permission list wholesale (a permissions event);
    /// non-clients ignore it.
    pub fn set_permissions(&mut self, list: Vec<Permissions>)
        ensures
            *old(self) matches ObjectData::Client {
                permissions: _,
                user_permissions,
                user_properties,
            } ==> *final(self) == (ObjectData::Client {
                permissions: Some(list),
                user_permissions,
                user_properties,
            }),
            *old(self) matches ObjectData::Other(_) ==> *final(self) == *old(self),
    {
        match self {
            ObjectData::Client { permissions, .. } => {
                *permissions = Some(list);
            },
            ObjectData::Other(_) => {},
        }
    }
}

/// The request that asks for a client's full permission list.
pub fn get_permissions_request(id: u32) -> (r: Request)
    ensures
        r == Request::CallObjectMethod(
            id,
            ObjectMethod::ClientGetPermissions { index: 0, num: u32::MAX },
        ),
{
    Request::CallObjectMethod(id, ObjectMethod::ClientGetPermissions { index: 0, num: 0xffff_ffff })
}

/// Which way a port faces, read from its `port.direction` property.
#[derive(Clone, Copy, PartialEq, Eq, Structural, Debug)]
pub enum PortDirection {
    Output,
    Input,
    Unknown,
}

/// The direction the properties declare: `"out"`, `"in"`, or anything
/// else (including no entry at all).
pub open spec fn spec_port_direction(m: Map<Seq<char>, String>) -> PortDirection {
    if m.contains_key("port.direction"@) {
        if m["port.direction"@]@ == "out"@ {
            PortDirection::Output
        } else if m["port.direction"@]@ == "in"@ {
            PortDirection::Input
        } else {
            PortDirection::Unknown
        }
    } else {
        PortDirection::Unknown
    }
}

/// One mirrored remote object.
pub struct Global {
    id: u32,
    name: Option<String>,
    parent: Option<u32>,
    subobjects: Vec<u32>,
    info: Option<Vec<(String, String)>>,
    props: StrMap<String>,
    object_data: ObjectData,
}

impl Global {
    /// The daemon-assigned id.
    pub closed spec fn id_spec(self) -> u32 {
        self.id
    }

    /// The derived display name.
    pub closed spec fn name_spec(self) -> Option<String> {
        self.name
    }

    /// The derived parent id.
    pub closed spec fn parent_spec(self) -> Option<u32> {
        self.parent
    }

    /// The non-owning child references, as ids.
    pub closed spec fn subobjects_spec(self) -> Seq<u32> {
        self.subobjects@
    }

    /// The decoded info list, if an info event arrived.
    pub closed spec fn info_spec(self) -> Option<Vec<(String, String)>> {
        self.info
    }

    /// The current properties.
    pub closed spec fn props_spec(self) -> StrMap<String> {
        self.props
    }

    /// The type-specific extension state.
    pub closed spec fn data_spec(self) -> ObjectData {
        self.object_data
    }

    /// The object's type.
    pub open spec fn spec_object_type(self) -> ObjectType {
        self.data_spec().spec_type()
    }

    /// Name and parent agree with what the current properties derive.
    pub open spec fn derivation_ok(self) -> bool {
        &&& opt_view(self.name_spec()) == derived_name(
            self.spec_object_type(),
            self.props_spec()@,
            self.props_spec().key_seq(),
        )
        &&& self.parent_spec() == derived_parent(self.spec_object_type(), self.props_spec()@)
    }

    /// The properties are sorted and the derived fields are current.
    pub open spec fn wf(self) -> bool {
        &&& self.props_spec().wf()
        &&& self.derivation_ok()
    }

    /// A freshly sighted object, with its initial properties if the
    /// daemon supplied any; name and parent are derived at once.
    pub fn new(id: u32, object_type: ObjectType, props: Option<StrMap<String>>) -> (g: Global)
        requires
            props matches Some(p) ==> p.wf(),
        ensures
            g.wf(),
            g.id_spec() == id,
            g.spec_object_type() == object_type,
            g.props_spec()@ == match props {
                Some(p) => p@,
                None => Map::<Seq<char>, String>::empty(),
            },
            g.subobjects_spec().len() == 0,
            g.info_spec() is None,
            object_type == ObjectType::Client ==> (g.data_spec() matches ObjectData::Client {
                permissions,
                user_permissions,
                user_properties,
            } && permissions is None && user_permissions@.len() == 0
                && user_properties.list_spec().len() == 0),
    {
        let props = match props {
            Some(p) => p,
            None => StrMap::new(),
        };
        let mut g = Global {
            id,
            name: None,
            parent: None,
            subobjects: Vec::new(),
            info: None,
            props,
            object_data: ObjectData::new(object_type),
        };
        g.update();
        g
    }

    /// Recomputes the derived name and parent from the current properties.
    fn update(&mut self)
        requires
            old(self).props.wf(),
        ensures
            final(self).id == old(self).id,
            final(self).subobjects == old(self).subobjects,
            final(self).info == old(self).info,
            final(self).props == old(self).props,
            final(self).object_data == old(self).object_data,
            final(self).wf(),
    {
        let t = *self.object_data.pipewire_type();
        let parent_text: Option<&String> = match t {
            ObjectType::Node => match self.props.get("device.id") {
                Some(v) => Some(v),
                None => self.props.get("client.id"),
            },
            ObjectType::Port => self.props.get("node.id"),
            _ => None,
        };
        self.parent = match parent_text {
            Some(v) => parse_u32(v.as_str()),
            None => None,
        };
        let priority: Option<&String> = match t {
            ObjectType::Device => match self.props.get("device.nick") {
                Some(v) => Some(v),
                None => match self.props.get("device.description") {
                    Some(v) => Some(v),
                    None => self.props.get("device.name"),
                },
            },
            ObjectType::Node => match self.props.get("node.nick") {
                Some(v) => Some(v),
                None => match self.props.get("node.description") {
                    Some(v) => Some(v),
                    None => self.props.get("node.name"),
                },
            },
            ObjectType::Port => self.props.get("port.name"),
            ObjectType::Core => self.props.get("core.name"),
            _ => None,
        };
        match priority {
            Some(v) => {
                self.name = Some(v.clone());
            },
            None => {
                self.name = self.fallback_name(t);
            },
        }
    }

    /// Scans the properties in key order for the first acceptable `.name`
    /// key and returns a copy of its value.
    fn fallback_name(&self, t: ObjectType) -> (r: Option<String>)
        requires
            self.props.wf(),
        ensures
            opt_view(r) == match first_fallback(t, self.props.key_seq()) {
                Some(k) => Some(self.props@[k]@),
                None => None,
            },
    {
        let suffix = chars_vec(".name");
        let library_name = chars_vec("library.name");
        let factory_name = chars_vec("factory.name");
        let ghost keys = self.props.key_seq();
        let n = self.props.len();
        let mut i: usize = 0;
        while i < n
            invariant
                self.props.wf(),
                n == self.props.entry_seq().len(),
                keys == self.props.key_seq(),
                suffix@ == ".name"@,
                library_name@ == "library.name"@,
                factory_name@ == "factory.name"@,
                i <= n,
                keys.len() == n,
                forall|j: int| 0 <= j < i ==> !name_key_acceptable(t, #[trigger] keys[j]),
            decreases n - i,
        {
            let (k, v) = self.props.entry_at(i);
            let kc = chars_vec(k.as_str());
            let acceptable = chars_have_suffix(&kc, &suffix) && !matches!(
                cmp_chars(&kc, &library_name),
                CharsOrder::Equal,
            ) && (t == ObjectType::Factory || !matches!(
                cmp_chars(&kc, &factory_name),
                CharsOrder::Equal,
            ));
            if acceptable {
                proof {
                    lemma_fallback_skip(t, keys, i as int);
                    assert(keys.skip(i as int)[0] == keys[i as int]);
                    assert(first_fallback(t, keys.skip(i as int)) == Some(keys[i as int]));
                }
                return Some(v.clone());
            }
            i = i + 1;
        }
        proof {
            lemma_fallback_skip(t, keys, n as int);
            assert(keys.skip(n as int).len() == 0);
        }
        None
    }

    /// The derived display name, if any.
    pub fn name(&self) -> (r: Option<&String>)
        ensures
            match r {
                Some(s) => self.name_spec() == Some(*s),
                None => self.name_spec() is None,
            },
    {
        self.name.as_ref()
    }

    /// The object's type.
    pub fn object_type(&self) -> (t: &ObjectType)
        ensures
            *t == self.spec_object_type(),
    {
        self.object_data.pipewire_type()
    }

    /// Records a child's id as a non-owning back-reference.
    pub fn add_subobject(&mut self, subobject: u32)
        ensures
            final(self).subobjects_spec() == old(self).subobjects_spec().push(subobject),
            final(self).id_spec() == old(self).id_spec(),
            final(self).name_spec() == old(self).name_spec(),
            final(self).parent_spec() == old(self).parent_spec(),
            final(self).info_spec() == old(self).info_spec(),
            final(self).props_spec() == old(self).props_spec(),
            final(self).data_spec() == old(self).data_spec(),
    {
        self.subobjects.push(subobject);
    }

    /// Replaces the child references wholesale (used when stale entries
    /// are pruned).
    pub fn set_subobjects(&mut self, subobjects: Vec<u32>)
        ensures
            final(self).subobjects_spec() == subobjects@,
            final(self).id_spec() == old(self).id_spec(),
            final(self).name_spec() == old(self).name_spec(),
            final(self).parent_spec() == old(self).parent_spec(),
            final(self).info_spec() == old(self).info_spec(),
            final(self).props_spec() == old(self).props_spec(),
            final(self).data_spec() == old(self).data_spec(),
    {
        self.subobjects = subobjects;
    }

    /// The recorded child ids (possibly stale until pruned).
    pub fn subobjects(&self) -> (r: &Vec<u32>)
        ensures
            r@ == self.subobjects_spec(),
    {
        &self.subobjects
    }

    /// The current properties.
    pub fn props(&self) -> (r: &StrMap<String>)
        ensures
            *r == self.props_spec(),
    {
        &self.props
    }

    /// Replaces the properties wholesale and rederives name and parent.
    pub fn set_props(&mut self, props: StrMap<String>)
        requires
            props.wf(),
        ensures
            final(self).wf(),
            final(self).props_spec() == props,
            final(self).id_spec() == old(self).id_spec(),
            final(self).subobjects_spec() == old(self).subobjects_spec(),
            final(self).info_spec() == old(self).info_spec(),
            final(self).data_spec() == old(self).data_spec(),
            final(self).spec_object_type() == old(self).spec_object_type(),
    {
        self.props = props;
        self.update();
    }

    /// The decoded info list, if one arrived.
    pub fn info(&self) -> (r: &Option<Vec<(String, String)>>)
        ensures
            *r == self.info_spec(),
    {
        &self.info
    }

    /// Replaces the info list wholesale.
    pub fn set_info(&mut self, info: Option<Vec<(String, String)>>)
        ensures
            final(self).info_spec() == info,
            final(self).id_spec() == old(self).id_spec(),
            final(self).name_spec() == old(self).name_spec(),
            final(self).parent_spec() == old(self).parent_spec(),
            final(self).subobjects_spec() == old(self).subobjects_spec(),
            final(self).props_spec() == old(self).props_spec(),
            final(self).data_spec() == old(self).data_spec(),
    {
        self.info = info;
    }

    /// Mutable access to the type-specific extension state.
    pub fn object_data_mut(&mut self) -> (r: &mut ObjectData)
        ensures
            *r == old(self).data_spec(),
            final(self).data_spec() == *final(r),
            final(self).id_spec() == old(self).id_spec(),
            final(self).name_spec() == old(self).name_spec(),
            final(self).parent_spec() == old(self).parent_spec(),
            final(self).subobjects_spec() == old(self).subobjects_spec(),
            final(self).info_spec() == old(self).info_spec(),
            final(self).props_spec() == old(self).props_spec(),
    {
        &mut self.object_data
    }

    /// Read access to the type-specific extension state.
    pub fn object_data(&self) -> (r: &ObjectData)
        ensures
            *r == self.data_spec(),
    {
        &self.object_data
    }

    /// The derived parent id, if any.
    pub fn parent_id(&self) -> (r: Option<u32>)
        ensures
            r == self.parent_spec(),
    {
        self.parent
    }

    /// The request that destroys this object on the daemon.
    pub fn destroy_request(&self) -> (r: Request)
        ensures
            r == Request::DestroyObject(self.id_spec()),
    {
        Request::DestroyObject(self.id)
    }

    /// Which way this port faces, from its `port.direction` property.
    pub fn port_direction(&self) -> (d: PortDirection)
        requires
            self.wf(),
        ensures
            d == spec_port_direction(self.props_spec()@),
    {
        match self.props.get("port.direction") {
            Some(v) => {
                if crate::text::str_eq(v.as_str(), "out") {
                    PortDirection::Output
                } else if crate::text::str_eq(v.as_str(), "in") {
                    PortDirection::Input
                } else {
                    PortDirection::Unknown
                }
            },
            None => PortDirection::Unknown,
        }
    }

    /// For a client: merges the known and staged permission lists —
    /// known first, staged after, no de-duplication — drains the staged
    /// list, and returns the update request followed by the optimistic
    /// re-read request. For anything else (or a client whose permissions
    /// were never listed): nothing.
    pub fn take_permission_update(&mut self) -> (r: Option<Vec<Request>>)
        ensures
            final(self).id_spec() == old(self).id_spec(),
            final(self).name_spec() == old(self).name_spec(),
            final(self).parent_spec() == old(self).parent_spec(),
            final(self).subobjects_spec() == old(self).subobjects_spec(),
            final(self).info_spec() == old(self).info_spec(),
            final(self).props_spec() == old(self).props_spec(),
            old(self).data_spec() matches ObjectData::Client {
                permissions: Some(known),
                user_permissions: staged,
                user_properties,
            } ==> {
                &&& final(self).data_spec() matches ObjectData::Client {
                    permissions: p2,
                    user_permissions: u2,
                    user_properties: s2,
                } && p2 == Some(known) && u2@.len() == 0 && s2 == user_properties
                &&& r matches Some(reqs)
                &&& reqs@.len() == 2
                &&& reqs@[0] matches Request::CallObjectMethod(i0, m0) && i0 == old(
                    self,
                ).id_spec() && (m0 matches ObjectMethod::ClientUpdatePermissions(all) && all@
                    == known@ + staged@)
                &&& reqs@[1] == Request::CallObjectMethod(
                    old(self).id_spec(),
                    ObjectMethod::ClientGetPermissions { index: 0, num: u32::MAX },
                )
            },
            !(old(self).data_spec() matches ObjectData::Client { permissions: Some(_), .. })
                ==> r is None && final(self).data_spec() == old(self).data_spec(),
    {
        let id = self.id;
        match &mut self.object_data {
            ObjectData::Client { permissions: Some(known), user_permissions, .. } => {
                let mut all: Vec<Permissions> = Vec::new();
                let mut i: usize = 0;
                let ghost known0 = known@;
                while i < known.len()
                    invariant
                        i <= known@.len(),
                        known@ == known0,
                        all@ =~= known0.take(i as int),
                    decreases known@.len() - i,
                {
                    all.push(known[i]);
                    i = i + 1;
                }
                let mut staged: Vec<Permissions> = Vec::new();
                core::mem::swap(&mut staged, user_permissions);
                let mut j: usize = 0;
                while j < staged.len()
                    invariant
                        j <= staged@.len(),
                        all@ =~= known0 + staged@.take(j as int),
                    decreases staged@.len() - j,
                {
                    all.push(staged[j]);
                    j = j + 1;
                }
                proof {
                    assert(known0.take(known0.len() as int) =~= known0);
                    assert(all@ =~= known0 + staged@);
                }
                let mut reqs: Vec<Request> = Vec::new();
                reqs.push(
                    Request::CallObjectMethod(id, ObjectMethod::ClientUpdatePermissions(all)),
                );
                reqs.push(get_permissions_request(id));
                Some(reqs)
            },
            _ => None,
        }
    }

    /// For a client: commits the staged property entries into the
    /// properties (in order, later entries overriding), rederives name and
    /// parent, and returns the request that pushes the whole updated map
    /// to the daemon. For anything else: nothing.
    pub fn take_property_update(&mut self) -> (r: Option<Request>)
        requires
            old(self).wf(),
        ensures
            final(self).wf(),
            final(self).id_spec() == old(self).id_spec(),
            final(self).subobjects_spec() == old(self).subobjects_spec(),
            final(self).info_spec() == old(self).info_spec(),
            final(self).spec_object_type() == old(self).spec_object_type(),
            old(self).data_spec() matches ObjectData::Client {
                permissions,
                user_permissions,
                user_properties: staged,
            } ==> {
                &&& final(self).props_spec()@ == insert_all(
                    old(self).props_spec()@,
                    staged.list_spec(),
                )
                &&& final(self).data_spec() matches ObjectData::Client {
                    permissions: p2,
                    user_permissions: u2,
                    user_properties: s2,
                } && p2 == permissions && u2 == user_permissions && s2.list_spec().len() == 0
                &&& (r matches Some(req) && req matches Request::CallObjectMethod(i, m) && i
                    == old(self).id_spec() && (m matches ObjectMethod::ClientUpdateProperties(p)
                    && p@ == final(self).props_spec()@ && p.wf()))
            },
            old(self).data_spec() matches ObjectData::Other(_) ==> r is None && *final(self)
                == *old(self),
    {
        let id = self.id;
        let adds: Vec<(String, String)>;
        match &mut self.object_data {
            ObjectData::Client { user_properties, .. } => {
                adds = user_properties.take();
            },
            ObjectData::Other(_) => {
                return None;
            },
        }
        let mut i: usize = 0;
        while i < adds.len()
            invariant
                self.props.wf(),
                i <= adds@.len(),
                self.props@ == insert_all(old(self).props_spec()@, adds@.take(i as int)),
                self.id == old(self).id_spec(),
                self.subobjects@ == old(self).subobjects_spec(),
                self.info == old(self).info_spec(),
                old(self).data_spec() matches ObjectData::Client {
                    permissions,
                    user_permissions,
                    user_properties,
                } ==> (self.object_data matches ObjectData::Client {
                    permissions: p2,
                    user_permissions: u2,
                    user_properties: s2,
                } && p2 == permissions && u2 == user_permissions && s2.list_spec().len() == 0
                    && adds@ == user_properties.list_spec()),
                old(self).data_spec() matches ObjectData::Client { .. },
            decreases adds@.len() - i,
        {
            let k = adds[i].0.clone();
            let v = adds[i].1.clone();
            self.props.insert(k, v);
            proof {
                assert(adds@.take(i + 1).drop_last() =~= adds@.take(i as int));
                assert(adds@.take(i + 1).last() == adds@[i as int]);
            }
            i = i + 1;
        }
        proof {
            assert(adds@.take(adds@.len() as int) =~= adds@);
        }
        self.update();
        let payload = self.props.duplicate();
        Some(Request::CallObjectMethod(id, ObjectMethod::ClientUpdateProperties(payload)))
    }
}

} // verus!
