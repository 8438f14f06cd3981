//! The vocabulary the UI thread and the session-bridge thread exchange.
//!
//! Requests travel from the UI to the bridge, which turns each into one
//! daemon call; events travel back, in exactly the order the daemon's
//! callbacks produced them. Both vocabularies are closed: pure data, no
//! behavior.

use vstd::prelude::*;
use crate::strmap::StrMap;

verus! {

/// The fixed set of remote object kinds the mirror distinguishes.
#[derive(Clone, Copy, PartialEq, Eq, Structural, Debug, Hash)]
pub enum ObjectType {
    Client,
    Device,
    Node,
    Port,
    Link,
    Factory,
    Module,
    Metadata,
    Core,
    Profiler,
    Other,
}

/// The display label of an object type.
pub open spec fn type_label(t: ObjectType) -> Seq<char> {
    match t {
        ObjectType::Client => "Client"@,
        ObjectType::Device => "Device"@,
        ObjectType::Node => "Node"@,
        ObjectType::Port => "Port"@,
        ObjectType::Link => "Link"@,
        ObjectType::Factory => "Factory"@,
        ObjectType::Module => "Module"@,
        ObjectType::Metadata => "Metadata"@,
        ObjectType::Core => "Core"@,
        ObjectType::Profiler => "Profiler"@,
        ObjectType::Other => "Other"@,
    }
}

impl ObjectType {
    /// The display label of this object type.
    pub fn to_str(&self) -> (s: &'static str)
        ensures
            s@ == type_label(*self),
    {
        match self {
            ObjectType::Client => "Client",
            ObjectType::Device => "Device",
            ObjectType::Node => "Node",
            ObjectType::Port => "Port",
            ObjectType::Link => "Link",
            ObjectType::Factory => "Factory",
            ObjectType::Module => "Module",
            ObjectType::Metadata => "Metadata",
            ObjectType::Core => "Core",
            ObjectType::Profiler => "Profiler",
            ObjectType::Other => "Other",
        }
    }
}

/// One permission bit a client may hold on an object.
#[derive(Clone, Copy, PartialEq, Eq, Structural, Debug)]
pub enum PermissionFlag {
    Read,
    Write,
    Execute,
    Metadata,
    Link,
}

/// The bit each permission flag occupies in a permission mask.
pub open spec fn spec_flag_mask(f: PermissionFlag) -> u32 {
    match f {
        PermissionFlag::Read => 1u32,
        PermissionFlag::Write => 2u32,
        PermissionFlag::Execute => 4u32,
        PermissionFlag::Metadata => 8u32,
        PermissionFlag::Link => 16u32,
    }
}

/// See `spec_flag_mask`.
pub fn flag_mask(f: PermissionFlag) -> (m: u32)
    ensures
        m == spec_flag_mask(f),
{
    match f {
        PermissionFlag::Read => 1,
        PermissionFlag::Write => 2,
        PermissionFlag::Execute => 4,
        PermissionFlag::Metadata => 8,
        PermissionFlag::Link => 16,
    }
}

/// The permission mask a client holds (or will hold) on one object id.
#[derive(Clone, Copy, PartialEq, Eq, Structural, Debug)]
pub struct Permissions {
    pub id: u32,
    pub permissions: u32,
}

impl Permissions {
    /// A permission entry with no bits set.
    pub fn empty(id: u32) -> (p: Self)
        ensures
            p.id == id,
            p.permissions == 0,
    {
        Permissions { id, permissions: 0 }
    }

    /// Whether the flag's bit is set.
    pub open spec fn spec_contains(self, f: PermissionFlag) -> bool {
        self.permissions & spec_flag_mask(f) != 0
    }

    /// See `spec_contains`.
    pub fn contains(&self, f: PermissionFlag) -> (r: bool)
        ensures
            r == self.spec_contains(f),
    {
        self.permissions & flag_mask(f) != 0
    }

    /// Flips the flag's bit.
    pub fn toggle(&mut self, f: PermissionFlag)
        ensures
            final(self).id == old(self).id,
            final(self).permissions == old(self).permissions ^ spec_flag_mask(f),
    {
        self.permissions = self.permissions ^ flag_mask(f);
    }
}

/// One decoded profiler sample, carried through for display; the mirror
/// does not interpret its fields.
#[derive(Clone, Debug)]
pub struct ProfilerSample {
    pub fields: Vec<(String, String)>,
}

/// A method call on one bound object, the payload of
/// `Request::CallObjectMethod`.
pub enum ObjectMethod {
    ClientGetPermissions { index: u32, num: u32 },
    ClientUpdatePermissions(Vec<Permissions>),
    ClientUpdateProperties(StrMap<String>),
    MetadataSetProperty {
        subject: u32,
        key: String,
        type_: Option<String>,
        value: Option<String>,
    },
    MetadataClear,
}

/// What the UI asks of the session bridge. Requests are fire-and-forget:
/// none carries a correlation id, and no reply is matched to the call that
/// caused it.
pub enum Request {
    Stop,
    CreateObject(ObjectType, String, Vec<(String, String)>),
    DestroyObject(u32),
    LoadModule {
        module_dir: Option<String>,
        name: String,
        args: Option<String>,
        props: Option<Vec<(String, String)>>,
    },
    GetContextProperties,
    UpdateContextProperties(StrMap<String>),
    CallObjectMethod(u32, ObjectMethod),
}

/// What the bridge reports back, in daemon callback order.
pub enum Event {
    GlobalAdded(u32, ObjectType, Option<StrMap<String>>),
    GlobalRemoved(u32),
    GlobalInfo(u32, Vec<(String, String)>),
    GlobalProperties(u32, StrMap<String>),
    ClientPermissions(u32, u32, Vec<Permissions>),
    ProfilerProfile(Vec<ProfilerSample>),
    MetadataProperty {
        id: u32,
        subject: u32,
        key: Option<String>,
        type_: Option<String>,
        value: Option<String>,
    },
    ContextProperties(StrMap<String>),
    Stop,
}

/// Which remote endpoint the bridge should connect to. The portal variants
/// carry the negotiated session as plain data; obtaining it is the
/// embedder's concern.
pub enum RemoteInfo {
    /// A named daemon socket.
    Regular(String),
    /// A screen-capture session from the desktop portal; `source_types` is
    /// the bit set of requested source kinds.
    Screencast { source_types: u32, multiple: bool },
    /// A camera session from the desktop portal.
    Camera,
}

impl RemoteInfo {
    /// Two remote choices are the same kind of endpoint (the carried data
    /// is not compared, matching how endpoint selection is displayed).
    pub open spec fn same_kind(self, other: Self) -> bool {
        match (self, other) {
            (RemoteInfo::Regular(_), RemoteInfo::Regular(_)) => true,
            (RemoteInfo::Screencast { .. }, RemoteInfo::Screencast { .. }) => true,
            (RemoteInfo::Camera, RemoteInfo::Camera) => true,
            _ => false,
        }
    }

    /// The endpoint to use given an optional environment override: the
    /// override when present, else the fixed default socket name.
    pub fn from_override(name: Option<String>) -> (r: Self)
        ensures
            match name {
                Some(n) => r == RemoteInfo::Regular(n),
                None => r matches RemoteInfo::Regular(d) && d@ == "pipewire-0"@,
            },
    {
        match name {
            Some(n) => RemoteInfo::Regular(n),
            None => RemoteInfo::Regular("pipewire-0".to_owned()),
        }
    }
}

impl PartialEq for RemoteInfo {
    fn eq(&self, other: &Self) -> (r: bool) {
        match (self, other) {
            (RemoteInfo::Regular(_), RemoteInfo::Regular(_)) => true,
            (RemoteInfo::Screencast { .. }, RemoteInfo::Screencast { .. }) => true,
            (RemoteInfo::Camera, RemoteInfo::Camera) => true,
            _ => false,
        }
    }
}

impl vstd::std_specs::cmp::PartialEqSpecImpl for RemoteInfo {
    open spec fn obeys_eq_spec() -> bool {
        true
    }

    open spec fn eq_spec(&self, other: &Self) -> bool {
        self.same_kind(*other)
    }
}

} // verus!
