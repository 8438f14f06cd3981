//! Connection-scoped session state and teardown.
//!
//! The bridge learns the remote daemon's version once, while the connection
//! is set up; the value is threaded through this state rather than held
//! globally. Teardown is driven by a switch that yields the `Stop` request
//! exactly once, so the owning handle sends exactly one `Stop` however often
//! shutdown is attempted.

use vstd::prelude::*;
use crate::protocol::PermissionFlag;
use crate::protocol::Request;

verus! {

/// Whether a remote of the given version understands the link-permission
/// flag (introduced in version 0.3.77).
pub open spec fn spec_supports_link_permission(v: Option<(u32, u32, u32)>) -> bool {
    match v {
        Some(ver) => ver.0 > 0 || ver.2 >= 77,
        None => false,
    }
}

/// Per-connection facts established at setup time.
pub struct SessionInfo {
    version: Option<(u32, u32, u32)>,
}

impl SessionInfo {
    /// Records the remote version reported during connection setup, if any.
    pub fn new(version: Option<(u32, u32, u32)>) -> (s: Self)
        ensures
            s.remote_version_spec() == version,
    {
        SessionInfo { version }
    }

    /// The remote version this session observed, if it reported one.
    pub closed spec fn remote_version_spec(self) -> Option<(u32, u32, u32)> {
        self.version
    }

    /// See `remote_version_spec`.
    pub fn remote_version(&self) -> (v: Option<(u32, u32, u32)>)
        ensures
            v == self.remote_version_spec(),
    {
        self.version
    }

    /// The permission flags that are meaningful on this remote: read,
    /// write, execute and metadata always, and link when the remote is new
    /// enough to understand it.
    pub fn available_permission_flags(&self) -> (r: Vec<PermissionFlag>)
        ensures
            spec_supports_link_permission(self.remote_version_spec()) ==> r@ == seq![
                PermissionFlag::Read,
                PermissionFlag::Write,
                PermissionFlag::Execute,
                PermissionFlag::Metadata,
                PermissionFlag::Link,
            ],
            !spec_supports_link_permission(self.remote_version_spec()) ==> r@ == seq![
                PermissionFlag::Read,
                PermissionFlag::Write,
                PermissionFlag::Execute,
                PermissionFlag::Metadata,
            ],
    {
        let mut r: Vec<PermissionFlag> = Vec::new();
        r.push(PermissionFlag::Read);
        r.push(PermissionFlag::Write);
        r.push(PermissionFlag::Execute);
        r.push(PermissionFlag::Metadata);
        let link = match self.version {
            Some(ver) => ver.0 > 0 || ver.2 >= 77,
            None => false,
        };
        if link {
            r.push(PermissionFlag::Link);
            proof {
                assert(r@ =~= seq![
                    PermissionFlag::Read,
                    PermissionFlag::Write,
                    PermissionFlag::Execute,
                    PermissionFlag::Metadata,
                    PermissionFlag::Link,
                ]);
            }
        } else {
            proof {
                assert(r@ =~= seq![
                    PermissionFlag::Read,
                    PermissionFlag::Write,
                    PermissionFlag::Execute,
                    PermissionFlag::Metadata,
                ]);
            }
        }
        r
    }
}

/// The owning handle's teardown switch.
pub struct Teardown {
    stopped: bool,
}

impl Teardown {
    /// Whether the stop request has already been yielded.
    pub closed spec fn has_stopped(self) -> bool {
        self.stopped
    }

    /// A fresh switch that has not stopped yet.
    pub fn new() -> (t: Self)
        ensures
            !t.has_stopped(),
    {
        Teardown { stopped: false }
    }

    /// Yields `Request::Stop` on the first call and nothing afterwards, so
    /// that however many times teardown runs, exactly one stop request is
    /// sent to the bridge.
    pub fn stop_request(&mut self) -> (r: Option<Request>)
        ensures
            final(self).has_stopped(),
            !old(self).has_stopped() ==> (r matches Some(q) && q matches Request::Stop),
            old(self).has_stopped() ==> r is None,
    {
        if self.stopped {
            None
        } else {
            self.stopped = true;
            Some(Request::Stop)
        }
    }
}

} // verus!
