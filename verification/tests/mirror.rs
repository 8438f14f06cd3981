use pwmirror::global::ObjectData;
use pwmirror::global::PortDirection;
use pwmirror::protocol::Event;
use pwmirror::protocol::ObjectMethod;
use pwmirror::protocol::ObjectType;
use pwmirror::protocol::Permissions;
use pwmirror::protocol::Request;
use pwmirror::store::GlobalsStore;
use pwmirror::strmap::StrMap;

fn props_of(pairs: &[(&str, &str)]) -> StrMap<String> {
    let mut m = StrMap::new();
    for (k, v) in pairs {
        m.insert((*k).to_owned(), (*v).to_owned());
    }
    m
}

#[test]
fn events_are_applied_in_receive_order() {
    let mut s = GlobalsStore::new();
    let events = vec![
        Event::GlobalAdded(1, ObjectType::Device, None),
        Event::GlobalAdded(2, ObjectType::Node, Some(props_of(&[("device.id", "1")]))),
        Event::GlobalProperties(2, props_of(&[("device.id", "1"), ("node.name", "n")])),
        Event::GlobalInfo(1, vec![("n-params".to_owned(), "2".to_owned())]),
        Event::GlobalRemoved(2),
    ];
    for e in events {
        s.apply_event(e);
    }
    assert!(s.contains(1));
    assert!(!s.contains(2));
    assert!(s.get_global(1).unwrap().info().is_some());
    assert_eq!(s.live_children(1), Vec::<u32>::new());
}

#[test]
fn added_then_removed_leaves_no_entry() {
    let mut s = GlobalsStore::new();
    s.add_global(4, ObjectType::Node, None);
    assert!(s.contains(4));
    s.remove_global(4);
    assert!(!s.contains(4));
    assert!(s.get_global(4).is_none());
}

#[test]
fn removed_child_unreachable_after_one_traversal() {
    let mut s = GlobalsStore::new();
    s.add_global(1, ObjectType::Device, None);
    s.add_global(2, ObjectType::Node, Some(props_of(&[("device.id", "1")])));
    assert_eq!(s.live_children(1), vec![2]);
    s.remove_global(2);
    assert_eq!(s.live_children(1), Vec::<u32>::new());
    s.prune_subobjects(1);
    assert!(s.get_global(1).unwrap().subobjects().is_empty());
}

#[test]
fn child_arriving_before_parent_is_linked_on_lookup_only() {
    let mut s = GlobalsStore::new();
    s.add_global(2, ObjectType::Node, Some(props_of(&[("device.id", "1")])));
    s.add_global(1, ObjectType::Device, None);
    // The parent arrived second, so no back-reference was recorded; the
    // child still knows its parent id.
    assert_eq!(s.get_global(2).unwrap().parent_id(), Some(1));
    assert_eq!(s.live_children(1), Vec::<u32>::new());
}

#[test]
fn property_update_moves_child_between_parents() {
    let mut s = GlobalsStore::new();
    s.add_global(1, ObjectType::Device, None);
    s.add_global(3, ObjectType::Device, None);
    s.add_global(2, ObjectType::Node, Some(props_of(&[("device.id", "1")])));
    assert_eq!(s.live_children(1), vec![2]);
    s.set_global_props(2, props_of(&[("device.id", "3")]));
    assert_eq!(s.live_children(1), Vec::<u32>::new());
    assert_eq!(s.live_children(3), vec![2]);
}

#[test]
fn info_is_replaced_wholesale() {
    let mut s = GlobalsStore::new();
    s.add_global(1, ObjectType::Client, None);
    assert!(s.get_global(1).unwrap().info().is_none());
    s.set_global_info(1, vec![("state".to_owned(), "running".to_owned())]);
    let info = s.get_global(1).unwrap().info().as_ref().unwrap().clone();
    assert_eq!(info.len(), 1);
    assert_eq!(info[0].0, "state");
    assert_eq!(info[0].1, "running");
}

#[test]
fn client_permissions_replace_known_list() {
    let mut s = GlobalsStore::new();
    s.add_global(1, ObjectType::Client, None);
    s.set_client_permissions(1, vec![Permissions { id: 0, permissions: 7 }]);
    match s.get_global(1).unwrap().object_data() {
        ObjectData::Client { permissions: Some(p), .. } => {
            assert_eq!(p.len(), 1);
            assert_eq!(p[0].permissions, 7);
        },
        _ => panic!("expected a client with a known permission list"),
    }
    s.set_client_permissions(1, vec![]);
    match s.get_global(1).unwrap().object_data() {
        ObjectData::Client { permissions: Some(p), .. } => assert!(p.is_empty()),
        _ => panic!("expected a client with a known permission list"),
    }
}

#[test]
fn permission_update_concatenates_without_dedup() {
    let mut g = pwmirror::global::Global::new(9, ObjectType::Client, None);
    match g.object_data_mut() {
        ObjectData::Client { permissions, user_permissions, .. } => {
            *permissions = Some(vec![
                Permissions { id: 10, permissions: 1 },
                Permissions { id: 11, permissions: 2 },
            ]);
            user_permissions.push(Permissions { id: 10, permissions: 4 });
        },
        _ => panic!("expected client data"),
    }
    let reqs = g.take_permission_update().expect("a client with known permissions updates");
    assert_eq!(reqs.len(), 2);
    match &reqs[0] {
        Request::CallObjectMethod(9, ObjectMethod::ClientUpdatePermissions(all)) => {
            assert_eq!(all.len(), 3);
            assert_eq!(all[0], Permissions { id: 10, permissions: 1 });
            assert_eq!(all[1], Permissions { id: 11, permissions: 2 });
            assert_eq!(all[2], Permissions { id: 10, permissions: 4 });
        },
        _ => panic!("expected a permission update request"),
    }
    match &reqs[1] {
        Request::CallObjectMethod(9, ObjectMethod::ClientGetPermissions { index: 0, num }) => {
            assert_eq!(*num, u32::MAX);
        },
        _ => panic!("expected the optimistic re-read request"),
    }
    // The staged list was drained; the known list stays until the daemon
    // answers the re-read.
    match g.object_data() {
        ObjectData::Client { permissions: Some(p), user_permissions, .. } => {
            assert_eq!(p.len(), 2);
            assert!(user_permissions.is_empty());
        },
        _ => panic!("expected client data"),
    }
}

#[test]
fn permission_update_needs_a_known_list() {
    let mut g = pwmirror::global::Global::new(9, ObjectType::Client, None);
    assert!(g.take_permission_update().is_none());
    let mut other = pwmirror::global::Global::new(3, ObjectType::Link, None);
    assert!(other.take_permission_update().is_none());
}

#[test]
fn property_update_merges_staged_entries_and_rederives() {
    let mut g = pwmirror::global::Global::new(
        5,
        ObjectType::Client,
        Some(props_of(&[("application.name", "old")])),
    );
    match g.object_data_mut() {
        ObjectData::Client { user_properties, .. } => {
            user_properties.push("application.name".to_owned(), "new".to_owned());
            user_properties.push("extra".to_owned(), "1".to_owned());
        },
        _ => panic!("expected client data"),
    }
    let req = g.take_property_update().expect("clients can push properties");
    match req {
        Request::CallObjectMethod(5, ObjectMethod::ClientUpdateProperties(p)) => {
            assert_eq!(p.get("application.name").map(String::as_str), Some("new"));
            assert_eq!(p.get("extra").map(String::as_str), Some("1"));
        },
        _ => panic!("expected a property update request"),
    }
    assert_eq!(g.name().map(String::as_str), Some("new"));
}

#[test]
fn port_directions_follow_the_property() {
    let out = pwmirror::global::Global::new(
        1,
        ObjectType::Port,
        Some(props_of(&[("port.direction", "out")])),
    );
    let inp = pwmirror::global::Global::new(
        2,
        ObjectType::Port,
        Some(props_of(&[("port.direction", "in")])),
    );
    let odd = pwmirror::global::Global::new(
        3,
        ObjectType::Port,
        Some(props_of(&[("port.direction", "sideways")])),
    );
    let none = pwmirror::global::Global::new(4, ObjectType::Port, None);
    assert_eq!(out.port_direction(), PortDirection::Output);
    assert_eq!(inp.port_direction(), PortDirection::Input);
    assert_eq!(odd.port_direction(), PortDirection::Unknown);
    assert_eq!(none.port_direction(), PortDirection::Unknown);
}

#[test]
fn ports_are_grouped_by_direction() {
    let mut s = GlobalsStore::new();
    s.add_global(1, ObjectType::Node, None);
    s.add_global(
        10,
        ObjectType::Port,
        Some(props_of(&[("node.id", "1"), ("port.direction", "out")])),
    );
    s.add_global(
        11,
        ObjectType::Port,
        Some(props_of(&[("node.id", "1"), ("port.direction", "in")])),
    );
    s.add_global(12, ObjectType::Port, Some(props_of(&[("node.id", "1")])));
    s.add_global(
        13,
        ObjectType::Port,
        Some(props_of(&[("node.id", "1"), ("port.direction", "out")])),
    );
    let (outs, ins, unks) = s.ports_by_direction(1);
    assert_eq!(outs, vec![10, 13]);
    assert_eq!(ins, vec![11]);
    assert_eq!(unks, vec![12]);
    let empty = s.ports_by_direction(99);
    assert!(empty.0.is_empty() && empty.1.is_empty() && empty.2.is_empty());
}

#[test]
fn destroy_request_names_the_object() {
    let g = pwmirror::global::Global::new(41, ObjectType::Node, None);
    assert!(matches!(g.destroy_request(), Request::DestroyObject(41)));
}
