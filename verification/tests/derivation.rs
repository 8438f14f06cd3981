use pwmirror::global::Global;
use pwmirror::protocol::ObjectType;
use pwmirror::strmap::StrMap;

fn props_of(pairs: &[(&str, &str)]) -> StrMap<String> {
    let mut m = StrMap::new();
    for (k, v) in pairs {
        m.insert((*k).to_owned(), (*v).to_owned());
    }
    m
}

#[test]
fn node_name_key_names_node() {
    let g = Global::new(1, ObjectType::Node, Some(props_of(&[("node.name", "foo")])));
    assert_eq!(g.name().map(String::as_str), Some("foo"));
}

#[test]
fn nick_beats_name() {
    let g = Global::new(
        1,
        ObjectType::Node,
        Some(props_of(&[("node.nick", "a"), ("node.name", "b")])),
    );
    assert_eq!(g.name().map(String::as_str), Some("a"));
}

#[test]
fn description_beats_name_but_not_nick() {
    let g = Global::new(
        1,
        ObjectType::Device,
        Some(props_of(&[("device.description", "d"), ("device.name", "n")])),
    );
    assert_eq!(g.name().map(String::as_str), Some("d"));
    let g2 = Global::new(
        2,
        ObjectType::Device,
        Some(props_of(&[
            ("device.description", "d"),
            ("device.name", "n"),
            ("device.nick", "k"),
        ])),
    );
    assert_eq!(g2.name().map(String::as_str), Some("k"));
}

#[test]
fn port_and_core_have_single_name_keys() {
    let p = Global::new(1, ObjectType::Port, Some(props_of(&[("port.name", "out_0")])));
    assert_eq!(p.name().map(String::as_str), Some("out_0"));
    let c = Global::new(2, ObjectType::Core, Some(props_of(&[("core.name", "core-0")])));
    assert_eq!(c.name().map(String::as_str), Some("core-0"));
}

#[test]
fn fallback_takes_first_dot_name_key_in_key_order() {
    let g = Global::new(
        1,
        ObjectType::Other,
        Some(props_of(&[("b.name", "second"), ("a.name", "first")])),
    );
    assert_eq!(g.name().map(String::as_str), Some("first"));
}

#[test]
fn fallback_skips_library_name() {
    let g = Global::new(1, ObjectType::Module, Some(props_of(&[("library.name", "lib")])));
    assert_eq!(g.name(), None);
}

#[test]
fn factory_name_counts_only_for_factories() {
    let m = Global::new(1, ObjectType::Module, Some(props_of(&[("factory.name", "f")])));
    assert_eq!(m.name(), None);
    let f = Global::new(2, ObjectType::Factory, Some(props_of(&[("factory.name", "f")])));
    assert_eq!(f.name().map(String::as_str), Some("f"));
}

#[test]
fn no_name_without_candidates() {
    let g = Global::new(1, ObjectType::Link, Some(props_of(&[("some.key", "v")])));
    assert_eq!(g.name(), None);
    let bare = Global::new(2, ObjectType::Node, None);
    assert_eq!(bare.name(), None);
}

#[test]
fn port_parent_from_node_id() {
    let g = Global::new(1, ObjectType::Port, Some(props_of(&[("node.id", "5")])));
    assert_eq!(g.parent_id(), Some(5));
}

#[test]
fn non_numeric_parent_is_unset() {
    let g = Global::new(1, ObjectType::Port, Some(props_of(&[("node.id", "x")])));
    assert_eq!(g.parent_id(), None);
}

#[test]
fn node_parent_prefers_device_over_client() {
    let g = Global::new(
        1,
        ObjectType::Node,
        Some(props_of(&[("device.id", "7"), ("client.id", "9")])),
    );
    assert_eq!(g.parent_id(), Some(7));
    let g2 = Global::new(2, ObjectType::Node, Some(props_of(&[("client.id", "9")])));
    assert_eq!(g2.parent_id(), Some(9));
}

#[test]
fn bad_device_id_does_not_fall_through_to_client_id() {
    let g = Global::new(
        1,
        ObjectType::Node,
        Some(props_of(&[("device.id", "oops"), ("client.id", "9")])),
    );
    assert_eq!(g.parent_id(), None);
}

#[test]
fn only_nodes_and_ports_have_parents() {
    let g = Global::new(1, ObjectType::Client, Some(props_of(&[("node.id", "5")])));
    assert_eq!(g.parent_id(), None);
}

#[test]
fn set_props_rederives_name_and_parent() {
    let mut g = Global::new(1, ObjectType::Port, Some(props_of(&[("node.id", "5")])));
    assert_eq!(g.parent_id(), Some(5));
    g.set_props(props_of(&[("node.id", "6"), ("port.name", "p0")]));
    assert_eq!(g.parent_id(), Some(6));
    assert_eq!(g.name().map(String::as_str), Some("p0"));
}
