use pwmirror::creator::ObjectCreator;
use pwmirror::filter::KvMatcher;
use pwmirror::filter::StringFilter;
use pwmirror::filter::StringMatchMode;
use pwmirror::kvlist::EditableKVList;
use pwmirror::kvlist::MapEditor;
use pwmirror::protocol::ObjectType;
use pwmirror::protocol::PermissionFlag;
use pwmirror::protocol::Permissions;
use pwmirror::protocol::RemoteInfo;
use pwmirror::protocol::Request;
use pwmirror::session::SessionInfo;
use pwmirror::session::Teardown;
use pwmirror::strmap::StrMap;

#[test]
fn creator_builds_the_request_from_the_selection() {
    let mut c = ObjectCreator::new();
    c.add_factory(7, "link-factory", ObjectType::Link, 7);
    c.select_factory(Some(7));
    c.props_mut().push("link.output.node".to_owned(), "1".to_owned());
    c.props_mut().push("link.input.node".to_owned(), "2".to_owned());
    match c.create_request() {
        Some(Request::CreateObject(t, n, p)) => {
            assert_eq!(t, ObjectType::Link);
            assert_eq!(n, "link-factory");
            assert_eq!(p.len(), 2);
            assert_eq!(p[0].0, "link.output.node");
            assert_eq!(p[1].1, "2");
        },
        _ => panic!("expected a creation request"),
    }
}

#[test]
fn selection_resets_when_the_factory_disappears() {
    let mut c = ObjectCreator::new();
    c.add_factory(7, "link-factory", ObjectType::Link, 7);
    c.select_factory(Some(7));
    assert_eq!(c.validate_selection(), Some(7));
    c.remove_factory(7);
    assert_eq!(c.validate_selection(), None);
    assert!(c.create_request().is_none());
}

#[test]
fn creator_clear_resets_selection_and_props() {
    let mut c = ObjectCreator::new();
    c.add_factory(7, "f", ObjectType::Node, 7);
    c.select_factory(Some(7));
    c.props_mut().push("k".to_owned(), "v".to_owned());
    c.clear();
    assert_eq!(c.validate_selection(), None);
    assert!(c.props_mut().list().is_empty());
    assert!(c.factory(7).is_some());
}

#[test]
fn filter_modes_match_as_named() {
    let mk = |mode: StringMatchMode, needle: &str| StringFilter {
        needle: needle.to_owned(),
        match_mode: mode,
    };
    assert!(mk(StringMatchMode::Substring, "dio").test("audio"));
    assert!(!mk(StringMatchMode::Substring, "video").test("audio"));
    assert!(mk(StringMatchMode::StartsWith, "au").test("audio"));
    assert!(!mk(StringMatchMode::StartsWith, "dio").test("audio"));
    assert!(mk(StringMatchMode::EndsWith, "dio").test("audio"));
    assert!(!mk(StringMatchMode::EndsWith, "au").test("audio"));
    assert!(mk(StringMatchMode::Exact, "audio").test("audio"));
    assert!(!mk(StringMatchMode::Exact, "audi").test("audio"));
}

#[test]
fn matcher_requires_every_row_to_find_a_pair() {
    let pairs = vec![
        ("media.class".to_owned(), "Audio/Sink".to_owned()),
        ("node.name".to_owned(), "speakers".to_owned()),
    ];
    let mut m = KvMatcher::new();
    assert!(m.matches(&pairs));
    m.add_filter(
        StringFilter { needle: "class".to_owned(), match_mode: StringMatchMode::Substring },
        StringFilter { needle: "Audio".to_owned(), match_mode: StringMatchMode::StartsWith },
    );
    assert!(m.matches(&pairs));
    m.add_filter(
        StringFilter { needle: "node.name".to_owned(), match_mode: StringMatchMode::Exact },
        StringFilter { needle: "mic".to_owned(), match_mode: StringMatchMode::Substring },
    );
    assert!(!m.matches(&pairs));
}

#[test]
fn matcher_needs_key_and_value_on_the_same_pair() {
    let pairs = vec![
        ("a".to_owned(), "1".to_owned()),
        ("b".to_owned(), "2".to_owned()),
    ];
    let mut m = KvMatcher::new();
    m.add_filter(
        StringFilter { needle: "a".to_owned(), match_mode: StringMatchMode::Exact },
        StringFilter { needle: "2".to_owned(), match_mode: StringMatchMode::Exact },
    );
    assert!(!m.matches(&pairs));
}

#[test]
fn kvlist_take_drains_the_list() {
    let mut l = EditableKVList::new();
    l.push("k".to_owned(), "v".to_owned());
    let taken = l.take();
    assert_eq!(taken, vec![("k".to_owned(), "v".to_owned())]);
    assert!(l.list().is_empty());
}

#[test]
fn map_editor_commits_additions_in_order() {
    let mut base = StrMap::new();
    base.insert("a".to_owned(), "old".to_owned());
    let mut e = MapEditor::new();
    e.set_map(base);
    e.additions_mut().push("a".to_owned(), "mid".to_owned());
    e.additions_mut().push("a".to_owned(), "new".to_owned());
    e.additions_mut().push("b".to_owned(), "2".to_owned());
    let out = e.take();
    assert_eq!(out.get("a").map(String::as_str), Some("new"));
    assert_eq!(out.get("b").map(String::as_str), Some("2"));
}

#[test]
fn link_permission_needs_a_new_enough_remote() {
    let old = SessionInfo::new(Some((0, 3, 76)));
    assert_eq!(old.available_permission_flags().len(), 4);
    let new = SessionInfo::new(Some((0, 3, 77)));
    let flags = new.available_permission_flags();
    assert_eq!(flags.len(), 5);
    assert_eq!(flags[4], PermissionFlag::Link);
    let major = SessionInfo::new(Some((1, 0, 0)));
    assert_eq!(major.available_permission_flags().len(), 5);
    let unknown = SessionInfo::new(None);
    assert_eq!(unknown.available_permission_flags().len(), 4);
    assert_eq!(unknown.remote_version(), None);
}

#[test]
fn teardown_yields_stop_exactly_once() {
    let mut t = Teardown::new();
    assert!(matches!(t.stop_request(), Some(Request::Stop)));
    assert!(t.stop_request().is_none());
    assert!(t.stop_request().is_none());
}

#[test]
fn permission_bits_toggle_and_test() {
    let mut p = Permissions::empty(3);
    assert!(!p.contains(PermissionFlag::Read));
    p.toggle(PermissionFlag::Read);
    p.toggle(PermissionFlag::Metadata);
    assert!(p.contains(PermissionFlag::Read));
    assert!(p.contains(PermissionFlag::Metadata));
    assert!(!p.contains(PermissionFlag::Write));
    p.toggle(PermissionFlag::Read);
    assert!(!p.contains(PermissionFlag::Read));
    assert_eq!(p.id, 3);
}

#[test]
fn remote_info_compares_by_kind_and_resolves_overrides() {
    match RemoteInfo::from_override(Some("my-socket".to_owned())) {
        RemoteInfo::Regular(n) => assert_eq!(n, "my-socket"),
        _ => panic!("expected a named remote"),
    }
    match RemoteInfo::from_override(None) {
        RemoteInfo::Regular(n) => assert_eq!(n, "pipewire-0"),
        _ => panic!("expected the default remote"),
    }
    let a = RemoteInfo::Regular("a".to_owned());
    let b = RemoteInfo::Regular("b".to_owned());
    assert!(a == b);
    let cam = RemoteInfo::Camera;
    assert!(!(a == cam));
}

#[test]
fn request_vocabulary_is_constructible() {
    let load = Request::LoadModule {
        module_dir: None,
        name: "libpipewire-module-loopback".to_owned(),
        args: Some("{}".to_owned()),
        props: None,
    };
    match load {
        Request::LoadModule { name, module_dir: None, .. } => {
            assert_eq!(name, "libpipewire-module-loopback");
        },
        _ => panic!("expected a module load request"),
    }
    let sample = pwmirror::protocol::ProfilerSample {
        fields: vec![("cpu.load".to_owned(), "0".to_owned())],
    };
    let ev = pwmirror::protocol::Event::ProfilerProfile(vec![sample]);
    match ev {
        pwmirror::protocol::Event::ProfilerProfile(samples) => assert_eq!(samples.len(), 1),
        _ => panic!("expected a profiler event"),
    }
}

#[test]
fn object_type_labels() {
    assert_eq!(ObjectType::Client.to_str(), "Client");
    assert_eq!(ObjectType::Metadata.to_str(), "Metadata");
    assert_eq!(ObjectType::Other.to_str(), "Other");
}
