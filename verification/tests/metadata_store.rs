use pwmirror::metadata::MetadataEditor;
use pwmirror::metadata::Property;
use pwmirror::protocol::ObjectMethod;
use pwmirror::protocol::Request;

#[test]
fn upsert_replaces_the_record_for_a_key() {
    let mut e = MetadataEditor::new();
    e.add_property(1, "settings".to_owned(), 0, "k".to_owned(), None, "v1".to_owned());
    e.add_property(1, "settings".to_owned(), 0, "k".to_owned(), None, "v2".to_owned());
    let m = e.metadata(1).expect("metadata global exists");
    assert_eq!(m.properties.len(), 1);
    assert_eq!(m.properties.get("k").map(|p| p.value.as_str()), Some("v2"));
}

#[test]
fn upsert_keeps_other_keys() {
    let mut e = MetadataEditor::new();
    e.add_property(1, "settings".to_owned(), 0, "a".to_owned(), None, "1".to_owned());
    e.add_property(1, "settings".to_owned(), 7, "b".to_owned(), Some("Spa:Int".to_owned()), "2".to_owned());
    let m = e.metadata(1).unwrap();
    assert_eq!(m.properties.len(), 2);
    let b = m.properties.get("b").unwrap();
    assert_eq!(b.subject, 7);
    assert_eq!(b.type_.as_deref(), Some("Spa:Int"));
    assert_eq!(b.value, "2");
}

#[test]
fn delete_removes_only_that_key() {
    let mut e = MetadataEditor::new();
    e.add_property(1, "settings".to_owned(), 0, "a".to_owned(), None, "1".to_owned());
    e.add_property(1, "settings".to_owned(), 0, "b".to_owned(), None, "2".to_owned());
    e.remove_property(1, "a");
    let m = e.metadata(1).unwrap();
    assert!(m.properties.get("a").is_none());
    assert!(m.properties.get("b").is_some());
}

#[test]
fn clear_empties_records_but_keeps_the_global() {
    let mut e = MetadataEditor::new();
    e.add_property(1, "settings".to_owned(), 0, "a".to_owned(), None, "1".to_owned());
    e.add_property(1, "settings".to_owned(), 0, "b".to_owned(), None, "2".to_owned());
    e.clear_properties(1);
    let m = e.metadata(1).expect("the metadata global entry itself stays");
    assert_eq!(m.properties.len(), 0);
    assert_eq!(m.name, "settings");
}

#[test]
fn removing_the_global_forgets_everything() {
    let mut e = MetadataEditor::new();
    e.add_metadata(1, "settings");
    e.add_property(1, "settings".to_owned(), 0, "a".to_owned(), None, "1".to_owned());
    e.remove_metadata(1);
    assert!(e.metadata(1).is_none());
}

#[test]
fn add_metadata_is_idempotent() {
    let mut e = MetadataEditor::new();
    e.add_property(1, "settings".to_owned(), 0, "a".to_owned(), None, "1".to_owned());
    e.add_metadata(1, "renamed");
    let m = e.metadata(1).unwrap();
    assert_eq!(m.name, "settings");
    assert_eq!(m.properties.len(), 1);
}

#[test]
fn set_and_clear_requests_mirror_the_record() {
    let p = Property { subject: 3, type_: Some("Spa:String".to_owned()), value: "on".to_owned() };
    match p.set_request(1, "k".to_owned()) {
        Request::CallObjectMethod(
            1,
            ObjectMethod::MetadataSetProperty { subject, key, type_, value },
        ) => {
            assert_eq!(subject, 3);
            assert_eq!(key, "k");
            assert_eq!(type_.as_deref(), Some("Spa:String"));
            assert_eq!(value.as_deref(), Some("on"));
        },
        _ => panic!("expected a set request"),
    }
    match p.clear_request(1, "k".to_owned()) {
        Request::CallObjectMethod(
            1,
            ObjectMethod::MetadataSetProperty { value: None, .. },
        ) => {},
        _ => panic!("expected a clear request without a value"),
    }
    assert!(matches!(
        MetadataEditor::clear_request(1),
        Request::CallObjectMethod(1, ObjectMethod::MetadataClear)
    ));
}
