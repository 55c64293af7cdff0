use apigen::names::{create_property_name, resolve_name, sanitize, usize_to_string};
use apigen::types::IntermediateFormat;
use apigen::File;

#[test]
fn sanitize_replaces_non_alphanumerics() {
    assert_eq!(sanitize("foo-bar baz"), "foo_bar_baz");
    assert_eq!(sanitize("/users/{id}"), "_users__id_");
}

#[test]
fn sanitize_keeps_alphanumerics() {
    assert_eq!(sanitize("abc123XYZ"), "abc123XYZ");
}

#[test]
fn sanitize_keeps_unicode_letters() {
    assert_eq!(sanitize("héllo-wörld"), "héllo_wörld");
}

#[test]
fn property_name_guards_leading_underscore() {
    assert_eq!(create_property_name("_private"), "$private_private");
    assert_eq!(create_property_name("-x"), "$private_x");
    assert_eq!(create_property_name("plain"), "plain");
}

#[test]
fn resolve_name_joins_and_sanitizes() {
    assert_eq!(
        resolve_name("Root", &vec!["field".to_string(), "0".to_string()]),
        "Root_field_0"
    );
    assert_eq!(resolve_name("Pet", &vec!["tag-name".to_string()]), "Pet_tag_name");
    assert_eq!(resolve_name("Pet", &vec![]), "Pet");
}

#[test]
fn resolve_name_guards_leading_underscore() {
    assert_eq!(resolve_name("-Root", &vec!["a".to_string()]), "$private_Root_a");
}

#[test]
fn decimal_rendering() {
    assert_eq!(usize_to_string(0), "0");
    assert_eq!(usize_to_string(9), "9");
    assert_eq!(usize_to_string(10), "10");
    assert_eq!(usize_to_string(42), "42");
    assert_eq!(usize_to_string(1234567), "1234567");
}

#[test]
fn file_record_holds_path_and_content() {
    let f = File { path: "schemes/Foo.dart".to_string(), content: "class Foo {}".to_string() };
    assert_eq!(f.path, "schemes/Foo.dart");
    assert_eq!(f.content, "class Foo {}");
}

#[test]
fn intermediate_format_bundles_parts() {
    let tree = apigen::types::RouteFragment::Node(apigen::types::RouteFragmentNodeData {
        path_fragment_name: "".to_string(),
        is_param: false,
        children: vec![],
    });
    let f = IntermediateFormat::new(vec![], vec![], tree);
    assert!(f.schemes.is_empty());
    assert!(f.routes.is_empty());
}
