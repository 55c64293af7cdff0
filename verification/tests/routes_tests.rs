use apigen::routes::{split_path, RouteTrieBuilder};
use apigen::types::{Route, RouteFragment};

fn route(path: &str) -> Route {
    Route { path: path.to_string(), description: None, endpoints: vec![] }
}

fn node_of(f: &RouteFragment) -> &apigen::types::RouteFragmentNodeData {
    match f {
        RouteFragment::Node(d) => d,
        RouteFragment::Leaf(_) => panic!("expected a node"),
    }
}

fn leaf_idx(f: &RouteFragment) -> usize {
    match f {
        RouteFragment::Leaf(l) => l.route_idx,
        RouteFragment::Node(_) => panic!("expected a leaf"),
    }
}

#[test]
fn split_discards_empty_segments() {
    let segs = split_path("//users//{id}/");
    assert_eq!(segs, vec!["users".to_string(), "{id}".to_string()]);
}

#[test]
fn split_empty_path() {
    assert_eq!(split_path(""), Vec::<String>::new());
    assert_eq!(split_path("/"), Vec::<String>::new());
}

#[test]
fn single_route_is_a_chain() {
    let routes = vec![route("/users/{id}")];
    let tree = RouteTrieBuilder::build(&routes);
    let root = node_of(&tree);
    assert_eq!(root.path_fragment_name, "");
    assert!(!root.is_param);
    assert_eq!(root.children.len(), 1);
    let users = node_of(&root.children[0]);
    assert_eq!(users.path_fragment_name, "users");
    assert!(!users.is_param);
    assert_eq!(users.children.len(), 1);
    let id = node_of(&users.children[0]);
    assert_eq!(id.path_fragment_name, "id");
    assert!(id.is_param);
    assert_eq!(id.children.len(), 1);
    assert_eq!(leaf_idx(&id.children[0]), 0);
}

#[test]
fn root_route_leaf_under_root() {
    let routes = vec![route("/")];
    let tree = RouteTrieBuilder::build(&routes);
    let root = node_of(&tree);
    assert_eq!(root.children.len(), 1);
    assert_eq!(leaf_idx(&root.children[0]), 0);
}

#[test]
fn colon_parameter_syntax() {
    let routes = vec![route("/users/:id")];
    let tree = RouteTrieBuilder::build(&routes);
    let users = node_of(&node_of(&tree).children[0]);
    let id = node_of(&users.children[0]);
    assert_eq!(id.path_fragment_name, "id");
    assert!(id.is_param);
}

#[test]
fn shared_prefix_routes_merge() {
    // routes "/users/{id}/posts" and "/users/{id}/comments" share the
    // two-segment prefix users/{id} and then fork
    let routes = vec![route("/users/{id}/posts"), route("/users/{id}/comments")];
    let tree = RouteTrieBuilder::build(&routes);
    let root = node_of(&tree);
    assert_eq!(root.children.len(), 1);
    let users = node_of(&root.children[0]);
    assert_eq!(users.path_fragment_name, "users");
    assert_eq!(users.children.len(), 1);
    let id = node_of(&users.children[0]);
    assert_eq!(id.path_fragment_name, "id");
    assert!(id.is_param);
    assert_eq!(id.children.len(), 2);
    let posts = node_of(&id.children[0]);
    assert_eq!(posts.path_fragment_name, "posts");
    assert_eq!(leaf_idx(&posts.children[0]), 0);
    let comments = node_of(&id.children[1]);
    assert_eq!(comments.path_fragment_name, "comments");
    assert_eq!(leaf_idx(&comments.children[0]), 1);
}

#[test]
fn literal_prefix_of_one_segment() {
    let routes = vec![route("/a/b"), route("/a/c")];
    let tree = RouteTrieBuilder::build(&routes);
    let root = node_of(&tree);
    assert_eq!(root.children.len(), 1);
    let a = node_of(&root.children[0]);
    assert_eq!(a.path_fragment_name, "a");
    assert_eq!(a.children.len(), 2);
    assert_eq!(node_of(&a.children[0]).path_fragment_name, "b");
    assert_eq!(node_of(&a.children[1]).path_fragment_name, "c");
}

#[test]
fn divergent_routes_become_siblings() {
    let routes = vec![route("/x"), route("/y")];
    let tree = RouteTrieBuilder::build(&routes);
    let root = node_of(&tree);
    assert_eq!(root.children.len(), 2);
    assert_eq!(node_of(&root.children[0]).path_fragment_name, "x");
    assert_eq!(node_of(&root.children[1]).path_fragment_name, "y");
}

#[test]
fn build_is_deterministic() {
    let routes = vec![
        route("/users/{id}/posts"),
        route("/users/{id}/comments"),
        route("/health"),
    ];
    let t1 = RouteTrieBuilder::build(&routes);
    let t2 = RouteTrieBuilder::build(&routes);
    assert_eq!(t1, t2);
}

#[test]
fn literal_and_parameter_with_same_text_merge() {
    // matching is purely on segment-name text: a literal "b" and a
    // parameter "{b}" at the same depth are conflated (a known, accepted
    // looseness of the merge rule)
    let routes = vec![route("/a/{b}"), route("/a/b")];
    let tree = RouteTrieBuilder::build(&routes);
    let a = node_of(&node_of(&tree).children[0]);
    assert_eq!(a.children.len(), 1);
    let b = node_of(&a.children[0]);
    assert_eq!(b.path_fragment_name, "b");
    assert!(b.is_param);
    assert_eq!(b.children.len(), 2);
    assert_eq!(leaf_idx(&b.children[0]), 0);
    assert_eq!(leaf_idx(&b.children[1]), 1);
}
