//! Path resolution against a small in-memory stand-in for a device tree.

use winmtp::error::{ItemByPathError, WinError};
use winmtp::object::{ObjectInfo, ObjectType};
use winmtp::path::parse_path;
use winmtp::resolver::{PathWalk, WalkPhase, WalkRequest};

/// One node of the stand-in tree: id, name, type, parent id, child ids.
struct Node {
    id: &'static str,
    name: &'static str,
    ty: ObjectType,
    parent: Option<&'static str>,
    kids: Vec<&'static str>,
}

fn demo_tree() -> Vec<Node> {
    vec![
        Node {
            id: "o0",
            name: "root",
            ty: ObjectType::FunctionalObject,
            parent: None,
            kids: vec!["oA", "oD"],
        },
        Node {
            id: "oA",
            name: "Alpha",
            ty: ObjectType::Folder,
            parent: Some("o0"),
            kids: vec!["oX", "oB"],
        },
        Node {
            id: "oD",
            name: "Download",
            ty: ObjectType::Folder,
            parent: Some("o0"),
            kids: vec![],
        },
        Node {
            id: "oX",
            name: "Xtra",
            ty: ObjectType::Folder,
            parent: Some("oA"),
            kids: vec![],
        },
        Node {
            id: "oB",
            name: "beta.jpg",
            ty: ObjectType::Image,
            parent: Some("oA"),
            kids: vec![],
        },
    ]
}

fn obj(tree: &[Node], id: &str) -> ObjectInfo {
    let n = tree.iter().find(|n| n.id == id).expect("unknown id");
    ObjectInfo { id: n.id.to_string(), name: n.name.to_string(), ty: n.ty }
}

/// Drive a walk, answering every request from the stand-in tree.
fn resolve(
    tree: &[Node],
    start: &str,
    path: &str,
    case_sensitive: bool,
) -> Result<ObjectInfo, ItemByPathError> {
    let comps = parse_path(path);
    let mut walk = PathWalk::start(obj(tree, start), comps, case_sensitive);
    let mut req = walk.step();
    loop {
        match req {
            WalkRequest::Continue => {
                req = walk.step();
            }
            WalkRequest::ChildrenOf { ref parent_id } => {
                let node = tree.iter().find(|n| n.id == *parent_id).expect("unknown id");
                let mut kids = node.kids.iter();
                loop {
                    match kids.next() {
                        Some(kid) => {
                            req = walk.offer_child(Some(obj(tree, kid)));
                            if !matches!(req, WalkRequest::ChildrenOf { .. }) {
                                break;
                            }
                        }
                        None => {
                            req = walk.offer_child(None);
                            break;
                        }
                    }
                }
            }
            WalkRequest::ParentOf { ref id } => {
                let node = tree.iter().find(|n| n.id == *id).expect("unknown id");
                let answer = node.parent.map(|p| obj(tree, p));
                req = walk.offer_parent(answer);
            }
            WalkRequest::Finished => break,
        }
    }
    assert!(matches!(walk.phase(), WalkPhase::Finished));
    walk.into_outcome()
}

#[test]
fn named_child_resolves_to_child_with_that_name() {
    let t = demo_tree();
    let got = resolve(&t, "o0", "Alpha", true).unwrap();
    assert_eq!(got.id, "oA");
    assert_eq!(got.name, "Alpha");
}

#[test]
fn current_dir_resolves_to_same_id() {
    let t = demo_tree();
    let got = resolve(&t, "oA", ".", true).unwrap();
    assert_eq!(got.id, "oA");
}

#[test]
fn parent_dir_resolves_to_parent() {
    let t = demo_tree();
    let got = resolve(&t, "oA", "..", true).unwrap();
    assert_eq!(got.id, "o0");
}

#[test]
fn parent_dir_at_root_is_not_found() {
    let t = demo_tree();
    let got = resolve(&t, "o0", "..", true);
    assert!(matches!(got, Err(ItemByPathError::NotFound)));
}

#[test]
fn interior_current_dir_is_a_no_op() {
    let t = demo_tree();
    let with_dot = resolve(&t, "o0", "Alpha/./beta.jpg", true).unwrap();
    let without = resolve(&t, "o0", "Alpha/beta.jpg", true).unwrap();
    assert_eq!(with_dot.id, without.id);
    assert_eq!(without.id, "oB");
}

#[test]
fn child_and_parent_round_trip_is_transparent() {
    let t = demo_tree();
    let round = resolve(&t, "o0", "Alpha/Xtra/../beta.jpg", true).unwrap();
    let direct = resolve(&t, "o0", "Alpha/beta.jpg", true).unwrap();
    assert_eq!(round.id, direct.id);
    assert_eq!(direct.id, "oB");
}

#[test]
fn leading_separator_is_rejected_as_absolute() {
    let t = demo_tree();
    let got = resolve(&t, "o0", "/Alpha", true);
    assert!(matches!(got, Err(ItemByPathError::AbsolutePath)));
    let got = resolve(&t, "o0", "\\Alpha", true);
    assert!(matches!(got, Err(ItemByPathError::AbsolutePath)));
}

#[test]
fn drive_prefix_is_rejected_as_absolute() {
    let t = demo_tree();
    // the rest of the path would resolve, the prefix still wins
    let got = resolve(&t, "o0", "C:\\Alpha", true);
    assert!(matches!(got, Err(ItemByPathError::AbsolutePath)));
}

#[test]
fn case_insensitive_lookup_folds_case() {
    let t = demo_tree();
    let got = resolve(&t, "o0", "download", false).unwrap();
    assert_eq!(got.id, "oD");
    assert_eq!(got.name, "Download");
}

#[test]
fn case_sensitive_lookup_requires_exact_name() {
    let t = demo_tree();
    let got = resolve(&t, "o0", "download", true);
    assert!(matches!(got, Err(ItemByPathError::NotFound)));
}

#[test]
fn missing_child_is_not_found() {
    let t = demo_tree();
    let got = resolve(&t, "o0", "Alpha/nope", true);
    assert!(matches!(got, Err(ItemByPathError::NotFound)));
}

#[test]
fn empty_path_is_not_found() {
    let t = demo_tree();
    let got = resolve(&t, "o0", "", true);
    assert!(matches!(got, Err(ItemByPathError::NotFound)));
}

#[test]
fn first_matching_child_wins() {
    // two children share a name; the one listed first is the one found
    let t = vec![
        Node {
            id: "r",
            name: "root",
            ty: ObjectType::Folder,
            parent: None,
            kids: vec!["c1", "c2"],
        },
        Node { id: "c1", name: "Twin", ty: ObjectType::Folder, parent: Some("r"), kids: vec![] },
        Node { id: "c2", name: "Twin", ty: ObjectType::Folder, parent: Some("r"), kids: vec![] },
    ];
    let got = resolve(&t, "r", "Twin", true).unwrap();
    assert_eq!(got.id, "c1");
}

#[test]
fn two_enumerations_of_unmodified_container_yield_same_names() {
    // the same children handed out in two different orders: the name sets
    // agree, the order does not have to
    let first = demo_tree();
    let mut second = demo_tree();
    second[0].kids.reverse();
    let mut names1: Vec<String> =
        first[0].kids.iter().map(|k| obj(&first, k).name).collect();
    let mut names2: Vec<String> =
        second[0].kids.iter().map(|k| obj(&second, k).name).collect();
    assert_ne!(names1, names2);
    names1.sort();
    names2.sort();
    assert_eq!(names1, names2);
    // and resolution finds each child under either order
    for name in names1 {
        let a = resolve(&first, "o0", &name, true).unwrap();
        let b = resolve(&second, "o0", &name, true).unwrap();
        assert_eq!(a.id, b.id);
    }
}

#[test]
fn transport_failure_is_surfaced_verbatim() {
    let t = demo_tree();
    let comps = parse_path("Alpha");
    let mut walk = PathWalk::start(obj(&t, "o0"), comps, true);
    let req = walk.step();
    assert!(matches!(req, WalkRequest::ChildrenOf { .. }));
    walk.fail_transport(WinError { hresult: -2147023436 });
    assert!(matches!(walk.phase(), WalkPhase::Finished));
    let got = walk.into_outcome();
    assert!(matches!(
        got,
        Err(ItemByPathError::Windows(WinError { hresult: -2147023436 }))
    ));
}
