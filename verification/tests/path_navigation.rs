use entity_handle::dyn_node::DynNode;
use entity_handle::node::Node;
use entity_handle::node::navigate;
use entity_handle::node::parse_index;
use entity_handle::node::unescape_token;

fn sample_tree() -> Node {
    // { "a": { "b/c": 7, "~": true }, "list": [10, 20, 30], "": 99 }
    Node::Mapping(vec![
        (
            b"a".to_vec(),
            Node::Mapping(vec![
                (b"b/c".to_vec(), Node::Int(7)),
                (b"~".to_vec(), Node::Bool(true)),
            ]),
        ),
        (
            b"list".to_vec(),
            Node::List(vec![Node::Int(10), Node::Int(20), Node::Int(30)]),
        ),
        (b"".to_vec(), Node::Int(99)),
    ])
}

#[test]
fn unescape_token_rewrites_pointer_escapes() {
    assert_eq!(unescape_token(&b"~1".to_vec()), b"/".to_vec());
    assert_eq!(unescape_token(&b"~0".to_vec()), b"~".to_vec());
    assert_eq!(unescape_token(&b"a~1b~0c".to_vec()), b"a/b~c".to_vec());
    // The ~1 pass runs first: "~01" holds no "~1", then "~0" becomes "~".
    assert_eq!(unescape_token(&b"~01".to_vec()), b"~1".to_vec());
    assert_eq!(unescape_token(&b"plain".to_vec()), b"plain".to_vec());
    assert_eq!(unescape_token(&b"".to_vec()), b"".to_vec());
}

#[test]
fn parse_index_follows_unsigned_parse_rules() {
    assert_eq!(parse_index(&b"0".to_vec()), Some(0));
    assert_eq!(parse_index(&b"12".to_vec()), Some(12));
    assert_eq!(parse_index(&b"+7".to_vec()), Some(7));
    assert_eq!(parse_index(&b"007".to_vec()), Some(7));
    assert_eq!(parse_index(&b"".to_vec()), None);
    assert_eq!(parse_index(&b"+".to_vec()), None);
    assert_eq!(parse_index(&b"1a".to_vec()), None);
    assert_eq!(parse_index(&b"-1".to_vec()), None);
    assert_eq!(parse_index(&b"99999999999999999999999999".to_vec()), None);
}

#[test]
fn navigate_walks_mappings_and_lists() {
    let tree = sample_tree();

    // Empty label addresses the root itself.
    assert!(matches!(navigate(&tree, &b"".to_vec()), Some(Node::Mapping(_))));

    // Escaped mapping keys.
    assert!(matches!(navigate(&tree, &b"a/b~1c".to_vec()), Some(Node::Int(7))));
    assert!(matches!(navigate(&tree, &b"a/~0".to_vec()), Some(Node::Bool(true))));

    // List indexing, including a leading-zero index.
    assert!(matches!(navigate(&tree, &b"list/1".to_vec()), Some(Node::Int(20))));
    assert!(matches!(navigate(&tree, &b"list/02".to_vec()), Some(Node::Int(30))));

    // Misses: unknown key, out-of-range index, scalar mid-path.
    assert!(navigate(&tree, &b"nope".to_vec()).is_none());
    assert!(navigate(&tree, &b"list/3".to_vec()).is_none());
    assert!(navigate(&tree, &b"a/b~1c/deep".to_vec()).is_none());
}

#[test]
fn dyn_node_query_uses_pointer_paths() {
    let config = DynNode::new(sample_tree());

    // The empty pointer is the whole document.
    assert!(matches!(config.query_raw(&b"".to_vec()), Some(Node::Mapping(_))));

    // Pointer paths start with a slash; "/" addresses the "" key.
    assert!(config.query_raw(&b"a".to_vec()).is_none());
    assert_eq!(config.query(&b"/".to_vec()), Some(99));
    assert_eq!(config.query(&b"/a/b~1c".to_vec()), Some(7));
    assert_eq!(config.query(&b"/list/0".to_vec()), Some(10));

    // A hit that is not an integer is not a typed value.
    assert_eq!(config.query(&b"/a".to_vec()), None);
    // A miss is a miss.
    assert_eq!(config.query(&b"/list/9".to_vec()), None);
}
