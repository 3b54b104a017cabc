use buddies_ai::document::Node;
use buddies_ai::yaml::read_documents;

fn text(s: &str) -> Node {
    Node::Text(s.to_string())
}

#[test]
fn reads_a_mapping_with_a_list() {
    let docs = read_documents("buddies:\n  - id: b1\n    role: 7\n").unwrap();
    assert_eq!(docs.len(), 1);
    let buddies = docs[0].get("buddies").unwrap();
    let items = buddies.as_list().unwrap();
    assert_eq!(items.len(), 1);
    assert_eq!(items[0].get("id"), Some(&text("b1")));
    assert_eq!(items[0].get("role"), Some(&Node::Other));
    assert_eq!(items[0].get("backstory"), None);
}

#[test]
fn reads_the_whole_tree_as_written() {
    let docs = read_documents("a: x\nb:\n  - y\n  - c: \"z\"\n").unwrap();
    let expected = Node::Mapping(vec![
        (text("a"), text("x")),
        (
            text("b"),
            Node::List(vec![text("y"), Node::Mapping(vec![(text("c"), text("z"))])]),
        ),
    ]);
    assert_eq!(docs, vec![expected]);
}

#[test]
fn scalars_that_are_no_strings_are_other() {
    let docs = read_documents("- 1\n- 2.5\n- true\n- ~\n- \"1\"\n- word\n").unwrap();
    let expected = Node::List(vec![
        Node::Other,
        Node::Other,
        Node::Other,
        Node::Other,
        text("1"),
        text("word"),
    ]);
    assert_eq!(docs, vec![expected]);
}

#[test]
fn keys_that_are_no_strings_are_kept_as_other() {
    let docs = read_documents("1: x\nb: y\n").unwrap();
    let expected = Node::Mapping(vec![(Node::Other, text("x")), (text("b"), text("y"))]);
    assert_eq!(docs, vec![expected]);
    assert_eq!(docs[0].get("b"), Some(&text("y")));
    assert_eq!(docs[0].get("1"), None);
}

#[test]
fn reads_every_document_of_a_stream() {
    let docs = read_documents("a: 1\n---\n- x\n").unwrap();
    assert_eq!(docs.len(), 2);
    assert_eq!(docs[1], Node::List(vec![text("x")]));
}

#[test]
fn empty_text_holds_no_document() {
    assert_eq!(read_documents(""), Some(vec![]));
}

#[test]
fn rejects_text_that_is_not_yaml() {
    assert!(read_documents("a: [1, 2").is_none());
    assert!(read_documents("key: \"unclosed").is_none());
}

#[test]
fn get_finds_the_first_entry_with_the_key() {
    let node = Node::Mapping(vec![
        (text("other"), text("0")),
        (text("key"), text("1")),
        (text("key"), text("2")),
    ]);
    assert_eq!(node.get("key"), Some(&text("1")));
    assert_eq!(node.get("other"), Some(&text("0")));
    assert_eq!(node.get("missing"), None);
    assert_eq!(node.get(""), None);
}

#[test]
fn get_finds_nothing_in_a_node_that_is_no_mapping() {
    assert_eq!(text("key").get("key"), None);
    assert_eq!(Node::List(vec![text("key")]).get("key"), None);
    assert_eq!(Node::Other.get("key"), None);
    assert_eq!(Node::Mapping(vec![]).get("key"), None);
}

#[test]
fn as_text_and_as_list_tell_the_kinds_apart() {
    assert_eq!(text("a").as_text(), Some(&"a".to_string()));
    assert_eq!(text("a").as_list(), None);
    assert_eq!(Node::List(vec![text("a")]).as_list(), Some(&vec![text("a")]));
    assert_eq!(Node::List(vec![]).as_text(), None);
    assert_eq!(Node::Other.as_text(), None);
    assert_eq!(Node::Mapping(vec![]).as_list(), None);
}
