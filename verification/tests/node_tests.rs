use rest_presence::container::Container;
use rest_presence::node::{
    node_get, node_id_delete, node_id_get, node_id_patch, node_id_post, node_id_put, node_post,
    BasicNode, Node, RequestType,
};
use rest_presence::outcome::ResultKind;
use rest_presence::paging::GetPagination;
use serde_json::Value;

#[test]
fn factory_makes_a_node_without_links() {
    let node = BasicNode::factory("n", Some(Value::Bool(true)));
    assert_eq!(node.id(), "n");
    assert_eq!(node.content, Value::Bool(true));
    assert_eq!(node.next_id(), None);
    assert_eq!(node.prev_id(), None);
    let empty: BasicNode<Value> = BasicNode::factory("m", None);
    assert_eq!(empty.content, Value::Null);
    assert!(!empty._run());
}

#[test]
fn getters_read_the_links() {
    let node = BasicNode {
        id: "a".to_string(),
        content: 0u64,
        next_id: Some("b".to_string()),
        prev_id: None,
    };
    assert_eq!(node.next_id(), Some("b"));
    assert_eq!(node.prev_id(), None);
    let copy = node.clone();
    assert_eq!(copy.id, "a");
    assert_eq!(copy.next_id, Some("b".to_string()));
}

#[test]
fn factory_put_overwrites_and_factory_post_does_not() {
    let mut store: Container<BasicNode<u64>> = Container::new();
    let made = BasicNode::factory_put(&mut store, "a", Some(1));
    assert_eq!(made.content, 1);
    let (created, node) = BasicNode::factory_post(&mut store, "a", Some(2));
    assert!(!created);
    assert_eq!(node.content, 1);
    let (created, node) = BasicNode::factory_post(&mut store, "b", None);
    assert!(created);
    assert_eq!(node.content, 0);
    BasicNode::factory_put(&mut store, "a", Some(3));
    assert_eq!(store.get_by_id("a").unwrap().content, 3);
    assert_eq!(store._len(), 2);
}

#[test]
fn post_answers_created_then_conflict() {
    let mut store: Container<BasicNode<u64>> = Container::new();
    let first = node_post(&mut store, "a", RequestType { data: Some(1) });
    assert_eq!(first.kind, ResultKind::Created);
    let second = node_post(&mut store, "a", RequestType { data: Some(2) });
    assert_eq!(second.kind, ResultKind::Conflict);
    assert_eq!(second.item.unwrap().content, 1);
    assert_eq!(store.get_by_id("a").unwrap().content, 1);
}

#[test]
fn patch_replaces_the_content_and_keeps_the_links() {
    let mut store: Container<BasicNode<u64>> = Container::new();
    store.put_by_id(
        "a",
        BasicNode {
            id: "a".to_string(),
            content: 1,
            next_id: Some("b".to_string()),
            prev_id: Some("z".to_string()),
        },
    );
    let reply = node_id_patch(&mut store, "a", RequestType { data: Some(9) });
    assert_eq!(reply.kind, ResultKind::Success);
    let stored = store.get_by_id("a").unwrap();
    assert_eq!(stored.content, 9);
    assert_eq!(stored.next_id, Some("b".to_string()));
    assert_eq!(stored.prev_id, Some("z".to_string()));
    let same = node_id_patch(&mut store, "a", RequestType { data: None });
    assert_eq!(same.item.unwrap().content, 9);
    let missing = node_id_patch(&mut store, "q", RequestType { data: Some(1) });
    assert_eq!(missing.kind, ResultKind::NotFound);
    assert_eq!(store._len(), 1);
}

#[test]
fn get_list_and_delete() {
    let mut store: Container<BasicNode<u64>> = Container::new();
    let put = node_id_put(&mut store, Some("a".to_string()), RequestType { data: Some(1) });
    assert_eq!(put.kind, ResultKind::Created);
    let fresh = node_id_put(&mut store, None, RequestType { data: Some(2) });
    let fresh_id = fresh.item.unwrap().id;
    assert_eq!(fresh_id.len(), 36);
    assert_eq!(node_get(&store, "a").item.unwrap().content, 1);
    assert_eq!(node_get(&store, &fresh_id).item.unwrap().content, 2);
    let page = node_id_get(&store, None, &GetPagination { offset: None, limit: Some(1) });
    assert_eq!(page.items.unwrap().len(), 1);
    let post = node_id_post(&mut store, None, RequestType { data: None });
    assert_eq!(post.kind, ResultKind::Created);
    assert_eq!(node_id_delete(&mut store, "a"), ResultKind::NoContent);
    assert_eq!(node_id_delete(&mut store, "a"), ResultKind::NotFound);
    assert_eq!(node_id_get(&store, Some("a"), &GetPagination::default()).kind, ResultKind::NotFound);
}
