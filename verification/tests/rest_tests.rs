use rest_presence::container::Container;
use rest_presence::outcome::ResultKind;
use rest_presence::paging::GetPagination;
use rest_presence::rest::{
    rest_get, rest_id_delete, rest_id_get, rest_id_patch, rest_id_post, rest_id_put, rest_post,
    rest_put, Item, RequestType,
};
use serde_json::Value;

fn text(s: &str) -> Value {
    Value::String(s.to_string())
}

#[test]
fn put_without_data_stores_null() {
    let mut store: Container<Item<Value>> = Container::new();
    let reply = rest_put(&mut store, "a", RequestType { data: None });
    assert_eq!(reply.kind, ResultKind::Created);
    let item = reply.item.unwrap();
    assert_eq!(item.id, "a");
    assert_eq!(item.data, Value::Null);
    assert_eq!(store.get_by_id("a").unwrap().data, Value::Null);
}

#[test]
fn put_overwrites_the_data() {
    let mut store: Container<Item<Value>> = Container::new();
    rest_put(&mut store, "a", RequestType { data: Some(text("one")) });
    rest_put(&mut store, "a", RequestType { data: Some(Value::Bool(true)) });
    let stored = store.get_by_id("a").unwrap();
    assert_eq!(stored.id, "a");
    assert_eq!(stored.data, Value::Bool(true));
    assert_eq!(store._len(), 1);
}

#[test]
fn post_conflicts_on_a_taken_id_and_changes_nothing() {
    let mut store: Container<Item<Value>> = Container::new();
    let first = rest_post(&mut store, "a", RequestType { data: Some(text("one")) });
    assert_eq!(first.kind, ResultKind::Created);
    assert_eq!(first.item.unwrap().data, text("one"));
    let second = rest_post(&mut store, "a", RequestType { data: Some(text("two")) });
    assert_eq!(second.kind, ResultKind::Conflict);
    assert_eq!(second.item.unwrap().data, text("one"));
    assert_eq!(store.get_by_id("a").unwrap().data, text("one"));
}

#[test]
fn patch_replaces_the_data_given_and_keeps_it_otherwise() {
    let mut store: Container<Item<Value>> = Container::new();
    rest_put(&mut store, "a", RequestType { data: Some(text("one")) });
    let kept = rest_id_patch(&mut store, "a", RequestType { data: None });
    assert_eq!(kept.kind, ResultKind::Success);
    assert_eq!(kept.item.unwrap().data, text("one"));
    assert_eq!(store.get_by_id("a").unwrap().data, text("one"));
    let replaced = rest_id_patch(&mut store, "a", RequestType { data: Some(text("two")) });
    assert_eq!(replaced.kind, ResultKind::Success);
    let item = replaced.item.unwrap();
    assert_eq!(item.id, "a");
    assert_eq!(item.data, text("two"));
    assert_eq!(store.get_by_id("a").unwrap().data, text("two"));
    let missing = rest_id_patch(&mut store, "b", RequestType { data: Some(text("x")) });
    assert_eq!(missing.kind, ResultKind::NotFound);
    assert!(missing.item.is_none());
    assert!(!store._get_is("b"));
}

#[test]
fn get_and_delete_follow_the_store() {
    let mut store: Container<Item<u64>> = Container::new();
    rest_put(&mut store, "a", RequestType { data: Some(1) });
    rest_put(&mut store, "b", RequestType { data: None });
    assert_eq!(rest_get(&store, "a").item.unwrap().data, 1);
    assert_eq!(rest_get(&store, "b").item.unwrap().data, 0);
    assert_eq!(rest_get(&store, "c").kind, ResultKind::NotFound);
    let listed = rest_id_get(&store, None, &GetPagination { offset: Some(1), limit: None });
    let data: Vec<u64> = listed.items.unwrap().into_iter().map(|i| i.data).collect();
    assert_eq!(data, vec![0]);
    assert_eq!(rest_id_get(&store, Some("a"), &GetPagination::default()).kind, ResultKind::Success);
    assert_eq!(rest_id_delete(&mut store, "a"), ResultKind::NoContent);
    assert_eq!(rest_id_delete(&mut store, "a"), ResultKind::NotFound);
    assert_eq!(rest_get(&store, "a").kind, ResultKind::NotFound);
}

#[test]
fn writes_without_an_id_get_a_fresh_one() {
    let mut store: Container<Item<u64>> = Container::new();
    let put = rest_id_put(&mut store, None, RequestType { data: Some(3) });
    let id = put.item.unwrap().id;
    assert_eq!(id.len(), 36);
    assert_eq!(store.get_by_id(&id).unwrap().data, 3);
    let post = rest_id_post(&mut store, Some(id.clone()), RequestType { data: Some(4) });
    assert_eq!(post.kind, ResultKind::Conflict);
    assert_eq!(post.item.unwrap().data, 3);
    let fresh = rest_id_post(&mut store, None, RequestType { data: Some(5) });
    assert_eq!(fresh.kind, ResultKind::Created);
    assert_ne!(fresh.item.unwrap().id, id);
}
