use rest_presence::container::Container;
use rest_presence::outcome::ResultKind;
use rest_presence::paging::GetPagination;
use rest_presence::todos::{
    todos_get, todos_id_delete, todos_id_get, todos_id_patch, todos_id_post, todos_id_put,
    todos_list, todos_post, todos_put, Item, RequestType,
};

fn request(text: Option<&str>, completed: Option<bool>) -> RequestType {
    RequestType { text: text.map(|t| t.to_string()), completed }
}

fn fields(item: &Item) -> (&str, &str, bool) {
    (item.id.as_str(), item.text.as_str(), item.completed)
}

#[test]
fn put_creates_with_defaults_for_absent_fields() {
    let mut store = Container::new();
    let reply = todos_put(&mut store, "a", request(None, None));
    assert_eq!(reply.kind, ResultKind::Created);
    assert_eq!(fields(reply.item.as_ref().unwrap()), ("a", "", false));
    assert!(reply.items.is_none());
    assert_eq!(fields(&store.get_by_id("a").unwrap()), ("a", "", false));
}

#[test]
fn put_overwrites_and_the_last_write_wins() {
    let mut store = Container::new();
    todos_put(&mut store, "a", request(Some("first"), Some(true)));
    let reply = todos_put(&mut store, "a", request(Some("second"), None));
    assert_eq!(reply.kind, ResultKind::Created);
    assert_eq!(fields(&store.get_by_id("a").unwrap()), ("a", "second", false));
    assert_eq!(store._len(), 1);
}

#[test]
fn post_on_a_free_id_creates_and_a_second_post_conflicts() {
    let mut store = Container::new();
    let first = todos_post(&mut store, "a", request(Some("v"), Some(true)));
    assert_eq!(first.kind, ResultKind::Created);
    assert_eq!(fields(first.item.as_ref().unwrap()), ("a", "v", true));
    let second = todos_post(&mut store, "a", request(Some("v2"), Some(false)));
    assert_eq!(second.kind, ResultKind::Conflict);
    assert_eq!(fields(second.item.as_ref().unwrap()), ("a", "v", true));
    assert_eq!(fields(&store.get_by_id("a").unwrap()), ("a", "v", true));
    assert_eq!(store._len(), 1);
}

#[test]
fn patch_merges_only_the_fields_present() {
    let mut store = Container::new();
    todos_put(&mut store, "a", request(Some("text"), Some(true)));
    let reply = todos_id_patch(&mut store, "a", request(Some("new"), None));
    assert_eq!(reply.kind, ResultKind::Success);
    assert_eq!(fields(reply.item.as_ref().unwrap()), ("a", "new", true));
    assert_eq!(fields(&store.get_by_id("a").unwrap()), ("a", "new", true));
    let reply = todos_id_patch(&mut store, "a", request(None, Some(false)));
    assert_eq!(fields(reply.item.as_ref().unwrap()), ("a", "new", false));
    let reply = todos_id_patch(&mut store, "a", request(None, None));
    assert_eq!(fields(reply.item.as_ref().unwrap()), ("a", "new", false));
    assert_eq!(fields(&store.get_by_id("a").unwrap()), ("a", "new", false));
}

#[test]
fn patch_on_an_absent_key_is_not_found_and_inserts_nothing() {
    let mut store: Container<Item> = Container::new();
    let reply = todos_id_patch(&mut store, "a", request(Some("x"), Some(true)));
    assert_eq!(reply.kind, ResultKind::NotFound);
    assert!(reply.item.is_none());
    assert!(store._is_empty());
}

#[test]
fn delete_answers_no_content_then_not_found() {
    let mut store = Container::new();
    todos_put(&mut store, "a", request(None, None));
    assert_eq!(todos_id_delete(&mut store, "a"), ResultKind::NoContent);
    assert!(store.get_by_id("a").is_none());
    assert_eq!(todos_id_delete(&mut store, "a"), ResultKind::NotFound);
}

#[test]
fn get_by_id_finds_the_item_or_not() {
    let mut store = Container::new();
    todos_put(&mut store, "a", request(Some("t"), None));
    let found = todos_get(&store, "a");
    assert_eq!(found.kind, ResultKind::Success);
    assert_eq!(fields(found.item.as_ref().unwrap()), ("a", "t", false));
    let missing = todos_get(&store, "b");
    assert_eq!(missing.kind, ResultKind::NotFound);
    assert!(missing.item.is_none());
    let by_option = todos_id_get(&store, Some("a"), &GetPagination::default());
    assert_eq!(by_option.kind, ResultKind::Success);
    assert_eq!(by_option.item.unwrap().text, "t");
}

#[test]
fn get_without_an_id_lists_a_page() {
    let mut store = Container::new();
    for key in ["a", "b", "c", "d"] {
        todos_put(&mut store, key, request(Some(key), None));
    }
    let reply = todos_id_get(&store, None, &GetPagination { offset: Some(1), limit: Some(2) });
    assert_eq!(reply.kind, ResultKind::Success);
    assert!(reply.item.is_none());
    let ids: Vec<String> = reply.items.unwrap().into_iter().map(|i| i.id).collect();
    assert_eq!(ids, vec!["b", "c"]);
    let all = todos_list(&store, &GetPagination::default());
    assert_eq!(all.items.unwrap().len(), 4);
    let beyond = todos_list(&store, &GetPagination { offset: Some(9), limit: None });
    assert_eq!(beyond.kind, ResultKind::Success);
    assert!(beyond.items.unwrap().is_empty());
}

#[test]
fn put_without_an_id_stores_under_a_fresh_id() {
    let mut store = Container::new();
    let reply = todos_id_put(&mut store, None, request(Some("t"), None));
    assert_eq!(reply.kind, ResultKind::Created);
    let id = reply.item.unwrap().id;
    assert_eq!(id.len(), 36);
    assert_eq!(fields(&store.get_by_id(&id).unwrap()), (id.as_str(), "t", false));
    let other = todos_id_put(&mut store, None, request(None, None));
    assert_ne!(other.item.unwrap().id, id);
    assert_eq!(store._len(), 2);
}

#[test]
fn put_and_post_with_an_id_use_it() {
    let mut store = Container::new();
    let put = todos_id_put(&mut store, Some("x".to_string()), request(None, Some(true)));
    assert_eq!(put.item.unwrap().id, "x");
    let post = todos_id_post(&mut store, Some("x".to_string()), request(None, Some(false)));
    assert_eq!(post.kind, ResultKind::Conflict);
    assert!(post.item.unwrap().completed);
    let fresh = todos_id_post(&mut store, None, request(None, None));
    assert_eq!(fresh.kind, ResultKind::Created);
    assert_eq!(fresh.item.unwrap().id.len(), 36);
    assert_eq!(store._len(), 2);
}
