//! The to-do collection: items with a text and a completion flag.
use crate::container::Container;
use crate::ids::{id_or_fresh, is_random_id};
use crate::outcome::{delete_kind, Reply, ResultKind};
use crate::paging::{list_page, page_of, values_of, GetPagination};
use vstd::prelude::*;

verus! {

/// A stored to-do.
#[derive(Debug)]
pub struct Item {
    pub id: String,
    pub text: String,
    pub completed: bool,
}

/// A to-do as contracts see it.
pub struct ItemView {
    pub id: Seq<char>,
    pub text: Seq<char>,
    pub completed: bool,
}

impl View for Item {
    type V = ItemView;

    open spec fn view(&self) -> ItemView {
        ItemView { id: self.id@, text: self.text@, completed: self.completed }
    }
}

impl Clone for Item {
    fn clone(&self) -> (r: Self)
        ensures
            r == *self,
    {
        Item { id: self.id.clone(), text: self.text.clone(), completed: self.completed }
    }
}

/// The body of a write: each field may be absent.
#[derive(Debug)]
pub struct RequestType {
    pub text: Option<String>,
    pub completed: Option<bool>,
}

/// The text of a request, empty when absent.
pub open spec fn text_or_empty(text: Option<String>) -> Seq<char> {
    match text {
        Some(t) => t@,
        None => Seq::empty(),
    }
}

/// The item that a full write of `input` under `id` stores: absent fields
/// take their defaults.
pub open spec fn built(id: Seq<char>, input: RequestType) -> ItemView {
    ItemView {
        id,
        text: text_or_empty(input.text),
        completed: match input.completed {
            Some(c) => c,
            None => false,
        },
    }
}

/// The item that a partial write of `input` leaves: fields present in the
/// request replace the stored ones, the others stay.
pub open spec fn merged(stored: ItemView, input: RequestType) -> ItemView {
    ItemView {
        id: stored.id,
        text: match input.text {
            Some(t) => t@,
            None => stored.text,
        },
        completed: match input.completed {
            Some(c) => c,
            None => stored.completed,
        },
    }
}

/// What an upsert of `input` under `key` answers and leaves behind.
pub open spec fn put_result(
    before: Map<Seq<char>, Item>,
    key: Seq<char>,
    input: RequestType,
    r: Reply<Item>,
    after: Map<Seq<char>, Item>,
) -> bool {
    &&& r.kind == ResultKind::Created
    &&& r.items is None
    &&& r.item matches Some(item)
    &&& item@ == built(key, input)
    &&& after == before.insert(key, item)
}

/// What a create-or-conflict of `input` under `key` answers and leaves behind.
pub open spec fn post_result(
    before: Map<Seq<char>, Item>,
    key: Seq<char>,
    input: RequestType,
    r: Reply<Item>,
    after: Map<Seq<char>, Item>,
) -> bool {
    if before.contains_key(key) {
        &&& r.kind == ResultKind::Conflict
        &&& r.items is None
        &&& r.item == Some(before[key])
        &&& after == before
    } else {
        put_result(before, key, input, r, after)
    }
}

/// Of two upserts under one id the second wins, and nothing else changes:
/// the store is as if only the second had been made.
pub proof fn law_put_last_wins(
    before: Map<Seq<char>, Item>,
    key: Seq<char>,
    first: RequestType,
    r1: Reply<Item>,
    between: Map<Seq<char>, Item>,
    second: RequestType,
    r2: Reply<Item>,
    after: Map<Seq<char>, Item>,
)
    requires
        put_result(before, key, first, r1, between),
        put_result(between, key, second, r2, after),
    ensures
        after.contains_key(key),
        after[key]@ == built(key, second),
        after == before.insert(key, after[key]),
{
    assert(after =~= before.insert(key, after[key]));
}

/// A create on a free id answers "created" and stores the item built; a
/// second create on that id answers "conflict" with the stored item and
/// leaves it as it is.
pub proof fn law_post_conflict(
    before: Map<Seq<char>, Item>,
    key: Seq<char>,
    first: RequestType,
    r1: Reply<Item>,
    between: Map<Seq<char>, Item>,
    second: RequestType,
    r2: Reply<Item>,
    after: Map<Seq<char>, Item>,
)
    requires
        !before.contains_key(key),
        post_result(before, key, first, r1, between),
        post_result(between, key, second, r2, after),
    ensures
        r1.kind == ResultKind::Created,
        between.contains_key(key),
        between[key]@ == built(key, first),
        r2.kind == ResultKind::Conflict,
        r2.item == Some(between[key]),
        after == between,
        after[key]@ == built(key, first),
{
}

/// A partial write replaces the fields that the request holds and leaves the
/// others, the id among them, as they are stored.
pub proof fn law_patch_merges(stored: ItemView, input: RequestType)
    ensures
        merged(stored, input).id == stored.id,
        input.text matches Some(t) ==> merged(stored, input).text == t@,
        input.text is None ==> merged(stored, input).text == stored.text,
        input.completed matches Some(c) ==> merged(stored, input).completed == c,
        input.completed is None ==> merged(stored, input).completed == stored.completed,
        input.text is None && input.completed is None ==> merged(stored, input) == stored,
{
}

/// Builds the item of a full write.
fn build(id: &str, input: RequestType) -> (item: Item)
    ensures
        item@ == built(id@, input),
{
    let text = match input.text {
        Some(t) => t,
        None => String::new(),
    };
    let completed = match input.completed {
        Some(c) => c,
        None => false,
    };
    Item { id: id.to_owned(), text, completed }
}

/// One item by its id, or "not found".
pub fn todos_get(store: &Container<Item>, id: &str) -> (r: Reply<Item>)
    ensures
        r.items is None,
        store@.contains_key(id@) ==> r.kind == ResultKind::Success && r.item == Some(store@[id@]),
        !store@.contains_key(id@) ==> r.kind == ResultKind::NotFound && r.item is None,
{
    match store.get_by_id(id) {
        Some(item) => Reply::with_item(ResultKind::Success, item),
        None => Reply::bare(ResultKind::NotFound),
    }
}

/// One page of the collection.
pub fn todos_list(store: &Container<Item>, pagination: &GetPagination) -> (r: Reply<Item>)
    ensures
        r.kind == ResultKind::Success,
        r.item is None,
        r.items matches Some(items) && items@ == page_of(
            values_of(store.entries()),
            pagination.offset,
            pagination.limit,
        ),
{
    let items = list_page(store, pagination);
    assert(items@ =~= page_of(values_of(store.entries()), pagination.offset, pagination.limit));
    Reply::with_items(items)
}

/// With an id the item of that id, without one a page of the collection.
pub fn todos_id_get(store: &Container<Item>, id: Option<&str>, pagination: &GetPagination) -> (r:
    Reply<Item>)
    ensures
        match id {
            Some(key) => {
                &&& r.items is None
                &&& store@.contains_key(key@) ==> r.kind == ResultKind::Success && r.item == Some(
                    store@[key@],
                )
                &&& !store@.contains_key(key@) ==> r.kind == ResultKind::NotFound && r.item is None
            },
            None => {
                &&& r.kind == ResultKind::Success
                &&& r.item is None
                &&& r.items matches Some(items) && items@ == page_of(
                    values_of(store.entries()),
                    pagination.offset,
                    pagination.limit,
                )
            },
        },
{
    match id {
        Some(key) => todos_get(store, key),
        None => todos_list(store, pagination),
    }
}

/// Stores the item built from `input` under `id`, whatever was there.
pub fn todos_put(store: &mut Container<Item>, id: &str, input: RequestType) -> (r: Reply<Item>)
    ensures
        put_result(old(store)@, id@, input, r, final(store)@),
{
    let item = build(id, input);
    let copy = item.clone();
    store.put_by_id(id, item);
    Reply::with_item(ResultKind::Created, copy)
}

/// Stores the item built from `input` under `id` unless the id is taken:
/// then the stored item comes back with "conflict" and nothing changes.
pub fn todos_post(store: &mut Container<Item>, id: &str, input: RequestType) -> (r: Reply<Item>)
    ensures
        post_result(old(store)@, id@, input, r, final(store)@),
{
    match store.get_by_id(id) {
        Some(existing) => Reply::with_item(ResultKind::Conflict, existing),
        None => todos_put(store, id, input),
    }
}

/// An upsert under the id given, or under a fresh id where none is.
pub fn todos_id_put(store: &mut Container<Item>, id: Option<String>, input: RequestType) -> (r:
    Reply<Item>)
    ensures
        r.item matches Some(item) && put_result(old(store)@, item.id@, input, r, final(store)@),
        match id {
            Some(given) => r.item->0.id@ == given@,
            None => is_random_id(r.item->0.id@),
        },
{
    let key = id_or_fresh(id);
    todos_put(store, key.as_str(), input)
}

/// A create-or-conflict under the id given, or under a fresh id where none is.
pub fn todos_id_post(store: &mut Container<Item>, id: Option<String>, input: RequestType) -> (r:
    Reply<Item>)
    ensures
        exists|key: Seq<char>|
            {
                &&& #[trigger] post_result(old(store)@, key, input, r, final(store)@)
                &&& match id {
                    Some(given) => key == given@,
                    None => is_random_id(key),
                }
            },
{
    let key = id_or_fresh(id);
    todos_post(store, key.as_str(), input)
}

/// Merges the fields present in `input` into the item of `id`; "not found",
/// and no insertion, where there is no such item.
pub fn todos_id_patch(store: &mut Container<Item>, id: &str, input: RequestType) -> (r: Reply<Item>)
    ensures
        r.items is None,
        !old(store)@.contains_key(id@) ==> {
            &&& r.kind == ResultKind::NotFound
            &&& r.item is None
            &&& final(store)@ == old(store)@
        },
        old(store)@.contains_key(id@) ==> {
            &&& r.kind == ResultKind::Success
            &&& r.item matches Some(item)
            &&& item@ == merged(old(store)@[id@]@, input)
            &&& final(store)@ == old(store)@.insert(id@, item)
        },
{
    match store.get_by_id(id) {
        None => Reply::bare(ResultKind::NotFound),
        Some(stored) => {
            let text = match input.text {
                Some(t) => t,
                None => stored.text,
            };
            let completed = match input.completed {
                Some(c) => c,
                None => stored.completed,
            };
            let item = Item { id: stored.id, text, completed };
            let copy = item.clone();
            store.put_by_id(id, item);
            Reply::with_item(ResultKind::Success, copy)
        },
    }
}

/// Removes the item of `id`: "no content" where there was one, else "not found".
pub fn todos_id_delete(store: &mut Container<Item>, id: &str) -> (kind: ResultKind)
    ensures
        final(store)@ == old(store)@.remove(id@),
        kind == delete_kind(old(store)@, id@),
{
    match store.delete_by_id(id) {
        Some(_) => ResultKind::NoContent,
        None => ResultKind::NotFound,
    }
}

} // verus!
