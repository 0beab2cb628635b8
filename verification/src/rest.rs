//! The generic collection: items with one opaque `data` field.
//!
//! The payload type is the caller's. The collection copies it with `Clone`
//! and fills an absent one with `Default`; it reads nothing inside it.
use crate::container::Container;
use crate::ids::{id_or_fresh, is_random_id};
use crate::outcome::{delete_kind, Reply, ResultKind};
use crate::paging::{is_page_copy, list_page, GetPagination};
use vstd::prelude::*;

verus! {

/// A stored item.
#[derive(Debug)]
pub struct Item<V> {
    pub id: String,
    pub data: V,
}

impl<V: Clone> Clone for Item<V> {
    fn clone(&self) -> (r: Self)
        ensures
            r.id == self.id,
            cloned(self.data, r.data),
    {
        Item { id: self.id.clone(), data: self.data.clone() }
    }
}

/// The body of a write: the payload may be absent.
#[derive(Debug)]
pub struct RequestType<V> {
    pub data: Option<V>,
}

/// `d` is a value that `V::default()` may return.
pub open spec fn is_default<V: Default>(d: V) -> bool {
    call_ensures(V::default, (), d)
}

/// `d` is the payload that a full write of `input` stores: the one given, or
/// the default where none is.
pub open spec fn is_payload<V: Default>(input: RequestType<V>, d: V) -> bool {
    match input.data {
        Some(given) => d == given,
        None => is_default(d),
    }
}

/// `copy` is a copy of `item`.
pub open spec fn is_copy<V: Clone>(item: Item<V>, copy: Item<V>) -> bool {
    copy.id == item.id && cloned(item.data, copy.data)
}

/// What an upsert of `input` under `key` answers and leaves behind: the item
/// built comes back, and a copy of it is stored.
pub open spec fn put_result<V: Clone + Default>(
    before: Map<Seq<char>, Item<V>>,
    key: Seq<char>,
    input: RequestType<V>,
    r: Reply<Item<V>>,
    after: Map<Seq<char>, Item<V>>,
) -> bool {
    &&& r.kind == ResultKind::Created
    &&& r.items is None
    &&& r.item matches Some(item)
    &&& item.id@ == key
    &&& is_payload(input, item.data)
    &&& after.contains_key(key)
    &&& is_copy(item, after[key])
    &&& after == before.insert(key, after[key])
}

/// What a create-or-conflict of `input` under `key` answers and leaves behind.
pub open spec fn post_result<V: Clone + Default>(
    before: Map<Seq<char>, Item<V>>,
    key: Seq<char>,
    input: RequestType<V>,
    r: Reply<Item<V>>,
    after: Map<Seq<char>, Item<V>>,
) -> bool {
    if before.contains_key(key) {
        &&& r.kind == ResultKind::Conflict
        &&& r.items is None
        &&& r.item matches Some(item)
        &&& is_copy(before[key], item)
        &&& after == before
    } else {
        put_result(before, key, input, r, after)
    }
}

/// What a lookup of `key` answers.
pub open spec fn get_result<V: Clone>(
    stored: Map<Seq<char>, Item<V>>,
    key: Seq<char>,
    r: Reply<Item<V>>,
) -> bool {
    &&& r.items is None
    &&& if stored.contains_key(key) {
        &&& r.kind == ResultKind::Success
        &&& r.item matches Some(item)
        &&& is_copy(stored[key], item)
    } else {
        r.kind == ResultKind::NotFound && r.item is None
    }
}

/// What a partial write of `input` under `key` answers and leaves behind: a
/// payload in the request replaces the stored one, an absent one changes
/// nothing, and an unknown key is "not found" with no insertion.
pub open spec fn patch_result<V: Clone>(
    before: Map<Seq<char>, Item<V>>,
    key: Seq<char>,
    input: RequestType<V>,
    r: Reply<Item<V>>,
    after: Map<Seq<char>, Item<V>>,
) -> bool {
    &&& r.items is None
    &&& if !before.contains_key(key) {
        &&& r.kind == ResultKind::NotFound
        &&& r.item is None
        &&& after == before
    } else {
        &&& r.kind == ResultKind::Success
        &&& r.item matches Some(item)
        &&& item.id == before[key].id
        &&& match input.data {
            Some(given) => {
                &&& item.data == given
                &&& after.contains_key(key)
                &&& is_copy(item, after[key])
                &&& after == before.insert(key, after[key])
            },
            None => cloned(before[key].data, item.data) && after == before,
        }
    }
}

/// Of two upserts under one id the second wins, and nothing else changes:
/// the store is as if only the second had been made.
pub proof fn law_put_last_wins<V: Clone + Default>(
    before: Map<Seq<char>, Item<V>>,
    key: Seq<char>,
    first: RequestType<V>,
    r1: Reply<Item<V>>,
    between: Map<Seq<char>, Item<V>>,
    second: RequestType<V>,
    r2: Reply<Item<V>>,
    after: Map<Seq<char>, Item<V>>,
)
    requires
        put_result(before, key, first, r1, between),
        put_result(between, key, second, r2, after),
    ensures
        after.contains_key(key),
        r2.item is Some && is_payload(second, r2.item->0.data),
        is_copy(r2.item->0, after[key]),
        after == before.insert(key, after[key]),
{
    assert(after =~= before.insert(key, after[key]));
}

/// A create on a free id answers "created" and stores a copy of the item
/// built; a second create on that id answers "conflict" with a copy of the
/// stored item and leaves the store as it is.
pub proof fn law_post_conflict<V: Clone + Default>(
    before: Map<Seq<char>, Item<V>>,
    key: Seq<char>,
    first: RequestType<V>,
    r1: Reply<Item<V>>,
    between: Map<Seq<char>, Item<V>>,
    second: RequestType<V>,
    r2: Reply<Item<V>>,
    after: Map<Seq<char>, Item<V>>,
)
    requires
        !before.contains_key(key),
        post_result(before, key, first, r1, between),
        post_result(between, key, second, r2, after),
    ensures
        r1.kind == ResultKind::Created,
        r1.item is Some && is_payload(first, r1.item->0.data),
        between.contains_key(key),
        is_copy(r1.item->0, between[key]),
        r2.kind == ResultKind::Conflict,
        r2.item is Some && is_copy(between[key], r2.item->0),
        after == between,
{
}

/// A partial write without a payload changes nothing; one on an unknown key
/// is "not found" and inserts nothing.
pub proof fn law_patch_keeps<V: Clone>(
    before: Map<Seq<char>, Item<V>>,
    key: Seq<char>,
    input: RequestType<V>,
    r: Reply<Item<V>>,
    after: Map<Seq<char>, Item<V>>,
)
    requires
        patch_result(before, key, input, r, after),
    ensures
        !before.contains_key(key) ==> r.kind == ResultKind::NotFound && after == before,
        input.data is None ==> after == before,
        before.contains_key(key) ==> after.contains_key(key) && after[key].id == before[key].id,
        forall|other: Seq<char>|
            other != key ==> (after.contains_key(other) <==> before.contains_key(other)),
        forall|other: Seq<char>|
            other != key && before.contains_key(other) ==> after[other] == before[other],
{
}

/// One item by its id, or "not found".
pub fn rest_get<V: Clone>(store: &Container<Item<V>>, id: &str) -> (r: Reply<Item<V>>)
    ensures
        get_result(store@, id@, r),
{
    match store.get_by_id(id) {
        Some(item) => Reply::with_item(ResultKind::Success, item),
        None => Reply::bare(ResultKind::NotFound),
    }
}

/// With an id the item of that id, without one a page of the collection.
pub fn rest_id_get<V: Clone>(
    store: &Container<Item<V>>,
    id: Option<&str>,
    pagination: &GetPagination,
) -> (r: Reply<Item<V>>)
    ensures
        match id {
            Some(key) => get_result(store@, key@, r),
            None => {
                &&& r.kind == ResultKind::Success
                &&& r.item is None
                &&& r.items matches Some(items) && is_page_copy(
                    store.entries(),
                    pagination.offset,
                    pagination.limit,
                    items@,
                )
            },
        },
{
    match id {
        Some(key) => rest_get(store, key),
        None => Reply::with_items(list_page(store, pagination)),
    }
}

/// Stores a copy of the item built from `input` under `id`, whatever was there.
pub fn rest_put<V: Clone + Default>(
    store: &mut Container<Item<V>>,
    id: &str,
    input: RequestType<V>,
) -> (r: Reply<Item<V>>)
    ensures
        put_result(old(store)@, id@, input, r, final(store)@),
{
    let data = match input.data {
        Some(given) => given,
        None => V::default(),
    };
    let item = Item { id: id.to_owned(), data };
    store.put_by_id(id, item.clone());
    Reply::with_item(ResultKind::Created, item)
}

/// Stores the item built from `input` under `id` unless the id is taken:
/// then a copy of the stored item comes back with "conflict" and nothing
/// changes.
pub fn rest_post<V: Clone + Default>(
    store: &mut Container<Item<V>>,
    id: &str,
    input: RequestType<V>,
) -> (r: Reply<Item<V>>)
    ensures
        post_result(old(store)@, id@, input, r, final(store)@),
{
    match store.get_by_id(id) {
        Some(existing) => Reply::with_item(ResultKind::Conflict, existing),
        None => rest_put(store, id, input),
    }
}

/// An upsert under the id given, or under a fresh id where none is.
pub fn rest_id_put<V: Clone + Default>(
    store: &mut Container<Item<V>>,
    id: Option<String>,
    input: RequestType<V>,
) -> (r: Reply<Item<V>>)
    ensures
        r.item matches Some(item) && put_result(old(store)@, item.id@, input, r, final(store)@),
        match id {
            Some(given) => r.item->0.id@ == given@,
            None => is_random_id(r.item->0.id@),
        },
{
    let key = id_or_fresh(id);
    rest_put(store, key.as_str(), input)
}

/// A create-or-conflict under the id given, or under a fresh id where none is.
pub fn rest_id_post<V: Clone + Default>(
    store: &mut Container<Item<V>>,
    id: Option<String>,
    input: RequestType<V>,
) -> (r: Reply<Item<V>>)
    ensures
        exists|key: Seq<char>|
            {
                &&& #[trigger] post_result(old(store)@, key, input, r, final(store)@)
                &&& match id {
                    Some(given) => key == given@,
                    None => is_random_id(key),
                }
            },
{
    let key = id_or_fresh(id);
    rest_post(store, key.as_str(), input)
}

/// Replaces the payload of the item of `id` by the one in `input`, if there
/// is one; "not found", and no insertion, where there is no such item.
pub fn rest_id_patch<V: Clone>(
    store: &mut Container<Item<V>>,
    id: &str,
    input: RequestType<V>,
) -> (r: Reply<Item<V>>)
    ensures
        patch_result(old(store)@, id@, input, r, final(store)@),
{
    match store.get_by_id(id) {
        None => Reply::bare(ResultKind::NotFound),
        Some(stored) => match input.data {
            None => Reply::with_item(ResultKind::Success, stored),
            Some(given) => {
                let item = Item { id: stored.id, data: given };
                store.put_by_id(id, item.clone());
                Reply::with_item(ResultKind::Success, item)
            },
        },
    }
}

/// Removes the item of `id`: "no content" where there was one, else "not found".
pub fn rest_id_delete<V>(store: &mut Container<Item<V>>, id: &str) -> (kind: ResultKind)
    ensures
        final(store)@ == old(store)@.remove(id@),
        kind == delete_kind(old(store)@, id@),
{
    match store.delete_by_id(id) {
        Some(_) => ResultKind::NoContent,
        None => ResultKind::NotFound,
    }
}

} // verus!
