//! The node collection: items with an opaque content and links to the
//! neighbouring nodes.
use crate::container::Container;
use crate::ids::{id_or_fresh, is_random_id};
use crate::outcome::{delete_kind, Reply, ResultKind};
use crate::paging::{is_page_copy, list_page, GetPagination};
use crate::rest::is_default;
use vstd::prelude::*;

verus! {

/// What every kind of node can do.
pub trait Node {
    /// Runs the node's own step; `true` where it asks for its successor to run.
    fn _run(&self) -> bool;
}

/// A node that holds a content and does nothing when run.
#[derive(Debug)]
pub struct BasicNode<V> {
    pub id: String,
    pub content: V,
    pub next_id: Option<String>,
    pub prev_id: Option<String>,
}

impl<V> Node for BasicNode<V> {
    fn _run(&self) -> (r: bool)
        ensures
            !r,
    {
        false
    }
}

/// The characters of an optional link.
pub open spec fn link_of(link: Option<String>) -> Option<Seq<char>> {
    match link {
        Some(id) => Some(id@),
        None => None,
    }
}

/// `copy` is a copy of `node`.
pub open spec fn is_copy<V: Clone>(node: BasicNode<V>, copy: BasicNode<V>) -> bool {
    &&& copy.id == node.id
    &&& cloned(node.content, copy.content)
    &&& link_of(copy.next_id) == link_of(node.next_id)
    &&& link_of(copy.prev_id) == link_of(node.prev_id)
}

impl<V: Clone> Clone for BasicNode<V> {
    fn clone(&self) -> (r: Self)
        ensures
            is_copy(*self, r),
    {
        let next_id = match &self.next_id {
            Some(id) => Some(id.clone()),
            None => None,
        };
        let prev_id = match &self.prev_id {
            Some(id) => Some(id.clone()),
            None => None,
        };
        BasicNode { id: self.id.clone(), content: self.content.clone(), next_id, prev_id }
    }
}

/// The body of a write: the content may be absent.
#[derive(Debug)]
pub struct RequestType<V> {
    pub data: Option<V>,
}

/// `node` is the node that `factory` makes of `id` and `data`: the content
/// given, or the default where none is, and no links.
pub open spec fn is_made<V: Default>(id: Seq<char>, data: Option<V>, node: BasicNode<V>) -> bool {
    &&& node.id@ == id
    &&& match data {
        Some(given) => node.content == given,
        None => is_default(node.content),
    }
    &&& node.next_id is None
    &&& node.prev_id is None
}

/// What `factory_put` hands back and leaves behind: the node made comes back,
/// and a copy of it is stored.
pub open spec fn put_result<V: Clone + Default>(
    before: Map<Seq<char>, BasicNode<V>>,
    key: Seq<char>,
    data: Option<V>,
    node: BasicNode<V>,
    after: Map<Seq<char>, BasicNode<V>>,
) -> bool {
    &&& is_made(key, data, node)
    &&& after.contains_key(key)
    &&& is_copy(node, after[key])
    &&& after == before.insert(key, after[key])
}

/// What `factory_post` hands back and leaves behind: on a taken id `false`
/// and a copy of the stored node, with nothing changed; else `true` and what
/// `factory_put` does.
pub open spec fn post_result<V: Clone + Default>(
    before: Map<Seq<char>, BasicNode<V>>,
    key: Seq<char>,
    data: Option<V>,
    r: (bool, BasicNode<V>),
    after: Map<Seq<char>, BasicNode<V>>,
) -> bool {
    if before.contains_key(key) {
        !r.0 && is_copy(before[key], r.1) && after == before
    } else {
        r.0 && put_result(before, key, data, r.1, after)
    }
}

/// What a lookup of `key` answers.
pub open spec fn get_result<V: Clone>(
    stored: Map<Seq<char>, BasicNode<V>>,
    key: Seq<char>,
    r: Reply<BasicNode<V>>,
) -> bool {
    &&& r.items is None
    &&& if stored.contains_key(key) {
        &&& r.kind == ResultKind::Success
        &&& r.item matches Some(node)
        &&& is_copy(stored[key], node)
    } else {
        r.kind == ResultKind::NotFound && r.item is None
    }
}

/// What a partial write of `input` under `key` answers and leaves behind: a
/// content in the request replaces the stored one and the links stay; an
/// absent one changes nothing; an unknown key is "not found" with no insertion.
pub open spec fn patch_result<V: Clone>(
    before: Map<Seq<char>, BasicNode<V>>,
    key: Seq<char>,
    input: RequestType<V>,
    r: Reply<BasicNode<V>>,
    after: Map<Seq<char>, BasicNode<V>>,
) -> bool {
    &&& r.items is None
    &&& if !before.contains_key(key) {
        &&& r.kind == ResultKind::NotFound
        &&& r.item is None
        &&& after == before
    } else {
        &&& r.kind == ResultKind::Success
        &&& r.item matches Some(node)
        &&& node.id == before[key].id
        &&& link_of(node.next_id) == link_of(before[key].next_id)
        &&& link_of(node.prev_id) == link_of(before[key].prev_id)
        &&& match input.data {
            Some(given) => {
                &&& node.content == given
                &&& after.contains_key(key)
                &&& is_copy(node, after[key])
                &&& after == before.insert(key, after[key])
            },
            None => cloned(before[key].content, node.content) && after == before,
        }
    }
}

/// A create on a free id hands back `true` and stores a copy of the node
/// made; a second create on that id hands back `false` with a copy of the
/// stored node and leaves the store as it is.
pub proof fn law_post_conflict<V: Clone + Default>(
    before: Map<Seq<char>, BasicNode<V>>,
    key: Seq<char>,
    first: Option<V>,
    r1: (bool, BasicNode<V>),
    between: Map<Seq<char>, BasicNode<V>>,
    second: Option<V>,
    r2: (bool, BasicNode<V>),
    after: Map<Seq<char>, BasicNode<V>>,
)
    requires
        !before.contains_key(key),
        post_result(before, key, first, r1, between),
        post_result(between, key, second, r2, after),
    ensures
        r1.0,
        is_made(key, first, r1.1),
        between.contains_key(key),
        is_copy(r1.1, between[key]),
        !r2.0,
        is_copy(between[key], r2.1),
        after == between,
{
}

/// A partial write keeps the links and the id; without a content it changes
/// nothing, and on an unknown key it is "not found" and inserts nothing.
pub proof fn law_patch_keeps<V: Clone>(
    before: Map<Seq<char>, BasicNode<V>>,
    key: Seq<char>,
    input: RequestType<V>,
    r: Reply<BasicNode<V>>,
    after: Map<Seq<char>, BasicNode<V>>,
)
    requires
        patch_result(before, key, input, r, after),
    ensures
        !before.contains_key(key) ==> r.kind == ResultKind::NotFound && after == before,
        input.data is None ==> after == before,
        before.contains_key(key) ==> {
            &&& after.contains_key(key)
            &&& after[key].id == before[key].id
            &&& link_of(after[key].next_id) == link_of(before[key].next_id)
            &&& link_of(after[key].prev_id) == link_of(before[key].prev_id)
        },
{
}

impl<V> BasicNode<V> {
    /// The node's id.
    pub fn id(&self) -> (r: &str)
        ensures
            r@ == self.id@,
    {
        self.id.as_str()
    }

    /// The id of the node that follows, if any.
    pub fn next_id(&self) -> (r: Option<&str>)
        ensures
            match r {
                Some(id) => self.next_id matches Some(next) && id@ == next@,
                None => self.next_id is None,
            },
    {
        match &self.next_id {
            Some(id) => Some(id.as_str()),
            None => None,
        }
    }

    /// The id of the node that precedes, if any.
    pub fn prev_id(&self) -> (r: Option<&str>)
        ensures
            match r {
                Some(id) => self.prev_id matches Some(prev) && id@ == prev@,
                None => self.prev_id is None,
            },
    {
        match &self.prev_id {
            Some(id) => Some(id.as_str()),
            None => None,
        }
    }

    /// A node of `id` with the content `data`, or the default content where
    /// none is given, and without links.
    pub fn factory(id: &str, data: Option<V>) -> (node: Self) where V: Default
        ensures
            is_made(id@, data, node),
    {
        match data {
            Some(value) => BasicNode { id: id.to_owned(), content: value, next_id: None, prev_id: None },
            None => BasicNode {
                id: id.to_owned(),
                content: V::default(),
                next_id: None,
                prev_id: None,
            },
        }
    }

    /// Makes a node and stores a copy of it under `id`, whatever was there.
    pub fn factory_put(container: &mut Container<BasicNode<V>>, id: &str, data: Option<V>) -> (node:
        Self) where V: Clone + Default
        ensures
            put_result(old(container)@, id@, data, node, final(container)@),
    {
        let new_value = Self::factory(id, data);
        container.put_by_id(id, new_value.clone());
        new_value
    }

    /// Makes a node and stores a copy of it under `id` unless the id is
    /// taken: then `false` comes back with a copy of the stored node.
    pub fn factory_post(container: &mut Container<BasicNode<V>>, id: &str, data: Option<V>) -> (r: (
        bool,
        Self,
    )) where V: Clone + Default
        ensures
            post_result(old(container)@, id@, data, r, final(container)@),
    {
        match container.get_by_id(id) {
            Some(value) => (false, value),
            None => {
                let new_value = Self::factory_put(container, id, data);
                (true, new_value)
            },
        }
    }
}

/// One node by its id, or "not found".
pub fn node_get<V: Clone>(store: &Container<BasicNode<V>>, id: &str) -> (r: Reply<BasicNode<V>>)
    ensures
        get_result(store@, id@, r),
{
    match store.get_by_id(id) {
        Some(node) => Reply::with_item(ResultKind::Success, node),
        None => Reply::bare(ResultKind::NotFound),
    }
}

/// With an id the node of that id, without one a page of the collection.
pub fn node_id_get<V: Clone>(
    store: &Container<BasicNode<V>>,
    id: Option<&str>,
    pagination: &GetPagination,
) -> (r: Reply<BasicNode<V>>)
    ensures
        match id {
            Some(key) => get_result(store@, key@, r),
            None => {
                &&& r.kind == ResultKind::Success
                &&& r.item is None
                &&& r.items matches Some(items) && is_page_copy(
                    store.entries(),
                    pagination.offset,
                    pagination.limit,
                    items@,
                )
            },
        },
{
    match id {
        Some(key) => node_get(store, key),
        None => Reply::with_items(list_page(store, pagination)),
    }
}

/// An upsert under the id given, or under a fresh id where none is.
pub fn node_id_put<V: Clone + Default>(
    store: &mut Container<BasicNode<V>>,
    id: Option<String>,
    input: RequestType<V>,
) -> (r: Reply<BasicNode<V>>)
    ensures
        r.kind == ResultKind::Created,
        r.items is None,
        r.item matches Some(node) && put_result(
            old(store)@,
            node.id@,
            input.data,
            node,
            final(store)@,
        ),
        match id {
            Some(given) => r.item->0.id@ == given@,
            None => is_random_id(r.item->0.id@),
        },
{
    let key = id_or_fresh(id);
    let node = BasicNode::factory_put(store, key.as_str(), input.data);
    Reply::with_item(ResultKind::Created, node)
}

/// What a create-or-conflict under `key` answers and leaves behind: on a
/// taken id "conflict" and a copy of the stored node, with nothing changed;
/// else "created" and what `factory_put` does.
pub open spec fn post_reply<V: Clone + Default>(
    before: Map<Seq<char>, BasicNode<V>>,
    key: Seq<char>,
    data: Option<V>,
    r: Reply<BasicNode<V>>,
    after: Map<Seq<char>, BasicNode<V>>,
) -> bool {
    &&& r.items is None
    &&& r.item matches Some(node)
    &&& if before.contains_key(key) {
        r.kind == ResultKind::Conflict && is_copy(before[key], node) && after == before
    } else {
        r.kind == ResultKind::Created && put_result(before, key, data, node, after)
    }
}

/// A create-or-conflict under `id`.
pub fn node_post<V: Clone + Default>(
    store: &mut Container<BasicNode<V>>,
    id: &str,
    input: RequestType<V>,
) -> (r: Reply<BasicNode<V>>)
    ensures
        post_reply(old(store)@, id@, input.data, r, final(store)@),
{
    let made = BasicNode::factory_post(store, id, input.data);
    if made.0 {
        Reply::with_item(ResultKind::Created, made.1)
    } else {
        Reply::with_item(ResultKind::Conflict, made.1)
    }
}

/// A create-or-conflict under the id given, or under a fresh id where none is.
pub fn node_id_post<V: Clone + Default>(
    store: &mut Container<BasicNode<V>>,
    id: Option<String>,
    input: RequestType<V>,
) -> (r: Reply<BasicNode<V>>)
    ensures
        exists|key: Seq<char>|
            {
                &&& #[trigger] post_reply(old(store)@, key, input.data, r, final(store)@)
                &&& match id {
                    Some(given) => key == given@,
                    None => is_random_id(key),
                }
            },
{
    let key = id_or_fresh(id);
    node_post(store, key.as_str(), input)
}

/// Replaces the content of the node of `id` by the one in `input`, if there
/// is one, and keeps its links; "not found", and no insertion, where there is
/// no such node.
pub fn node_id_patch<V: Clone>(
    store: &mut Container<BasicNode<V>>,
    id: &str,
    input: RequestType<V>,
) -> (r: Reply<BasicNode<V>>)
    ensures
        patch_result(old(store)@, id@, input, r, final(store)@),
{
    match store.get_by_id(id) {
        None => Reply::bare(ResultKind::NotFound),
        Some(stored) => match input.data {
            None => Reply::with_item(ResultKind::Success, stored),
            Some(given) => {
                let node = BasicNode {
                    id: stored.id,
                    content: given,
                    next_id: stored.next_id,
                    prev_id: stored.prev_id,
                };
                store.put_by_id(id, node.clone());
                Reply::with_item(ResultKind::Success, node)
            },
        },
    }
}

/// Removes the node of `id`: "no content" where there was one, else "not found".
pub fn node_id_delete<V>(store: &mut Container<BasicNode<V>>, id: &str) -> (kind: ResultKind)
    ensures
        final(store)@ == old(store)@.remove(id@),
        kind == delete_kind(old(store)@, id@),
{
    match store.delete_by_id(id) {
        Some(_) => ResultKind::NoContent,
        None => ResultKind::NotFound,
    }
}

} // verus!
