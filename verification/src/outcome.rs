//! What an operation on a resource collection hands back.
//!
//! "Not found" and "conflict" are expected outcomes and come back as values.
use vstd::prelude::*;

verus! {

/// How an operation ended.
#[derive(Clone, Copy, Debug, PartialEq, Eq, Structural)]
pub enum ResultKind {
    Success,
    Created,
    Conflict,
    NotFound,
    NoContent,
}

/// The status code that stands for each kind on the wire.
pub open spec fn status_of(kind: ResultKind) -> u16 {
    match kind {
        ResultKind::Success => 200,
        ResultKind::Created => 201,
        ResultKind::NoContent => 204,
        ResultKind::NotFound => 404,
        ResultKind::Conflict => 409,
    }
}

/// The status code that stands for `kind` on the wire.
pub fn status_code(kind: ResultKind) -> (code: u16)
    ensures
        code == status_of(kind),
{
    match kind {
        ResultKind::Success => 200,
        ResultKind::Created => 201,
        ResultKind::NoContent => 204,
        ResultKind::NotFound => 404,
        ResultKind::Conflict => 409,
    }
}

/// How a removal of `key` from `stored` ends.
pub open spec fn delete_kind<T>(stored: Map<Seq<char>, T>, key: Seq<char>) -> ResultKind {
    if stored.contains_key(key) {
        ResultKind::NoContent
    } else {
        ResultKind::NotFound
    }
}

/// After a removal of `key` a second one ends in "not found" and changes
/// nothing.
pub proof fn law_second_delete_not_found<T>(stored: Map<Seq<char>, T>, key: Seq<char>)
    ensures
        !stored.remove(key).contains_key(key),
        delete_kind(stored.remove(key), key) == ResultKind::NotFound,
        stored.remove(key).remove(key) == stored.remove(key),
{
    assert(stored.remove(key).remove(key) =~= stored.remove(key));
}

/// The result of one operation: its kind, and the item or the page of items
/// that goes with it.
#[derive(Debug)]
pub struct Reply<T> {
    pub kind: ResultKind,
    pub item: Option<T>,
    pub items: Option<Vec<T>>,
}

impl<T> Reply<T> {
    /// A reply that carries one item.
    pub fn with_item(kind: ResultKind, item: T) -> (r: Self)
        ensures
            r.kind == kind,
            r.item == Some(item),
            r.items is None,
    {
        Reply { kind, item: Some(item), items: None }
    }

    /// A reply that carries a page of items.
    pub fn with_items(items: Vec<T>) -> (r: Self)
        ensures
            r.kind == ResultKind::Success,
            r.item is None,
            r.items == Some(items),
    {
        Reply { kind: ResultKind::Success, item: None, items: Some(items) }
    }

    /// A reply without content.
    pub fn bare(kind: ResultKind) -> (r: Self)
        ensures
            r.kind == kind,
            r.item is None,
            r.items is None,
    {
        Reply { kind, item: None, items: None }
    }
}

} // verus!
