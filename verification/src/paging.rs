//! Offset and limit over a snapshot of a store.
//!
//! A page is a contiguous run of the snapshot: an offset beyond the end gives
//! an empty page, never an error, and a missing limit means no bound.
use crate::container::{is_snapshot, Container};
use vstd::prelude::*;

verus! {

/// The query parameters of a listing; both are optional.
#[derive(Debug, Default)]
pub struct GetPagination {
    /// Where the page starts; 0 when absent.
    pub offset: Option<usize>,
    /// How many items the page may hold; unbounded when absent.
    pub limit: Option<usize>,
}

/// The offset asked for, 0 when none was given.
pub open spec fn offset_of(offset: Option<usize>) -> nat {
    match offset {
        Some(o) => o as nat,
        None => 0,
    }
}

/// The number of items on the page of `n` items: `max(0, min(limit, n - offset))`.
pub open spec fn page_len(n: nat, offset: Option<usize>, limit: Option<usize>) -> nat {
    let rest = if offset_of(offset) < n {
        (n - offset_of(offset)) as nat
    } else {
        0
    };
    match limit {
        Some(l) => if (l as nat) < rest {
            l as nat
        } else {
            rest
        },
        None => rest,
    }
}

/// The index of the first item on the page; `n` where the offset is out of range.
pub open spec fn page_start(n: nat, offset: Option<usize>) -> nat {
    if offset_of(offset) < n {
        offset_of(offset)
    } else {
        n
    }
}

/// The page itself: skip `offset` items, then take `limit`.
pub open spec fn page_of<T>(s: Seq<T>, offset: Option<usize>, limit: Option<usize>) -> Seq<T> {
    s.subrange(
        page_start(s.len(), offset) as int,
        (page_start(s.len(), offset) + page_len(s.len(), offset, limit)) as int,
    )
}

/// The values of a sequence of entries, keys dropped.
pub open spec fn values_of<T>(s: Seq<(Seq<char>, T)>) -> Seq<T> {
    s.map_values(|e: (Seq<char>, T)| e.1)
}

/// `r` holds a copy of each value on the page of the entries `s`, in order.
pub open spec fn is_page_copy<T: Clone>(
    s: Seq<(Seq<char>, T)>,
    offset: Option<usize>,
    limit: Option<usize>,
    r: Seq<T>,
) -> bool {
    &&& r.len() == page_len(s.len(), offset, limit)
    &&& forall|i: int|
        0 <= i < r.len() ==> cloned(s[page_start(s.len(), offset) + i].1, #[trigger] r[i])
}

/// The page of a snapshot of `N` items holds `max(0, min(limit, N - offset))`
/// of them, and exactly the items from `offset` on, in the snapshot's order.
/// It is a function of the snapshot: the same snapshot gives the same page.
pub proof fn law_page_exact<T>(s: Seq<T>, offset: Option<usize>, limit: Option<usize>)
    ensures
        page_of(s, offset, limit).len() == page_len(s.len(), offset, limit),
        page_len(s.len(), offset, limit) == vstd::math::max(
            0,
            match limit {
                Some(l) => vstd::math::min(l as int, s.len() - offset_of(offset)),
                None => s.len() - offset_of(offset),
            },
        ),
        forall|i: int|
            0 <= i < page_len(s.len(), offset, limit) ==> #[trigger] page_of(s, offset, limit)[i]
                == s[offset_of(offset) + i],
        offset_of(offset) >= s.len() ==> page_of(s, offset, limit) == Seq::<T>::empty(),
        offset is None && limit is None ==> page_of(s, offset, limit) == s,
{
    assert(offset_of(offset) >= s.len() ==> page_of(s, offset, limit) =~= Seq::<T>::empty());
    assert(offset is None && limit is None ==> page_of(s, offset, limit) =~= s);
}

/// Cuts `items` down to the page that `offset` and `limit` select.
pub fn page<T>(items: Vec<T>, offset: Option<usize>, limit: Option<usize>) -> (r: Vec<T>)
    ensures
        r@ == page_of(items@, offset, limit),
        r@.len() == page_len(items@.len(), offset, limit),
{
    let ghost all = items@;
    let mut items = items;
    let n = items.len();
    let start = match offset {
        Some(o) => if o < n {
            o
        } else {
            n
        },
        None => 0,
    };
    let rest = n - start;
    let count = match limit {
        Some(l) => if l < rest {
            l
        } else {
            rest
        },
        None => rest,
    };
    items.truncate(start + count);
    let r = items.split_off(start);
    assert(r@ =~= page_of(all, offset, limit)) by {
        assert(start == page_start(n as nat, offset));
        assert(count == page_len(n as nat, offset, limit));
    }
    r
}

/// The values of a snapshot, keys dropped, in the snapshot's order.
pub fn into_values<T>(entries: Vec<(String, T)>) -> (r: Vec<T>)
    ensures
        r@ == entries@.map_values(|e: (String, T)| e.1),
{
    let mut entries = entries;
    let ghost all = entries@;
    let mut reversed: Vec<T> = Vec::new();
    while entries.len() > 0
        invariant
            entries@.len() + reversed@.len() == all.len(),
            entries@ == all.subrange(0, entries@.len() as int),
            forall|i: int|
                0 <= i < reversed@.len() ==> reversed@[i] == (#[trigger] all[all.len() - 1 - i]).1,
        decreases entries@.len(),
    {
        let last = entries.pop();
        match last {
            Some((_, value)) => {
                reversed.push(value);
            },
            None => {},
        }
    }
    let mut r: Vec<T> = Vec::new();
    while reversed.len() > 0
        invariant
            reversed@.len() + r@.len() == all.len(),
            forall|i: int|
                0 <= i < reversed@.len() ==> reversed@[i] == (#[trigger] all[all.len() - 1 - i]).1,
            forall|i: int| 0 <= i < r@.len() ==> r@[i] == (#[trigger] all[i]).1,
        decreases reversed@.len(),
    {
        let ghost top = reversed@.len() - 1;
        assert(reversed@[top] == all[all.len() - 1 - top].1);
        let last = reversed.pop();
        match last {
            Some(value) => {
                r.push(value);
            },
            None => {},
        }
    }
    assert(r@ =~= all.map_values(|e: (String, T)| e.1));
    r
}

/// One page of copies of the stored values, in the store's order.
pub fn list_page<T: Clone>(store: &Container<T>, pagination: &GetPagination) -> (r: Vec<T>)
    ensures
        is_page_copy(store.entries(), pagination.offset, pagination.limit, r@),
{
    let snapshot = store.get_all();
    let cut = page(snapshot, pagination.offset, pagination.limit);
    let r = into_values(cut);
    proof {
        let s = store.entries();
        let start = page_start(s.len(), pagination.offset) as int;
        assert forall|i: int| 0 <= i < r@.len() implies cloned(s[start + i].1, #[trigger] r@[i]) by {
            assert(cut@[i] == snapshot@[start + i]);
            assert(r@[i] == cut@[i].1);
        }
    }
    r
}

} // verus!
