use rest_presence::outcome::{status_code, Reply, ResultKind};

#[test]
fn each_kind_has_its_status_code() {
    assert_eq!(status_code(ResultKind::Success), 200);
    assert_eq!(status_code(ResultKind::Created), 201);
    assert_eq!(status_code(ResultKind::NoContent), 204);
    assert_eq!(status_code(ResultKind::NotFound), 404);
    assert_eq!(status_code(ResultKind::Conflict), 409);
}

#[test]
fn replies_carry_what_they_were_made_with() {
    let one = Reply::with_item(ResultKind::Created, 5u64);
    assert_eq!(one.kind, ResultKind::Created);
    assert_eq!(one.item, Some(5));
    assert!(one.items.is_none());
    let many = Reply::with_items(vec![1u64, 2]);
    assert_eq!(many.kind, ResultKind::Success);
    assert!(many.item.is_none());
    assert_eq!(many.items, Some(vec![1, 2]));
    let none: Reply<u64> = Reply::bare(ResultKind::NotFound);
    assert_eq!(none.kind, ResultKind::NotFound);
    assert!(none.item.is_none());
    assert!(none.items.is_none());
}
