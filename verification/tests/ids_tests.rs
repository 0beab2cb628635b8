use rest_presence::ids::id_or_fresh;

fn has_the_shape_of_a_random_id(id: &str) -> bool {
    let bytes = id.as_bytes();
    bytes.len() == 36
        && bytes.iter().enumerate().all(|(i, b)| {
            if i == 8 || i == 13 || i == 18 || i == 23 {
                *b == b'-'
            } else {
                b.is_ascii_digit() || (b'a'..=b'f').contains(b)
            }
        })
        && bytes[14] == b'4'
        && matches!(bytes[19], b'8' | b'9' | b'a' | b'b')
}

#[test]
fn a_given_id_is_kept() {
    assert_eq!(id_or_fresh(Some("my-id".to_string())), "my-id");
    assert_eq!(id_or_fresh(Some(String::new())), "");
}

#[test]
fn a_fresh_id_is_a_hyphenated_version_4_uuid() {
    for _ in 0..50 {
        let id = id_or_fresh(None);
        assert!(has_the_shape_of_a_random_id(&id));
        assert_eq!(uuid::Uuid::parse_str(&id).unwrap().get_version_num(), 4);
    }
}

#[test]
fn fresh_ids_differ() {
    let first = id_or_fresh(None);
    let second = id_or_fresh(None);
    assert_ne!(first, second);
}
