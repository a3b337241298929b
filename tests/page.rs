use white_hole::{decimal_string, PageToken, Paginator};

#[test]
fn first_page_defaults() {
    let p = PageToken::default();
    assert_eq!(p.limit, 20);
    assert_eq!(p.offset, 0);
    assert_eq!(p.as_limit_sql(), "LIMIT 21 OFFSET 0");
}

#[test]
fn next_page_drops_extra_row() {
    let p = PageToken { limit: 2, offset: 4 };
    let mut rows = vec![1, 2, 3];
    let n = p.next_page(&mut rows).unwrap();
    assert_eq!(rows, vec![1, 2]);
    assert_eq!(n.limit, 2);
    assert_eq!(n.offset, 6);
    let mut rows = vec![1, 2];
    assert!(p.next_page(&mut rows).is_none());
    assert_eq!(rows, vec![1, 2]);
}

#[test]
fn limit_clause_for_largest_limit() {
    let p = PageToken { limit: u32::MAX, offset: 7 };
    assert_eq!(Paginator::as_limit_sql(&p), "LIMIT 4294967296 OFFSET 7");
    assert_eq!(decimal_string(0), "0");
    assert_eq!(decimal_string(1234567890), "1234567890");
}

#[test]
fn last_page_needs_no_room_for_next_offset() {
    let p = PageToken { limit: 5, offset: u32::MAX };
    let mut rows = vec![1, 2];
    assert!(p.next_page(&mut rows).is_none());
    assert_eq!(rows, vec![1, 2]);
    let mut rows = vec![1, 2, 3, 4, 5, 6];
    assert!(Paginator::next_page(&p, &mut rows).is_none());
    assert_eq!(rows, vec![1, 2, 3, 4, 5]);
}
