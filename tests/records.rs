use session_auth::paging::{calculate_offset, calculate_total_pages, PaginationMeta};
use session_auth::records::{generate_id, id_from_nanos, Address, Cart, Category, Store, User};

#[test]
fn total_pages_rounds_up() {
    assert_eq!(calculate_total_pages(0, 30), 0);
    assert_eq!(calculate_total_pages(25, 10), 3);
    assert_eq!(calculate_total_pages(30, 10), 3);
    assert_eq!(calculate_total_pages(1, 30), 1);
    assert_eq!(calculate_total_pages(i32::MAX, 1), i32::MAX);
    assert_eq!(calculate_total_pages(31, 30), 2);
    assert_eq!(calculate_total_pages(0, 0), 0);
    assert_eq!(calculate_total_pages(i32::MAX, i32::MAX), 1);
    assert_eq!(calculate_total_pages(-5, 10), 0);
    assert_eq!(calculate_total_pages(-15, 10), 0);
    assert_eq!(calculate_total_pages(-25, 10), -1);
}

#[test]
fn offset_of_page() {
    assert_eq!(calculate_offset(1, 30), 0);
    assert_eq!(calculate_offset(3, 10), 20);
}

#[test]
fn pagination_meta_pages() {
    let m = PaginationMeta::new(2, 10, 25);
    assert_eq!((m.page, m.per_page, m.total_items, m.total_pages), (2, 10, 25, 3));
    assert_eq!(PaginationMeta::new(1, 10, 0).total_pages, 0);
    assert_eq!(PaginationMeta::new(1, 0, 5).total_pages, i64::MAX);
    assert_eq!(PaginationMeta::new(1, 0, 0).total_pages, 0);
    assert_eq!(PaginationMeta::new(1, 10, -15).total_pages, -1);
}

#[test]
fn identifiers_from_nanoseconds() {
    assert_eq!(id_from_nanos(0x17a2_b3c4_d5e6_f708), "17a2b3c4d5e6f70");
    assert_eq!(id_from_nanos(255), "ff");
    assert_eq!(id_from_nanos(0), "0");
    let id = generate_id();
    assert_eq!(id.len(), 15);
    assert!(id.chars().all(|c| c.is_ascii_hexdigit() && !c.is_ascii_uppercase()));
}

#[test]
fn constructors_fill_bookkeeping() {
    let s = Store::new("Shop".to_string(), "shop".to_string(), "u1".to_string());
    assert_eq!(s.plan, "free");
    assert_eq!((s.product_limit, s.tag_limit, s.variant_limit), (10, 5, 5));
    assert!(s.active && !s.cancel_plan_at_end);
    assert_eq!(s.collection_id, "stores");
    assert_eq!(s.created, s.updated);
    let c = Category::new("Books".to_string(), "books".to_string(), None, Some("i.png".to_string()));
    assert_eq!(c.collection_name, "categories");
    assert_eq!(c.image.as_deref(), Some("i.png"));
    let cart = Cart::new(None, Some("sess".to_string()));
    assert_eq!(cart.collection_id, "carts");
    let a = Address::new("l1".into(), "c".into(), "s".into(), "p".into(), "co".into(), "u".into());
    assert_eq!(a.collection_id, "addresses");
    assert!(a.line2.is_none());
    let u = User::new("e@x.io".into(), "name".into(), None);
    assert_eq!(u.collection_id, "users");
    assert!(!u.verified && !u.email_visibility);
}
