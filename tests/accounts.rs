use session_auth::forms::{validate_full_name, Token};
use session_auth::paging::DataList;
use session_auth::users::{hash_password_with_cost, PasswordError, PublicUser, User};

#[test]
fn full_names_accepted_and_refused() {
    assert!(validate_full_name("John Doe").is_ok());
    assert!(validate_full_name("Zoë Ångström").is_ok());
    assert_eq!(validate_full_name("Jo").unwrap_err().code, "invalid_full_name");
    assert!(validate_full_name("John3").is_err());
    assert!(validate_full_name("John@Doe").is_err());
    assert!(validate_full_name("abcdefghijklmnopqrstu").is_err());
}

#[test]
fn full_name_ends_are_trimmed() {
    // "Al" is too short once its trailing spaces are gone.
    assert!(validate_full_name("Al   ").is_err());
    assert!(validate_full_name("   Ann").is_ok());
}

#[test]
fn full_name_whitespace_runs_collapse() {
    let spaced = format!("Ab{}c", " ".repeat(20));
    assert!(validate_full_name(&spaced).is_ok());
    assert!(validate_full_name("Ab\t\n c").is_ok());
}

#[test]
fn hashed_password_matches_only_itself() {
    let h = hash_password_with_cost("s3cret", 4).unwrap();
    assert_eq!(h.len(), 60);
    assert_ne!(h, "s3cret");
    let u = User::new("Ann".to_string(), "ann@example.com".to_string(), h);
    assert_eq!(u.id, 0);
    assert_eq!(u.created_at, u.updated_at);
    assert!(u.is_password_match("s3cret"));
    assert!(!u.is_password_match("other"));
}

#[test]
fn unreadable_hash_matches_nothing() {
    let u = User::new("Ann".to_string(), "a@b.c".to_string(), "not-a-hash".to_string());
    assert!(!u.is_password_match("not-a-hash"));
}

#[test]
fn cost_outside_range_is_refused() {
    assert_eq!(hash_password_with_cost("pw", 3), Err(PasswordError::HashPassword));
    assert_eq!(hash_password_with_cost("pw", 32), Err(PasswordError::HashPassword));
}

#[test]
fn public_user_drops_password() {
    let u = User::new("Ann".to_string(), "a@b.c".to_string(), "h".to_string());
    let created = u.created_at;
    let p = PublicUser::from(u);
    assert_eq!(p.name, "Ann");
    assert_eq!(p.email, "a@b.c");
    assert_eq!(p.created_at, created);
}

#[test]
fn refresh_form_holds_token() {
    let t = Token { refresh_token: "r".to_string() };
    assert_eq!(t.refresh_token, "r");
}

#[test]
fn data_list_meta() {
    let d = DataList::new(vec![1, 2]);
    assert!(d.meta.is_none());
    let m = DataList::with_meta(3, serde_json::Value::Bool(true));
    assert_eq!(m.data, 3);
    assert_eq!(m.meta, Some(serde_json::Value::Bool(true)));
}
