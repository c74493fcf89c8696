use std::time::{SystemTime, UNIX_EPOCH};

use api_core::authentication::role::Role;

#[test]
fn test_curent_time() {
    match SystemTime::now().duration_since(UNIX_EPOCH) {
        Ok(n) => println!("curent time: {}", n.as_secs()),
        Err(_) => panic!("panic"),
    }
}

#[test]
fn role_from_str_reads_admin() {
    assert!(Role::from_str("admin") == Role::Admin);
}

#[test]
fn role_from_str_defaults_to_user() {
    assert!(Role::from_str("user") == Role::User);
    assert!(Role::from_str("Admin") == Role::User);
    assert!(Role::from_str("admin ") == Role::User);
    assert!(Role::from_str("") == Role::User);
}

#[test]
fn role_to_string_keeps_the_labels() {
    assert_eq!(Role::User.to_string(), "User");
    assert_eq!(Role::Admin.to_string(), "admin");
}
