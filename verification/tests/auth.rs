use jsserve::auth::{authenticate, hash_to_verify, User, USER_BY_ID, USER_BY_NAME};
use serde_json::Value;

fn ann() -> User {
    User { id: "ann".to_string(), pw_hash: vec![1, 2, 3], raw: Value::Null }
}

#[test]
fn a_user_has_an_id_and_a_hash() {
    assert_eq!(ann().id(), "ann");
    assert_eq!(ann().session_auth_hash(), &[1, 2, 3]);
}

#[test]
fn the_hash_of_a_user_that_was_found_is_verified() {
    assert_eq!(hash_to_verify(&Some(ann())), Some(&[1u8, 2, 3][..]));
    assert_eq!(hash_to_verify(&None), None);
}

#[test]
fn only_a_verified_user_is_let_in() {
    assert_eq!(authenticate(Some(ann()), true).unwrap().id, "ann");
    assert!(authenticate(Some(ann()), false).is_none());
    assert!(authenticate(None, true).is_none());
    assert!(authenticate(None, false).is_none());
}

#[test]
fn users_are_found_by_name_and_id() {
    assert_eq!(USER_BY_NAME, "select * from users where username = ? ");
    assert_eq!(USER_BY_ID, "select * from users where id = ?");
}
