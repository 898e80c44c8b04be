use auth_service::auth::AuthService;
use auth_service::auth::StatusCode;
use auth_service::sessions::SessionsImpl;
use auth_service::users::{UserStoreError, Users, UsersImpl};

#[test]
fn sign_in_should_fail_if_user_not_found() {
    let users_service = UsersImpl::default();
    let sessions_service = SessionsImpl::default();

    let mut auth_service = AuthService::new(users_service, sessions_service);

    let result = auth_service.sign_in("123456".to_owned(), "654321".to_owned());

    assert_eq!(result.status_code, StatusCode::Failure);
    assert_eq!(result.user_uuid.is_empty(), true);
    assert_eq!(result.session_token.is_empty(), true);
}

#[test]
fn sign_in_should_fail_if_incorrect_password() {
    let mut users_service = UsersImpl::default();

    let _ = users_service.create_user("123456".to_owned(), "654321".to_owned());

    let sessions_service = SessionsImpl::default();

    let mut auth_service = AuthService::new(users_service, sessions_service);

    let result = auth_service.sign_in("123456".to_owned(), "wrong password".to_owned());

    assert_eq!(result.status_code, StatusCode::Failure);
    assert_eq!(result.user_uuid.is_empty(), true);
    assert_eq!(result.session_token.is_empty(), true);
}

#[test]
fn sign_in_should_succeed() {
    let mut users_service = UsersImpl::default();

    let _ = users_service.create_user("123456".to_owned(), "654321".to_owned());

    let sessions_service = SessionsImpl::default();

    let mut auth_service = AuthService::new(users_service, sessions_service);

    let result = auth_service.sign_in("123456".to_owned(), "654321".to_owned());

    assert_eq!(result.status_code, StatusCode::Success);
    assert_eq!(result.user_uuid.is_empty(), false);
    assert_eq!(result.session_token.is_empty(), false);
}

#[test]
fn sign_up_should_fail_if_username_exists() {
    let mut users_service = UsersImpl::default();

    let _ = users_service.create_user("123456".to_owned(), "654321".to_owned());

    let sessions_service = SessionsImpl::default();

    let mut auth_service = AuthService::new(users_service, sessions_service);

    let result = auth_service.sign_up("123456".to_owned(), "654321".to_owned());

    assert_eq!(result.status_code, StatusCode::Failure);
}

#[test]
fn sign_up_should_succeed() {
    let users_service = UsersImpl::default();
    let sessions_service = SessionsImpl::default();

    let mut auth_service = AuthService::new(users_service, sessions_service);

    let result = auth_service.sign_up("123456".to_owned(), "654321".to_owned());

    assert_eq!(result.status_code, StatusCode::Success);
}

#[test]
fn sign_out_should_succeed() {
    let users_service = UsersImpl::default();
    let sessions_service = SessionsImpl::default();

    let mut auth_service = AuthService::new(users_service, sessions_service);

    let result = auth_service.sign_out("".to_owned());

    assert_eq!(result.status_code, StatusCode::Success);
}

#[test]
fn end_to_end_scenario() {
    let mut svc = AuthService::new(UsersImpl::new(), SessionsImpl::new());

    let up = svc.sign_up("alice".to_owned(), "pw1".to_owned());
    assert_eq!(up.status_code, StatusCode::Success);

    let in_ok = svc.sign_in("alice".to_owned(), "pw1".to_owned());
    assert_eq!(in_ok.status_code, StatusCode::Success);
    let token = in_ok.session_token.clone();
    assert!(!token.is_empty());
    assert!(!in_ok.user_uuid.is_empty());

    let in_bad = svc.sign_in("alice".to_owned(), "wrong".to_owned());
    assert_eq!(in_bad.status_code, StatusCode::Failure);
    assert!(in_bad.user_uuid.is_empty());
    assert!(in_bad.session_token.is_empty());

    let out1 = svc.sign_out(token.clone());
    assert_eq!(out1.status_code, StatusCode::Success);

    let out2 = svc.sign_out(token);
    assert_eq!(out2.status_code, StatusCode::Success);
}

#[test]
fn second_sign_up_for_same_username_fails() {
    let mut svc = AuthService::new(UsersImpl::new(), SessionsImpl::new());

    let first = svc.sign_up("bob".to_owned(), "pw1".to_owned());
    assert_eq!(first.status_code, StatusCode::Success);

    let second = svc.sign_up("bob".to_owned(), "pw2".to_owned());
    assert_eq!(second.status_code, StatusCode::Failure);

    let third = svc.sign_up("bob".to_owned(), "pw1".to_owned());
    assert_eq!(third.status_code, StatusCode::Failure);
}

#[test]
fn serialized_sign_ups_accept_exactly_one() {
    let mut svc = AuthService::new(UsersImpl::new(), SessionsImpl::new());

    let mut successes = 0;
    let mut failures = 0;
    for i in 0..10 {
        let r = svc.sign_up("carol".to_owned(), format!("pw{}", i));
        if r.status_code == StatusCode::Success {
            successes += 1;
        } else {
            failures += 1;
        }
    }
    assert_eq!(successes, 1);
    assert_eq!(failures, 9);
}

#[test]
fn sign_out_twice_with_valid_token_succeeds_both_times() {
    let mut svc = AuthService::new(UsersImpl::new(), SessionsImpl::new());

    let up = svc.sign_up("dave".to_owned(), "pw".to_owned());
    assert_eq!(up.status_code, StatusCode::Success);

    let signed_in = svc.sign_in("dave".to_owned(), "pw".to_owned());
    assert_eq!(signed_in.status_code, StatusCode::Success);

    let token = signed_in.session_token;
    let out1 = svc.sign_out(token.clone());
    assert_eq!(out1.status_code, StatusCode::Success);
    let out2 = svc.sign_out(token);
    assert_eq!(out2.status_code, StatusCode::Success);
}

#[test]
fn sign_out_with_unknown_token_succeeds() {
    let mut svc = AuthService::new(UsersImpl::new(), SessionsImpl::new());

    let out = svc.sign_out("no-such-token".to_owned());
    assert_eq!(out.status_code, StatusCode::Success);
}

#[test]
fn concurrent_sign_ins_for_one_user_get_distinct_tokens() {
    let mut svc = AuthService::new(UsersImpl::new(), SessionsImpl::new());

    let up = svc.sign_up("erin".to_owned(), "pw".to_owned());
    assert_eq!(up.status_code, StatusCode::Success);

    let first = svc.sign_in("erin".to_owned(), "pw".to_owned());
    let second = svc.sign_in("erin".to_owned(), "pw".to_owned());
    assert_eq!(first.status_code, StatusCode::Success);
    assert_eq!(second.status_code, StatusCode::Success);
    assert_eq!(first.user_uuid, second.user_uuid);
    assert_ne!(first.session_token, second.session_token);
}

#[test]
fn session_tokens_are_hyphenated_identifiers() {
    let mut svc = AuthService::new(UsersImpl::new(), SessionsImpl::new());

    svc.sign_up("frank".to_owned(), "pw".to_owned());
    let signed_in = svc.sign_in("frank".to_owned(), "pw".to_owned());
    assert_eq!(signed_in.status_code, StatusCode::Success);
    assert_eq!(signed_in.session_token.chars().count(), 36);
    assert_eq!(signed_in.user_uuid.chars().count(), 36);
}

#[test]
fn empty_username_is_not_rejected() {
    let mut svc = AuthService::new(UsersImpl::new(), SessionsImpl::new());

    let up = svc.sign_up("".to_owned(), "pw".to_owned());
    assert_eq!(up.status_code, StatusCode::Success);

    let signed_in = svc.sign_in("".to_owned(), "pw".to_owned());
    assert_eq!(signed_in.status_code, StatusCode::Success);

    let again = svc.sign_up("".to_owned(), "other".to_owned());
    assert_eq!(again.status_code, StatusCode::Failure);
}

#[test]
fn create_user_reports_username_exists() {
    let mut users = UsersImpl::new();
    assert!(users.create_user("gina".to_owned(), "pw1".to_owned()).is_ok());
    let dup = users.create_user("gina".to_owned(), "pw2".to_owned());
    assert_eq!(dup, Err(UserStoreError::UsernameExists));
}

#[test]
fn get_user_uuid_does_not_distinguish_unknown_user_from_wrong_password() {
    let mut users = UsersImpl::new();
    let _ = users.create_user("henry".to_owned(), "right".to_owned());

    let unknown = users.get_user_uuid("nobody".to_owned(), "right".to_owned());
    let mismatch = users.get_user_uuid("henry".to_owned(), "wrong".to_owned());
    assert_eq!(unknown, None);
    assert_eq!(mismatch, None);

    let hit = users.get_user_uuid("henry".to_owned(), "right".to_owned());
    assert!(hit.is_some());
    assert!(!hit.unwrap().is_empty());
}
