use cherrydoor_backend::error::HttpStatus;
use cherrydoor_backend::guards::auth::{
    bearer_token, verify, AdminUser, Auth, AuthorizationProvider, OperatorUser, Rejected,
    SecretKeyWrapper, WebUIUserAuthorization,
};

fn claim(exp: u64, name: &str, is_admin: bool) -> WebUIUserAuthorization {
    WebUIUserAuthorization { exp, name: String::from(name), is_admin }
}

fn token_of(payload: serde_json::Map<String, serde_json::Value>, secret: &str) -> String {
    jsonwebtoken::encode(
        &jsonwebtoken::Header::default(),
        &payload,
        &jsonwebtoken::EncodingKey::from_secret(secret.as_bytes()),
    )
    .unwrap()
}

fn token(exp: u64, name: &str, is_admin: bool, secret: &str) -> String {
    let mut payload = serde_json::Map::new();
    payload.insert(String::from("exp"), serde_json::Value::from(exp));
    payload.insert(String::from("name"), serde_json::Value::from(name));
    payload.insert(String::from("is_admin"), serde_json::Value::from(is_admin));
    token_of(payload, secret)
}

fn secret() -> SecretKeyWrapper {
    SecretKeyWrapper { key: String::from("top secret") }
}

fn status_of<T: AuthorizationProvider>(r: Result<Auth<T>, HttpStatus>) -> Option<HttpStatus> {
    match r {
        Ok(_) => None,
        Err(status) => Some(status),
    }
}

#[test]
fn the_token_is_the_second_piece_of_the_header() {
    assert_eq!(bearer_token("Bearer abc"), Ok("abc"));
    assert_eq!(bearer_token("Bearer abc def"), Ok("abc"));
    assert_eq!(bearer_token("Bearer a.b.c"), Ok("a.b.c"));
    assert_eq!(bearer_token("Bearer "), Ok(""));
    assert_eq!(bearer_token("Bearer  abc"), Ok(""));
    assert_eq!(bearer_token("Bearer t\u{f6}k\u{e9}n x"), Ok("t\u{f6}k\u{e9}n"));
}

#[test]
fn a_header_of_another_shape_is_a_bad_request() {
    assert_eq!(bearer_token("Bearer"), Err(HttpStatus::BadRequest));
    assert_eq!(bearer_token(""), Err(HttpStatus::BadRequest));
    assert_eq!(bearer_token("Basic abc"), Err(HttpStatus::BadRequest));
    assert_eq!(bearer_token("bearer abc"), Err(HttpStatus::BadRequest));
    assert_eq!(bearer_token(" Bearer abc"), Err(HttpStatus::BadRequest));
    assert_eq!(bearer_token("Bearerabc"), Err(HttpStatus::BadRequest));
    assert_eq!(bearer_token("B\u{e9}arer abc"), Err(HttpStatus::BadRequest));
}

#[test]
fn a_signed_token_yields_its_claim() {
    let t = token(1_700_000_000, "alice", true, "top secret");
    assert_eq!(verify(&t, &secret()), Ok(claim(1_700_000_000, "alice", true)));
    let t = token(5, "bob", false, "top secret");
    assert_eq!(verify(&t, &secret()), Ok(claim(5, "bob", false)));
}

#[test]
fn verifying_does_not_look_at_the_expiry() {
    let t = token(1, "old", false, "top secret");
    assert_eq!(verify(&t, &secret()), Ok(claim(1, "old", false)));
    let t = token(u64::MAX, "young", false, "top secret");
    assert_eq!(verify(&t, &secret()), Ok(claim(u64::MAX, "young", false)));
}

#[test]
fn a_token_of_another_secret_is_rejected() {
    let t = token(1_700_000_000, "alice", true, "another secret");
    assert_eq!(verify(&t, &secret()), Err(Rejected));
}

#[test]
fn a_malformed_token_is_rejected() {
    assert_eq!(verify("", &secret()), Err(Rejected));
    assert_eq!(verify("abc", &secret()), Err(Rejected));
    assert_eq!(verify("a.b.c", &secret()), Err(Rejected));
    let t = token(1_700_000_000, "alice", true, "top secret");
    let broken = format!("{}x", t);
    assert_eq!(verify(&broken, &secret()), Err(Rejected));
    assert_eq!(verify(&t[1..], &secret()), Err(Rejected));
}

#[test]
fn a_payload_that_is_no_claim_is_rejected() {
    let mut no_name = serde_json::Map::new();
    no_name.insert(String::from("exp"), serde_json::Value::from(1_700_000_000u64));
    no_name.insert(String::from("is_admin"), serde_json::Value::from(true));
    assert_eq!(verify(&token_of(no_name, "top secret"), &secret()), Err(Rejected));

    let mut no_exp = serde_json::Map::new();
    no_exp.insert(String::from("name"), serde_json::Value::from("alice"));
    no_exp.insert(String::from("is_admin"), serde_json::Value::from(true));
    assert_eq!(verify(&token_of(no_exp, "top secret"), &secret()), Err(Rejected));

    let mut wrong_flag = serde_json::Map::new();
    wrong_flag.insert(String::from("exp"), serde_json::Value::from(1_700_000_000u64));
    wrong_flag.insert(String::from("name"), serde_json::Value::from("alice"));
    wrong_flag.insert(String::from("is_admin"), serde_json::Value::from("yes"));
    assert_eq!(verify(&token_of(wrong_flag, "top secret"), &secret()), Err(Rejected));

    let mut wrong_name = serde_json::Map::new();
    wrong_name.insert(String::from("exp"), serde_json::Value::from(1_700_000_000u64));
    wrong_name.insert(String::from("name"), serde_json::Value::from(7));
    wrong_name.insert(String::from("is_admin"), serde_json::Value::from(false));
    assert_eq!(verify(&token_of(wrong_name, "top secret"), &secret()), Err(Rejected));
}

#[test]
fn more_fields_than_the_claim_has_do_no_harm() {
    let mut payload = serde_json::Map::new();
    payload.insert(String::from("exp"), serde_json::Value::from(9u64));
    payload.insert(String::from("name"), serde_json::Value::from("carol"));
    payload.insert(String::from("is_admin"), serde_json::Value::from(false));
    payload.insert(String::from("extra"), serde_json::Value::from("ignored"));
    assert_eq!(verify(&token_of(payload, "top secret"), &secret()), Ok(claim(9, "carol", false)));
}

#[test]
fn an_operator_passes_as_operator_and_is_forbidden_as_admin() {
    let as_operator = Auth::<OperatorUser>::check(claim(101, "bob", false), 100);
    assert_eq!(as_operator.ok().map(|a| a.into_claim()), Some(claim(101, "bob", false)));
    let as_admin = Auth::<AdminUser>::check(claim(101, "bob", false), 100);
    assert_eq!(status_of(as_admin), Some(HttpStatus::Forbidden));
}

#[test]
fn an_admin_passes_as_both() {
    let as_operator = Auth::<OperatorUser>::check(claim(101, "alice", true), 100);
    assert_eq!(as_operator.ok().map(|a| a.into_claim()), Some(claim(101, "alice", true)));
    let as_admin = Auth::<AdminUser>::check(claim(101, "alice", true), 100);
    assert_eq!(as_admin.ok().map(|a| a.claim().exp), Some(101));
}

#[test]
fn an_expired_claim_is_unauthorized_whatever_the_capability() {
    assert_eq!(
        status_of(Auth::<OperatorUser>::check(claim(100, "bob", false), 100)),
        Some(HttpStatus::Unauthorized)
    );
    assert_eq!(
        status_of(Auth::<AdminUser>::check(claim(100, "bob", false), 100)),
        Some(HttpStatus::Unauthorized)
    );
    assert_eq!(
        status_of(Auth::<AdminUser>::check(claim(99, "alice", true), 100)),
        Some(HttpStatus::Unauthorized)
    );
    assert_eq!(
        status_of(Auth::<OperatorUser>::check(claim(0, "alice", true), u64::MAX)),
        Some(HttpStatus::Unauthorized)
    );
    assert_eq!(
        status_of(Auth::<OperatorUser>::check(claim(u64::MAX, "alice", true), u64::MAX)),
        Some(HttpStatus::Unauthorized)
    );
}

#[test]
fn the_capabilities_are_what_they_say() {
    assert!(OperatorUser::authorize(&claim(1, "bob", false)));
    assert!(OperatorUser::authorize(&claim(1, "alice", true)));
    assert!(!AdminUser::authorize(&claim(1, "bob", false)));
    assert!(AdminUser::authorize(&claim(1, "alice", true)));
}

#[test]
fn a_request_without_header_is_unauthorized() {
    assert_eq!(
        status_of(Auth::<OperatorUser>::from_request(None, &secret())),
        Some(HttpStatus::Unauthorized)
    );
    assert_eq!(
        status_of(Auth::<AdminUser>::from_request(None, &secret())),
        Some(HttpStatus::Unauthorized)
    );
}

#[test]
fn a_request_with_a_header_of_another_shape_is_a_bad_request() {
    let t = token(jsonwebtoken::get_current_timestamp() + 600, "bob", false, "top secret");
    assert_eq!(
        status_of(Auth::<OperatorUser>::from_request(Some(&format!("Basic {}", t)), &secret())),
        Some(HttpStatus::BadRequest)
    );
    assert_eq!(
        status_of(Auth::<OperatorUser>::from_request(Some("Bearer"), &secret())),
        Some(HttpStatus::BadRequest)
    );
    assert_eq!(
        status_of(Auth::<OperatorUser>::from_request(Some(&t), &secret())),
        Some(HttpStatus::BadRequest)
    );
}

#[test]
fn a_request_with_a_valid_token_passes_the_guard() {
    let exp = jsonwebtoken::get_current_timestamp() + 600;
    let header = format!("Bearer {}", token(exp, "bob", false, "top secret"));
    let passed = Auth::<OperatorUser>::from_request(Some(&header), &secret());
    assert_eq!(passed.ok().map(|a| a.into_claim()), Some(claim(exp, "bob", false)));
    assert_eq!(
        status_of(Auth::<AdminUser>::from_request(Some(&header), &secret())),
        Some(HttpStatus::Forbidden)
    );
    let header = format!("Bearer {}", token(exp, "alice", true, "top secret"));
    let passed = Auth::<AdminUser>::from_request(Some(&header), &secret());
    assert_eq!(passed.ok().map(|a| a.into_claim()), Some(claim(exp, "alice", true)));
}

#[test]
fn a_request_with_an_expired_token_is_unauthorized() {
    let exp = jsonwebtoken::get_current_timestamp() - 10;
    let header = format!("Bearer {}", token(exp, "alice", true, "top secret"));
    assert_eq!(
        status_of(Auth::<OperatorUser>::from_request(Some(&header), &secret())),
        Some(HttpStatus::Unauthorized)
    );
    assert_eq!(
        status_of(Auth::<AdminUser>::from_request(Some(&header), &secret())),
        Some(HttpStatus::Unauthorized)
    );
    let long_ago = format!("Bearer {}", token(1, "alice", true, "top secret"));
    assert_eq!(
        status_of(Auth::<AdminUser>::from_request(Some(&long_ago), &secret())),
        Some(HttpStatus::Unauthorized)
    );
}

#[test]
fn a_request_with_a_token_that_does_not_verify_is_unauthorized() {
    let exp = jsonwebtoken::get_current_timestamp() + 600;
    let header = format!("Bearer {}", token(exp, "alice", true, "another secret"));
    assert_eq!(
        status_of(Auth::<OperatorUser>::from_request(Some(&header), &secret())),
        Some(HttpStatus::Unauthorized)
    );
    assert_eq!(
        status_of(Auth::<OperatorUser>::from_request(Some("Bearer  x"), &secret())),
        Some(HttpStatus::Unauthorized)
    );
    assert_eq!(
        status_of(Auth::<OperatorUser>::from_request(Some("Bearer nonsense"), &secret())),
        Some(HttpStatus::Unauthorized)
    );
}
