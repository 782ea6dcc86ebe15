use cherrydoor_backend::error::{
    forbidden, internal, not_found, unauthorized, unprocessable, ApiError, ErrorResponse,
    HttpStatus,
};

#[test]
fn each_kind_of_error_has_its_status() {
    assert_eq!(ApiError::BadRequest(String::from("a")).status(), HttpStatus::BadRequest);
    assert_eq!(ApiError::Unauthorized(String::from("a")).status(), HttpStatus::Unauthorized);
    assert_eq!(ApiError::Forbidden(String::from("a")).status(), HttpStatus::Forbidden);
    assert_eq!(ApiError::NotFound(String::from("a")).status(), HttpStatus::NotFound);
    assert_eq!(ApiError::Conflict(String::from("a")).status(), HttpStatus::Conflict);
    assert_eq!(ApiError::Internal(String::from("a")).status(), HttpStatus::InternalServerError);
    assert_eq!(ApiError::NotImplemented(String::from("a")).status(), HttpStatus::NotImplemented);
}

#[test]
fn statuses_have_their_codes() {
    assert_eq!(HttpStatus::BadRequest.code(), 400);
    assert_eq!(HttpStatus::Unauthorized.code(), 401);
    assert_eq!(HttpStatus::Forbidden.code(), 403);
    assert_eq!(HttpStatus::NotFound.code(), 404);
    assert_eq!(HttpStatus::Conflict.code(), 409);
    assert_eq!(HttpStatus::InternalServerError.code(), 500);
    assert_eq!(HttpStatus::NotImplemented.code(), 501);
}

#[test]
fn the_message_is_that_of_the_error() {
    assert_eq!(ApiError::NotFound(String::from("User bob not found.")).message(), "User bob not found.");
    assert_eq!(ApiError::Internal(String::new()).message(), "");
    assert_eq!(ApiError::Conflict(String::from("x")).message(), "x");
}

#[test]
fn an_error_is_answered_with_its_status_and_message() {
    let (status, body) = ApiError::Forbidden(String::from("Bad password.")).respond_to();
    assert_eq!(status, HttpStatus::Forbidden);
    assert_eq!(body, ErrorResponse { message: String::from("Bad password.") });
    let (status, body) = ApiError::BadRequest(String::from("no")).respond_to();
    assert_eq!(status.code(), 400);
    assert_eq!(body.message, "no");
}

#[test]
fn the_catchers_say_what_went_wrong() {
    assert_eq!(unauthorized().message, "You need to authenticate to access this resource.");
    assert_eq!(forbidden().message, "You don't have permission to access this resource.");
    assert_eq!(not_found().message, "URL not found.");
    assert_eq!(
        unprocessable().message,
        "The request was well-formed but was unable to be followed due to semantic errors."
    );
    assert_eq!(
        internal().message,
        "Something went very wrong, and it most likely isn't your fault."
    );
}
