use wx_counter::api::jwt::AuthError;
use wx_counter::api::ApiError;

#[test]
fn auth_errors_status_and_text() {
    assert_eq!(AuthError::WrongCredentials.status(), 401);
    assert_eq!(AuthError::WrongCredentials.message(), "Wrong credentials");
    assert_eq!(AuthError::MissingCredentials.status(), 400);
    assert_eq!(AuthError::MissingCredentials.message(), "Missing credentials");
    assert_eq!(AuthError::TokenCreation.status(), 500);
    assert_eq!(AuthError::TokenCreation.message(), "Token creation error");
    assert_eq!(AuthError::InvalidToken.status(), 400);
    assert_eq!(AuthError::InvalidToken.message(), "Invalid token");
}

#[test]
fn api_errors_status_and_text() {
    assert_eq!(ApiError::NotFound.status(), 404);
    assert_eq!(ApiError::NotFound.message(), "Not Found");
    let broken = ApiError::Internal("database is locked".to_string());
    assert_eq!(broken.status(), 500);
    assert_eq!(broken.message(), "database is locked");
    for inner in [
        AuthError::WrongCredentials,
        AuthError::MissingCredentials,
        AuthError::TokenCreation,
        AuthError::InvalidToken,
    ] {
        let outer = ApiError::Auth(inner);
        assert_eq!(outer.status(), inner.status());
        assert_eq!(outer.message(), inner.message());
    }
}

#[test]
fn an_auth_error_becomes_an_api_error() {
    assert_eq!(ApiError::from(AuthError::InvalidToken), ApiError::Auth(AuthError::InvalidToken));
    let lifted: ApiError = AuthError::TokenCreation.into();
    assert_eq!(lifted, ApiError::Auth(AuthError::TokenCreation));
}
