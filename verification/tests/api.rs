use mcc_frontend_core::api::{
    sanitise_and_validate_base_url, sanitise_base_url, status_is_ok, Api, ApiError,
    ApiInternalError, ApiResponseError, RawErrorKind,
};
use mcc_frontend_core::helpers::{
    api_error_to_toast, logout_on_401, make_stored_login, remove_toast, Toast,
};
use mcc_frontend_core::pantry::Item;
use mcc_frontend_core::types::{LoginToken, StoredLogin};

fn token() -> LoginToken {
    LoginToken { token_type: "Bearer".to_owned(), token: "abc123".to_owned(), expiry: 1700000000 }
}

fn stored_login() -> StoredLogin {
    StoredLogin {
        api_url: "https://example.test/api".to_owned(),
        media_url: "https://example.test/media".to_owned(),
        token: token(),
    }
}

#[test]
fn test_sanitise_base_url() {
    assert_eq!(sanitise_base_url("https://x.test/".to_owned()), "https://x.test");
    assert_eq!(sanitise_base_url("https://x.test".to_owned()), "https://x.test");
    assert_eq!(sanitise_base_url(String::new()), "");
    // only one trailing slash is stripped
    assert_eq!(sanitise_base_url("https://x.test//".to_owned()), "https://x.test/");
}

#[test]
fn test_classify_send_failures() {
    assert_eq!(
        ApiError::from_response_result::<u32>(Err(RawErrorKind::JsError)),
        Err(ApiError::Internal(ApiInternalError::Connection)),
    );
    assert_eq!(
        ApiError::from_response_result::<u32>(Err(RawErrorKind::GlooError)),
        Err(ApiError::Internal(ApiInternalError::Generic)),
    );
    assert_eq!(ApiError::from_response_result::<u32>(Ok(5)), Ok(5));
}

#[test]
fn test_classify_responses() {
    // a non-success status carries the literal code, whatever the body did
    assert_eq!(
        ApiError::check_json_response_ok::<u32>(404, Err(RawErrorKind::GlooError)),
        Err(ApiError::Response(ApiResponseError { status_code: 404 })),
    );
    assert_eq!(
        ApiError::check_json_response_ok::<u32>(500, Ok(1)),
        Err(ApiError::Response(ApiResponseError { status_code: 500 })),
    );
    // a success status passes a decoded body through
    assert_eq!(ApiError::check_json_response_ok::<u32>(200, Ok(7)), Ok(7));
    assert_eq!(ApiError::check_json_response_ok::<u32>(299, Ok(7)), Ok(7));
    // a body that does not decode is a deserialization failure
    assert_eq!(
        ApiError::check_json_response_ok::<u32>(200, Err(RawErrorKind::SerdeError)),
        Err(ApiError::Internal(ApiInternalError::Deserialization)),
    );
    assert_eq!(
        ApiError::check_json_response_ok::<u32>(200, Err(RawErrorKind::JsError)),
        Err(ApiError::Internal(ApiInternalError::Generic)),
    );
    assert!(status_is_ok(200));
    assert!(status_is_ok(299));
    assert!(!status_is_ok(300));
    assert!(!status_is_ok(199));
}

#[test]
fn test_toast_messages() {
    let toast = api_error_to_toast(
        &ApiError::Internal(ApiInternalError::Connection),
        "loading recipes",
    );
    assert_eq!(
        toast.message,
        "Action failed as could not connect to server, when loading recipes",
    );

    let toast = api_error_to_toast(
        &ApiError::Internal(ApiInternalError::Deserialization),
        "loading recipes",
    );
    assert_eq!(toast.message, "Internal error occurred; action failed, when loading recipes");

    let toast = api_error_to_toast(
        &ApiError::Response(ApiResponseError { status_code: 404 }),
        "loading a recipe",
    );
    assert_eq!(toast.message, "Action failed as resource was not found, when loading a recipe");

    let toast = api_error_to_toast(
        &ApiError::Response(ApiResponseError { status_code: 418 }),
        "loading stats",
    );
    assert_eq!(toast.message, "Action failed received status code '418', when loading stats");
}

#[test]
fn test_session_guard_clears_login_on_401() {
    // a 401 from any operation clears the session
    let mut login = Some(stored_login());
    let out = logout_on_401(
        &mut login,
        &ApiError::Response(ApiResponseError { status_code: 401 }),
    );
    assert!(out);
    assert!(login.is_none());

    // other response failures leave it alone
    let mut login = Some(stored_login());
    let out = logout_on_401(
        &mut login,
        &ApiError::Response(ApiResponseError { status_code: 404 }),
    );
    assert!(!out);
    assert!(login.is_some());

    // internal failures leave it alone
    let mut login = Some(stored_login());
    let out = logout_on_401(&mut login, &ApiError::Internal(ApiInternalError::Connection));
    assert!(!out);
    assert!(login.is_some());

    // already logged out stays logged out
    let mut login: Option<StoredLogin> = None;
    let out = logout_on_401(
        &mut login,
        &ApiError::Response(ApiResponseError { status_code: 401 }),
    );
    assert!(out);
    assert!(login.is_none());
}

#[test]
fn test_api_client() {
    let api = Api::new("https://x.test/".to_owned(), Some(token()));
    assert_eq!(api.base_url, "https://x.test", "the base URL is sanitised");
    assert_eq!(api.get_authorization_value().unwrap(), "Bearer abc123");

    assert_eq!(api.info_url(), "https://x.test/api/info/");
    assert_eq!(api.login_url(), "https://x.test/login/");
    assert_eq!(api.users_url(), "https://x.test/users/");
    assert_eq!(api.labels_url(), "https://x.test/labels/");
    assert_eq!(api.recipes_url(), "https://x.test/recipes/");
    assert_eq!(api.recipes_url_with_query("page=1&perPage=20"), "https://x.test/recipes/?page=1&perPage=20");
    assert_eq!(api.recipe_url("r1"), "https://x.test/recipes/r1/");
    assert_eq!(api.recipe_image_url("r1"), "https://x.test/recipes/r1/image/");
    assert_eq!(api.stats_url(), "https://x.test/stats/me/");

    let anonymous = Api::new("https://x.test".to_owned(), None);
    assert!(anonymous.get_authorization_value().is_none());

    let from_login = Api::from(stored_login());
    assert_eq!(from_login.base_url, "https://example.test/api");
    assert_eq!(from_login.get_authorization_value().unwrap(), "Bearer abc123");
}

#[test]
fn test_validated_base_url() {
    assert_eq!(
        sanitise_and_validate_base_url("https://x.test/".to_owned()),
        Some("https://x.test".to_owned()),
    );
    assert_eq!(sanitise_and_validate_base_url("not a url".to_owned()), None);
}

#[test]
fn test_make_stored_login() {
    let login = make_stored_login("https://x.test", token());
    assert_eq!(login.api_url, "https://x.test/api");
    assert_eq!(login.media_url, "https://x.test/media");
    assert_eq!(login.token.token, "abc123");
}

#[test]
fn test_remove_toast_removes_first_match() {
    let a = Toast { message: "a".to_owned() };
    let b = Toast { message: "b".to_owned() };
    let mut toasts = vec![a.clone(), b.clone(), a.clone()];

    assert!(remove_toast(&mut toasts, &a));
    assert_eq!(toasts, vec![b.clone(), a.clone()]);

    assert!(!remove_toast(&mut toasts, &Toast { message: "c".to_owned() }));
    assert_eq!(toasts, vec![b, a]);
}

#[test]
fn test_item_expiry() {
    let item = Item {
        id: "i1".to_owned(),
        name: "milk".to_owned(),
        location_id: "l1".to_owned(),
        quantity: 1,
        notes: None,
        expiry: Some(1_000_000),
        labels: vec![],
    };
    assert!(item.is_expired_at(1_000_000));
    assert!(item.is_expired_at(1_000_001));
    assert!(!item.is_expired_at(999_999));

    // two days of lead time catch an expiry one day away
    assert!(item.is_expired_with_offset_at(1_000_000 - 86_400, 2));
    assert!(!item.is_expired_with_offset_at(1_000_000 - 86_400 * 3, 2));

    let no_expiry = Item { expiry: None, ..item };
    assert!(!no_expiry.is_expired_at(i64::MAX));
    assert!(!no_expiry.is_expired_with_offset_at(0, u64::MAX));
}
