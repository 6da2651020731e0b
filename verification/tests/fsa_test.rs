use rs_czsc::fsa::base::{check_reply, check_token_kind, http_method, needs_refresh, ApiResponse, HttpMethod};

#[test]
fn token_kinds() {
    assert!(check_token_kind("app_access_token").is_ok());
    assert!(check_token_kind("tenant_access_token").is_ok());
    assert_eq!(
        check_token_kind("user"),
        Err("Invalid key, must be 'app_access_token' or 'tenant_access_token'".to_string())
    );
}

#[test]
fn refresh_after_four_fifths_of_the_lifetime() {
    assert!(needs_refresh(None, 100));
    assert!(needs_refresh(Some((None, Some(10))), 100));
    assert!(!needs_refresh(Some((Some(100), Some(10))), 108));
    assert!(needs_refresh(Some((Some(100), Some(10))), 109));
}

#[test]
fn api_response_holds_its_parts() {
    let r: ApiResponse<i32> = ApiResponse { code: Some(0), msg: Some("ok".to_string()), StatusCode: None, data: Some(7) };
    assert_eq!(r.data, Some(7));
}

#[test]
fn request_methods_and_replies() {
    assert_eq!(http_method("get"), Ok(HttpMethod::Get));
    assert_eq!(http_method("Patch"), Ok(HttpMethod::Patch));
    assert_eq!(http_method("HEAD"), Err("Unsupported HTTP method: HEAD".to_string()));
    assert_eq!(check_reply(Some(0), Some(5), None), Ok(()));
    assert_eq!(check_reply(None, Some(0), Some("x")), Ok(()));
    assert_eq!(check_reply(Some(99), None, Some("bad")), Err("Request failed: code=99, msg=bad".to_string()));
    assert_eq!(check_reply(None, None, None), Err("Request failed: code=-1, msg=".to_string()));
}
