use aurelia::api_response::ApiResponse;

#[test]
fn api_response_ok_sets_data() {
    let response = ApiResponse::ok(42);
    assert_eq!(response.status, "ok");
    assert_eq!(response.data, Some(42));
    assert!(response.error.is_none());
}

#[test]
fn api_response_err_sets_error() {
    let response: ApiResponse<()> = ApiResponse::err("boom");
    assert_eq!(response.status, "error");
    assert!(response.data.is_none());
    assert_eq!(response.error.as_deref(), Some("boom"));
}
