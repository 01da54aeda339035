use aspirin::http::{AspirinEatsError, HttpRequest, HttpResponse};

#[test]
fn test_http_request_from_str() {
    let request = "GET /orders HTTP/1.1\r\nHost: localhost:8080\r\n\r\nthis is the body.";
    let http_request = HttpRequest::from_str(request).unwrap();
    assert_eq!(http_request.method, Some("GET".to_string()));
    assert_eq!(http_request.path, Some("/orders".to_string()));
    assert_eq!(http_request.body, Some("this is the body.".to_string()));
}

#[test]
fn test_http_response_to_string() {
    let response = HttpResponse::new(200, "OK", "Welcome to Aspirin Eats!");
    assert_eq!(
        response.to_string(),
        "HTTP/1.1 200 OK\r\n\r\nWelcome to Aspirin Eats!"
    );
}

#[test]
fn test_http_response_from_aspirin_eats_error() {
    let error = AspirinEatsError::InvalidRequest;
    let response: HttpResponse = error.into();
    assert_eq!(response.status_code, 400);
    assert_eq!(response.status_text, "Bad Request");
    assert_eq!(response.body, "Invalid Request\n");

    let error = AspirinEatsError::NotFound;
    let response: HttpResponse = error.into();
    assert_eq!(response.status_code, 404);
    assert_eq!(response.status_text, "Not Found");
    assert_eq!(response.body, "Resource not found\n");

    let error = AspirinEatsError::MethodNotAllowed;
    let response: HttpResponse = error.into();
    assert_eq!(response.status_code, 405);
    assert_eq!(response.status_text, "Method Not Allowed");
    assert_eq!(response.body, "Method not allowed\n");

    let error = AspirinEatsError::Io(std::io::Error::new(std::io::ErrorKind::Other, "test"));
    let response: HttpResponse = error.into();
    assert_eq!(response.status_code, 500);
    assert_eq!(response.status_text, "Internal Server Error");
    assert_eq!(response.body, "Internal Server Error\n");
}

#[test]
fn other_errors_map_to_responses() {
    let response = HttpResponse::from_error(&AspirinEatsError::ParseError("bad".to_string()));
    assert_eq!(response.status_code, 400);
    assert_eq!(response.body, "Failed to parse request\n");
    let response = HttpResponse::from_error(&AspirinEatsError::Database("locked".to_string()));
    assert_eq!(response.status_code, 503);
    assert_eq!(response.status_text, "Service Unavailable");
}

#[test]
fn request_without_body() {
    let req = HttpRequest::from_str("DELETE /orders/1 HTTP/1.1\r\nHost: x").unwrap();
    assert_eq!(req.method, Some("DELETE".to_string()));
    assert_eq!(req.path, Some("/orders/1".to_string()));
    assert_eq!(req.body, None);
}

#[test]
fn request_with_extra_spaces_and_empty_body() {
    let req = HttpRequest::from_str("  POST\t /orders  HTTP/1.1\r\n\r\n").unwrap();
    assert_eq!(req.method, Some("POST".to_string()));
    assert_eq!(req.path, Some("/orders".to_string()));
    assert_eq!(req.body, Some(String::new()));
}

#[test]
fn request_with_blank_first_line() {
    let req = HttpRequest::from_str("\r\nHost: x\r\n\r\nbody").unwrap();
    assert_eq!(req.method, None);
    assert_eq!(req.path, None);
    assert_eq!(req.body, Some("body".to_string()));
}

#[test]
fn request_with_method_only() {
    let req = HttpRequest::from_str("GET").unwrap();
    assert_eq!(req.method, Some("GET".to_string()));
    assert_eq!(req.path, None);
    assert_eq!(req.body, None);
}

#[test]
fn empty_request_is_refused() {
    assert!(matches!(
        HttpRequest::from_str(""),
        Err(AspirinEatsError::InvalidRequest)
    ));
    assert!(matches!(
        HttpRequest::from_str("\r\n\r\nonly a body"),
        Err(AspirinEatsError::InvalidRequest)
    ));
}

#[test]
fn status_codes_are_written_in_decimal() {
    assert_eq!(HttpResponse::new(7, "X", "").to_string(), "HTTP/1.1 7 X\r\n\r\n");
    assert_eq!(
        HttpResponse::new(65535, "Max", "b").to_string(),
        "HTTP/1.1 65535 Max\r\n\r\nb"
    );
    assert_eq!(
        HttpResponse::new(404, "Not Found", "none").to_string(),
        "HTTP/1.1 404 Not Found\r\n\r\nnone"
    );
}
