use std::rc::Rc;

use actix_cors::inner::{add_vary_header, intersperse_header_values, AllOrSome, CorsError, Inner};
use actix_cors::middleware::{CorsMiddleware, CorsResponseContext, CorsServiceError, Route};
use actix_web::body::MessageBody;
use actix_web::http::header::{HeaderMap, HeaderName, HeaderValue};
use actix_web::http::StatusCode;
use actix_web::{HttpResponse, ResponseError};

const VARY_LIST: &str = "Origin, Access-Control-Request-Method, Access-Control-Request-Headers";
const VARY_LIST_PRIVATE_NETWORK: &str = "Origin, Access-Control-Request-Method, Access-Control-Request-Headers, Access-Control-Request-Private-Network";

#[derive(Debug)]
struct CustomError;

impl std::fmt::Display for CustomError {
    fn fmt(&self, f: &mut std::fmt::Formatter<'_>) -> std::fmt::Result {
        f.write_str("custom error")
    }
}

impl ResponseError for CustomError {
    fn status_code(&self) -> StatusCode {
        StatusCode::UNAUTHORIZED
    }

    fn error_response(&self) -> HttpResponse {
        HttpResponse::Unauthorized()
            .insert_header(("www-authenticate", "Bearer"))
            .body("custom error")
    }
}

fn headers(pairs: &[(&str, &str)]) -> HeaderMap {
    let mut map = HeaderMap::new();
    for (name, value) in pairs {
        map.insert(
            HeaderName::from_bytes(name.as_bytes()).unwrap(),
            HeaderValue::from_str(value).unwrap(),
        );
    }
    map
}

fn get(map: &HeaderMap, name: &str) -> Option<String> {
    map.get(name).map(|v| v.to_str().unwrap().to_owned())
}

fn list(items: &[&str]) -> Vec<Vec<u8>> {
    items.iter().map(|s| s.as_bytes().to_vec()).collect()
}

/// The restrictive settings: no origin, method or header allowed; `Vary` sent.
fn restrictive() -> Inner {
    Inner {
        allowed_origins: AllOrSome::Only(Vec::new()),
        has_origin_fns: false,
        allowed_methods: Vec::new(),
        allowed_methods_baked: None,
        allowed_headers: AllOrSome::Only(Vec::new()),
        allowed_headers_baked: None,
        expose_headers: AllOrSome::Only(Vec::new()),
        expose_headers_baked: None,
        max_age: None,
        preflight: true,
        send_wildcard: false,
        supports_credentials: false,
        vary_header: true,
        block_on_origin_mismatch: false,
        private_network_access: None,
    }
}

/// The permissive settings: every origin, method and header allowed and
/// exposed, credentials supported.
fn permissive() -> Inner {
    Inner {
        allowed_origins: AllOrSome::All,
        has_origin_fns: false,
        allowed_methods: list(&[
            "GET", "POST", "PUT", "DELETE", "HEAD", "OPTIONS", "CONNECT", "PATCH", "TRACE",
        ]),
        allowed_methods_baked: Some(b"GET, POST, PUT, DELETE, HEAD, OPTIONS, CONNECT, PATCH, TRACE".to_vec()),
        allowed_headers: AllOrSome::All,
        allowed_headers_baked: None,
        expose_headers: AllOrSome::All,
        expose_headers_baked: None,
        max_age: Some(3600),
        preflight: true,
        send_wildcard: false,
        supports_credentials: true,
        vary_header: true,
        block_on_origin_mismatch: false,
        private_network_access: None,
    }
}

fn middleware_for(inner: Inner) -> CorsMiddleware<()> {
    assert!(inner.is_well_formed());
    CorsMiddleware::new((), Rc::new(inner))
}

/// Routes a request, asking the origin predicate (if any) only when the
/// settings consult it, as the middleware does.
fn route(
    cors: &CorsMiddleware<()>,
    method: &str,
    req: &HeaderMap,
    origin_fn: &dyn Fn(&HeaderMap) -> bool,
) -> Route {
    let accept = cors.inner().origin_fns_consulted(req) && origin_fn(req);
    cors.route(method.as_bytes(), req, accept)
}

fn no_fn(_: &HeaderMap) -> bool {
    false
}

/// The headers of the response of the wrapped service, once the CORS headers
/// are added to it.
fn forward(cors: &CorsMiddleware<()>, req: &HeaderMap, route: Route, response: HeaderMap) -> HeaderMap {
    match route {
        Route::Forward(allowed, _) => {
            let ctx = CorsResponseContext::from_request_head(cors.inner(), req, allowed);
            let mut res = response;
            ctx.apply(&mut res);
            res
        }
        _ => panic!("request should reach the wrapped service"),
    }
}

fn error_context(route: Route) -> CorsResponseContext {
    match route {
        Route::Forward(_, ctx) => ctx,
        _ => panic!("request should reach the wrapped service"),
    }
}

fn preflight_answer(route: Route) -> Result<HeaderMap, CorsError> {
    match route {
        Route::Preflight(answer) => answer,
        _ => panic!("request should be answered as a preflight request"),
    }
}

#[test]
fn test_options_no_origin() {
    let mut inner = restrictive();
    inner.allowed_origins = AllOrSome::All;
    inner.has_origin_fns = true;
    let cors = middleware_for(inner);
    let dnt = |req: &HeaderMap| req.contains_key("dnt");

    let req = headers(&[("origin", "http://example.com")]);
    let r = route(&cors, "GET", &req, &dnt);
    let res = forward(&cors, &req, r, HeaderMap::new());
    assert_eq!(None, get(&res, "access-control-allow-origin"));

    let req = headers(&[("origin", "http://example.com"), ("dnt", "1")]);
    let r = route(&cors, "GET", &req, &dnt);
    let res = forward(&cors, &req, r, HeaderMap::new());
    assert_eq!(Some("http://example.com".to_owned()), get(&res, "access-control-allow-origin"));
}

fn ends_with_unknown(req: &HeaderMap) -> bool {
    req.get("origin").map(|v| v.as_bytes().ends_with(b".unknown.com")).unwrap_or(false)
}

fn example_with_fn() -> CorsMiddleware<()> {
    let mut inner = restrictive();
    inner.allowed_origins = AllOrSome::Only(list(&["https://www.example.com"]));
    inner.has_origin_fns = true;
    middleware_for(inner)
}

#[test]
fn test_not_allowed_origin_fn() {
    let cors = example_with_fn();

    let req = headers(&[("origin", "https://www.example.com")]);
    let r = route(&cors, "GET", &req, &ends_with_unknown);
    let res = forward(&cors, &req, r, HeaderMap::new());
    assert_eq!(Some("https://www.example.com".to_owned()), get(&res, "access-control-allow-origin"));

    let req = headers(&[("origin", "https://www.known.com")]);
    let r = route(&cors, "GET", &req, &ends_with_unknown);
    let res = forward(&cors, &req, r, HeaderMap::new());
    assert_eq!(None, get(&res, "access-control-allow-origin"));
}

#[test]
fn test_allowed_origin_fn() {
    let cors = example_with_fn();

    let req = headers(&[("origin", "https://www.example.com")]);
    let r = route(&cors, "GET", &req, &ends_with_unknown);
    let res = forward(&cors, &req, r, HeaderMap::new());
    assert_eq!("https://www.example.com", get(&res, "access-control-allow-origin").unwrap());

    let req = headers(&[("origin", "https://www.unknown.com")]);
    let r = route(&cors, "GET", &req, &ends_with_unknown);
    let res = forward(&cors, &req, r, HeaderMap::new());
    assert_eq!(Some("https://www.unknown.com".to_owned()), get(&res, "access-control-allow-origin"));
}

#[test]
fn origin_fn_not_asked_for_listed_origin() {
    let cors = example_with_fn();
    let req = headers(&[("origin", "https://www.example.com")]);
    assert!(!cors.inner().origin_fns_consulted(&req));
    let req = headers(&[("origin", "https://www.unknown.com")]);
    assert!(cors.inner().origin_fns_consulted(&req));
    let req = headers(&[]);
    assert!(!cors.inner().origin_fns_consulted(&req));
}

fn two_origins() -> CorsMiddleware<()> {
    let mut inner = restrictive();
    inner.allowed_origins = AllOrSome::Only(list(&["https://example.com", "https://example.org"]));
    inner.allowed_methods = list(&["GET"]);
    inner.allowed_methods_baked = Some(b"GET".to_vec());
    middleware_for(inner)
}

#[test]
fn test_multiple_origins_preflight() {
    let cors = two_origins();

    let req = headers(&[("origin", "https://example.com"), ("access-control-request-method", "GET")]);
    let res = preflight_answer(route(&cors, "OPTIONS", &req, &no_fn)).unwrap();
    assert_eq!(Some("https://example.com".to_owned()), get(&res, "access-control-allow-origin"));
    assert_eq!(Some("GET".to_owned()), get(&res, "access-control-allow-methods"));

    let req = headers(&[("origin", "https://example.org"), ("access-control-request-method", "GET")]);
    let res = preflight_answer(route(&cors, "OPTIONS", &req, &no_fn)).unwrap();
    assert_eq!(Some("https://example.org".to_owned()), get(&res, "access-control-allow-origin"));
}

#[test]
fn test_multiple_origins() {
    let cors = two_origins();

    let req = headers(&[("origin", "https://example.com")]);
    let r = route(&cors, "GET", &req, &no_fn);
    let res = forward(&cors, &req, r, HeaderMap::new());
    assert_eq!(Some("https://example.com".to_owned()), get(&res, "access-control-allow-origin"));

    let req = headers(&[("origin", "https://example.org")]);
    let r = route(&cors, "GET", &req, &no_fn);
    let res = forward(&cors, &req, r, HeaderMap::new());
    assert_eq!(Some("https://example.org".to_owned()), get(&res, "access-control-allow-origin"));
}

fn wildcard_no_preflight() -> CorsMiddleware<()> {
    let mut inner = restrictive();
    inner.allowed_origins = AllOrSome::All;
    inner.send_wildcard = true;
    inner.preflight = false;
    inner.max_age = Some(3600);
    inner.allowed_methods = list(&["GET", "OPTIONS", "POST"]);
    inner.allowed_methods_baked = Some(b"GET, OPTIONS, POST".to_vec());
    inner.allowed_headers = AllOrSome::Only(list(&["authorization", "accept", "content-type"]));
    inner.allowed_headers_baked = Some(b"authorization, accept, content-type".to_vec());
    inner.expose_headers = AllOrSome::Only(list(&["authorization", "accept"]));
    inner.expose_headers_baked = Some(b"authorization, accept".to_vec());
    middleware_for(inner)
}

#[test]
fn test_response() {
    let cors = wildcard_no_preflight();
    let req = headers(&[("origin", "https://www.example.com")]);
    let r = route(&cors, "OPTIONS", &req, &no_fn);
    let res = forward(&cors, &req, r, HeaderMap::new());
    assert_eq!(Some("*".to_owned()), get(&res, "access-control-allow-origin"));
    assert_eq!(Some(VARY_LIST.to_owned()), get(&res, "vary"));
    let exposed = get(&res, "access-control-expose-headers").unwrap();
    let exposed: Vec<&str> = exposed.split(',').map(|s| s.trim()).collect();
    for h in ["authorization", "accept"] {
        assert!(exposed.contains(&h));
    }

    let r = route(&cors, "OPTIONS", &req, &no_fn);
    let res = forward(&cors, &req, r, headers(&[("vary", "Accept")]));
    assert_eq!(
        Some(format!("Accept, {}", VARY_LIST)),
        get(&res, "vary"),
    );

    let mut inner = restrictive();
    inner.vary_header = false;
    inner.allowed_methods = list(&["POST"]);
    inner.allowed_methods_baked = Some(b"POST".to_vec());
    inner.allowed_origins = AllOrSome::Only(list(&["https://www.example.com", "https://www.google.com"]));
    let cors = middleware_for(inner);
    let req = headers(&[("origin", "https://www.example.com"), ("access-control-request-method", "POST")]);
    let res = preflight_answer(route(&cors, "OPTIONS", &req, &no_fn)).unwrap();
    assert_eq!(Some("https://www.example.com".to_owned()), get(&res, "access-control-allow-origin"));
    assert_eq!(None, get(&res, "vary"));
}

#[test]
fn test_validate_origin() {
    let mut inner = restrictive();
    inner.allowed_origins = AllOrSome::Only(list(&["https://www.example.com"]));
    let cors = middleware_for(inner);
    let req = headers(&[("origin", "https://www.example.com")]);
    assert!(matches!(route(&cors, "GET", &req, &no_fn), Route::Forward(true, _)));
}

#[test]
fn test_blocks_mismatched_origin_by_default() {
    let mut inner = restrictive();
    inner.allowed_origins = AllOrSome::Only(list(&["https://www.example.com"]));
    let cors = middleware_for(inner);
    let req = headers(&[("origin", "https://www.example.test")]);
    let r = route(&cors, "GET", &req, &no_fn);
    assert!(matches!(r, Route::Forward(false, _)));
    let res = forward(&cors, &req, r, HeaderMap::new());
    assert!(!res.contains_key("access-control-allow-origin"));
    assert!(!res.contains_key("access-control-allow-methods"));
}

#[test]
fn test_mismatched_origin_block_turned_off() {
    let mut inner = restrictive();
    inner.allowed_methods = list(&["GET", "POST", "PUT"]);
    inner.allowed_methods_baked = Some(b"GET, POST, PUT".to_vec());
    inner.allowed_origins = AllOrSome::Only(list(&["https://www.example.com"]));
    inner.block_on_origin_mismatch = false;
    let cors = middleware_for(inner);

    let req = headers(&[("origin", "https://wrong.com"), ("access-control-request-method", "POST")]);
    let answer = preflight_answer(route(&cors, "OPTIONS", &req, &no_fn));
    assert_eq!(Some(CorsError::OriginNotAllowed), answer.err());

    let req = headers(&[("origin", "https://wrong.com")]);
    let r = route(&cors, "GET", &req, &no_fn);
    let res = forward(&cors, &req, r, HeaderMap::new());
    assert_eq!(None, get(&res, "access-control-allow-origin"));
}

#[test]
fn mismatched_origin_refused_when_blocking() {
    let mut inner = restrictive();
    inner.allowed_origins = AllOrSome::Only(list(&["https://www.example.com"]));
    inner.block_on_origin_mismatch = true;
    let cors = middleware_for(inner);
    let req = headers(&[("origin", "https://wrong.com")]);
    match route(&cors, "GET", &req, &no_fn) {
        Route::Rejected(e) => assert_eq!(CorsError::OriginNotAllowed, e),
        _ => panic!("request should be refused"),
    }
    let mut res = HeaderMap::new();
    cors.finish_rejection(&mut res);
    assert_eq!(Some(VARY_LIST.to_owned()), get(&res, "vary"));
}

#[test]
fn test_no_origin_response() {
    let mut inner = permissive();
    inner.preflight = false;
    let cors = middleware_for(inner);

    let req = headers(&[]);
    let r = route(&cors, "GET", &req, &no_fn);
    assert!(matches!(r, Route::Forward(false, _)));
    let res = forward(&cors, &req, r, HeaderMap::new());
    assert!(get(&res, "access-control-allow-origin").is_none());

    let req = headers(&[("origin", "https://www.example.com")]);
    let r = route(&cors, "OPTIONS", &req, &no_fn);
    let res = forward(&cors, &req, r, HeaderMap::new());
    assert_eq!(Some("https://www.example.com".to_owned()), get(&res, "access-control-allow-origin"));
}

#[test]
fn validate_origin_allows_all_origins() {
    let cors = middleware_for(permissive());
    let req = headers(&[("origin", "https://www.example.com")]);
    assert!(matches!(route(&cors, "GET", &req, &no_fn), Route::Forward(true, _)));
}

#[test]
fn vary_header_on_all_handled_responses() {
    let cors = middleware_for(permissive());

    let req = headers(&[("origin", "https://www.example.com"), ("access-control-request-method", "GET")]);
    let res = preflight_answer(route(&cors, "OPTIONS", &req, &no_fn)).unwrap();
    assert!(res.contains_key("access-control-allow-methods"));
    assert_eq!(Some(VARY_LIST.to_owned()), get(&res, "vary"));

    let req = headers(&[("origin", "https://www.example.com")]);
    let r = route(&cors, "PUT", &req, &no_fn);
    let res = forward(&cors, &req, r, HeaderMap::new());
    assert_eq!(Some(VARY_LIST.to_owned()), get(&res, "vary"));

    let mut inner = restrictive();
    inner.allowed_methods = list(&["GET", "PUT"]);
    let cors = middleware_for(inner);
    let req = headers(&[("origin", "https://www.example.com")]);
    let r = route(&cors, "PUT", &req, &no_fn);
    let res = forward(&cors, &req, r, HeaderMap::new());
    assert!(!res.contains_key("access-control-allow-origin"));
    assert!(!res.contains_key("access-control-allow-methods"));
    assert_eq!(Some(VARY_LIST.to_owned()), get(&res, "vary"));

    let req = headers(&[]);
    let r = route(&cors, "PUT", &req, &no_fn);
    let res = forward(&cors, &req, r, HeaderMap::new());
    assert_eq!(Some(VARY_LIST.to_owned()), get(&res, "vary"));
}

#[test]
fn test_allow_any_origin_any_method_any_header() {
    let mut inner = restrictive();
    inner.allowed_origins = AllOrSome::All;
    inner.allowed_methods = list(&["GET", "POST", "PUT", "DELETE", "HEAD", "OPTIONS", "PATCH"]);
    inner.allowed_headers = AllOrSome::All;
    let cors = middleware_for(inner);
    let req = headers(&[
        ("access-control-request-method", "POST"),
        ("access-control-request-headers", "content-type"),
        ("origin", "https://www.example.com"),
    ]);
    let res = preflight_answer(route(&cors, "OPTIONS", &req, &no_fn)).unwrap();
    assert_eq!(Some("content-type".to_owned()), get(&res, "access-control-allow-headers"));
}

#[test]
fn expose_all_request_header_values() {
    let cors = middleware_for(permissive());
    let req = headers(&[
        ("origin", "https://www.example.com"),
        ("access-control-request-method", "POST"),
        ("access-control-request-headers", "content-type"),
    ]);
    let r = route(&cors, "GET", &req, &no_fn);
    let res = forward(&cors, &req, r, headers(&[("content-disposition", "test disposition")]));
    let exposed = get(&res, "access-control-expose-headers").unwrap();
    assert!(exposed.contains("content-disposition"));
    assert!(exposed.contains("access-control-allow-origin"));
}

/// The response to an error of the wrapped service, with its CORS headers.
fn error_response(err: &CorsServiceError) -> HttpResponse {
    let mut res = err.inner_error().error_response();
    err.apply_headers(res.headers_mut());
    res
}

fn body_text(res: HttpResponse) -> String {
    match res.into_body().try_into_bytes() {
        Ok(bytes) => String::from_utf8(bytes.to_vec()).unwrap(),
        Err(_) => panic!("body should be complete"),
    }
}

#[test]
fn middleware_errors_receive_cors_headers() {
    let mut inner = restrictive();
    inner.allowed_origins = AllOrSome::Only(list(&["https://www.example.com"]));
    inner.supports_credentials = true;
    let cors = middleware_for(inner);
    let req = headers(&[("origin", "https://www.example.com")]);
    let ctx = error_context(route(&cors, "GET", &req, &no_fn));
    let err = CorsServiceError::new(CustomError.into(), ctx);
    assert!(err.inner_error().as_error::<CustomError>().is_some());
    let res = error_response(&err);
    assert_eq!(StatusCode::UNAUTHORIZED, res.status());
    let h = res.headers().clone();
    assert_eq!(Some("https://www.example.com".to_owned()), get(&h, "access-control-allow-origin"));
    assert_eq!(Some("true".to_owned()), get(&h, "access-control-allow-credentials"));
    assert_eq!(Some("Bearer".to_owned()), get(&h, "www-authenticate"));
    assert_eq!(Some(VARY_LIST.to_owned()), get(&h, "vary"));
    assert_eq!("custom error", body_text(res));
}

#[test]
fn middleware_errors_without_origin_only_receive_vary() {
    let cors = middleware_for(restrictive());
    let req = headers(&[]);
    let ctx = error_context(route(&cors, "GET", &req, &no_fn));
    let err = CorsServiceError::new(actix_web::error::ErrorBadRequest("bad request"), ctx);
    let res = error_response(&err);
    assert_eq!(StatusCode::BAD_REQUEST, res.status());
    assert_eq!(None, get(res.headers(), "access-control-allow-origin"));
    assert_eq!(None, get(res.headers(), "access-control-allow-credentials"));
    assert_eq!(Some(VARY_LIST.to_owned()), get(res.headers(), "vary"));
}

#[test]
fn middleware_errors_with_mismatched_origin_keep_non_origin_headers() {
    let mut inner = restrictive();
    inner.allowed_origins = AllOrSome::Only(list(&["https://www.example.com"]));
    inner.supports_credentials = true;
    inner.block_on_origin_mismatch = false;
    let cors = middleware_for(inner);
    let req = headers(&[("origin", "https://wrong.com")]);
    let ctx = error_context(route(&cors, "GET", &req, &no_fn));
    let err = CorsServiceError::new(actix_web::error::ErrorBadRequest("bad request"), ctx);
    let res = error_response(&err);
    assert_eq!(StatusCode::BAD_REQUEST, res.status());
    assert_eq!(None, get(res.headers(), "access-control-allow-origin"));
    assert_eq!(Some("true".to_owned()), get(res.headers(), "access-control-allow-credentials"));
    assert_eq!(Some(VARY_LIST.to_owned()), get(res.headers(), "vary"));
}

#[test]
fn middleware_errors_expose_response_headers_when_configured() {
    let cors = middleware_for(permissive());
    let req = headers(&[("origin", "https://www.example.com")]);
    let ctx = error_context(route(&cors, "GET", &req, &no_fn));
    let err = CorsServiceError::new(CustomError.into(), ctx);
    let res = error_response(&err);
    let exposed = get(res.headers(), "access-control-expose-headers").unwrap();
    assert!(exposed.contains("access-control-allow-origin"));
    assert!(exposed.contains("www-authenticate"));
    assert!(!exposed.contains("access-control-allow-credentials"));
}

#[test]
fn service_error_keeps_wrapped_error_and_context() {
    let cors = middleware_for(restrictive());
    let req = headers(&[]);
    let ctx = error_context(route(&cors, "GET", &req, &no_fn));
    let err = CorsServiceError::new(actix_web::error::ErrorBadRequest("bad request"), ctx);
    let mut res = HeaderMap::new();
    err.context().apply(&mut res);
    assert_eq!(Some(VARY_LIST.to_owned()), get(&res, "vary"));
    let inner = err.into_inner();
    assert_eq!("bad request", inner.to_string());
}

#[test]
fn preflight_answer_headers() {
    let mut inner = restrictive();
    inner.allowed_origins = AllOrSome::Only(list(&["https://a.test"]));
    inner.allowed_methods = list(&["PUT"]);
    inner.allowed_methods_baked = Some(b"PUT".to_vec());
    inner.allowed_headers = AllOrSome::Only(list(&["x-one", "x-two"]));
    inner.allowed_headers_baked = Some(b"x-one, x-two".to_vec());
    inner.supports_credentials = true;
    inner.max_age = Some(600);
    let cors = middleware_for(inner);
    let req = headers(&[
        ("origin", "https://a.test"),
        ("access-control-request-method", "PUT"),
        ("access-control-request-headers", " X-Two ,x-one"),
    ]);
    let res = preflight_answer(route(&cors, "OPTIONS", &req, &no_fn)).unwrap();
    assert_eq!(Some("https://a.test".to_owned()), get(&res, "access-control-allow-origin"));
    assert_eq!(Some("PUT".to_owned()), get(&res, "access-control-allow-methods"));
    assert_eq!(Some("x-one, x-two".to_owned()), get(&res, "access-control-allow-headers"));
    assert_eq!(Some("true".to_owned()), get(&res, "access-control-allow-credentials"));
    assert_eq!(Some("600".to_owned()), get(&res, "access-control-max-age"));
    assert_eq!(Some(VARY_LIST.to_owned()), get(&res, "vary"));
    assert_eq!(6, res.len());
}

fn preflight_error(inner: Inner, req: &[(&str, &str)]) -> Option<CorsError> {
    let cors = middleware_for(inner);
    let req = headers(req);
    preflight_answer(route(&cors, "OPTIONS", &req, &no_fn)).err()
}

fn checking_inner() -> Inner {
    let mut inner = restrictive();
    inner.allowed_origins = AllOrSome::Only(list(&["https://a.test"]));
    inner.allowed_methods = list(&["PUT"]);
    inner.allowed_headers = AllOrSome::Only(list(&["x-one"]));
    inner
}

#[test]
fn preflight_errors() {
    // a preflight request without an origin
    assert_eq!(
        Some(CorsError::MissingOrigin),
        preflight_error(checking_inner(), &[("access-control-request-method", "PUT")]),
    );
    // a method that is not allowed
    assert_eq!(
        Some(CorsError::MethodNotAllowed),
        preflight_error(
            checking_inner(),
            &[("origin", "https://a.test"), ("access-control-request-method", "GET")],
        ),
    );
    // a header name that is not allowed
    assert_eq!(
        Some(CorsError::HeadersNotAllowed),
        preflight_error(
            checking_inner(),
            &[
                ("origin", "https://a.test"),
                ("access-control-request-method", "PUT"),
                ("access-control-request-headers", "x-one, x-three"),
            ],
        ),
    );
    // an empty entry in the header list
    assert_eq!(
        Some(CorsError::BadRequestHeaders),
        preflight_error(
            checking_inner(),
            &[
                ("origin", "https://a.test"),
                ("access-control-request-method", "PUT"),
                ("access-control-request-headers", "x-one,,x-three"),
            ],
        ),
    );
    // an invalid entry comes before a disallowed one
    assert_eq!(
        Some(CorsError::BadRequestHeaders),
        preflight_error(
            checking_inner(),
            &[
                ("origin", "https://a.test"),
                ("access-control-request-method", "PUT"),
                ("access-control-request-headers", "x-three, x(one)"),
            ],
        ),
    );
    // everything allowed
    assert_eq!(
        None,
        preflight_error(
            checking_inner(),
            &[
                ("origin", "https://a.test"),
                ("access-control-request-method", "PUT"),
                ("access-control-request-headers", "X-One"),
            ],
        ),
    );
}

#[test]
fn method_checks() {
    let inner = checking_inner();
    let req = headers(&[("origin", "https://a.test")]);
    assert_eq!(Err(CorsError::MissingRequestMethod), inner.validate_allowed_method(&req));
    let req = headers(&[("access-control-request-method", "PU T")]);
    assert_eq!(Err(CorsError::BadRequestMethod), inner.validate_allowed_method(&req));
    let req = headers(&[("access-control-request-method", "put")]);
    assert_eq!(Err(CorsError::MethodNotAllowed), inner.validate_allowed_method(&req));
    let req = headers(&[("access-control-request-method", "PUT")]);
    assert_eq!(Ok(()), inner.validate_allowed_method(&req));
}

#[test]
fn preflight_detection() {
    let req = headers(&[("access-control-request-method", "DELETE")]);
    assert!(CorsMiddleware::<()>::is_request_preflight(b"OPTIONS", &req));
    assert!(!CorsMiddleware::<()>::is_request_preflight(b"GET", &req));
    let req = headers(&[("access-control-request-method", "")]);
    assert!(!CorsMiddleware::<()>::is_request_preflight(b"OPTIONS", &req));
    let req = headers(&[]);
    assert!(!CorsMiddleware::<()>::is_request_preflight(b"OPTIONS", &req));
}

#[test]
fn preflight_only_when_enabled() {
    let mut inner = permissive();
    inner.preflight = false;
    let cors = middleware_for(inner);
    let req = headers(&[("origin", "https://a.test"), ("access-control-request-method", "GET")]);
    assert!(matches!(route(&cors, "OPTIONS", &req, &no_fn), Route::Forward(true, _)));
}

#[test]
fn vary_keeps_existing_value() {
    let mut res = headers(&[("vary", "Accept-Encoding")]);
    add_vary_header(&mut res, false);
    assert_eq!(Some(format!("Accept-Encoding, {}", VARY_LIST)), get(&res, "vary"));
    let mut res = HeaderMap::new();
    add_vary_header(&mut res, false);
    assert_eq!(Some(VARY_LIST.to_owned()), get(&res, "vary"));
}

#[test]
fn intersperse_values() {
    assert_eq!(b"a".to_vec(), intersperse_header_values(&list(&["a"])));
    assert_eq!(b"a, bc, d".to_vec(), intersperse_header_values(&list(&["a", "bc", "d"])));
}

#[test]
fn wildcard_sent_only_for_any_origin() {
    let cors = wildcard_no_preflight();
    let req = headers(&[("origin", "https://x.test")]);
    assert_eq!(Some(b"*".to_vec()), cors.inner().access_control_allow_origin(&req));
    let mut inner = restrictive();
    inner.allowed_origins = AllOrSome::Only(list(&["https://x.test"]));
    inner.send_wildcard = true;
    let req = headers(&[("origin", "https://x.test")]);
    assert_eq!(Some(b"https://x.test".to_vec()), inner.access_control_allow_origin(&req));
}

#[test]
fn credentials_and_other_headers() {
    let mut inner = restrictive();
    inner.supports_credentials = true;
    inner.vary_header = false;
    let req = headers(&[]);
    let ctx = CorsResponseContext::from_request_head(&inner, &req, false);
    let mut res = headers(&[("content-type", "text/plain")]);
    ctx.apply(&mut res);
    assert_eq!(Some("true".to_owned()), get(&res, "access-control-allow-credentials"));
    assert_eq!(Some("text/plain".to_owned()), get(&res, "content-type"));
    assert_eq!(2, res.len());
}

#[test]
fn expose_all_skipped_for_empty_response() {
    let mut inner = restrictive();
    inner.expose_headers = AllOrSome::All;
    inner.vary_header = false;
    let req = headers(&[]);
    let ctx = CorsResponseContext::from_request_head(&inner, &req, false);
    let mut res = HeaderMap::new();
    ctx.apply(&mut res);
    assert!(res.is_empty());
}

fn private_network_settings() -> Inner {
    let mut inner = permissive();
    inner.allowed_origins = AllOrSome::Only(list(&["https://public.site"]));
    inner.private_network_access = Some(true);
    inner
}

#[test]
fn private_network_access() {
    let cors = middleware_for(private_network_settings());

    let req = headers(&[
        ("origin", "https://public.site"),
        ("access-control-request-method", "POST"),
        ("access-control-allow-credentials", "true"),
    ]);
    let r = route(&cors, "GET", &req, &no_fn);
    let res = forward(&cors, &req, r, headers(&[("content-disposition", "test disposition")]));
    assert!(res.contains_key("access-control-allow-origin"));
    assert!(!res.contains_key("access-control-allow-private-network"));
    assert_eq!(Some(VARY_LIST_PRIVATE_NETWORK.to_owned()), get(&res, "vary"));

    let req = headers(&[
        ("origin", "https://public.site"),
        ("access-control-request-method", "POST"),
        ("access-control-allow-credentials", "true"),
        ("access-control-request-private-network", "true"),
    ]);
    let r = route(&cors, "GET", &req, &no_fn);
    let res = forward(&cors, &req, r, headers(&[("content-disposition", "test disposition")]));
    assert!(res.contains_key("access-control-allow-origin"));
    assert!(res.contains_key("access-control-allow-private-network"));
}

#[test]
fn private_network_preflight() {
    let cors = middleware_for(private_network_settings());
    let req = headers(&[
        ("origin", "https://public.site"),
        ("access-control-request-method", "GET"),
        ("access-control-request-private-network", "true"),
    ]);
    let res = preflight_answer(route(&cors, "OPTIONS", &req, &no_fn)).unwrap();
    assert_eq!(Some("true".to_owned()), get(&res, "access-control-allow-private-network"));
    assert_eq!(Some(VARY_LIST_PRIVATE_NETWORK.to_owned()), get(&res, "vary"));

    let mut inner = private_network_settings();
    inner.private_network_access = Some(false);
    let cors = middleware_for(inner);
    let res = preflight_answer(route(&cors, "OPTIONS", &req, &no_fn)).unwrap();
    assert!(!res.contains_key("access-control-allow-private-network"));
    assert_eq!(Some(VARY_LIST_PRIVATE_NETWORK.to_owned()), get(&res, "vary"));
}

#[test]
fn vary_with_private_network_keeps_existing_value() {
    let mut res = headers(&[("vary", "Accept")]);
    add_vary_header(&mut res, true);
    assert_eq!(Some(format!("Accept, {}", VARY_LIST_PRIVATE_NETWORK)), get(&res, "vary"));
}

#[test]
fn settings_must_hold_what_sets_hold() {
    let mut inner = restrictive();
    assert!(inner.is_well_formed());
    inner.allowed_headers = AllOrSome::Only(list(&["X-Upper"]));
    assert!(!inner.is_well_formed());
    inner.allowed_headers = AllOrSome::Only(list(&["x-one", "x-one"]));
    assert!(!inner.is_well_formed());
    inner.allowed_headers = AllOrSome::Only(list(&["x-one"]));
    inner.allowed_methods = list(&["GET", "GET"]);
    assert!(!inner.is_well_formed());
    inner.allowed_methods = list(&["GE T"]);
    assert!(!inner.is_well_formed());
    inner.allowed_methods = list(&["GET"]);
    inner.allowed_origins = AllOrSome::Only(list(&["https://a.test", "https://a.test"]));
    assert!(!inner.is_well_formed());
    inner.allowed_origins = AllOrSome::Only(list(&["https://a.test"]));
    inner.allowed_methods_baked = Some(b"GET\n".to_vec());
    assert!(!inner.is_well_formed());
    inner.allowed_methods_baked = Some(b"GET".to_vec());
    assert!(inner.is_well_formed());
}
