use axum::body::{to_bytes, Body};
use axum::http::{Request, StatusCode};
use axum::response::Response;
use axum::routing::get;
use axum::Router;
use service_bootstrap::routes::app_routes;
use tower::ServiceExt;

async fn handler() -> &'static str {
    "Hello, World!"
}

fn ask(router: Router, path: &str) -> Response {
    let runtime = tokio::runtime::Builder::new_current_thread().build().unwrap();
    runtime.block_on(async {
        router
            .oneshot(Request::builder().uri(path).body(Body::empty()).unwrap())
            .await
            .unwrap()
    })
}

fn body_of(response: Response) -> Vec<u8> {
    let runtime = tokio::runtime::Builder::new_current_thread().build().unwrap();
    runtime
        .block_on(async { to_bytes(response.into_body(), usize::MAX).await.unwrap() })
        .to_vec()
}

#[test]
fn test_app_routes_creation() {
    let router = app_routes();

    let response = ask(router, "/");

    assert_eq!(response.status(), StatusCode::NOT_FOUND);
}

#[test]
fn test_app_routes_with_routes() {
    let router = app_routes().route("/hello", get(handler));

    let response = ask(router, "/hello");

    assert_eq!(response.status(), StatusCode::OK);

    let body = body_of(response);
    assert_eq!(body, "Hello, World!".as_bytes());
}

#[test]
fn app_routes_has_no_routes() {
    assert!(!app_routes().has_routes());
}

#[test]
fn app_routes_answers_not_found_on_every_path() {
    for path in ["/", "/hello", "/api/v1/users", "/index.html", "/a/b/c/d/", "/?q=1", "//"] {
        let response = ask(app_routes(), path);
        assert_eq!(response.status(), StatusCode::NOT_FOUND, "{}", path);
    }
}

#[test]
fn one_route_answers_only_its_own_path() {
    for path in ["/", "/hello/", "/hello/world", "/hell", "/Hello", "/other"] {
        let router = app_routes().route("/hello", get(handler));
        let response = ask(router, path);
        assert_eq!(response.status(), StatusCode::NOT_FOUND, "{}", path);
    }
    let router = app_routes().route("/hello", get(handler));
    assert!(router.has_routes());
    let response = ask(router, "/hello");
    assert_eq!(response.status(), StatusCode::OK);
    assert_eq!(body_of(response), b"Hello, World!".to_vec());
}
