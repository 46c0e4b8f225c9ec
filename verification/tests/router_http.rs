use mkvss::db::init_pool;
use mkvss::http::method::Method;
use mkvss::http::request::Request;
use mkvss::http::response::Response;
use mkvss::http::status_code::StatusCode;
use mkvss::router::{handle_request, route};

#[test]
fn post_then_get_round_trip() {
    let mut pool = init_pool("file:rt_round?mode=memory&cache=shared").expect("pool");
    let body = "{\"key\":\"a\",\"value\":\"1\"}";
    let post = format!("POST /keys HTTP/1.1\r\nContent-Length: {}\r\n\r\n{}", body.len(), body);
    let req = Request::parse(post.as_bytes()).expect("parse");
    let resp = route(req, &mut pool);
    assert_eq!(resp.status_code.code(), 201);

    let req2 = Request::parse(b"GET /keys/a HTTP/1.1\r\n\r\n").expect("parse");
    let resp2 = route(req2, &mut pool);
    assert_eq!(resp2.status_code.code(), 200);
    assert_eq!(resp2.body.as_deref(), Some("1"));
}

#[test]
fn malformed_json_is_rejected_and_stores_nothing() {
    let mut pool = init_pool("file:rt_badjson?mode=memory&cache=shared").expect("pool");
    let post = b"POST /keys HTTP/1.1\r\nContent-Length: 8\r\n\r\nnot json";
    let req = Request::parse(post).expect("parse");
    let resp = route(req, &mut pool);
    assert_eq!(resp.status_code.code(), 400);
    assert!(resp.body.unwrap().contains("Invalid JSON"));

    let req2 = Request::parse(b"GET /keys/a HTTP/1.1\r\n\r\n").expect("parse");
    let resp2 = route(req2, &mut pool);
    assert_eq!(resp2.status_code.code(), 404);
}

#[test]
fn post_without_body_is_missing_body() {
    let mut pool = init_pool("file:rt_nobody?mode=memory&cache=shared").expect("pool");
    let req = Request::parse(b"POST /keys HTTP/1.1\r\n\r\n").expect("parse");
    let resp = route(req, &mut pool);
    assert_eq!(resp.status_code.code(), 400);
    assert!(resp.body.unwrap().contains("Missing Body"));
}

#[test]
fn get_with_empty_id_is_invalid_method_for_path() {
    let mut pool = init_pool("file:rt_emptyid?mode=memory&cache=shared").expect("pool");
    let req = Request::parse(b"GET /keys/ HTTP/1.1\r\n\r\n").expect("parse");
    let resp = route(req, &mut pool);
    assert_eq!(resp.status_code, StatusCode::BadRequest);
    assert_eq!(resp.body.as_deref(), Some("Invalid Method for Path"));
}

#[test]
fn unknown_resource_is_not_found() {
    let mut pool = init_pool("file:rt_widgets?mode=memory&cache=shared").expect("pool");
    let req = Request::parse(b"GET /widgets/1 HTTP/1.1\r\n\r\n").expect("parse");
    let resp = route(req, &mut pool);
    assert_eq!(resp.status_code.code(), 404);
    assert!(resp.body.unwrap().contains("Route Not Found"));
}

#[test]
fn post_with_id_is_invalid_method_for_path() {
    let mut pool = init_pool("file:rt_postid?mode=memory&cache=shared").expect("pool");
    let post = b"POST /keys/a HTTP/1.1\r\nContent-Length: 2\r\n\r\n{}";
    let req = Request::parse(post).expect("parse");
    let resp = route(req, &mut pool);
    assert_eq!(resp.status_code.code(), 400);
    assert_eq!(resp.body.as_deref(), Some("Invalid Method for Path"));
}

#[test]
fn put_upserts_and_reads_back() {
    let mut pool = init_pool("file:rt_put?mode=memory&cache=shared").expect("pool");
    let req = Request::parse(b"PUT /keys/color HTTP/1.1\r\nContent-Length: 4\r\n\r\nblue")
        .expect("parse");
    let resp = route(req, &mut pool);
    assert_eq!(resp.status_code.code(), 200);

    let req2 = Request::parse(b"GET /keys/color HTTP/1.1\r\n\r\n").expect("parse");
    let resp2 = route(req2, &mut pool);
    assert_eq!(resp2.body.as_deref(), Some("blue"));

    let req3 = Request::parse(b"PUT /keys/color HTTP/1.1\r\n\r\n").expect("parse");
    let resp3 = route(req3, &mut pool);
    assert_eq!(resp3.status_code.code(), 200);

    let req4 = Request::parse(b"GET /keys/color HTTP/1.1\r\n\r\n").expect("parse");
    let resp4 = route(req4, &mut pool);
    assert_eq!(resp4.body.as_deref(), Some(""));
}

#[test]
fn delete_route_reports_both_ways() {
    let mut pool = init_pool("file:rt_delete?mode=memory&cache=shared").expect("pool");
    let put = Request::parse(b"PUT /keys/d HTTP/1.1\r\nContent-Length: 1\r\n\r\nx").unwrap();
    assert_eq!(route(put, &mut pool).status_code.code(), 200);

    let del = Request::parse(b"DELETE /keys/d HTTP/1.1\r\n\r\n").unwrap();
    let resp = route(del, &mut pool);
    assert_eq!(resp.status_code.code(), 200);
    assert!(resp.body.unwrap().contains("deleted successfully"));

    let del2 = Request::parse(b"DELETE /keys/d HTTP/1.1\r\n\r\n").unwrap();
    assert_eq!(route(del2, &mut pool).status_code.code(), 404);
}

#[test]
fn handle_request_gives_bare_400_on_malformed_bytes() {
    let mut pool = init_pool("file:rt_handle?mode=memory&cache=shared").expect("pool");
    let resp = handle_request(b"GET\r\n", &mut pool);
    assert_eq!(resp.status_code.code(), 400);
    assert_eq!(resp.body.as_deref(), Some("400 Bad Request"));
}

#[test]
fn render_writes_minimal_framing() {
    let r = Response::new(StatusCode::Okay, Some("hi".to_string()));
    assert_eq!(r.render(), "HTTP/1.1 200 OK\r\n\r\nhi");
    let r2 = Response::new(StatusCode::NotFound, None);
    assert_eq!(r2.render(), "HTTP/1.1 404 Not Found\r\n\r\n");
}

#[test]
fn status_code_parts() {
    assert_eq!(StatusCode::Created.code(), 201);
    assert_eq!(StatusCode::InternalServerError.reason_phrase(), "Internal Server Error");
    assert_eq!(StatusCode::BadRequest.code(), 400);
}

#[test]
fn method_tokens() {
    assert_eq!(Method::from_token("GET"), Some(Method::GET));
    assert_eq!(Method::from_token("DELETE"), Some(Method::DELETE));
    assert_eq!(Method::from_token("get"), None);
    assert_eq!(Method::from_token(""), None);
}

#[test]
fn get_without_id_is_invalid_method_for_path() {
    let mut pool = init_pool("file:rt_noid?mode=memory&cache=shared").expect("pool");
    let req = Request::parse(b"GET /keys HTTP/1.1\r\n\r\n").expect("parse");
    let resp = route(req, &mut pool);
    assert_eq!(resp.status_code.code(), 400);
    assert_eq!(resp.body.as_deref(), Some("Invalid Method for Path"));
}

#[test]
fn post_with_trailing_slash_still_creates() {
    let mut pool = init_pool("file:rt_slash?mode=memory&cache=shared").expect("pool");
    let body = "{\"key\":\"s\",\"value\":\"9\"}";
    let post = format!("POST /keys/ HTTP/1.1\r\nContent-Length: {}\r\n\r\n{}", body.len(), body);
    let req = Request::parse(post.as_bytes()).expect("parse");
    let resp = route(req, &mut pool);
    assert_eq!(resp.status_code.code(), 201);
}

#[test]
fn second_create_via_router_reports_conflict() {
    let mut pool = init_pool("file:rt_conflict?mode=memory&cache=shared").expect("pool");
    let body = "{\"key\":\"dup\",\"value\":\"1\"}";
    let post = format!("POST /keys HTTP/1.1\r\nContent-Length: {}\r\n\r\n{}", body.len(), body);
    let req = Request::parse(post.as_bytes()).expect("parse");
    assert_eq!(route(req, &mut pool).status_code.code(), 201);

    let req2 = Request::parse(post.as_bytes()).expect("parse");
    let resp2 = route(req2, &mut pool);
    assert_eq!(resp2.status_code.code(), 400);
    assert!(resp2.body.unwrap().contains("already exists"));

    let req3 = Request::parse(b"GET /keys/dup HTTP/1.1\r\n\r\n").expect("parse");
    assert_eq!(route(req3, &mut pool).body.as_deref(), Some("1"));
}
