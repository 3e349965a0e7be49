use melodium_libs::data::StringMap;
use melodium_libs::http::client::{request, RequestOutcome};
use melodium_libs::http::headers::{outgoing_headers, received_headers};
use melodium_libs::http::method::{self, HttpMethod};
use melodium_libs::http::server::{HttpServer, http_request, product, incoming_report, outgoing, request_parameters, response_plan, routable, server_routes, Pending};
use melodium_libs::http::status::{self, HttpStatus};

fn map(pairs: &[(&str, &str)]) -> StringMap {
    StringMap { entries: pairs.iter().map(|(k, v)| (k.to_string(), v.to_string())).collect() }
}

#[test]
fn methods_by_name() {
    assert_eq!(method::method("get").unwrap().name, "GET");
    assert_eq!(method::method("Patch").unwrap().to_string(), "PATCH");
    assert_eq!(method::method("mkcalendar").unwrap().name, "MKCALENDAR");
    assert!(method::method("FETCH").is_none());
    assert_eq!(method::delete().name, "DELETE");
    assert_eq!(method::get().name, "GET");
    assert_eq!(method::head().name, "HEAD");
    assert_eq!(method::options().name, "OPTIONS");
    assert_eq!(method::patch().name, "PATCH");
    assert_eq!(method::post().name, "POST");
    assert_eq!(method::put().name, "PUT");
    assert_eq!(method::trace().name, "TRACE");
}

#[test]
fn statuses_by_code() {
    assert_eq!(status::status(404).unwrap().to_string(), "404 Not Found");
    assert_eq!(status::ok().to_string(), "200 OK");
    assert_eq!(status::moved_permanently().to_string(), "301 Moved Permanently");
    assert_eq!(status::temporary_redirect().code, 307);
    assert_eq!(status::permanent_redirect().code, 308);
    assert_eq!(status::forbidden().to_string(), "403 Forbidden");
    assert_eq!(status::not_found().code, 404);
    assert!(status::status(999).is_none());
    assert_eq!(HttpStatus { code: 999 }.to_string(), "999");
}

#[test]
fn only_valid_headers_go_out() {
    let headers = map(&[("X-Ok", "fine"), ("Bad Name", "v"), ("X-Split", "a\r\nb"), ("content-type", "text/plain")]);
    let out = outgoing_headers(&headers);
    assert_eq!(out, vec![("X-Ok".to_string(), "fine".to_string()), ("content-type".to_string(), "text/plain".to_string())]);
    assert!(outgoing_headers(&map(&[("", "v")])).is_empty());
}

#[test]
fn received_headers_keep_text_values() {
    let h = received_headers(vec![("a".to_string(), Some("1".to_string())), ("b".to_string(), None)]);
    assert_eq!(h.entries, vec![("a".to_string(), "1".to_string())]);
}

#[test]
fn server_serves_valid_routes_of_routable_methods() {
    assert!(routable(&method::get()));
    assert!(!routable(&method::head()));
    let routes = vec![
        (method::get(), "/users/:id/posts/:post".to_string()),
        (method::head(), "/users".to_string()),
        (method::post(), "/broken/:".to_string()),
        (method::put(), "/files/*".to_string()),
    ];
    let served = server_routes(&routes);
    assert_eq!(served.len(), 2);
    assert_eq!(served[0].route, "/users/:id/posts/:post");
    assert_eq!(served[0].params, vec!["id".to_string(), "post".to_string()]);
    assert_eq!(served[1].method.name, "PUT");
    assert!(served[1].params.is_empty());
}

#[test]
fn request_parameters_of_captures() {
    let params = vec!["id".to_string(), "post".to_string()];
    let p = request_parameters(&params, &map(&[("post", "7"), ("id", "3")]));
    assert_eq!(p.entries, vec![("id".to_string(), "3".to_string()), ("post".to_string(), "7".to_string())]);
    let p = request_parameters(&params, &map(&[("id", "3")]));
    assert_eq!(p.entries, vec![("id".to_string(), "3".to_string())]);
    let r = http_request(9, "/users/:id".to_string(), "/users/3".to_string(), &vec!["id".to_string()], &map(&[("id", "3")]), &method::get());
    assert_eq!(r.id, 9);
    assert_eq!(r.parameters.entries, vec![("id".to_string(), "3".to_string())]);
    assert_eq!(r.method.name, "GET");
}

#[test]
fn incoming_requests() {
    let r = incoming_report(Ok(vec![1, 2]), map(&[("h", "v")]));
    assert!(r.started && r.failure.is_none());
    assert_eq!(r.data, Some(vec![1, 2]));
    let r = incoming_report(Err("reset".to_string()), map(&[]));
    assert!(!r.started);
    assert_eq!(r.failure, Some("reset".to_string()));
    assert!(r.headers.is_none() && r.data.is_none());
}

#[test]
fn response_plans() {
    let p = response_plan(Some(status::not_found()), Some(map(&[("X-A", "1"), ("Bad Name", "2")])), "0.9.0");
    assert_eq!(p.status.code, 404);
    assert!(p.body);
    assert_eq!(p.headers, vec![("Server".to_string(), "http-mel/0.9.0".to_string()), ("X-A".to_string(), "1".to_string())]);
    let p = response_plan(Some(status::ok()), None, "0.9.0");
    assert_eq!(p.status.code, 500);
    assert!(!p.body && p.headers.is_empty());
}

#[test]
fn pending_connections_give_back_what_was_kept() {
    let mut statuses: Pending<u16> = Pending::new();
    let mut headers: Pending<&str> = Pending::new();
    let mut bodies: Pending<Vec<u8>> = Pending::new();
    statuses.insert(1, 200);
    statuses.insert(1, 404);
    headers.insert(1, "h");
    bodies.insert(1, vec![7]);
    statuses.insert(2, 201);
    assert_eq!(outgoing(&mut statuses, &mut headers, &mut bodies, 1), Some((404, "h", vec![7])));
    assert_eq!(outgoing(&mut statuses, &mut headers, &mut bodies, 1), None);
    assert_eq!(outgoing(&mut statuses, &mut headers, &mut bodies, 2), None);
    assert_eq!(statuses.remove(2), None);
    assert!(statuses.entries.is_empty());
}

#[test]
fn request_reports() {
    let r = request(RequestOutcome::Responded { status: Some(201), headers: vec![("a".to_string(), Some("b".to_string())), ("c".to_string(), None)] });
    assert_eq!(r.status.unwrap().code, 201);
    assert_eq!(r.headers.unwrap().entries, vec![("a".to_string(), "b".to_string())]);
    assert!(r.body && r.completed && !r.failed && r.finished);
    let r = request(RequestOutcome::InvalidUrl("relative URL without a base".to_string()));
    assert!(r.failed && r.finished && !r.completed);
    assert_eq!(r.error, Some("relative URL without a base".to_string()));
    let r = request(RequestOutcome::Responded { status: None, headers: vec![] });
    assert!(!r.failed && !r.completed && r.finished && r.status.is_none());
}

#[test]
fn product_name_of_the_package() {
    assert_eq!(product("1.2.3"), "http-mel/1.2.3");
}

#[test]
fn http_method_value() {
    let m = HttpMethod { name: "GET".to_string() };
    assert_eq!(m.to_string(), "GET");
}

#[test]
fn server_keeps_routes_and_connections() {
    let mut server: HttpServer<u16, String, Vec<u8>> = HttpServer::new();
    server.invoke_source("incoming", method::get(), "/a".to_string());
    server.invoke_source("other", method::get(), "/b".to_string());
    assert_eq!(server.routes.len(), 1);
    assert_eq!(server.routes[0].1, "/a");
    server.connect(5, 200, "h".to_string(), vec![1]);
    assert_eq!(server.take(6), None);
    assert_eq!(server.take(5), Some((200, "h".to_string(), vec![1])));
    assert_eq!(server.take(5), None);
}
