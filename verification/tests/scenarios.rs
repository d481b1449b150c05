use mock_http_server::{
    CountingHandler, ErrorHandler, MockHttpServer, Request, Response, RoutingState, StatusHandler,
};

fn req(path: &str) -> Request {
    Request::new(path.to_string())
}

#[test]
fn registered_path_is_served() {
    let server: MockHttpServer<StatusHandler> = MockHttpServer::new();
    server.handle_path("/status".to_string(), StatusHandler { status: 200 });
    let client = server.client();

    let ok = client.send(req("/status")).unwrap();
    assert_eq!(ok.status, 200);
    assert_eq!(ok.body, Vec::<u8>::new());

    let missing = client.send(req("/missing")).unwrap();
    assert_eq!(missing.status, 404);
    assert_eq!(missing.body, Vec::<u8>::new());
}

#[test]
fn default_handler_serves_any_unmatched_path() {
    let server: MockHttpServer<StatusHandler> = MockHttpServer::new();
    server.handle_default(StatusHandler { status: 500 });
    let client = server.client();

    let r = client.send(req("/x")).unwrap();
    assert_eq!(r.status, 500);

    let r = client.send(req("/another/path")).unwrap();
    assert_eq!(r.status, 500);
}

#[test]
fn path_handler_beats_default() {
    let server: MockHttpServer<StatusHandler> = MockHttpServer::new();
    server.handle_default(StatusHandler { status: 500 });
    server.handle_path("/status".to_string(), StatusHandler { status: 200 });
    let client = server.client();

    assert_eq!(client.send(req("/status")).unwrap().status, 200);
    assert_eq!(client.send(req("/elsewhere")).unwrap().status, 500);
}

#[test]
fn counter_bodies_come_in_order() {
    let server: MockHttpServer<CountingHandler> = MockHttpServer::new();
    server.handle_path("/counter".to_string(), CountingHandler { count: 0 });
    let client = server.client();

    let first = client.send(req("/counter")).unwrap();
    assert_eq!(first.status, 200);
    assert_eq!(first.body, b"1".to_vec());
    let second = client.send(req("/counter")).unwrap();
    assert_eq!(second.body, b"2".to_vec());
    let third = client.send(req("/counter")).unwrap();
    assert_eq!(third.body, b"3".to_vec());
}

#[test]
fn handler_error_propagates_unchanged() {
    let server: MockHttpServer<ErrorHandler> = MockHttpServer::new();
    server.handle_path("/err".to_string(), ErrorHandler { message: "E".to_string() });
    let client = server.client();

    let r = client.send(req("/err"));
    assert!(r.is_err());
    assert_eq!(r.unwrap_err().message, "E".to_string());
}

#[test]
fn empty_server_answers_not_found() {
    let server: MockHttpServer<StatusHandler> = MockHttpServer::new();
    let client = server.client();

    let r = client.send(req("/anything")).unwrap();
    assert_eq!(r.status, 404);
    assert_eq!(r.body, Vec::<u8>::new());
}

#[test]
fn second_registration_replaces_first() {
    let server: MockHttpServer<StatusHandler> = MockHttpServer::new();
    server.handle_path("/p".to_string(), StatusHandler { status: 200 });
    server.handle_path("/p".to_string(), StatusHandler { status: 201 });
    let client = server.client();

    assert_eq!(client.send(req("/p")).unwrap().status, 201);
}

#[test]
fn replacing_default_keeps_last_registration() {
    let server: MockHttpServer<StatusHandler> = MockHttpServer::new();
    server.handle_default(StatusHandler { status: 500 });
    server.handle_default(StatusHandler { status: 503 });
    let client = server.client();

    assert_eq!(client.send(req("/q")).unwrap().status, 503);
}

#[test]
fn derived_handle_sees_later_registrations() {
    let server: MockHttpServer<StatusHandler> = MockHttpServer::new();
    let client = server.client();

    assert_eq!(client.send(req("/late")).unwrap().status, 404);
    server.handle_path("/late".to_string(), StatusHandler { status: 200 });
    assert_eq!(client.send(req("/late")).unwrap().status, 200);
}

#[test]
fn handles_sharing_a_server_share_one_counter() {
    let server: MockHttpServer<CountingHandler> = MockHttpServer::new();
    server.handle_path("/counter".to_string(), CountingHandler { count: 0 });
    let a = server.client();
    let b = server.client();

    assert_eq!(a.send(req("/counter")).unwrap().body, b"1".to_vec());
    assert_eq!(b.send(req("/counter")).unwrap().body, b"2".to_vec());
    assert_eq!(a.send(req("/counter")).unwrap().body, b"3".to_vec());
    assert_eq!(b.send(req("/counter")).unwrap().body, b"4".to_vec());
}

#[test]
fn routing_state_resolves_directly() {
    let mut state: RoutingState<StatusHandler> = RoutingState::new();
    state.set_path_handler("/a".to_string(), StatusHandler { status: 200 });
    state.set_default(StatusHandler { status: 500 });

    assert_eq!(state.resolve(&req("/a")).unwrap().status, 200);
    assert_eq!(state.resolve(&req("/b")).unwrap().status, 500);
}

#[test]
fn not_found_response_has_status_404() {
    let r = Response::not_found();
    assert_eq!(r.status, 404);
    assert_eq!(r.body, Vec::<u8>::new());
}

#[test]
fn request_keeps_its_path() {
    let r = req("/some/path");
    assert_eq!(r.path().as_str(), "/some/path");
}

#[test]
fn introspection_lists_registered_paths_only() {
    let mut state: RoutingState<StatusHandler> = RoutingState::new();
    assert!(!state.has_default());
    assert_eq!(state.registered_paths(), Vec::<String>::new());

    state.set_path_handler("/a".to_string(), StatusHandler { status: 200 });
    state.set_path_handler("/b".to_string(), StatusHandler { status: 201 });
    state.set_path_handler("/a".to_string(), StatusHandler { status: 202 });
    state.set_default(StatusHandler { status: 500 });

    assert!(state.has_default());
    let mut paths = state.registered_paths();
    paths.sort();
    assert_eq!(paths, vec!["/a".to_string(), "/b".to_string()]);
}
