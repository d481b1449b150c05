use mock_http_server::handlers::u64_to_decimal;
use mock_http_server::{CountingHandler, MockHttpServer, Request};

#[test]
fn decimal_of_small_numbers() {
    assert_eq!(u64_to_decimal(0), b"0".to_vec());
    assert_eq!(u64_to_decimal(7), b"7".to_vec());
    assert_eq!(u64_to_decimal(10), b"10".to_vec());
    assert_eq!(u64_to_decimal(255), b"255".to_vec());
}

#[test]
fn decimal_of_large_numbers() {
    assert_eq!(u64_to_decimal(1234567890), b"1234567890".to_vec());
    assert_eq!(u64_to_decimal(u64::MAX), b"18446744073709551615".to_vec());
}

#[test]
fn counter_starting_above_zero_continues_from_there() {
    let server: MockHttpServer<CountingHandler> = MockHttpServer::new();
    server.handle_path("/c".to_string(), CountingHandler { count: 41 });
    let client = server.client();

    let r = client.send(Request::new("/c".to_string())).unwrap();
    assert_eq!(r.body, b"42".to_vec());
}
