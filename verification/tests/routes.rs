use rust_axum_server::api::test1::client;
use rust_axum_server::api::test2::server;
use rust_axum_server::server::{extra_runtime_threads, listen_port, parse_port};
use rust_axum_server::biz::decimal::IntErrorKind;

#[test]
fn fixed_answers() {
    assert_eq!(client::gmoney().unwrap(), "get /test2/client/money path is ok. ");
    assert_eq!(client::pmoney().unwrap(), "post /test2/client/money path is ok. ");
    assert_eq!(client::gclient().unwrap(), "get /test2/client/ path is ok. ");
    assert_eq!(client::pclient().unwrap(), "post /test2/client/ path is ok. ");
    assert_eq!(server::gmoney().unwrap(), "get /test2/server/money path is ok. ");
    assert_eq!(server::pmoney().unwrap(), "post /test2/server/money path is ok. ");
}

#[test]
fn server_settings() {
    assert_eq!(listen_port(None), 8000);
    assert_eq!(listen_port(Some(8089)), 8089);
    assert_eq!(parse_port("8089"), Ok(8089));
    assert_eq!(parse_port("70000"), Err(IntErrorKind::PosOverflow));
    assert_eq!(parse_port(""), Err(IntErrorKind::Empty));
    assert_eq!(extra_runtime_threads(8), 7);
    assert_eq!(extra_runtime_threads(1), 0);
    assert_eq!(extra_runtime_threads(0), 0);
}
