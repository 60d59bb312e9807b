use peer_network::text::{loopback_address, ws_url};

#[test]
fn ws_url_prefixes_scheme() {
    assert_eq!(ws_url("127.0.0.1:8000"), "ws://127.0.0.1:8000");
    assert_eq!(ws_url(""), "ws://");
}

#[test]
fn loopback_address_formats_port() {
    assert_eq!(loopback_address(9000), "127.0.0.1:9000");
    assert_eq!(loopback_address(18999), "127.0.0.1:18999");
    assert_eq!(loopback_address(0), "127.0.0.1:0");
    assert_eq!(loopback_address(7), "127.0.0.1:7");
    assert_eq!(loopback_address(10), "127.0.0.1:10");
    assert_eq!(loopback_address(u64::MAX), format!("127.0.0.1:{}", u64::MAX));
}
