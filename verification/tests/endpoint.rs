use sio_session::endpoint::{endpoint_url, port_text};

#[test]
fn the_url_of_an_endpoint() {
    assert_eq!(
        endpoint_url("eu1.example.org", 2053),
        "wss://eu1.example.org:2053/socket.io/?EIO=4&transport=websocket"
    );
}

#[test]
fn the_url_takes_the_address_as_it_is() {
    assert_eq!(endpoint_url("", 0), "wss://:0/socket.io/?EIO=4&transport=websocket");
    assert_eq!(
        endpoint_url("10.0.0.1", 65535),
        "wss://10.0.0.1:65535/socket.io/?EIO=4&transport=websocket"
    );
}

#[test]
fn ports_in_decimal() {
    assert_eq!(port_text(0), "0");
    assert_eq!(port_text(7), "7");
    assert_eq!(port_text(10), "10");
    assert_eq!(port_text(443), "443");
    assert_eq!(port_text(8080), "8080");
    assert_eq!(port_text(10000), "10000");
    assert_eq!(port_text(u16::MAX), "65535");
}

#[test]
fn every_port_in_decimal() {
    for port in 0..=u16::MAX {
        assert_eq!(port_text(port), format!("{}", port));
    }
}
