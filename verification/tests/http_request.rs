use aquatic::http::config::{Config, ReverseProxyPeerIpHeaderFormat};
use aquatic::http::request::{forwarded_address_text, ForwardedHeaderError, Header};

fn header(name: &str, value: &str) -> Header {
    Header { name: name.to_string(), value: value.as_bytes().to_vec() }
}

#[test]
fn test_parse_peer_ip_header_multiple() {
    let headers = vec![
        header("Host", "example.com"),
        header("X-Forwarded-For", "200.0.0.1"),
        header("X-Forwarded-For", "1.2.3.4, 5.6.7.8,9.10.11.12"),
    ];

    assert_eq!(
        forwarded_address_text("X-Forwarded-For", ReverseProxyPeerIpHeaderFormat::LastAddress, &headers),
        Ok("9.10.11.12".to_string())
    );
}

#[test]
fn test_parse_peer_ip_header_single() {
    let headers = vec![
        header("Host", "example.com"),
        header("X-Forwarded-For", "1.2.3.4, 5.6.7.8,9.10.11.12"),
        header("X-Forwarded-For", "200.0.0.1"),
    ];

    assert_eq!(
        forwarded_address_text("X-Forwarded-For", ReverseProxyPeerIpHeaderFormat::LastAddress, &headers),
        Ok("200.0.0.1".to_string())
    );
}

#[test]
fn test_parse_peer_ip_header_no_header() {
    let mut config = Config::default();
    config.network.runs_behind_reverse_proxy = true;

    let headers = vec![header("Host", "example.com")];
    assert_eq!(
        forwarded_address_text(
            &config.network.reverse_proxy_ip_header_name,
            config.network.reverse_proxy_ip_header_format,
            &headers
        ),
        Err(ForwardedHeaderError::NotPresent)
    );
}

#[test]
fn test_forwarded_address_trims_and_checks_header() {
    let headers = vec![header("X-Forwarded-For", "1.2.3.4,  ::1  ")];
    assert_eq!(
        forwarded_address_text("X-Forwarded-For", ReverseProxyPeerIpHeaderFormat::LastAddress, &headers),
        Ok("::1".to_string())
    );

    let headers = vec![header("Host", "example.com")];
    assert_eq!(
        forwarded_address_text("X-Forwarded-For", ReverseProxyPeerIpHeaderFormat::LastAddress, &headers),
        Err(ForwardedHeaderError::NotPresent)
    );

    // Header names compare exactly
    let headers = vec![header("x-forwarded-for", "1.2.3.4")];
    assert_eq!(
        forwarded_address_text("X-Forwarded-For", ReverseProxyPeerIpHeaderFormat::LastAddress, &headers),
        Err(ForwardedHeaderError::NotPresent)
    );

    let headers = vec![Header { name: "X-Forwarded-For".to_string(), value: vec![0xff, 0xfe] }];
    assert_eq!(
        forwarded_address_text("X-Forwarded-For", ReverseProxyPeerIpHeaderFormat::LastAddress, &headers),
        Err(ForwardedHeaderError::NotUtf8)
    );
}

#[test]
fn test_forwarded_address_trims_unicode_whitespace() {
    let headers = vec![header("X-Forwarded-For", "1.2.3.4,\u{3000}\t5.6.7.8\u{a0}\n")];
    assert_eq!(
        forwarded_address_text("X-Forwarded-For", ReverseProxyPeerIpHeaderFormat::LastAddress, &headers),
        Ok("5.6.7.8".to_string())
    );
}
