use opencode_gtk::server::{detect_server_url, normalize_server_url};

#[test]
fn server_address_gets_a_scheme() {
    assert_eq!(normalize_server_url("127.0.0.1:42165"), "http://127.0.0.1:42165");
    assert_eq!(normalize_server_url("http://localhost:1"), "http://localhost:1");
    assert_eq!(normalize_server_url("https://example.org"), "https://example.org");
    assert_eq!(normalize_server_url("httpx://a"), "http://httpx://a");
}

#[test]
fn normalizing_twice_is_normalizing_once() {
    for s in ["127.0.0.1:4096", "http://a", "https://b", "", "ftp://c"] {
        let once = normalize_server_url(s);
        assert_eq!(normalize_server_url(&once), once);
    }
}

#[test]
fn launched_server_url_is_found() {
    assert_eq!(
        detect_server_url("opencode server listening on http://127.0.0.1:4096  "),
        Some("http://127.0.0.1:4096".to_string())
    );
    assert_eq!(detect_server_url("listening on port 80"), None);
    assert_eq!(detect_server_url("started at http://127.0.0.1:4096"), None);
    assert_eq!(
        detect_server_url("http://a listening on http://b"),
        Some("http://a listening on http://b".to_string())
    );
}

#[test]
fn detected_url_starts_with_scheme() {
    let url = detect_server_url("INFO listening on http://[::1]:9\r").unwrap();
    assert!(url.starts_with("http://"));
    assert_eq!(url, "http://[::1]:9");
}
