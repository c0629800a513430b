use bambu_stream::sift::{normalize_uri, UnsupportedScheme};

#[test]
fn grpc_becomes_http() {
    assert_eq!(normalize_uri("grpc://localhost:6666"), Ok("http://localhost:6666".to_string()));
}

#[test]
fn grpc_tls_becomes_https() {
    assert_eq!(normalize_uri("grpc+tls://edge.example:443"), Ok("https://edge.example:443".to_string()));
}

#[test]
fn http_and_https_stay() {
    assert_eq!(normalize_uri("http://10.0.0.2:6666"), Ok("http://10.0.0.2:6666".to_string()));
    assert_eq!(normalize_uri("https://edge"), Ok("https://edge".to_string()));
}

#[test]
fn other_schemes_are_refused() {
    let err = normalize_uri("ftp://edge").unwrap_err();
    assert_eq!(err, UnsupportedScheme { uri: "ftp://edge".to_string() });
    assert_eq!(
        err.message(),
        "unsupported sift edge uri scheme (use grpc://, grpc+tls://, http://, or https://): ftp://edge"
    );
    assert!(normalize_uri("localhost:6666").is_err());
    assert!(normalize_uri("").is_err());
    assert!(normalize_uri("GRPC://edge").is_err());
}

#[test]
fn normalizing_twice_is_normalizing_once() {
    for uri in ["grpc://a:1", "grpc+tls://b", "http://c", "https://d"] {
        let once = normalize_uri(uri).unwrap();
        assert_eq!(normalize_uri(&once), Ok(once.clone()));
    }
}
