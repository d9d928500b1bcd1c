use echo::cors::{snatcher, CorsHeaders};
use echo::routes::{get_root, Version};
use echo::utils::{generate_id, split_at_space, HeaderError, PasswordHeader};

#[test]
fn ids_have_requested_length_and_alphabet() {
    for size in [0usize, 1, 20, 64] {
        let id = generate_id(size);
        assert_eq!(id.len(), size);
        assert!(id.chars().all(|c| c.is_ascii_alphanumeric()));
    }
}

#[test]
fn ids_differ() {
    assert_ne!(generate_id(64), generate_id(64));
}

#[test]
fn split_at_first_space() {
    assert_eq!(split_at_space("Password a b"), Some(("Password", "a b")));
    assert_eq!(split_at_space(" x"), Some(("", "x")));
    assert_eq!(split_at_space("none"), None);
}

#[test]
fn password_header_accepts_any_case() {
    let h = PasswordHeader::from_header(Some("Password hunter2")).ok().unwrap();
    assert_eq!(h.get(), "hunter2");
    let h = PasswordHeader::from_header(Some("PASSWORD with space")).ok().unwrap();
    assert_eq!(h.get(), "with space");
}

#[test]
fn password_header_errors() {
    assert_eq!(PasswordHeader::from_header(None).err(), Some(HeaderError::Missing));
    assert_eq!(PasswordHeader::from_header(Some("Password")).err(), Some(HeaderError::Invalid));
    assert_eq!(PasswordHeader::from_header(Some("Bearer abc")).err(), Some(HeaderError::Invalid));
    assert_eq!(HeaderError::Missing.message(), "Missing Authorization header.");
    assert_eq!(HeaderError::Invalid.message(), "Invalid Authorization header.");
}

#[test]
fn password_header_from_parts() {
    assert!(PasswordHeader::from_parts("password", "x").is_ok());
    assert_eq!(PasswordHeader::from_parts("Password", "x").err(), Some(HeaderError::Invalid));
}

#[test]
fn cors_headers_for_allowed_origin() {
    let allowed = vec![String::from("https://a.example"), String::from("https://b.example")];
    let headers = CorsHeaders::headers_for(Some("https://b.example"), &allowed);
    let expected = vec![
        ("Access-Control-Allow-Origin", "https://b.example"),
        ("Access-Control-Allow-Methods", "DELETE, GET, PATCH, POST, PUT, QUERY"),
        ("Access-Control-Max-Age", "86400"),
        ("Access-Control-Allow-Credentials", "true"),
    ];
    assert_eq!(headers.len(), expected.len());
    for (h, e) in headers.iter().zip(expected) {
        assert_eq!((h.0.as_str(), h.1.as_str()), e);
    }
}

#[test]
fn cors_headers_skip_unknown_or_missing_origin() {
    let allowed = vec![String::from("https://a.example")];
    assert!(CorsHeaders::headers_for(Some("https://evil.example"), &allowed).is_empty());
    assert!(CorsHeaders::headers_for(None, &allowed).is_empty());
    snatcher();
}

#[test]
fn root_redirects_to_docs() {
    assert_eq!(get_root(), "/docs");
    assert_eq!(Version::new("1.2.3").version, "1.2.3");
}
