use relink::location::{get_base_url_and_path, locate, LocateError, UrlParts};

#[test]
fn malformed_url_is_invalid() {
    assert!(matches!(get_base_url_and_path("not a url"), Err(LocateError::InvalidUrl)));
}

#[test]
fn trailing_slash_is_stripped_from_the_path() {
    let location = get_base_url_and_path("https://example.com/a/b/").unwrap();
    assert_eq!(location.origin, "https://example.com");
    assert_eq!(location.path, "/a/b");
}

#[test]
fn path_without_trailing_slash_is_kept() {
    let location = get_base_url_and_path("https://example.com/a/b").unwrap();
    assert_eq!(location.origin, "https://example.com");
    assert_eq!(location.path, "/a/b");
}

#[test]
fn root_path_is_the_empty_path() {
    let location = get_base_url_and_path("https://example.com/").unwrap();
    assert_eq!(location.origin, "https://example.com");
    assert_eq!(location.path, "");
    let location = get_base_url_and_path("https://example.com").unwrap();
    assert_eq!(location.origin, "https://example.com");
    assert_eq!(location.path, "");
}

#[test]
fn all_trailing_slashes_are_stripped() {
    let location = get_base_url_and_path("http://example.com/a///").unwrap();
    assert_eq!(location.origin, "http://example.com");
    assert_eq!(location.path, "/a");
}

#[test]
fn query_fragment_port_and_credentials_stay_out() {
    let location =
        get_base_url_and_path("https://user:pw@example.com:8443/a/b/?q=1/#frag/").unwrap();
    assert_eq!(location.origin, "https://example.com");
    assert_eq!(location.path, "/a/b");
}

#[test]
fn scheme_and_host_come_in_lower_case() {
    let location = get_base_url_and_path("HTTPS://Example.COM/Dir/").unwrap();
    assert_eq!(location.origin, "https://example.com");
    assert_eq!(location.path, "/Dir");
}

#[test]
fn url_without_a_host_is_invalid() {
    assert!(matches!(get_base_url_and_path("data:text/plain,Stuff"), Err(LocateError::InvalidUrl)));
    assert!(matches!(get_base_url_and_path("mailto:a@example.com"), Err(LocateError::InvalidUrl)));
}

#[test]
fn relative_and_empty_urls_are_invalid() {
    assert!(matches!(get_base_url_and_path(""), Err(LocateError::InvalidUrl)));
    assert!(matches!(get_base_url_and_path("/a/b"), Err(LocateError::InvalidUrl)));
    assert!(matches!(get_base_url_and_path("https://"), Err(LocateError::InvalidUrl)));
}

#[test]
fn location_from_given_parts() {
    let parts = UrlParts {
        scheme: "https".to_string(),
        host: Some("example.com".to_string()),
        path: "/a/b//".to_string(),
    };
    let location = locate(&parts).unwrap();
    assert_eq!(location.origin, "https://example.com");
    assert_eq!(location.path, "/a/b");
}

#[test]
fn parts_without_a_host_locate_nothing() {
    let parts = UrlParts { scheme: "data".to_string(), host: None, path: "x/".to_string() };
    assert!(matches!(locate(&parts), Err(LocateError::InvalidUrl)));
}

#[test]
fn path_of_slashes_only_is_the_empty_path() {
    let parts = UrlParts {
        scheme: "https".to_string(),
        host: Some("h".to_string()),
        path: "///".to_string(),
    };
    assert_eq!(locate(&parts).unwrap().path, "");
}
