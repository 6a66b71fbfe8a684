//! Fetching remote resources.
use hcdformat::native_path::PathStyle;
use hcdformat::remote::{
    cache_name, check_digest, declared_length, default_cache_dir, ext_for, is_remote_uri,
    resolve_location,
    trusts_cached, uid_from_status, Fetch, FetchStep, RemoteError, DEFAULT_MAX_BYTES,
};

#[test]
fn allow_list_rejects_non_http() {
    assert!(is_remote_uri("http://x/y"));
    assert!(is_remote_uri("https://x/y"));
    assert!(!is_remote_uri("file:///etc/passwd"));
    assert!(!is_remote_uri("ftp://x/y"));
    assert!(!is_remote_uri("package://p/m.glb"));
    assert!(!is_remote_uri("data:text/plain,hi"));
}

#[test]
fn fetch_rejects_non_http_before_io() {
    let err = Fetch::start("file:///etc/passwd", None).unwrap_err();
    assert!(matches!(err, RemoteError::BadScheme { .. }));
}

#[test]
fn ext_for_matches_python() {
    assert_eq!(ext_for("https://h/a/rotor.glb"), ".glb");
    assert_eq!(ext_for("https://h/a/rotor.glb?v=2"), ".glb");
    assert_eq!(ext_for("https://h/noext"), ".bin");
    assert_eq!(ext_for("https://h/"), ".bin");
}

#[test]
fn resolve_location_handles_forms() {
    assert_eq!(
        resolve_location("http://h/a/b", "http://other/x"),
        "http://other/x"
    );
    assert_eq!(
        resolve_location("http://h/a/b", "ftp://evil/x"),
        "ftp://evil/x"
    );
    assert_eq!(resolve_location("http://h/a/b", "/c"), "http://h/c");
    assert_eq!(resolve_location("http://h/a/b", "c"), "http://h/a/c");
    assert_eq!(
        resolve_location("http://h/a/b", "//other/x"),
        "http://other/x"
    );
}

#[test]
fn redirects_are_followed_to_a_limit() {
    let mut fetch = Fetch::start("http://h/0", None).unwrap();
    assert_eq!(fetch.limit(), DEFAULT_MAX_BYTES);
    for i in 1..=10 {
        let place = format!("/{}", i);
        assert_eq!(
            fetch.respond(302, Some(&place), None).unwrap(),
            FetchStep::Again
        );
        assert_eq!(fetch.target(), format!("http://h/{}", i));
    }
    let error = fetch.respond(302, Some("/11"), None).unwrap_err();
    assert_eq!(
        error,
        RemoteError::Network {
            uri: "http://h/0".to_owned(),
            reason: "too many redirects (> 10)".to_owned()
        }
    );
}

#[test]
fn redirects_leave_the_web_for_no_one() {
    let mut fetch = Fetch::start("https://h/a", Some(10)).unwrap();
    let error = fetch.respond(301, Some("file:///etc/hosts"), None).unwrap_err();
    assert_eq!(
        error.message(),
        "refusing to follow redirect to non-http(s) uri \"file:///etc/hosts\" (only http:// and https:// are fetched)"
    );
    let error = fetch.respond(301, None, None).unwrap_err();
    assert_eq!(
        error.message(),
        "could not fetch remote asset \"https://h/a\": HTTP 301 redirect with no Location header"
    );
    let error = fetch.respond(404, None, None).unwrap_err();
    assert_eq!(
        error.message(),
        "could not fetch remote asset \"https://h/a\": HTTP status 404"
    );
}

#[test]
fn bodies_keep_to_the_limit() {
    let mut fetch = Fetch::start("http://h/a", Some(4)).unwrap();
    assert_eq!(
        fetch.respond(200, None, Some(5)).unwrap_err(),
        RemoteError::TooLarge {
            uri: "http://h/a".to_owned(),
            cap: 4
        }
    );
    assert_eq!(fetch.respond(200, None, Some(3)).unwrap(), FetchStep::Read);
    let mut body = fetch.body(Some(3));
    assert!(body.wants_more());
    body.take(&[1, 2]).unwrap();
    assert!(body.wants_more());
    body.take(&[3]).unwrap();
    assert!(!body.wants_more());
    assert_eq!(body.clone().into_bytes(), vec![1, 2, 3]);
    assert_eq!(
        body.take(&[4, 5]).unwrap_err().message(),
        "remote asset \"http://h/a\" exceeds the 4-byte size cap (raise max_bytes to allow it)"
    );
    assert_eq!(body.into_bytes(), vec![1, 2, 3]);
    assert_eq!(
        Fetch::start("http://h/a", Some(0)).unwrap_err().message(),
        "max_bytes must be positive, got 0"
    );
    assert_eq!(
        Fetch::start("ftp://h", None).unwrap_err().message(),
        "refusing to fetch non-http(s) uri \"ftp://h\": only http:// and https:// are fetched (a remote asset must be a plain web URL)"
    );
}

#[test]
fn digests_pin_the_bytes() {
    assert!(check_digest("http://h", None, "sha256:aa").is_ok());
    assert!(check_digest("http://h", Some("sha256:aa"), "sha256:aa").is_ok());
    assert_eq!(
        check_digest("http://h", Some("sha256:bb"), "sha256:aa").unwrap_err().message(),
        "remote asset \"http://h\" failed integrity check: pinned @sha sha256:bb != fetched content sha256:aa (the remote bytes do not match the document's @sha)"
    );
    assert!(trusts_cached(Some("sha256:aa"), "sha256:aa"));
    assert!(!trusts_cached(Some("sha256:ab"), "sha256:aa"));
    assert!(!trusts_cached(None, "sha256:aa"));
    let kept = RemoteError::Cache {
        uri: "http://h".to_owned(),
        reason: "full".to_owned(),
    };
    assert_eq!(kept.message(), "could not cache remote asset \"http://h\": full");
}

#[test]
fn cached_files_have_a_place_of_their_own() {
    assert_eq!(cache_name("sha256:abc", "https://h/m.glb?x"), "abc.glb");
    assert_eq!(cache_name("abc", "https://h/"), "abc.bin");
    assert_eq!(uid_from_status("Name:\tx\nUid:\t1000\t1000\n"), "1000");
    assert_eq!(uid_from_status("Name:\tx\n"), "u");
    assert_eq!(
        default_cache_dir(PathStyle::Unix, Some("/c"), Some("/home/x"), "/tmp", "7"),
        "/c/hcdf-remote"
    );
    assert_eq!(
        default_cache_dir(PathStyle::Unix, Some("relative"), Some("/home/x"), "/tmp", "7"),
        "/home/x/.cache/hcdf-remote"
    );
    assert_eq!(default_cache_dir(PathStyle::Unix, None, None, "/tmp", "7"), "/tmp/hcdf-remote-cache-7");
    let windows = PathStyle::Windows;
    assert_eq!(
        default_cache_dir(windows, Some(r"C:\c"), None, r"C:\t", "u"),
        r"C:\c\hcdf-remote"
    );
    assert_eq!(
        default_cache_dir(windows, Some("/c"), Some("D:"), r"C:\t", "u"),
        r"D:.cache\hcdf-remote"
    );
    assert_eq!(
        default_cache_dir(windows, Some(r"\\?\C:\\c"), None, r"C:\t", "u"),
        r"\\?\C:\c\hcdf-remote"
    );
    assert_eq!(
        default_cache_dir(windows, None, None, r"C:\t\", "u"),
        r"C:\t\hcdf-remote-cache-u"
    );
}

#[test]
fn declared_lengths_are_read() {
    assert_eq!(declared_length(" 42 "), Some(42));
    assert_eq!(declared_length("+7"), Some(7));
    assert_eq!(declared_length("007"), Some(7));
    assert_eq!(declared_length("18446744073709551615"), Some(u64::MAX));
    assert_eq!(declared_length("18446744073709551616"), None);
    assert_eq!(declared_length("-1"), None);
    assert_eq!(declared_length("+"), None);
    assert_eq!(declared_length(""), None);
    assert_eq!(declared_length("4 2"), None);
}
