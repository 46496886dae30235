use whip_relay::routes::{needs_stream_key, route, session_segment, Route};
use whip_relay::session::SessionId;
use whip_relay::text::contains;

const SESSION: &str = "67e55044-10b1-426f-9247-bb680e5fe0c8";

#[test]
fn every_route_of_the_table_is_found() {
    assert_eq!(route("OPTIONS", "/api/whip"), Some(Route::Options));
    assert_eq!(route("POST", "/api/whip"), Some(Route::Ingest));
    assert_eq!(route("POST", "/api/whep"), Some(Route::Egress));
    assert_eq!(
        route("PATCH", "/api/resource/67e55044-10b1-426f-9247-bb680e5fe0c8"),
        Some(Route::Patch(SESSION))
    );
    assert_eq!(
        route("DELETE", "/api/resource/67e55044-10b1-426f-9247-bb680e5fe0c8"),
        Some(Route::Teardown(SESSION))
    );
}

#[test]
fn other_methods_have_no_route() {
    for method in ["GET", "HEAD", "PUT", "PATCH", "DELETE", "post", ""] {
        assert_eq!(route(method, "/api/whip"), None, "{}", method);
    }
    for method in ["GET", "OPTIONS", "PATCH", "DELETE", "Post"] {
        assert_eq!(route(method, "/api/whep"), None, "{}", method);
    }
    for method in ["GET", "POST", "OPTIONS", "PUT", "patch"] {
        assert_eq!(route(method, "/api/resource/x"), None, "{}", method);
    }
}

#[test]
fn other_paths_have_no_route() {
    for path in [
        "", "/", "/api", "/api/", "/whip", "/api/whip/", "/api/whipp", "/api/WHIP", "/api/whep/",
        "/api/resource", "/api/resource/", "/api/resource/a/b", "/api/resource/a/",
        "/api/resource//", "/resource/a", "api/whip",
    ] {
        for method in ["OPTIONS", "POST", "PATCH", "DELETE"] {
            assert_eq!(route(method, path), None, "{} {}", method, path);
        }
    }
}

#[test]
fn the_session_is_one_segment() {
    assert_eq!(session_segment("/api/resource/abc"), Some("abc"));
    assert_eq!(session_segment("/api/resource/not a uuid"), Some("not a uuid"));
    assert_eq!(session_segment("/api/resource/"), None);
    assert_eq!(session_segment("/api/resource/a/b"), None);
    assert_eq!(session_segment("/api/resource"), None);
    assert_eq!(session_segment("/api/whip"), None);
}

#[test]
fn a_session_that_is_no_uuid_still_has_a_route() {
    assert_eq!(route("DELETE", "/api/resource/alice"), Some(Route::Teardown("alice")));
    assert!(SessionId::parse("alice").is_err());
}

#[test]
fn sessions_are_opened_and_ended_with_a_stream_key() {
    assert!(needs_stream_key(&Route::Ingest));
    assert!(needs_stream_key(&Route::Egress));
    assert!(needs_stream_key(&Route::Teardown(SESSION)));
    assert!(!needs_stream_key(&Route::Options));
    assert!(!needs_stream_key(&Route::Patch(SESSION)));
}

#[test]
fn a_location_is_a_route() {
    for _ in 0..16 {
        let id = SessionId::fresh();
        let location = id.location();
        let text = id.to_text();
        assert_eq!(route("PATCH", &location), Some(Route::Patch(text.as_str())));
        assert_eq!(route("DELETE", &location), Some(Route::Teardown(text.as_str())));
        match route("DELETE", &location) {
            Some(Route::Teardown(session)) => assert_eq!(SessionId::parse(session), Ok(id)),
            other => panic!("{:?}", other),
        }
    }
}

#[test]
fn contains_finds_a_pattern_anywhere() {
    assert!(contains("a/b", "/"));
    assert!(contains("/", "/"));
    assert!(contains("ab/", "/"));
    assert!(!contains("ab", "/"));
    assert!(!contains("", "/"));
    assert!(contains("", ""));
    assert!(contains("abc", ""));
    assert!(contains("xxabcxx", "abc"));
    assert!(!contains("xxabxcx", "abc"));
    assert!(contains("日本語", "本"));
}

#[test]
fn contains_agrees_with_the_standard_library() {
    let texts = ["", "a", "aa", "aaa", "abab", "ba", "é/è"];
    let patterns = ["", "a", "aa", "ab", "b", "/", "é"];
    for text in texts {
        for pattern in patterns {
            assert_eq!(contains(text, pattern), text.contains(pattern), "{:?} {:?}", text, pattern);
        }
    }
}
