use shortener::codegen::{code_from_draws, generate_code, CODE_LEN};
use shortener::normalize::{normalize, starts_with_scheme_mark};
use shortener::service::{
    assign, resolve, shorten, shorten_step, Feedback, ShortenOutcome, ShortenStep, UrlFormParams,
};
use shortener::store::{same_text, LinkRecord, LinkStore};

fn is_alnum(c: char) -> bool {
    c.is_ascii_uppercase() || c.is_ascii_lowercase() || c.is_ascii_digit()
}

#[test]
fn normalize_prefixes_plain_host() {
    assert_eq!(normalize("example.org"), "http://example.org");
}

#[test]
fn normalize_keeps_http_and_https() {
    assert_eq!(normalize("http://a.b"), "http://a.b");
    assert_eq!(normalize("https://a.b/c?d=e"), "https://a.b/c?d=e");
    assert_eq!(normalize("http"), "http");
}

#[test]
fn normalize_short_inputs() {
    assert_eq!(normalize(""), "http://");
    assert_eq!(normalize("h"), "http://h");
    assert_eq!(normalize("htt"), "http://htt");
    assert!(!starts_with_scheme_mark("htt"));
    assert!(starts_with_scheme_mark("httpx"));
}

#[test]
fn normalize_is_case_sensitive_and_char_based() {
    assert_eq!(normalize("HTTP://x"), "http://HTTP://x");
    assert_eq!(normalize("hé"), "http://hé");
    assert_eq!(normalize("ftp://x"), "http://ftp://x");
}

#[test]
fn generated_codes_have_length_six_over_alphanumerics() {
    assert_eq!(CODE_LEN, 6);
    for _ in 0..500 {
        let code = generate_code();
        assert_eq!(code.chars().count(), 6);
        assert!(code.chars().all(is_alnum), "bad code {}", code);
    }
}

#[test]
fn code_from_draws_keeps_order() {
    let draws = vec!['Q', 'z', '0', 'a', '9', 'Z'];
    assert_eq!(code_from_draws(&draws), "Qz0a9Z");
    assert_eq!(code_from_draws(&vec!['b'; 6]), "bbbbbb");
}

#[test]
fn generated_codes_vary() {
    let first = generate_code();
    assert!((0..50).any(|_| generate_code() != first));
}

#[test]
fn insert_then_find_round_trip() {
    let mut store = LinkStore::new();
    store.insert("abc123", "http://example.com");
    store.insert("x", "http://x.org");
    let rec = store.find_by_code("abc123").expect("record");
    assert_eq!(rec.code, "abc123");
    assert_eq!(rec.url, "http://example.com");
    assert_eq!(store.find_by_code("x").expect("record").url, "http://x.org");
    assert_eq!(store.len(), 2);
}

#[test]
fn find_returns_earliest_record_under_a_code() {
    let mut store = LinkStore::new();
    store.insert("dup", "http://first.org");
    store.insert("dup", "http://second.org");
    assert_eq!(store.find_by_code("dup").expect("record").url, "http://first.org");
}

#[test]
fn absent_code_stays_absent() {
    let mut store = LinkStore::new();
    assert!(store.find_by_code("nope").is_none());
    store.insert("other", "http://o.org");
    assert!(store.find_by_code("nope").is_none());
    assert!(store.find_by_code("nope").is_none());
    assert!(store.find_by_code("othe").is_none());
    assert!(store.find_by_code("").is_none());
}

#[test]
fn conflict_echoes_submitted_url_and_keeps_record() {
    let mut store = LinkStore::new();
    store.insert("abc123", "http://example.com");
    match shorten(&mut store, "http://other.com", "abc123") {
        ShortenOutcome::Conflict(url) => assert_eq!(url, "http://other.com"),
        ShortenOutcome::Assigned(_) => panic!("expected a conflict"),
    }
    assert_eq!(store.len(), 1);
    assert_eq!(store.find_by_code("abc123").expect("record").url, "http://example.com");
}

#[test]
fn conflict_echoes_url_unnormalized() {
    let mut store = LinkStore::new();
    store.insert("taken", "http://t.org");
    match shorten(&mut store, "other.com", "taken") {
        ShortenOutcome::Conflict(url) => assert_eq!(url, "other.com"),
        ShortenOutcome::Assigned(_) => panic!("expected a conflict"),
    }
}

#[test]
fn assignment_generates_code_and_resolves() {
    let mut store = LinkStore::new();
    let code = match shorten(&mut store, "example.org", "") {
        ShortenOutcome::Assigned(code) => code,
        ShortenOutcome::Conflict(_) => panic!("expected an assignment"),
    };
    assert_eq!(code.chars().count(), 6);
    assert!(code.chars().all(is_alnum));
    assert_eq!(resolve(&store, &code), Some(String::from("http://example.org")));
}

#[test]
fn assignment_uses_supplied_code() {
    let mut store = LinkStore::new();
    match shorten(&mut store, "https://rust-lang.org", "rust") {
        ShortenOutcome::Assigned(code) => assert_eq!(code, "rust"),
        ShortenOutcome::Conflict(_) => panic!("expected an assignment"),
    }
    assert_eq!(resolve(&store, "rust"), Some(String::from("https://rust-lang.org")));
}

#[test]
fn resolve_miss() {
    let store = LinkStore::new();
    assert_eq!(resolve(&store, "doesnotexist"), None);
    let mut store = LinkStore::new();
    store.insert("abc123", "http://example.com");
    assert_eq!(resolve(&store, "doesnotexist"), None);
}

#[test]
fn assign_decisions() {
    match assign("example.org", "", false, "Zz0123") {
        ShortenStep::Insert(rec) => {
            assert_eq!(rec.code, "Zz0123");
            assert_eq!(rec.url, "http://example.org");
        }
        ShortenStep::Reject(_) => panic!("expected an insert"),
    }
    match assign("example.org", "mine", false, "Zz0123") {
        ShortenStep::Insert(rec) => assert_eq!(rec.code, "mine"),
        ShortenStep::Reject(_) => panic!("expected an insert"),
    }
    match assign("example.org", "", true, "Zz0123") {
        ShortenStep::Reject(url) => assert_eq!(url, "example.org"),
        ShortenStep::Insert(_) => panic!("expected a rejection"),
    }
}

#[test]
fn shorten_step_generates_only_without_code() {
    match shorten_step("a.b", "", false) {
        ShortenStep::Insert(rec) => {
            assert_eq!(rec.code.chars().count(), 6);
            assert_eq!(rec.url, "http://a.b");
        }
        ShortenStep::Reject(_) => panic!("expected an insert"),
    }
    match shorten_step("a.b", "k", true) {
        ShortenStep::Reject(url) => assert_eq!(url, "a.b"),
        ShortenStep::Insert(_) => panic!("expected a rejection"),
    }
}

#[test]
fn feedback_round_trips_through_session_values() {
    let ok = Feedback::from_outcome(ShortenOutcome::Assigned(String::from("abc123")));
    assert_eq!(ok.flag(), "1");
    match Feedback::from_session("1", "", "abc123") {
        Feedback::Success(code) => assert_eq!(code, "abc123"),
        _ => panic!("expected success"),
    }
    let bad = Feedback::from_outcome(ShortenOutcome::Conflict(String::from("http://o.com")));
    assert_eq!(bad.flag(), "-1");
    match Feedback::from_session("-1", "http://o.com", "") {
        Feedback::Conflict(url) => assert_eq!(url, "http://o.com"),
        _ => panic!("expected conflict"),
    }
    assert_eq!(Feedback::Neutral.flag(), "0");
    assert!(matches!(Feedback::from_session("0", "u", "c"), Feedback::Neutral));
    assert!(matches!(Feedback::from_session("", "u", "c"), Feedback::Neutral));
}

#[test]
fn text_equality() {
    assert!(same_text("abc", "abc"));
    assert!(!same_text("abc", "abd"));
    assert!(!same_text("abc", "ab"));
    assert!(same_text("", ""));
}

#[test]
fn records_and_form_params() {
    let rec = LinkRecord::new("c", "http://u");
    let copy = rec.duplicate();
    assert_eq!(copy.code, "c");
    assert_eq!(copy.url, "http://u");
    let form = UrlFormParams { url: String::from("x"), url_id: String::new() };
    assert_eq!(form.url, "x");
    assert!(form.url_id.is_empty());
}
