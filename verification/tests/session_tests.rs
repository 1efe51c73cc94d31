use postwoman::http::{finish_response, FetchResult, Method};
use postwoman::session::{Session, Status};

#[test]
fn new_session_defaults() {
    let s = Session::new(vec!["https://a".to_string()]);
    assert_eq!(s.method, Method::Get);
    assert_eq!(s.url, "https://httpbin.org/get");
    assert_eq!(s.headers.len(), 1);
    assert_eq!(s.query.len(), 1);
    assert!(s.body.is_empty());
    assert_eq!(s.url_history, vec!["https://a".to_string()]);
    assert!(matches!(s.status, Status::Idle));
}

#[test]
fn sending_without_url_fails_at_once() {
    let mut s = Session::new(vec!["https://a".to_string()]);
    s.url = "  ".to_string();
    assert!(s.send_request().is_none());
    assert!(matches!(&s.status, Status::Failed(m) if m == "URL을 입력하세요."));
    assert_eq!(s.url_history, vec!["https://a".to_string()]);
}

#[test]
fn sending_records_history_and_loads() {
    let mut s = Session::new(Vec::new());
    s.url = " https://httpbin.org/post ".to_string();
    s.method = Method::Post;
    s.body = "{}".to_string();
    let spec = s.send_request().unwrap();
    assert_eq!(spec.method, Method::Post);
    assert_eq!(spec.url, " https://httpbin.org/post ");
    assert_eq!(spec.body, "{}");
    assert_eq!(s.url_history, vec!["https://httpbin.org/post".to_string()]);
    assert!(matches!(s.status, Status::Loading));
    s.poll_result(FetchResult::Failure("요청 실패".to_string()));
    assert!(matches!(&s.status, Status::Failed(m) if m == "요청 실패"));
    s.poll_result(FetchResult::Success(finish_response(201, vec![], vec![], 3)));
    assert!(matches!(&s.status, Status::Done(d) if d.status == 201 && d.status_text == "Created"));
}

#[test]
fn session_suggestions_follow_the_url_field() {
    let mut s = Session::new(vec!["https://httpbin.org/get".to_string(), "https://example.com".to_string()]);
    assert_eq!(s.autocomplete_matches(), Vec::<String>::new());
    s.url = "EXAMPLE".to_string();
    assert_eq!(s.autocomplete_matches(), vec!["https://example.com".to_string()]);
    assert!(s.record_history());
    assert_eq!(s.url_history[0], "EXAMPLE");
}
