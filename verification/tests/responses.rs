use bookserver::handlers::get_post;
use bookserver::handlers::health;
use bookserver::handlers::media_type_name;
use bookserver::handlers::MediaType;
use bookserver::models::Book;
use bookserver::routes::dispatch;

#[test]
fn health_reply() {
    let r = health();
    assert_eq!(r.status, 200);
    assert_eq!(r.media, MediaType::PlainText);
    assert_eq!(r.body, "OK");
}

#[test]
fn health_reply_is_stateless() {
    let first = health();
    let _ = get_post(5);
    let again = health();
    assert_eq!(first.status, again.status);
    assert_eq!(first.media, again.media);
    assert_eq!(first.body, again.body);
}

#[test]
fn book_one() {
    let r = dispatch("GET", "/books/1").expect("book route must answer");
    assert_eq!(r.status, 200);
    assert_eq!(r.media, MediaType::Json);
    assert_eq!(r.body, "{\"id\":1,\"title\":\"Solaris\",\"author\":\"Stanisław Lem\"}");
}

#[test]
fn book_999999() {
    let r = dispatch("GET", "/books/999999").expect("book route must answer");
    assert_eq!(r.status, 200);
    assert_eq!(r.body, "{\"id\":999999,\"title\":\"Solaris\",\"author\":\"Stanisław Lem\"}");
}

#[test]
fn book_zero() {
    let r = get_post(0);
    assert_eq!(r.status, 200);
    assert_eq!(r.body, "{\"id\":0,\"title\":\"Solaris\",\"author\":\"Stanisław Lem\"}");
}

#[test]
fn book_largest_id() {
    let r = get_post(u64::MAX);
    assert_eq!(
        r.body,
        "{\"id\":18446744073709551615,\"title\":\"Solaris\",\"author\":\"Stanisław Lem\"}"
    );
}

#[test]
fn every_id_gets_the_same_record() {
    for id in [2u64, 3, 100, 8128] {
        let r = get_post(id);
        let expected = format!("{{\"id\":{},\"title\":\"Solaris\",\"author\":\"Stanisław Lem\"}}", id);
        assert_eq!(r.status, 200);
        assert_eq!(r.body, expected);
    }
}

#[test]
fn dispatch_health() {
    let r = dispatch("GET", "/api/health").expect("health route must answer");
    assert_eq!(r.status, 200);
    assert_eq!(r.media, MediaType::PlainText);
    assert_eq!(r.body, "OK");
}

#[test]
fn dispatch_unmatched_is_delegated() {
    assert!(dispatch("GET", "/").is_none());
    assert!(dispatch("GET", "/nonexistent.html").is_none());
}

#[test]
fn dispatch_negative_id_is_delegated() {
    assert!(dispatch("GET", "/books/-1").is_none());
}

#[test]
fn media_type_header_values() {
    assert_eq!(media_type_name(&MediaType::Json), "application/json");
    assert_eq!(media_type_name(&MediaType::PlainText), "text/plain; charset=utf-8");
}

#[test]
fn book_record_fields() {
    let b = Book::new(31);
    assert_eq!(b.id, 31);
    assert_eq!(b.title, "Solaris");
    assert_eq!(b.author, "Stanisław Lem");
}

#[test]
fn book_record_json() {
    let b = Book::new(31);
    assert_eq!(b.to_json(), "{\"id\":31,\"title\":\"Solaris\",\"author\":\"Stanisław Lem\"}");
}
