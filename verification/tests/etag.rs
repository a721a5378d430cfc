use seagull::error::Error;
use seagull::files::etag::{calculate, generate, if_none_match, FileMetadata, Modified};
use seagull::http::{HeaderValue, NOT_MODIFIED, OK};
use seagull::message::Message;

fn field(message: &Message, name: &str) -> Option<String> {
    message.response.headers.get(name).map(|v| v.to_str().unwrap())
}

fn file(len: u64, secs: u64) -> FileMetadata {
    FileMetadata { len, modified: Modified::SecondsSinceEpoch(secs) }
}

#[test]
fn calculate_formats_size_and_time_in_hex() {
    assert_eq!(calculate(&file(4096, 1_600_000_000)), "W/0x1000-0x5f5e1000");
    assert_eq!(calculate(&file(0, 0)), "W/0x0-0x0");
    let unknown = FileMetadata { len: 16, modified: Modified::Unavailable };
    assert_eq!(calculate(&unknown), "W/0x10-0");
    let early = FileMetadata { len: 255, modified: Modified::BeforeEpoch };
    assert_eq!(calculate(&early), "W/0xff-0");
}

#[test]
fn if_none_match_cases() {
    let tag = "W/0x10-0x20";
    assert!(!if_none_match("*", tag));
    assert!(!if_none_match("  *\t", tag));
    assert!(!if_none_match(tag, tag));
    assert!(!if_none_match("\"W/0x10-0x20\", W/0x1-0x2", tag));
    assert!(if_none_match("W/0x10-0x21", tag));
    assert!(if_none_match("W/0x1-0x2", "W/0xff-0x10"));
    assert!(!if_none_match("**", "*"));
    assert!(!if_none_match("anything", ""));
}

#[test]
fn generate_sets_last_modified_and_cache_control() {
    let mut message = Message::default();
    generate(&mut message, &file(10, 100)).unwrap();
    assert_eq!(field(&message, "last-modified").unwrap(), "100");
    assert_eq!(field(&message, "cache-control").unwrap(), "max-age=0");
    assert_eq!(message.response.status, OK);
    assert_eq!(field(&message, "etag").unwrap(), "W/0xa-0x64");
}

#[test]
fn generate_keeps_existing_cache_control() {
    let mut message = Message::default();
    message.response.headers.insert("cache-control", HeaderValue::from_str("no-store").unwrap());
    generate(&mut message, &file(10, 100)).unwrap();
    assert_eq!(field(&message, "cache-control").unwrap(), "no-store");
}

#[test]
fn generate_before_epoch_is_an_error() {
    let mut message = Message::default();
    let meta = FileMetadata { len: 1, modified: Modified::BeforeEpoch };
    assert!(matches!(generate(&mut message, &meta), Err(Error::ModifiedBeforeEpoch)));
    assert_eq!(message.response.headers.len(), 0);
}

#[test]
fn generate_without_modified_time_adds_only_cache_control() {
    let mut message = Message::default();
    message.response.headers.insert("if-none-match", HeaderValue::from_str("x").unwrap());
    let meta = FileMetadata { len: 1, modified: Modified::Unavailable };
    generate(&mut message, &meta).unwrap();
    assert!(field(&message, "last-modified").is_none());
    assert!(field(&message, "etag").is_none());
    assert_eq!(message.response.status, OK);
}

#[test]
fn generate_keeps_status_when_tag_differs() {
    let mut message = Message::default();
    message.response.headers.insert("if-none-match", HeaderValue::from_str("W/0x1-0x2").unwrap());
    generate(&mut message, &file(16, 32)).unwrap();
    assert_eq!(field(&message, "etag").unwrap(), "W/0x10-0x20");
    assert_eq!(message.response.status, OK);
}

#[test]
fn generate_marks_not_modified_when_tag_matches() {
    let mut message = Message::default();
    message.response.headers.insert("if-none-match", HeaderValue::from_str("W/0x10-0x20").unwrap());
    generate(&mut message, &file(16, 32)).unwrap();
    assert_eq!(field(&message, "etag").unwrap(), "W/0x10-0x20");
    assert_eq!(message.response.status, NOT_MODIFIED);
}

#[test]
fn generate_star_is_not_modified() {
    let mut message = Message::default();
    message.response.headers.insert("if-none-match", HeaderValue::from_str(" * ").unwrap());
    generate(&mut message, &file(16, 32)).unwrap();
    assert_eq!(message.response.status, NOT_MODIFIED);
}

#[test]
fn generate_adds_etag_after_existing_values() {
    let mut message = Message::default();
    message.response.headers.append("etag", HeaderValue::from_str("old").unwrap());
    generate(&mut message, &file(16, 32)).unwrap();
    assert_eq!(field(&message, "etag").unwrap(), "old");
    assert_eq!(message.response.headers.value_count_at(0), 2);
    assert_eq!(message.response.headers.value_at(0, 1).to_str().unwrap(), "W/0x10-0x20");
}

#[test]
fn generate_keeps_all_cache_control_values() {
    let mut message = Message::default();
    message.response.headers.append("cache-control", HeaderValue::from_str("no-cache").unwrap());
    message.response.headers.append("cache-control", HeaderValue::from_str("private").unwrap());
    generate(&mut message, &file(16, 32)).unwrap();
    assert_eq!(message.response.headers.value_count_at(0), 2);
    assert_eq!(message.response.headers.value_at(0, 1).to_str().unwrap(), "private");
}

#[test]
fn generate_uses_stated_last_modified() {
    let mut message = Message::default();
    message.response.headers.insert("last-modified", HeaderValue::from_str("50").unwrap());
    message
        .response
        .headers
        .insert("if-modified-since", HeaderValue::from_str("1970-01-01T00:01:00Z").unwrap());
    generate(&mut message, &file(1, 1000)).unwrap();
    assert_eq!(field(&message, "last-modified").unwrap(), "50");
    assert_eq!(field(&message, "etag").unwrap(), "W/0x1-0x3e8");
    assert_eq!(message.response.status, NOT_MODIFIED);
}

#[test]
fn generate_if_modified_since_earlier_keeps_status() {
    let mut message = Message::default();
    message
        .response
        .headers
        .insert("if-modified-since", HeaderValue::from_str("1970-01-01T00:00:10+00:00").unwrap());
    generate(&mut message, &file(1, 100)).unwrap();
    assert_eq!(message.response.status, OK);
}

#[test]
fn generate_bad_date_is_an_error() {
    let mut message = Message::default();
    message
        .response
        .headers
        .insert("if-modified-since", HeaderValue::from_str("Wed, 21 Oct 2015 07:28:00 GMT").unwrap());
    assert!(matches!(generate(&mut message, &file(1, 100)), Err(Error::DateTime(_))));
    assert_eq!(field(&message, "last-modified").unwrap(), "100");
}

#[test]
fn generate_reads_back_what_it_wrote() {
    let mut message = Message::default();
    generate(&mut message, &file(10, 12345)).unwrap();
    message
        .response
        .headers
        .insert("if-modified-since", HeaderValue::from_str("1970-01-01T03:25:46Z").unwrap());
    let later = FileMetadata { len: 10, modified: Modified::Unavailable };
    generate(&mut message, &later).unwrap();
    assert_eq!(field(&message, "last-modified").unwrap(), "12345");
    assert_eq!(message.response.status, NOT_MODIFIED);
}

#[test]
fn generate_leaves_other_fields() {
    let mut message = Message::default();
    message.response.headers.insert("x-powered-by", HeaderValue::from_str("seagull").unwrap());
    generate(&mut message, &file(10, 100)).unwrap();
    assert_eq!(field(&message, "x-powered-by").unwrap(), "seagull");
    assert_eq!(message.response.headers.name_at(0), "x-powered-by");
}

#[test]
fn etag_changes_with_size_or_time() {
    let base = calculate(&file(16, 32));
    assert_ne!(base, calculate(&file(16, 33)));
    assert_ne!(base, calculate(&file(17, 32)));
    assert_ne!(calculate(&file(1, 0x10)), calculate(&file(0x11, 0)));
    assert_eq!(base, calculate(&file(16, 32)));
}
