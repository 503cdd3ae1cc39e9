use app_therapy::messaging::{split_fields, Message, SEPARATOR};

#[test]
fn dbms_parsing() {
    let dbms = Message::Dbms {
        action: "index_status".to_string(),
        application: Some("test_app".to_string()),
    };

    assert_eq!(Message::from("dbms\u{fe34}index_status\u{fe34}test_app"), dbms);
}

#[test]
fn cache_parsing() {
    let cache = Message::Cache {
        action: "purge ^/.*$".to_string(),
        application: Some("atcms".to_string()),
    };

    assert_eq!(Message::from("cache\u{fe34}purge ^/.*$\u{fe34}atcms"), cache);
}

#[test]
fn dbms_to_payload() {
    let dbms = Message::Dbms {
        action: "index_status".to_string(),
        application: Some("test_app".to_string()),
    };

    assert_eq!(dbms.to_payload(), "dbms\u{fe34}index_status\u{fe34}test_app".to_string());
}

#[test]
fn cache_to_payload() {
    let cache = Message::Cache {
        action: "purge ^/.*$".to_string(),
        application: Some("atcms".to_string()),
    };

    assert_eq!(cache.to_payload(), "cache\u{fe34}purge ^/.*$\u{fe34}atcms".to_string());
}

#[test]
fn separator_is_the_designated_character() {
    assert_eq!(SEPARATOR, "\u{fe34}");
}

#[test]
fn round_trip_without_application() {
    let m = Message::Dbms { action: "status".to_string(), application: None };
    let text = m.clone().to_payload();
    assert_eq!(text, "dbms\u{fe34}status");
    assert_eq!(Message::from(&text), m);
}

#[test]
fn round_trip_with_empty_fields() {
    let m = Message::Cache { action: String::new(), application: Some(String::new()) };
    let text = m.clone().to_payload();
    assert_eq!(text, "cache\u{fe34}\u{fe34}");
    assert_eq!(Message::from(&text), m);
}

#[test]
fn round_trip_with_non_ascii_text() {
    let m = Message::Cache { action: "purge é/ü".to_string(), application: Some("日本".to_string()) };
    assert_eq!(Message::from(&m.clone().to_payload()), m);
}

#[test]
fn invalid_serializes_to_empty_text() {
    assert_eq!(Message::Invalid.to_payload(), "");
    assert_eq!(Message::from(""), Message::Invalid);
}

#[test]
fn invalid_does_not_keep_its_text() {
    let parsed = Message::from("bogus\u{fe34}run\u{fe34}app");
    assert_eq!(parsed, Message::Invalid);
    assert_eq!(parsed.to_payload(), "");
}

#[test]
fn context_without_action_is_invalid() {
    assert_eq!(Message::from("dbms"), Message::Invalid);
}

#[test]
fn context_match_is_exact() {
    assert_eq!(Message::from("DBMS\u{fe34}status"), Message::Invalid);
    assert_eq!(Message::from("dbms \u{fe34}status"), Message::Invalid);
    assert_eq!(Message::from("cach\u{fe34}status"), Message::Invalid);
}

#[test]
fn separator_in_action_shifts_fields() {
    let m = Message::Dbms { action: "a\u{fe34}b".to_string(), application: Some("app".to_string()) };
    let parsed = Message::from(&m.to_payload());
    assert_eq!(
        parsed,
        Message::Dbms { action: "a".to_string(), application: Some("b".to_string()) }
    );
}

#[test]
fn new_reads_fields_in_order() {
    assert_eq!(
        Message::new(vec!["cache", "flush"]),
        Message::Cache { action: "flush".to_string(), application: None }
    );
    assert_eq!(
        Message::new(vec!["dbms", "vacuum", "shop", "extra"]),
        Message::Dbms { action: "vacuum".to_string(), application: Some("shop".to_string()) }
    );
    assert_eq!(Message::new(vec![]), Message::Invalid);
}

#[test]
fn split_fields_cuts_at_each_separator() {
    assert_eq!(split_fields("a\u{fe34}\u{fe34}b"), vec!["a", "", "b"]);
    assert_eq!(split_fields(""), vec![""]);
    assert_eq!(split_fields("\u{fe34}"), vec!["", ""]);
    assert_eq!(split_fields("plain:text"), vec!["plain:text"]);
}
