use api_core::logging::ecs_logger;
use api_core::logging::ecs_logger::{
    finish_line, Event, FormatError, Level, LogOrigin, LogOriginFile, LogOriginRust,
    LogRecord,
};
use api_core::logging::extra_fields::{set_extra_fields, ExtraFields};
use api_core::logging::timestamp::Timestamp;
use chrono::{DateTime, Utc};
use serde_json::Value;

type Object = serde_json::Map<String, Value>;

fn instant(text: &str) -> Timestamp {
    let parsed = DateTime::parse_from_rfc3339(text)
        .unwrap()
        .with_timezone(&Utc);
    Timestamp {
        secs: parsed.timestamp(),
        nanos: parsed.timestamp_subsec_nanos(),
    }
}

fn serialize(event: &Event) -> String {
    let timestamp_text = event.timestamp.to_rfc3339().unwrap();
    serde_json::to_string(&event.to_json(timestamp_text)).expect("Failed to serialize ECS event")
}

fn full_event<'a>() -> Event<'a> {
    Event {
        timestamp: instant("2021-11-24T17:38:21.000098765Z"),
        log_level: "TRACE",
        message: "tracing msg".to_string(),
        ecs_version: "1.12.1",
        log_origin: LogOrigin {
            file: LogOriginFile {
                line: Some(1234),
                name: Some("file.rs"),
            },
            rust: LogOriginRust {
                target: "myCustomTarget123",
                module: Some("my_app::path::to::your::file"),
                file_path: Some("src/path/to/your/file.rs"),
            },
        },
    }
}

fn bare_event<'a>() -> Event<'a> {
    Event {
        timestamp: instant("2021-11-24T17:38:21.000098765Z"),
        log_level: "TRACE",
        message: "tracing msg".to_string(),
        ecs_version: "1.12.1",
        log_origin: LogOrigin {
            file: LogOriginFile {
                line: None,
                name: None,
            },
            rust: LogOriginRust {
                target: "myCustomTarget123",
                module: None,
                file_path: None,
            },
        },
    }
}

#[test]
fn test_from_log_record() {
    let timestamp = instant("2021-11-27T07:18:11.712009300Z");

    let record = LogRecord {
        message: "Error!",
        level: Level::Error,
        target: "myApp",
        file: Some("src/server.rs"),
        line: Some(144),
        module: Some("my_app::server"),
    };

    let event = Event::new(timestamp, &record);

    assert_eq!(
        event,
        Event {
            timestamp,
            log_level: "ERROR",
            message: "Error!".to_string(),
            ecs_version: "1.12.1",
            log_origin: LogOrigin {
                file: LogOriginFile {
                    line: Some(144),
                    name: Some("server.rs")
                },
                rust: LogOriginRust {
                    target: "myApp",
                    module: Some("my_app::server"),
                    file_path: Some("src/server.rs")
                }
            }
        }
    );
}

#[test]
fn test_serialize() {
    let timestamp = instant("2021-11-24T17:38:21.000098765Z");

    let event = Event {
        timestamp,
        log_level: "TRACE",
        message: "tracing msg".to_string(),
        ecs_version: "1.12.1",
        log_origin: LogOrigin {
            file: LogOriginFile {
                line: Some(1234),
                name: Some("file.rs"),
            },
            rust: LogOriginRust {
                target: "myCustomTarget123",
                module: Some("my_app::path::to::your::file"),
                file_path: Some("src/path/to/your/file.rs"),
            },
        },
    };

    let timestamp_text = timestamp.to_rfc3339().unwrap();
    assert_eq!(
        serde_json::to_string(&event.to_json(timestamp_text))
            .expect("Failed to serialize ECS event"),
        r#"{"@timestamp":"2021-11-24T17:38:21.000098765Z","log.level":"TRACE","message":"tracing msg","ecs.version":"1.12.1","log.origin":{"file":{"line":1234,"name":"file.rs"},"origin":{"target":"myCustomTarget123","module_path":"my_app::path::to::your::file","file_path":"src/path/to/your/file.rs"}}}"#
    );
}

#[test]
fn test_serialize_with_none() {
    let timestamp = instant("2021-11-24T17:38:21.000098765Z");

    let event = Event {
        timestamp,
        log_level: "TRACE",
        message: "tracing msg".to_string(),
        ecs_version: "1.12.1",
        log_origin: LogOrigin {
            file: LogOriginFile {
                line: None,
                name: None,
            },
            rust: LogOriginRust {
                target: "myCustomTarget123",
                module: None,
                file_path: None,
            },
        },
    };

    let timestamp_text = timestamp.to_rfc3339().unwrap();
    assert_eq!(
        serde_json::to_string(&event.to_json(timestamp_text))
            .expect("Failed to serialize ECS event"),
        r#"{"@timestamp":"2021-11-24T17:38:21.000098765Z","log.level":"TRACE","message":"tracing msg","ecs.version":"1.12.1","log.origin":{"file":{},"origin":{"target":"myCustomTarget123"}}}"#
    );
}

#[test]
fn an_absent_field_is_left_out_and_never_null() {
    let event = bare_event();
    let json = event.to_json("t".to_string());
    let origin = json.get("log.origin").unwrap().as_object().unwrap();
    let file = origin.get("file").unwrap().as_object().unwrap();
    assert!(file.is_empty());
    assert!(!file.contains_key("line"));
    assert!(!file.contains_key("name"));
    let site = origin.get("origin").unwrap().as_object().unwrap();
    assert_eq!(site.len(), 1);
    assert!(!serialize(&event).contains("null"));
}

#[test]
fn each_optional_field_is_left_out_by_itself() {
    let mut event = bare_event();
    event.log_origin.file.line = Some(7);
    assert_eq!(
        serde_json::to_string(&event.log_origin.file.to_json()).unwrap(),
        "{\"line\":7}"
    );
    event.log_origin.file.line = None;
    event.log_origin.file.name = Some("main.rs");
    assert_eq!(
        serde_json::to_string(&event.log_origin.file.to_json()).unwrap(),
        "{\"name\":\"main.rs\"}"
    );
    event.log_origin.rust.file_path = Some("src/main.rs");
    assert_eq!(
        serde_json::to_string(&event.log_origin.rust.to_json()).unwrap(),
        "{\"target\":\"myCustomTarget123\",\"file_path\":\"src/main.rs\"}"
    );
    event.log_origin.rust.file_path = None;
    event.log_origin.rust.module = Some("app");
    assert_eq!(
        serde_json::to_string(&event.log_origin.rust.to_json()).unwrap(),
        "{\"target\":\"myCustomTarget123\",\"module_path\":\"app\"}"
    );
    assert_eq!(
        serde_json::to_string(&event.log_origin.to_json()).unwrap(),
        "{\"file\":{\"name\":\"main.rs\"},\"origin\":{\"target\":\"myCustomTarget123\",\"module_path\":\"app\"}}"
    );
}

#[test]
fn the_event_has_exactly_five_keys() {
    let json = full_event().to_json("now".to_string());
    let keys: Vec<&str> = json.keys().map(|k| k.as_str()).collect();
    assert_eq!(
        keys,
        vec!["@timestamp", "log.level", "message", "ecs.version", "log.origin"]
    );
    assert_eq!(json.get("@timestamp"), Some(&Value::from("now")));
}

#[test]
fn level_names_are_upper_case() {
    assert_eq!(Level::Error.as_str(), "ERROR");
    assert_eq!(Level::Warn.as_str(), "WARN");
    assert_eq!(Level::Info.as_str(), "INFO");
    assert_eq!(Level::Debug.as_str(), "DEBUG");
    assert_eq!(Level::Trace.as_str(), "TRACE");
}

#[test]
fn new_takes_the_file_name_from_the_path() {
    let mut record = LogRecord {
        level: Level::Info,
        target: "t",
        message: "m",
        module: None,
        file: Some("/abs/dir/lib.rs"),
        line: None,
    };
    let timestamp = Timestamp { secs: 0, nanos: 0 };
    let event = Event::new(timestamp, &record);
    assert_eq!(event.log_origin.file.name, Some("lib.rs"));
    assert_eq!(event.log_origin.rust.file_path, Some("/abs/dir/lib.rs"));
    assert_eq!(event.log_level, "INFO");
    assert_eq!(event.ecs_version, "1.12.1");
    assert_eq!(event.log_origin.file.line, None);
    assert_eq!(event.log_origin.rust.module, None);

    record.file = None;
    let event = Event::new(timestamp, &record);
    assert_eq!(event.log_origin.file.name, None);
    assert_eq!(event.log_origin.rust.file_path, None);

    record.file = Some("src/..");
    let event = Event::new(timestamp, &record);
    assert_eq!(event.log_origin.file.name, None);
    assert_eq!(event.log_origin.rust.file_path, Some("src/.."));
}

#[test]
fn format_writes_one_line() {
    let record = LogRecord {
        level: Level::Trace,
        target: "myCustomTarget123",
        message: "tracing msg",
        module: Some("my_app::path::to::your::file"),
        file: Some("src/path/to/your/file.rs"),
        line: Some(1234),
    };
    let store = ExtraFields::new(None);
    let line = ecs_logger::format(instant("2021-11-24T17:38:21.000098765Z"), &record, &store).unwrap();
    assert_eq!(
        line,
        "{\"@timestamp\":\"2021-11-24T17:38:21.000098765Z\",\"log.level\":\"TRACE\",\"message\":\"tracing msg\",\"ecs.version\":\"1.12.1\",\"log.origin\":{\"file\":{\"line\":1234,\"name\":\"file.rs\"},\"origin\":{\"target\":\"myCustomTarget123\",\"module_path\":\"my_app::path::to::your::file\",\"file_path\":\"src/path/to/your/file.rs\"}}}\n"
    );
    assert_eq!(line.matches('\n').count(), 1);
}

#[test]
fn format_merges_the_extra_fields() {
    let record = LogRecord {
        level: Level::Warn,
        target: "app",
        message: "careful \"now\"",
        module: None,
        file: None,
        line: None,
    };
    let mut inner = Object::new();
    inner.insert("pid".to_string(), Value::from(42));
    let mut origin = Object::new();
    origin.insert("file".to_string(), Value::Object(inner));
    let mut extra = Object::new();
    extra.insert("service".to_string(), Value::from("api"));
    extra.insert("message".to_string(), Value::from("overridden"));
    extra.insert("log.origin".to_string(), Value::Object(origin));
    let mut store = ExtraFields::new(None);
    set_extra_fields(&mut store, Ok(Value::Object(extra))).unwrap();

    let line = ecs_logger::format(Timestamp { secs: 0, nanos: 0 }, &record, &store).unwrap();
    assert_eq!(
        line,
        "{\"@timestamp\":\"1970-01-01T00:00:00Z\",\"log.level\":\"WARN\",\"message\":\"overridden\",\"ecs.version\":\"1.12.1\",\"log.origin\":{\"file\":{\"pid\":42},\"origin\":{\"target\":\"app\"}},\"service\":\"api\"}\n"
    );
}

#[test]
fn format_sees_the_store_as_it_is_at_the_call() {
    let record = LogRecord {
        level: Level::Debug,
        target: "app",
        message: "m",
        module: None,
        file: None,
        line: None,
    };
    let at = Timestamp { secs: 1, nanos: 500_000_000 };
    let mut store = ExtraFields::new(None);
    let plain = ecs_logger::format(at, &record, &store).unwrap();
    let mut extra = Object::new();
    extra.insert("k".to_string(), Value::from(1));
    set_extra_fields(&mut store, Ok(Value::Object(extra))).unwrap();
    let with = ecs_logger::format(at, &record, &store).unwrap();
    assert!(with.ends_with(",\"k\":1}\n"));
    assert!(plain.starts_with("{\"@timestamp\":\"1970-01-01T00:00:01.500Z\","));
    assert!(set_extra_fields(&mut store, Ok(Value::from(3))).is_err());
    assert_eq!(ecs_logger::format(at, &record, &store).unwrap(), with);
}

#[test]
fn format_refuses_an_instant_that_cannot_be_written() {
    let record = LogRecord {
        level: Level::Error,
        target: "app",
        message: "m",
        module: None,
        file: None,
        line: None,
    };
    let store = ExtraFields::new(None);
    let r = ecs_logger::format(Timestamp { secs: i64::MAX, nanos: 0 }, &record, &store);
    assert!(matches!(r, Err(FormatError::Timestamp)));
    let r = ecs_logger::format(Timestamp { secs: 0, nanos: 2_000_000_000 }, &record, &store);
    assert!(matches!(r, Err(FormatError::Timestamp)));
    assert_eq!(FormatError::Timestamp.message(), "the timestamp cannot be written");
}

#[test]
fn finish_line_adds_one_newline_or_hands_the_error_on() {
    assert_eq!(finish_line(Ok("{}".to_string())).unwrap(), "{}\n");
    assert_eq!(finish_line(Ok(String::new())).unwrap(), "\n");
    let failure = serde_json::from_str::<Value>("{").unwrap_err();
    let r = finish_line(Err(failure));
    assert!(matches!(r, Err(FormatError::Json(_))));
    assert_eq!(r.unwrap_err().message(), "the event cannot be written as JSON");
}

#[test]
fn a_line_feed_in_the_data_does_not_break_the_line() {
    let record = LogRecord {
        level: Level::Info,
        target: "a\nb",
        message: "first\nsecond\r\n\tthird",
        module: None,
        file: None,
        line: None,
    };
    let mut extra = Object::new();
    extra.insert("multi\nline".to_string(), Value::from("x\ny"));
    let mut store = ExtraFields::new(None);
    set_extra_fields(&mut store, Ok(Value::Object(extra))).unwrap();
    let line = ecs_logger::format(Timestamp { secs: 0, nanos: 0 }, &record, &store).unwrap();
    assert!(line.ends_with("}\n"));
    assert_eq!(line.matches('\n').count(), 1);
    assert!(line.contains("\"message\":\"first\\nsecond\\r\\n\\tthird\""));
    assert!(line.contains("\"multi\\nline\":\"x\\ny\""));
}
