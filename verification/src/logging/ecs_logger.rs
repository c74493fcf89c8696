//! Log events in the shape of the Elastic Common Schema (ECS), and the JSON
//! line that each becomes.
//!
//! An [`Event`] is built from a [`LogRecord`], turned into a JSON object,
//! merged with the extra fields in force and written out as one line.

use vstd::prelude::*;
use crate::logging::extra_fields::{merge_extra_fields, merged_with, ExtraFields};
use crate::logging::json::{
    distinct_keys, has_key, insert, json_text, lemma_put_new, new_map, null_free, number_value,
    object_entries, object_value, text_value, to_json_text, Json, JsonMap, JsonNumber, Members,
};
use crate::logging::path::{file_name, file_name_of};
use crate::logging::timestamp::{rfc3339_text, Timestamp};

verus! {

/// The version of the Elastic Common Schema that events conform to.
pub const ECS_VERSION: &'static str = "1.12.1";

/// How severe a log call is.
#[derive(Clone, Copy, Debug, PartialEq, Eq, Structural)]
pub enum Level {
    Error,
    Warn,
    Info,
    Debug,
    Trace,
}

impl Level {
    /// The name of the level, in upper case.
    pub open spec fn name(self) -> Seq<char> {
        match self {
            Level::Error => "ERROR"@,
            Level::Warn => "WARN"@,
            Level::Info => "INFO"@,
            Level::Debug => "DEBUG"@,
            Level::Trace => "TRACE"@,
        }
    }

    /// The name of the level, in upper case.
    pub fn as_str(&self) -> (name: &'static str)
        ensures
            name@ == self.name(),
    {
        match self {
            Level::Error => "ERROR",
            Level::Warn => "WARN",
            Level::Info => "INFO",
            Level::Debug => "DEBUG",
            Level::Trace => "TRACE",
        }
    }
}

/// One log call: its message, and where in the source it was made.
#[derive(Debug, Clone, PartialEq, Eq)]
pub struct LogRecord<'a> {
    /// The verbosity level of the message.
    pub level: Level,
    /// The name of the log target.
    pub target: &'a str,
    /// The message, with its arguments filled in.
    pub message: &'a str,
    /// The path of the module of the call site.
    pub module: Option<&'a str>,
    /// The path of the source file of the call site.
    pub file: Option<&'a str>,
    /// The line of the call site.
    pub line: Option<u32>,
}

/// Representation of the source code which logged the message.
#[derive(Debug, Clone, PartialEq, Eq)]
pub struct LogOriginFile<'a> {
    /// The line number of the source code which logged the message.
    ///
    /// Mapped to `log.origin.file.line`.
    pub line: Option<u32>,
    /// The file name of the source code which logged the message.
    ///
    /// Mapped to `log.origin.file.name`.
    pub name: Option<&'a str>,
}

/// What the logging front end reports of the call site.
#[derive(Debug, Clone, PartialEq, Eq)]
pub struct LogOriginRust<'a> {
    /// The name of the log target.
    ///
    /// Mapped to `log.origin.origin.target`.
    pub target: &'a str,
    /// The path of the module of the source code which logged the message.
    ///
    /// Mapped to the member of `log.origin.origin` that [`module_key`] names.
    pub module: Option<&'a str>,
    /// The file path of the source code which logged the message.
    ///
    /// Mapped to `log.origin.origin.file_path`.
    pub file_path: Option<&'a str>,
}

/// Information about the source code which logged the message.
#[derive(Debug, Clone, PartialEq, Eq)]
pub struct LogOrigin<'a> {
    /// Mapped to `log.origin.file`.
    pub file: LogOriginFile<'a>,
    /// Mapped to `log.origin.origin`.
    pub rust: LogOriginRust<'a>,
}

/// Representation of an event compatible with ECS logging.
#[derive(Debug, Clone, PartialEq, Eq)]
pub struct Event<'a> {
    /// Date and time when the message is logged.
    ///
    /// Mapped to `@timestamp`.
    pub timestamp: Timestamp,
    /// The verbosity level of the message.
    ///
    /// Mapped to `log.level`.
    pub log_level: &'static str,
    /// The message body.
    ///
    /// Mapped to `message`.
    pub message: String,
    /// ECS version this event conforms to.
    ///
    /// Mapped to `ecs.version`.
    pub ecs_version: &'static str,
    /// Information about the source code which logged the message.
    ///
    /// Mapped to `log.origin`.
    pub log_origin: LogOrigin<'a>,
}

/// The characters of a string that may be absent.
pub open spec fn text_of(text: Option<&str>) -> Option<Seq<char>> {
    match text {
        Some(t) => Some(t@),
        None => None,
    }
}

/// `members`, followed by `key` with `value` where there is a value. An
/// absent value leaves no member behind, not even a null.
pub open spec fn with_optional(members: Members, key: Seq<char>, value: Option<Json>) -> Members {
    match value {
        Some(v) => members.push((key, v)),
        None => members,
    }
}

/// A string that may be absent, as the JSON value that stands for it.
pub open spec fn optional_text(text: Option<Seq<char>>) -> Option<Json> {
    match text {
        Some(t) => Some(Json::Text(t)),
        None => None,
    }
}

/// A line number that may be absent, as the JSON value that stands for it.
pub open spec fn optional_number(n: Option<u32>) -> Option<Json> {
    match n {
        Some(n) => Some(Json::Number(JsonNumber::Integer(n as int))),
        None => None,
    }
}

/// The members of `log.origin.file`: `line`, then `name`, each only where
/// present.
pub open spec fn file_members(line: Option<u32>, name: Option<Seq<char>>) -> Members {
    with_optional(
        with_optional(Members::empty(), "line"@, optional_number(line)),
        "name"@,
        optional_text(name),
    )
}

/// The key under which the path of the module is written: `module`, an
/// underscore and `path`.
pub open spec fn module_key() -> Seq<char> {
    "module"@ + "_path"@
}

/// The members of `log.origin.origin`: `target`, then the path of the module
/// and `file_path`, each of the two only where present.
pub open spec fn rust_members(
    target: Seq<char>,
    module: Option<Seq<char>>,
    file_path: Option<Seq<char>>,
) -> Members {
    with_optional(
        with_optional(seq![("target"@, Json::Text(target))], module_key(), optional_text(module)),
        "file_path"@,
        optional_text(file_path),
    )
}

/// The members of `log.origin`: the two objects `file` and `origin`, which are
/// there even when empty.
pub open spec fn origin_members(file: Members, rust: Members) -> Members {
    seq![("file"@, Json::Object(file)), ("origin"@, Json::Object(rust))]
}

/// The members of an event, in the order in which they are written.
pub open spec fn event_members(
    timestamp: Seq<char>,
    level: Seq<char>,
    message: Seq<char>,
    version: Seq<char>,
    origin: Members,
) -> Members {
    seq![
        ("@timestamp"@, Json::Text(timestamp)),
        ("log.level"@, Json::Text(level)),
        ("message"@, Json::Text(message)),
        ("ecs.version"@, Json::Text(version)),
        ("log.origin"@, Json::Object(origin)),
    ]
}

/// Omission in `log.origin.file`: `line` and `name` are members exactly where
/// they are present, each by itself, no key occurs twice, and there is no
/// null. With both absent the object is empty.
pub proof fn lemma_file_omission(line: Option<u32>, name: Option<Seq<char>>)
    ensures
        has_key(file_members(line, name), "line"@) <==> line is Some,
        has_key(file_members(line, name), "name"@) <==> name is Some,
        line is None && name is None ==> file_members(line, name) == Members::empty(),
        distinct_keys(file_members(line, name)),
        null_free(Json::Object(file_members(line, name))),
{
    reveal_strlit("line");
    reveal_strlit("name");
    assert("line"@[0] != "name"@[0]);
    let members = file_members(line, name);
    assert(members.len() == 0 || members[0].0 == "line"@ || members[0].0 == "name"@);
    assert(members.len() == 2 ==> members[0].0 == "line"@ && members[1].0 == "name"@);
    assert forall|i: int| 0 <= i < members.len() implies null_free((#[trigger] members[i]).1) by {
        assert(members[i].1 is Number || members[i].1 is Text);
    }
}

/// Omission in `log.origin.origin`: `target` is always a member, the path of
/// the module and `file_path` are members exactly where they are present,
/// each by itself, no key occurs twice, and there is no null.
pub proof fn lemma_rust_omission(
    target: Seq<char>,
    module: Option<Seq<char>>,
    file_path: Option<Seq<char>>,
)
    ensures
        has_key(rust_members(target, module, file_path), "target"@),
        has_key(rust_members(target, module, file_path), module_key()) <==> module is Some,
        has_key(rust_members(target, module, file_path), "file_path"@) <==> file_path is Some,
        module is None && file_path is None ==> rust_members(target, module, file_path).len() == 1,
        distinct_keys(rust_members(target, module, file_path)),
        null_free(Json::Object(rust_members(target, module, file_path))),
{
    reveal_strlit("target");
    reveal_strlit("module");
    reveal_strlit("_path");
    reveal_strlit("file_path");
    assert("target"@.len() == 6 && module_key().len() == 11 && "file_path"@.len() == 9);
    let members = rust_members(target, module, file_path);
    assert(members[0].0 == "target"@);
    assert(members.len() == 3 ==> members[1].0 == module_key() && members[2].0 == "file_path"@);
    assert(members.len() == 2 ==> members[1].0 == module_key() || members[1].0 == "file_path"@);
    assert forall|i: int| 0 <= i < members.len() implies null_free((#[trigger] members[i]).1) by {
        assert(members[i].1 is Text);
    }
}

/// The keys of an event are exactly `@timestamp`, `log.level`, `message`,
/// `ecs.version` and `log.origin`, each once, and `log.origin` holds the two
/// objects `file` and `origin` whether or not they are empty. Nowhere in the
/// event is there a null.
pub proof fn lemma_event_shape(
    timestamp: Seq<char>,
    level: Seq<char>,
    message: Seq<char>,
    version: Seq<char>,
    line: Option<u32>,
    name: Option<Seq<char>>,
    target: Seq<char>,
    module: Option<Seq<char>>,
    file_path: Option<Seq<char>>,
)
    ensures
        ({
            let origin = origin_members(
                file_members(line, name),
                rust_members(target, module, file_path),
            );
            let event = event_members(timestamp, level, message, version, origin);
            &&& distinct_keys(event)
            &&& forall|key: Seq<char>| #[trigger]
                has_key(event, key) <==> key == "@timestamp"@ || key == "log.level"@ || key
                    == "message"@ || key == "ecs.version"@ || key == "log.origin"@
            &&& origin.len() == 2
            &&& origin[0] == ("file"@, Json::Object(file_members(line, name)))
            &&& origin[1] == ("origin"@, Json::Object(rust_members(target, module, file_path)))
            &&& distinct_keys(origin)
            &&& null_free(Json::Object(event))
        }),
{
    let file = file_members(line, name);
    let rust = rust_members(target, module, file_path);
    let origin = origin_members(file, rust);
    let event = event_members(timestamp, level, message, version, origin);
    lemma_file_omission(line, name);
    lemma_rust_omission(target, module, file_path);
    reveal_strlit("file");
    reveal_strlit("origin");
    reveal_strlit("@timestamp");
    reveal_strlit("log.level");
    reveal_strlit("message");
    reveal_strlit("ecs.version");
    reveal_strlit("log.origin");
    assert("file"@.len() == 4 && "origin"@.len() == 6);
    assert("@timestamp"@.len() == 10 && "log.level"@.len() == 9);
    assert("message"@.len() == 7 && "ecs.version"@.len() == 11);
    assert("log.origin"@.len() == 10);
    assert("@timestamp"@[0] != "log.origin"@[0]);
    assert(event[0].0 == "@timestamp"@ && event[1].0 == "log.level"@ && event[2].0 == "message"@
        && event[3].0 == "ecs.version"@ && event[4].0 == "log.origin"@);
    assert(null_free(Json::Object(origin))) by {
        assert forall|i: int| 0 <= i < origin.len() implies null_free((#[trigger] origin[i]).1) by {
            if i == 0 {
                assert(origin[i].1 == Json::Object(file));
            } else {
                assert(origin[i].1 == Json::Object(rust));
            }
        }
    }
    assert(null_free(Json::Object(event))) by {
        assert forall|i: int| 0 <= i < event.len() implies null_free((#[trigger] event[i]).1) by {
            if i == 4 {
                assert(event[i].1 == Json::Object(origin));
            }
        }
    }
}

impl<'a> LogRecord<'a> {
    /// The file name at the end of the record's file path.
    pub open spec fn file_name(self) -> Option<Seq<char>> {
        match self.file {
            Some(path) => file_name_of(path@),
            None => None,
        }
    }

    /// The members of the event that this record gives, with
    /// `timestamp_text` for its instant.
    pub open spec fn members(self, timestamp_text: Seq<char>) -> Members {
        event_members(
            timestamp_text,
            self.level.name(),
            self.message@,
            ECS_VERSION@,
            origin_members(
                file_members(self.line, self.file_name()),
                rust_members(self.target@, text_of(self.module), text_of(self.file)),
            ),
        )
    }
}

impl<'a> LogOriginFile<'a> {
    /// The members of the JSON object that stands for `self`.
    pub open spec fn members(self) -> Members {
        file_members(self.line, text_of(self.name))
    }

    /// The JSON object that stands for `self`.
    pub fn to_json(&self) -> (m: JsonMap)
        ensures
            object_entries(m) == self.members(),
    {
        let mut m = new_map();
        if let Some(line) = self.line {
            proof {
                lemma_put_new(object_entries(m), "line"@, optional_number(self.line).unwrap());
            }
            insert(&mut m, "line".to_owned(), number_value(line));
        }
        if let Some(name) = self.name {
            proof {
                reveal_strlit("line");
                reveal_strlit("name");
                assert("line"@[0] != "name"@[0]);
                lemma_put_new(object_entries(m), "name"@, Json::Text(name@));
            }
            insert(&mut m, "name".to_owned(), text_value(name.to_owned()));
        }
        m
    }
}

impl<'a> LogOriginRust<'a> {
    /// The members of the JSON object that stands for `self`.
    pub open spec fn members(self) -> Members {
        rust_members(self.target@, text_of(self.module), text_of(self.file_path))
    }

    /// The JSON object that stands for `self`.
    pub fn to_json(&self) -> (m: JsonMap)
        ensures
            object_entries(m) == self.members(),
    {
        proof {
            reveal_strlit("target");
            reveal_strlit("module");
            reveal_strlit("_path");
            reveal_strlit("file_path");
            assert("target"@.len() != module_key().len());
            assert("target"@.len() != "file_path"@.len());
            assert(module_key().len() != "file_path"@.len());
        }
        let mut m = new_map();
        proof {
            lemma_put_new(object_entries(m), "target"@, Json::Text(self.target@));
        }
        insert(&mut m, "target".to_owned(), text_value(self.target.to_owned()));
        if let Some(module) = self.module {
            proof {
                lemma_put_new(object_entries(m), module_key(), Json::Text(module@));
            }
            insert(&mut m, "module".to_owned().concat("_path"), text_value(module.to_owned()));
        }
        if let Some(file_path) = self.file_path {
            proof {
                lemma_put_new(object_entries(m), "file_path"@, Json::Text(file_path@));
            }
            insert(&mut m, "file_path".to_owned(), text_value(file_path.to_owned()));
        }
        m
    }
}

impl<'a> LogOrigin<'a> {
    /// The members of the JSON object that stands for `self`.
    pub open spec fn members(self) -> Members {
        origin_members(self.file.members(), self.rust.members())
    }

    /// The JSON object that stands for `self`.
    pub fn to_json(&self) -> (m: JsonMap)
        ensures
            object_entries(m) == self.members(),
    {
        proof {
            reveal_strlit("file");
            reveal_strlit("origin");
            assert("file"@.len() != "origin"@.len());
        }
        let mut m = new_map();
        let file = object_value(self.file.to_json());
        proof {
            lemma_put_new(object_entries(m), "file"@, Json::Object(self.file.members()));
        }
        insert(&mut m, "file".to_owned(), file);
        let rust = object_value(self.rust.to_json());
        proof {
            lemma_put_new(object_entries(m), "origin"@, Json::Object(self.rust.members()));
        }
        insert(&mut m, "origin".to_owned(), rust);
        m
    }
}

impl<'a> Event<'a> {
    /// The members of the JSON object that stands for `self`, with
    /// `timestamp_text` for its instant.
    pub open spec fn members(self, timestamp_text: Seq<char>) -> Members {
        event_members(
            timestamp_text,
            self.log_level@,
            self.message@,
            self.ecs_version@,
            self.log_origin.members(),
        )
    }

    /// Creates an ECS log event from a log record and the instant of the call.
    pub fn new(timestamp: Timestamp, record: &'a LogRecord<'a>) -> (event: Event<'a>)
        ensures
            event.timestamp == timestamp,
            event.log_level@ == record.level.name(),
            event.message@ == record.message@,
            event.ecs_version@ == ECS_VERSION@,
            event.log_origin.file.line == record.line,
            text_of(event.log_origin.file.name) == record.file_name(),
            event.log_origin.rust.target@ == record.target@,
            event.log_origin.rust.module == record.module,
            event.log_origin.rust.file_path == record.file,
    {
        let name = match record.file {
            Some(path) => file_name(path),
            None => None,
        };
        Event {
            timestamp,
            log_level: record.level.as_str(),
            message: record.message.to_owned(),
            ecs_version: ECS_VERSION,
            log_origin: LogOrigin {
                file: LogOriginFile { line: record.line, name },
                rust: LogOriginRust {
                    target: record.target,
                    module: record.module,
                    file_path: record.file,
                },
            },
        }
    }

    /// The JSON object that stands for `self`, given the text of its instant.
    pub fn to_json(&self, timestamp_text: String) -> (m: JsonMap)
        ensures
            object_entries(m) == self.members(timestamp_text@),
    {
        proof {
            reveal_strlit("@timestamp");
            reveal_strlit("log.level");
            reveal_strlit("message");
            reveal_strlit("ecs.version");
            reveal_strlit("log.origin");
            assert("@timestamp"@.len() == 10 && "log.level"@.len() == 9);
            assert("message"@.len() == 7 && "ecs.version"@.len() == 11);
            assert("log.origin"@.len() == 10);
            assert("@timestamp"@[0] != "log.origin"@[0]);
        }
        let ghost all = self.members(timestamp_text@);
        let mut m = new_map();
        proof {
            lemma_put_new(object_entries(m), "@timestamp"@, Json::Text(timestamp_text@));
        }
        insert(&mut m, "@timestamp".to_owned(), text_value(timestamp_text));
        proof {
            assert(object_entries(m) =~= all.take(1));
            lemma_put_new(object_entries(m), "log.level"@, Json::Text(self.log_level@));
        }
        insert(&mut m, "log.level".to_owned(), text_value(self.log_level.to_owned()));
        proof {
            assert(object_entries(m) =~= all.take(2));
            lemma_put_new(object_entries(m), "message"@, Json::Text(self.message@));
        }
        insert(&mut m, "message".to_owned(), text_value(self.message.clone()));
        proof {
            assert(object_entries(m) =~= all.take(3));
            lemma_put_new(object_entries(m), "ecs.version"@, Json::Text(self.ecs_version@));
        }
        insert(&mut m, "ecs.version".to_owned(), text_value(self.ecs_version.to_owned()));
        let origin = object_value(self.log_origin.to_json());
        proof {
            assert(object_entries(m) =~= all.take(4));
            lemma_put_new(object_entries(m), "log.origin"@, Json::Object(self.log_origin.members()));
        }
        insert(&mut m, "log.origin".to_owned(), origin);
        m
    }
}

/// Why a log record could not be turned into a line.
#[derive(Debug)]
pub enum FormatError {
    /// The instant of the record lies outside the years that can be written.
    Timestamp,
    /// The JSON text of the event could not be written.
    Json(serde_json::Error),
}

impl FormatError {
    /// What went wrong, in words.
    pub fn message(&self) -> (text: &'static str)
        ensures
            text@ == match self {
                FormatError::Timestamp => "the timestamp cannot be written"@,
                FormatError::Json(_) => "the event cannot be written as JSON"@,
            },
    {
        match self {
            FormatError::Timestamp => "the timestamp cannot be written",
            FormatError::Json(_) => "the event cannot be written as JSON",
        }
    }
}

/// The line that is written for an object with the members `members`: its
/// compact JSON text and one line feed. There is none where the text cannot
/// be written.
pub open spec fn log_line(members: Members) -> Option<Seq<char>> {
    match json_text(members) {
        Some(text) => Some(text.push('\n')),
        None => None,
    }
}

/// The line that is written for `record`, logged at `timestamp` while the
/// extra fields `extra` were in force. There is none where the instant or the
/// JSON text cannot be written.
pub open spec fn record_line(
    timestamp: Timestamp,
    record: LogRecord<'_>,
    extra: Option<Members>,
) -> Option<Seq<char>> {
    match rfc3339_text(timestamp.secs, timestamp.nanos) {
        Some(timestamp_text) => log_line(merged_with(record.members(timestamp_text), extra)),
        None => None,
    }
}

/// `line` is one line: it ends in a line feed and holds no other.
pub open spec fn is_one_line(line: Seq<char>) -> bool {
    line.len() > 0 && line.last() == '\n' && !line.drop_last().contains('\n')
}

/// The object that is written for `event`: the event as JSON, with
/// `extra_fields` merged into it. `timestamp_text` is the text of the event's
/// instant, or `None` where the instant cannot be written, and then there is
/// no object.
pub fn merged_json(
    event: &Event<'_>,
    timestamp_text: Option<String>,
    extra_fields: &ExtraFields,
) -> (r: Result<JsonMap, FormatError>)
    ensures
        match timestamp_text {
            Some(text) => r matches Ok(m) && object_entries(m) == merged_with(
                event.members(text@),
                extra_fields@,
            ),
            None => r matches Err(FormatError::Timestamp),
        },
{
    match timestamp_text {
        Some(text) => Ok(merge_extra_fields(extra_fields, event.to_json(text))),
        None => Err(FormatError::Timestamp),
    }
}

/// Ends a line: the JSON text of an object, where it could be written, is
/// followed by one newline; a failure to write it is handed on.
pub fn finish_line(text: Result<String, serde_json::Error>) -> (r: Result<String, FormatError>)
    ensures
        match text {
            Ok(t) => r matches Ok(line) && line@ == t@.push('\n'),
            Err(e) => r matches Err(FormatError::Json(x)) && x == e,
        },
{
    match text {
        Ok(t) => {
            proof {
                reveal_strlit("\n");
                assert("\n"@ =~= seq!['\n']);
                assert(t@ + seq!['\n'] =~= t@.push('\n'));
            }
            Ok(t.concat("\n"))
        },
        Err(e) => Err(FormatError::Json(e)),
    }
}

/// Turns one log record into one line of output.
///
/// The record becomes an [`Event`] with `timestamp` for its instant, the
/// event a JSON object, and `extra_fields`, where some are in force, are
/// merged into that object. The line is the compact JSON text of the result
/// and one line feed. An instant that cannot be written gives
/// [`FormatError::Timestamp`], an object that cannot be written
/// [`FormatError::Json`].
pub fn format(timestamp: Timestamp, record: &LogRecord<'_>, extra_fields: &ExtraFields) -> (r:
    Result<String, FormatError>)
    ensures
        match r {
            Ok(line) => record_line(timestamp, *record, extra_fields@) == Some(line@)
                && is_one_line(line@),
            Err(FormatError::Timestamp) => rfc3339_text(timestamp.secs, timestamp.nanos) is None,
            Err(FormatError::Json(_)) => rfc3339_text(timestamp.secs, timestamp.nanos) is Some
                && record_line(timestamp, *record, extra_fields@) is None,
        },
{
    let event = Event::new(timestamp, record);
    match merged_json(&event, event.timestamp.to_rfc3339(), extra_fields) {
        Ok(merged_json_map) => {
            let text = to_json_text(&merged_json_map);
            proof {
                if text is Ok {
                    let t = text->Ok_0@;
                    assert(t.push('\n').drop_last() =~= t);
                }
            }
            finish_line(text)
        },
        Err(e) => Err(e),
    }
}

} // verus!
