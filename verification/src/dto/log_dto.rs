//! Requests, responses and live events about logs.

use crate::ids::{hyphenated, uuid_text};
use crate::json::{
    clone_value, insert_member, json_integer, json_model, json_object, json_string, json_text,
    new_members, no_members, render, JsonModel,
};
use crate::text::int_text;
use vstd::string::*;
use crate::models::{Log, LogView};
use crate::time::{instant_text, to_rfc3339};
use serde_json::Value;
use vstd::prelude::*;

verus! {

/// The body of a request to store a log.
#[derive(Debug)]
pub struct CreateLogRequest {
    pub schema_id: u128,
    pub log_data: Value,
}

/// A log as it is returned to the caller.
#[derive(Debug)]
pub struct LogResponse {
    pub id: i32,
    pub schema_id: u128,
    pub log_data: Value,
    pub created_at: String,
}

/// A log response as plain values.
pub struct LogResponseView {
    pub id: i32,
    pub schema_id: u128,
    pub log_data: JsonModel,
    pub created_at: Seq<char>,
}

impl View for LogResponse {
    type V = LogResponseView;

    open spec fn view(&self) -> LogResponseView {
        LogResponseView {
            id: self.id,
            schema_id: self.schema_id,
            log_data: json_model(self.log_data),
            created_at: self.created_at@,
        }
    }
}

/// The response that shows a log: its fields, with the instant written out.
pub open spec fn log_response_of(log: LogView) -> LogResponseView {
    LogResponseView {
        id: log.id,
        schema_id: log.schema_id,
        log_data: log.log_data,
        created_at: instant_text(log.created_at),
    }
}

impl From<Log> for LogResponse {
    fn from(log: Log) -> (r: LogResponse)
        ensures
            r@ == log_response_of(log@),
    {
        LogResponse {
            id: log.id,
            schema_id: log.schema_id,
            log_data: log.log_data,
            created_at: to_rfc3339(log.created_at),
        }
    }
}

impl vstd::std_specs::convert::FromSpecImpl<Log> for LogResponse {
    open spec fn obeys_from_spec() -> bool {
        false
    }

    open spec fn from_spec(log: Log) -> LogResponse {
        arbitrary()
    }
}

/// A notice that a log was stored or removed, as live subscribers get it.
#[derive(Debug)]
pub enum LogEvent {
    Created { id: i32, schema_id: u128, log_data: Value, created_at: String },
    Deleted { id: i32, schema_id: u128 },
}

/// An event as plain values.
pub enum LogEventView {
    Created { id: i32, schema_id: u128, log_data: JsonModel, created_at: Seq<char> },
    Deleted { id: i32, schema_id: u128 },
}

impl LogEventView {
    /// The schema of the log that the event is about.
    pub open spec fn schema_id(self) -> u128 {
        match self {
            LogEventView::Created { schema_id, .. } => schema_id,
            LogEventView::Deleted { schema_id, .. } => schema_id,
        }
    }

    /// The log that the event is about.
    pub open spec fn log_id(self) -> i32 {
        match self {
            LogEventView::Created { id, .. } => id,
            LogEventView::Deleted { id, .. } => id,
        }
    }
}

/// The event that announces a stored log: it carries the stored fields.
pub open spec fn created_event(log: LogView) -> LogEventView {
    LogEventView::Created {
        id: log.id,
        schema_id: log.schema_id,
        log_data: log.log_data,
        created_at: instant_text(log.created_at),
    }
}

/// The event that announces a removed log.
pub open spec fn deleted_event(log: LogView) -> LogEventView {
    LogEventView::Deleted { id: log.id, schema_id: log.schema_id }
}

impl View for LogEvent {
    type V = LogEventView;

    open spec fn view(&self) -> LogEventView {
        match self {
            LogEvent::Created { id, schema_id, log_data, created_at } => LogEventView::Created {
                id: *id,
                schema_id: *schema_id,
                log_data: json_model(*log_data),
                created_at: created_at@,
            },
            LogEvent::Deleted { id, schema_id } => LogEventView::Deleted {
                id: *id,
                schema_id: *schema_id,
            },
        }
    }
}

impl LogEvent {
    /// The event for a log that was stored.
    pub fn created_from(log: Log) -> (r: LogEvent)
        ensures
            r@ == created_event(log@),
    {
        LogEvent::Created {
            id: log.id,
            schema_id: log.schema_id,
            log_data: log.log_data,
            created_at: to_rfc3339(log.created_at),
        }
    }

    /// The event for a log that was removed.
    pub fn deleted_from(log: Log) -> (r: LogEvent)
        ensures
            r@ == deleted_event(log@),
    {
        LogEvent::Deleted { id: log.id, schema_id: log.schema_id }
    }

    /// The schema of the log that the event is about.
    pub fn schema_id(&self) -> (r: u128)
        ensures
            r == self@.schema_id(),
    {
        match self {
            LogEvent::Created { schema_id, .. } => *schema_id,
            LogEvent::Deleted { schema_id, .. } => *schema_id,
        }
    }
}

/// The members that every event has on the wire: its kind, the log and
/// the log's schema.
pub open spec fn wire_head(kind: Seq<char>, id: i32, schema_id: u128) -> Map<Seq<char>, JsonModel> {
    no_members().insert("event_type"@, JsonModel::Text(kind)).insert(
        "id"@,
        JsonModel::Number(int_text(id as int)),
    ).insert("schema_id"@, JsonModel::Text(uuid_text(schema_id)))
}

/// An event on the wire: an object tagged with `event_type`.  A created
/// log comes with its data and its creation instant.
pub open spec fn wire_form(e: LogEventView) -> JsonModel {
    match e {
        LogEventView::Created { id, schema_id, log_data, created_at } => JsonModel::Object(
            wire_head("created"@, id, schema_id).insert("log_data"@, log_data).insert(
                "created_at"@,
                JsonModel::Text(created_at),
            ),
        ),
        LogEventView::Deleted { id, schema_id } => JsonModel::Object(
            wire_head("deleted"@, id, schema_id),
        ),
    }
}

impl LogEvent {
    /// The event as the JSON object that goes over the wire.
    pub fn to_json(&self) -> (r: serde_json::Value)
        ensures
            json_model(r) == wire_form(self@),
    {
        let mut members = new_members();
        match self {
            LogEvent::Created { id, schema_id, log_data, created_at } => {
                insert_member(
                    &mut members,
                    String::from_str("event_type"),
                    json_string(String::from_str("created")),
                );
                insert_member(&mut members, String::from_str("id"), json_integer(*id as i64));
                insert_member(
                    &mut members,
                    String::from_str("schema_id"),
                    json_string(hyphenated(*schema_id)),
                );
                insert_member(&mut members, String::from_str("log_data"), clone_value(log_data));
                insert_member(
                    &mut members,
                    String::from_str("created_at"),
                    json_string(created_at.clone()),
                );
            },
            LogEvent::Deleted { id, schema_id } => {
                insert_member(
                    &mut members,
                    String::from_str("event_type"),
                    json_string(String::from_str("deleted")),
                );
                insert_member(&mut members, String::from_str("id"), json_integer(*id as i64));
                insert_member(
                    &mut members,
                    String::from_str("schema_id"),
                    json_string(hyphenated(*schema_id)),
                );
            },
        }
        json_object(members)
    }

    /// The text of the message that carries the event to a subscriber.
    pub fn to_message(&self) -> (r: String)
        ensures
            r@ == json_text(wire_form(self@)),
    {
        let value = self.to_json();
        render(&value)
    }
}

impl Clone for LogEvent {
    fn clone(&self) -> (r: LogEvent)
        ensures
            r@ == self@,
    {
        match self {
            LogEvent::Created { id, schema_id, log_data, created_at } => LogEvent::Created {
                id: *id,
                schema_id: *schema_id,
                log_data: clone_value(log_data),
                created_at: created_at.clone(),
            },
            LogEvent::Deleted { id, schema_id } => LogEvent::Deleted {
                id: *id,
                schema_id: *schema_id,
            },
        }
    }
}

} // verus!
