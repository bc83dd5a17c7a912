//! The two stored records: schemas and the logs that conform to them.
//!
//! A schema is identified by the 128 bits of its UUID, and an instant is
//! counted in microseconds since the Unix epoch.

use crate::json::{clone_value, json_model, JsonModel};
use serde_json::Value;
use vstd::prelude::*;

verus! {

/// A named, versioned contract that log records must satisfy.
#[derive(Debug)]
pub struct Schema {
    pub id: u128,
    pub name: String,
    pub version: String,
    pub description: Option<String>,
    pub schema_definition: Value,
    pub created_at: i64,
    pub updated_at: i64,
}

/// A schema as plain values.
pub struct SchemaView {
    pub id: u128,
    pub name: Seq<char>,
    pub version: Seq<char>,
    pub description: Option<Seq<char>>,
    pub schema_definition: JsonModel,
    pub created_at: i64,
    pub updated_at: i64,
}

/// The characters of an optional text.
pub open spec fn option_text(text: Option<String>) -> Option<Seq<char>> {
    match text {
        Some(t) => Some(t@),
        None => None,
    }
}

impl View for Schema {
    type V = SchemaView;

    open spec fn view(&self) -> SchemaView {
        SchemaView {
            id: self.id,
            name: self.name@,
            version: self.version@,
            description: option_text(self.description),
            schema_definition: json_model(self.schema_definition),
            created_at: self.created_at,
            updated_at: self.updated_at,
        }
    }
}

/// A copy of an optional text.
pub fn clone_option_text(text: &Option<String>) -> (r: Option<String>)
    ensures
        option_text(r) == option_text(*text),
{
    match text {
        Some(t) => Some(t.clone()),
        None => None,
    }
}

impl Clone for Schema {
    fn clone(&self) -> (r: Schema)
        ensures
            r@ == self@,
    {
        Schema {
            id: self.id,
            name: self.name.clone(),
            version: self.version.clone(),
            description: clone_option_text(&self.description),
            schema_definition: clone_value(&self.schema_definition),
            created_at: self.created_at,
            updated_at: self.updated_at,
        }
    }
}

/// An immutable record that conformed to its schema when it was stored.
#[derive(Debug)]
pub struct Log {
    pub id: i32,
    pub schema_id: u128,
    pub log_data: Value,
    pub created_at: i64,
}

/// A log as plain values.
pub struct LogView {
    pub id: i32,
    pub schema_id: u128,
    pub log_data: JsonModel,
    pub created_at: i64,
}

impl View for Log {
    type V = LogView;

    open spec fn view(&self) -> LogView {
        LogView {
            id: self.id,
            schema_id: self.schema_id,
            log_data: json_model(self.log_data),
            created_at: self.created_at,
        }
    }
}

impl Clone for Log {
    fn clone(&self) -> (r: Log)
        ensures
            r@ == self@,
    {
        Log {
            id: self.id,
            schema_id: self.schema_id,
            log_data: clone_value(&self.log_data),
            created_at: self.created_at,
        }
    }
}

/// The views of a sequence of schemas.
pub open spec fn schema_views(rows: Seq<Schema>) -> Seq<SchemaView> {
    rows.map_values(|s: Schema| s@)
}

/// The views of a sequence of logs.
pub open spec fn log_views(rows: Seq<Log>) -> Seq<LogView> {
    rows.map_values(|l: Log| l@)
}

} // verus!
