//! Requests, responses and queries about schemas.

use crate::json::{json_model, JsonModel};
use crate::models::{option_text, Schema, SchemaView};
use crate::repositories::schema_repository::SchemaQueryParams;
use crate::time::{instant_text, to_rfc3339};
use serde_json::Value;
use vstd::prelude::*;

verus! {

/// The body of a request to register a schema.
#[derive(Debug)]
pub struct CreateSchemaRequest {
    pub name: String,
    pub version: String,
    pub description: Option<String>,
    pub schema_definition: Value,
}

/// The body of a request to replace a schema.
#[derive(Debug)]
pub struct UpdateSchemaRequest {
    pub name: String,
    pub version: String,
    pub description: Option<String>,
    pub schema_definition: Value,
}

/// A schema as it is returned to the caller.
#[derive(Debug)]
pub struct SchemaResponse {
    pub id: u128,
    pub name: String,
    pub version: String,
    pub description: Option<String>,
    pub schema_definition: Value,
    pub created_at: String,
    pub updated_at: String,
}

/// A schema response as plain values.
pub struct SchemaResponseView {
    pub id: u128,
    pub name: Seq<char>,
    pub version: Seq<char>,
    pub description: Option<Seq<char>>,
    pub schema_definition: JsonModel,
    pub created_at: Seq<char>,
    pub updated_at: Seq<char>,
}

impl View for SchemaResponse {
    type V = SchemaResponseView;

    open spec fn view(&self) -> SchemaResponseView {
        SchemaResponseView {
            id: self.id,
            name: self.name@,
            version: self.version@,
            description: option_text(self.description),
            schema_definition: json_model(self.schema_definition),
            created_at: self.created_at@,
            updated_at: self.updated_at@,
        }
    }
}

/// The response that shows a schema: its fields, with the instants written
/// out.
pub open spec fn schema_response_of(schema: SchemaView) -> SchemaResponseView {
    SchemaResponseView {
        id: schema.id,
        name: schema.name,
        version: schema.version,
        description: schema.description,
        schema_definition: schema.schema_definition,
        created_at: instant_text(schema.created_at),
        updated_at: instant_text(schema.updated_at),
    }
}

impl From<Schema> for SchemaResponse {
    fn from(schema: Schema) -> (r: SchemaResponse)
        ensures
            r@ == schema_response_of(schema@),
    {
        SchemaResponse {
            id: schema.id,
            name: schema.name,
            version: schema.version,
            description: schema.description,
            schema_definition: schema.schema_definition,
            created_at: to_rfc3339(schema.created_at),
            updated_at: to_rfc3339(schema.updated_at),
        }
    }
}

impl vstd::std_specs::convert::FromSpecImpl<Schema> for SchemaResponse {
    open spec fn obeys_from_spec() -> bool {
        false
    }

    open spec fn from_spec(schema: Schema) -> SchemaResponse {
        arbitrary()
    }
}

/// The optional filters of a schema listing.
#[derive(Debug)]
pub struct GetSchemasQuery {
    pub name: Option<String>,
    pub version: Option<String>,
}

impl From<GetSchemasQuery> for SchemaQueryParams {
    fn from(query: GetSchemasQuery) -> (r: SchemaQueryParams)
        ensures
            r.name == query.name,
            r.version == query.version,
    {
        SchemaQueryParams { name: query.name, version: query.version }
    }
}

impl vstd::std_specs::convert::FromSpecImpl<GetSchemasQuery> for SchemaQueryParams {
    open spec fn obeys_from_spec() -> bool {
        true
    }

    open spec fn from_spec(query: GetSchemasQuery) -> SchemaQueryParams {
        SchemaQueryParams { name: query.name, version: query.version }
    }
}

/// The optional flag of a schema deletion.
#[derive(Debug)]
pub struct DeleteSchemaQuery {
    pub force: Option<bool>,
}

} // verus!
