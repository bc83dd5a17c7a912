//! The validation engine: builds a schema definition with `jsonschema` and
//! checks instances against it, reporting every violation with its path.
//! Definitions and instances are read in one dialect, Draft 7.

use crate::error::{AppError, AppResult, ErrorKind};
use crate::json::{is_object, json_model, json_object, new_members, JsonModel};
use crate::text::{join, join_text, prefixed, views};
use serde_json::Value;
use vstd::prelude::*;
use vstd::string::*;

verus! {

/// One violation: where in the instance, and why.
#[derive(Debug)]
pub struct PathError {
    /// The JSON pointer to the offending part of the instance.
    pub path: String,
    /// The reason, in words.
    pub reason: String,
}

impl View for PathError {
    type V = (Seq<char>, Seq<char>);

    open spec fn view(&self) -> (Seq<char>, Seq<char>) {
        (self.path@, self.reason@)
    }
}

/// The views of a sequence of violations.
pub open spec fn path_error_views(errors: Seq<PathError>) -> Seq<(Seq<char>, Seq<char>)> {
    errors.map_values(|e: PathError| e@)
}

/// The message with which a Draft 7 build refuses `definition`, where it
/// refuses it.
pub uninterp spec fn draft7_failure(definition: JsonModel) -> Option<Seq<char>>;

/// The violations that a Draft 7 validator of `definition` finds in
/// `instance`, each with its instance path and its message.
pub uninterp spec fn draft7_violations(definition: JsonModel, instance: JsonModel) -> Seq<
    (Seq<char>, Seq<char>),
>;

/// `jsonschema::options().with_draft(Draft::Draft7).build`, then
/// `Validator::iter_errors`: the message of the build error, or every
/// violation with what its `instance_path` and its `to_string` give.
#[verifier::external_body]
pub(crate) fn check_draft7(definition: &Value, instance: &Value) -> (r: Result<
    Vec<PathError>,
    String,
>)
    ensures
        match r {
            Ok(errors) => draft7_failure(json_model(*definition)) is None && path_error_views(
                errors@,
            ) == draft7_violations(json_model(*definition), json_model(*instance)),
            Err(m) => draft7_failure(json_model(*definition)) == Some(m@),
        },
{
    let validator = jsonschema::options().with_draft(jsonschema::Draft::Draft7).build(definition);
    match validator {
        Ok(v) => Ok(
            v.iter_errors(instance).map(
                |e| PathError { path: e.instance_path().to_string(), reason: e.to_string() },
            ).collect(),
        ),
        Err(e) => Err(e.to_string()),
    }
}

/// The verdict on a definition: it must be an object, and it must build.
pub open spec fn definition_verdict(object: bool, failure: Option<Seq<char>>) -> Option<
    (ErrorKind, Seq<char>),
> {
    if !object {
        Some((ErrorKind::SchemaValidationError, "Schema definition must be a JSON object"@))
    } else {
        match failure {
            Some(m) => Some((ErrorKind::SchemaValidationError, "Invalid JSON Schema: "@ + m)),
            None => None,
        }
    }
}

/// Whether `r` reports `verdict`: `Ok` where there is none, else the
/// failure with that kind and detail.
pub open spec fn delivers(r: AppResult<()>, verdict: Option<(ErrorKind, Seq<char>)>) -> bool {
    match r {
        Ok(_) => verdict is None,
        Err(e) => verdict == Some(e@),
    }
}

/// Decides on a definition from whether it is an object and from the
/// message with which the build refused it, if it did.
pub fn definition_outcome(object: bool, failure: Option<String>) -> (r: AppResult<()>)
    ensures
        delivers(r, definition_verdict(object, crate::models::option_text(failure))),
{
    if !object {
        return Err(
            AppError::SchemaValidationError(
                String::from_str("Schema definition must be a JSON object"),
            ),
        );
    }
    match failure {
        Some(m) => Err(
            AppError::SchemaValidationError(prefixed("Invalid JSON Schema: ", m.as_str())),
        ),
        None => Ok(()),
    }
}

/// Accepts a schema definition that is a JSON object and builds under
/// Draft 7, the one dialect in which instances are checked too, and
/// refuses any other with `SchemaValidationError`.
pub fn validate_schema_definition(schema_definition: &Value) -> (r: AppResult<()>)
    ensures
        delivers(
            r,
            definition_verdict(
                json_model(*schema_definition) is Object,
                draft7_failure(json_model(*schema_definition)),
            ),
        ),
{
    let object = is_object(schema_definition);
    if !object {
        return definition_outcome(false, None);
    }
    let nothing = json_object(new_members());
    let failure = match check_draft7(schema_definition, &nothing) {
        Ok(_) => None,
        Err(m) => Some(m),
    };
    definition_outcome(true, failure)
}

/// One violation as it is reported.
pub open spec fn violation_line(e: (Seq<char>, Seq<char>)) -> Seq<char> {
    "Validation error at '"@ + e.0 + "': "@ + e.1
}

/// The report of all violations: one line each, joined by "; ".
pub open spec fn violation_report(errors: Seq<(Seq<char>, Seq<char>)>) -> Seq<char> {
    "Schema validation failed: "@ + join_text(
        errors.map_values(|e: (Seq<char>, Seq<char>)| violation_line(e)),
        "; "@,
    )
}

/// The verdict on an instance: a definition that does not build is an
/// internal failure; violations are reported all together; none is success.
pub open spec fn instance_verdict(
    failure: Option<Seq<char>>,
    errors: Seq<(Seq<char>, Seq<char>)>,
) -> Option<(ErrorKind, Seq<char>)> {
    match failure {
        Some(m) => Some((ErrorKind::InternalError, "Invalid JSON schema: "@ + m)),
        None => if errors.len() == 0 {
            None
        } else {
            Some((ErrorKind::SchemaValidationError, violation_report(errors)))
        },
    }
}

/// What a check reports as a build failure.
pub open spec fn check_failure(check: Result<Vec<PathError>, String>) -> Option<Seq<char>> {
    match check {
        Ok(_) => None,
        Err(m) => Some(m@),
    }
}

/// The violations that a check found.
pub open spec fn check_errors(check: Result<Vec<PathError>, String>) -> Seq<
    (Seq<char>, Seq<char>),
> {
    match check {
        Ok(errors) => path_error_views(errors@),
        Err(_) => Seq::empty(),
    }
}

/// Writes one violation out.
pub fn format_violation(e: &PathError) -> (r: String)
    ensures
        r@ == violation_line(e@),
{
    let mut s = String::from_str("Validation error at '");
    s.append(e.path.as_str());
    s.append("': ");
    s.append(e.reason.as_str());
    s
}

/// Decides on an instance from the outcome of the check: every violation
/// is listed in the failure, in the order in which it was found.
pub fn instance_outcome(check: Result<Vec<PathError>, String>) -> (r: AppResult<()>)
    ensures
        delivers(r, instance_verdict(check_failure(check), check_errors(check))),
{
    match check {
        Err(m) => Err(AppError::InternalError(prefixed("Invalid JSON schema: ", m.as_str()))),
        Ok(errors) => {
            if errors.len() == 0 {
                return Ok(());
            }
            let mut lines: Vec<String> = Vec::new();
            let mut i: usize = 0;
            while i < errors.len()
                invariant
                    i <= errors.len(),
                    lines@.len() == i,
                    forall|j: int|
                        0 <= j < i ==> (#[trigger] lines@[j])@ == violation_line(errors@[j]@),
                decreases errors.len() - i,
            {
                lines.push(format_violation(&errors[i]));
                i += 1;
            }
            proof {
                assert(views(lines@) =~= path_error_views(errors@).map_values(
                    |e: (Seq<char>, Seq<char>)| violation_line(e),
                ));
            }
            let joined = join(&lines, "; ");
            Err(
                AppError::SchemaValidationError(
                    prefixed("Schema validation failed: ", joined.as_str()),
                ),
            )
        },
    }
}

/// Lists every violation of `definition`, read under Draft 7, that
/// `instance` holds; an empty list means that the instance conforms.  A
/// definition that does not build is an internal failure.
pub fn validate(definition: &Value, instance: &Value) -> (r: AppResult<Vec<PathError>>)
    ensures
        match r {
            Ok(errors) => draft7_failure(json_model(*definition)) is None && path_error_views(
                errors@,
            ) == draft7_violations(json_model(*definition), json_model(*instance)),
            Err(e) => draft7_failure(json_model(*definition)) matches Some(m) && e@ == (
                ErrorKind::InternalError,
                "Invalid JSON schema: "@ + m,
            ),
        },
{
    match check_draft7(definition, instance) {
        Ok(errors) => Ok(errors),
        Err(m) => Err(AppError::InternalError(prefixed("Invalid JSON schema: ", m.as_str()))),
    }
}

/// Checks `log_data` against `schema_definition` under Draft 7 and lists
/// every violation in the failure.
pub fn validate_log_against_schema(log_data: &Value, schema_definition: &Value) -> (r: AppResult<
    (),
>)
    ensures
        delivers(
            r,
            instance_verdict(
                draft7_failure(json_model(*schema_definition)),
                draft7_violations(json_model(*schema_definition), json_model(*log_data)),
            ),
        ),
{
    let check = check_draft7(schema_definition, log_data);
    instance_outcome(check)
}

} // verus!
