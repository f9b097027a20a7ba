//! The response adapter's decisions: how the outcome of a request maps onto
//! an HTTP status code and a body, and the fixed statements the surrounding
//! runtime sends to its collaborators.

use vstd::prelude::*;
use vstd::string::StringExecFns;

use crate::sql::CompileError;
use crate::sql::spec_error_message;
use crate::strutil::str_eq;

verus! {

/// What became of one endpoint request, before it is written to the wire.
pub enum QueryOutcome {
    /// No endpoint matches the path segment.
    EndpointMissing { name: String },
    /// The endpoint exists but its dataset schema could not be resolved.
    SchemaUnavailable,
    /// The compiler refused the request.
    Rejected(CompileError),
    /// The compiled statement, ready for execution.
    Compiled(String),
}

/// The message of a missing endpoint.
pub open spec fn spec_not_found_message(name: Seq<char>) -> Seq<char> {
    "Source "@ + name + " not found"@
}

/// A message for a missing endpoint: `Source <name> not found`.
pub fn endpoint_not_found_message(name: &str) -> (r: String)
    ensures
        r@ == spec_not_found_message(name@),
{
    let mut m = "Source ".to_owned();
    m.append(name);
    m.append(" not found");
    m
}

/// The masked message of an internal failure; the cause is logged, never
/// exposed.
pub fn masked_error_message() -> (r: String)
    ensures
        r@ == "Please, contact us"@,
{
    "Please, contact us".to_owned()
}

/// The HTTP status and body of an outcome: 404 with `Source <name> not
/// found` for a missing endpoint, 500 with the masked message for a schema
/// failure, the compiler error's own status and message for a rejection, and
/// 200 with the statement for a success.
pub fn response_for(outcome: &QueryOutcome) -> (r: (u16, String))
    ensures
        match outcome {
            QueryOutcome::EndpointMissing { name } => r.0 == 404 && r.1@ == spec_not_found_message(
                name@,
            ),
            QueryOutcome::SchemaUnavailable => r.0 == 500 && r.1@ == "Please, contact us"@,
            QueryOutcome::Rejected(e) => (e@ is RequestMalformed ==> r.0 == 400) && (
            e@ is EndpointMisconfigured ==> r.0 == 500) && r.1@ == spec_error_message(e@),
            QueryOutcome::Compiled(sql) => r.0 == 200 && r.1@ == sql@,
        },
{
    match outcome {
        QueryOutcome::EndpointMissing { name } => (404, endpoint_not_found_message(name.as_str())),
        QueryOutcome::SchemaUnavailable => (500, masked_error_message()),
        QueryOutcome::Rejected(e) => (e.status_code(), e.message().clone()),
        QueryOutcome::Compiled(sql) => (200, sql.clone()),
    }
}

/// The fully qualified dataset path queried through the flight transport:
/// `<path>.<name>`.
pub fn flight_dataset_path(path: &str, name: &str) -> (r: String)
    ensures
        r@ == path@ + "."@ + name@,
{
    let mut m = path.to_owned();
    m.append(".");
    m.append(name);
    m
}

/// The statement that fetches a whole dataset over the flight transport.
pub fn flight_query(fq_dataset: &str) -> (r: String)
    ensures
        r@ == "SELECT * FROM "@ + fq_dataset@,
{
    let mut m = "SELECT * FROM ".to_owned();
    m.append(fq_dataset);
    m
}

/// The body of a metrics-server response: the health path answers `OK`, any
/// other path answers the rendered metrics snapshot.
pub fn metrics_body(path: &str, rendered: String) -> (r: String)
    ensures
        path@ == "/health"@ ==> r@ == "OK"@,
        path@ != "/health"@ ==> r@ == rendered@,
{
    if str_eq(path, "/health") {
        "OK".to_owned()
    } else {
        rendered
    }
}

} // verus!
