//! Response shaping for the gateway that serves synchronized state.
//!
//! The gateway's answers are modeled as plain values — a status code, a
//! body, and whether the body is JSON — which the serving layer turns into
//! wire responses. Serialization of an answer's payload happens in that
//! layer too; the functions here decide status and body for every outcome,
//! including a payload that failed to serialize.

use vstd::prelude::*;
use vstd::string::*;

verus! {

/// Error codes of the gateway's protocol.
#[derive(Clone, Copy, PartialEq, Eq, Structural, Debug)]
pub enum StarknetErrorCode {
    BlockNotFound,
    MalformedRequest,
}

/// A protocol-level error answer: a code and a human-readable message.
#[derive(Clone, PartialEq, Eq, Debug)]
pub struct StarknetError {
    pub code: StarknetErrorCode,
    pub message: String,
}

impl StarknetError {
    /// Builds an error answer.
    pub fn new(code: StarknetErrorCode, message: String) -> (r: StarknetError)
        ensures
            r.code == code,
            r.message@ == message@,
    {
        StarknetError { code, message }
    }
}

/// A gateway answer, as plain values: HTTP status, body, and whether the
/// body carries a JSON content type.
#[derive(Clone, PartialEq, Eq, Debug)]
pub struct GatewayResponse {
    pub status: u16,
    pub json: bool,
    pub body: String,
}

/// The answer for a service that is switched off: status 503, naming the
/// service.
pub fn service_unavailable_response(service_name: &str) -> (r: GatewayResponse)
    ensures
        r.status == 503,
        !r.json,
        r.body@ == service_name@ + " Service disabled"@,
{
    let body = service_name.to_owned().concat(" Service disabled");
    GatewayResponse { status: 503, json: false, body }
}

/// The answer for a path that is not served: status 404.
pub fn not_found_response() -> (r: GatewayResponse)
    ensures
        r.status == 404,
        !r.json,
        r.body@ == "Not Found"@,
{
    GatewayResponse { status: 404, json: false, body: "Not Found".to_owned() }
}

/// The answer for an internal failure: status 500.
pub fn internal_error_response() -> (r: GatewayResponse)
    ensures
        r.status == 500,
        !r.json,
        r.body@ == "Internal Server Error"@,
{
    GatewayResponse { status: 500, json: false, body: "Internal Server Error".to_owned() }
}

/// The answer for a request the gateway knows but does not implement:
/// status 501.
pub fn not_implemented_response() -> (r: GatewayResponse)
    ensures
        r.status == 501,
        !r.json,
        r.body@ == "Not Implemented"@,
{
    GatewayResponse { status: 501, json: false, body: "Not Implemented".to_owned() }
}

/// The answer carrying a serialized JSON payload under the given status —
/// or, where serialization of the payload failed and the serving layer
/// hands in nothing, the internal failure answer.
pub fn create_json_response(status: u16, serialized: Option<String>) -> (r: GatewayResponse)
    ensures
        match serialized {
            Some(body) => r.status == status && r.json && r.body@ == body@,
            None => r.status == 500 && !r.json && r.body@ == "Internal Server Error"@,
        },
{
    match serialized {
        Some(body) => GatewayResponse { status, json: true, body },
        None => internal_error_response(),
    }
}

/// The answer carrying an already serialized JSON body under the given
/// status.
pub fn create_response_with_json_body(status: u16, body: &str) -> (r: GatewayResponse)
    ensures
        r.status == status,
        r.json,
        r.body@ == body@,
{
    GatewayResponse { status, json: true, body: body.to_owned() }
}

} // verus!
