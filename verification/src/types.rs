//! Typed inputs and results exchanged with the remote service: proof
//! inputs in their accepted forms, job results, and the inputs of the
//! credential endpoints.

use base64::Engine;
use crate::poller::JobStatus;
use vstd::prelude::*;

verus! {

#[verifier::external_type_specification]
#[verifier::external_body]
pub struct ExValue(serde_json::Value);

/// Relies on `serde_json::Value`'s derived `Clone`: a deep copy carries
/// the same JSON content.
pub assume_specification[ <serde_json::Value as Clone>::clone ](v: &serde_json::Value) -> (r:
    serde_json::Value)
    ensures
        r == *v,
;

/// Client input to obtain an API key.
#[derive(Clone, Debug)]
pub struct ObtainApikeyInput {
    /// The account username.
    pub username: String,
    /// The account password.
    pub password: String,
    /// A human-readable name for the key, used when managing keys.
    pub name: Option<String>,
}

impl ObtainApikeyInput {
    /// Client input to obtain an API key, with no key name chosen yet.
    pub fn new(username: String, password: String) -> (r: ObtainApikeyInput)
        ensures
            r.username == username,
            r.password == password,
            r.name is None,
    {
        ObtainApikeyInput { username, password, name: None }
    }
}

/// Client input to check a session token.
#[derive(Clone, Debug)]
pub struct TokenVerifyInputSchema {
    pub token: String,
}

impl TokenVerifyInputSchema {
    pub fn new(token: String) -> (r: TokenVerifyInputSchema)
        ensures
            r.token == token,
    {
        TokenVerifyInputSchema { token }
    }
}

/// A proof input as the service accepts it: either an uninterpreted
/// text payload or a JSON document.
#[derive(Clone, Debug, PartialEq)]
pub enum InternalProofInput {
    String(String),
    Json(serde_json::Value),
}

/// A proof input handed to the proof-request call, convertible from
/// text and from JSON values.
#[derive(Clone, Debug, PartialEq)]
pub struct ProofInput(pub InternalProofInput);

impl From<String> for ProofInput {
    /// Wraps owned text as a text proof input.
    fn from(s: String) -> (r: ProofInput) {
        ProofInput(InternalProofInput::String(s))
    }
}

impl vstd::std_specs::convert::FromSpecImpl<String> for ProofInput {
    open spec fn obeys_from_spec() -> bool {
        true
    }

    open spec fn from_spec(s: String) -> ProofInput {
        ProofInput(InternalProofInput::String(s))
    }
}

impl From<&str> for ProofInput {
    /// Wraps borrowed text as a text proof input. The copy it allocates
    /// has no name in specifications; the owned-text conversion above
    /// carries the exact contract.
    fn from(s: &str) -> (r: ProofInput) {
        ProofInput(InternalProofInput::String(s.to_owned()))
    }
}

impl vstd::std_specs::convert::FromSpecImpl<&str> for ProofInput {
    open spec fn obeys_from_spec() -> bool {
        false
    }

    open spec fn from_spec(s: &str) -> ProofInput {
        vstd::pervasive::arbitrary()
    }
}

impl From<serde_json::Value> for ProofInput {
    /// Wraps a JSON document as a JSON proof input.
    fn from(v: serde_json::Value) -> (r: ProofInput) {
        ProofInput(InternalProofInput::Json(v))
    }
}

impl vstd::std_specs::convert::FromSpecImpl<serde_json::Value> for ProofInput {
    open spec fn obeys_from_spec() -> bool {
        true
    }

    open spec fn from_spec(v: serde_json::Value) -> ProofInput {
        ProofInput(InternalProofInput::Json(v))
    }
}

impl From<ProofInput> for InternalProofInput {
    /// Unwraps the input for the wire-facing call.
    fn from(input: ProofInput) -> (r: InternalProofInput) {
        input.0
    }
}

impl vstd::std_specs::convert::FromSpecImpl<ProofInput> for InternalProofInput {
    open spec fn obeys_from_spec() -> bool {
        true
    }

    open spec fn from_spec(input: ProofInput) -> InternalProofInput {
        input.0
    }
}

impl From<InternalProofInput> for ProofInput {
    /// Wraps a wire-level input.
    fn from(input: InternalProofInput) -> (r: ProofInput) {
        ProofInput(input)
    }
}

impl vstd::std_specs::convert::FromSpecImpl<InternalProofInput> for ProofInput {
    open spec fn obeys_from_spec() -> bool {
        true
    }

    open spec fn from_spec(input: InternalProofInput) -> ProofInput {
        ProofInput(input)
    }
}

/// The payload of one proof request: the input in its accepted form,
/// whether the service should verify the proof after generation, echoed
/// metadata, and an optional prover implementation override.
#[derive(Clone, Debug)]
pub struct CircuitProveInput {
    pub proof_input: InternalProofInput,
    pub perform_verify: Option<bool>,
    pub meta: Option<Vec<(String, String)>>,
    pub prover_implementation: Option<String>,
}

impl CircuitProveInput {
    /// Assembles a proof request: the given input is passed through
    /// unchanged in its wire-level form, and the options are taken as
    /// given.
    pub fn new(
        proof_input: ProofInput,
        meta: Option<Vec<(String, String)>>,
        verify: Option<bool>,
        prover_implementation: Option<String>,
    ) -> (r: CircuitProveInput)
        ensures
            r.proof_input == proof_input.0,
            r.perform_verify == verify,
            r.meta == meta,
            r.prover_implementation == prover_implementation,
    {
        CircuitProveInput {
            proof_input: proof_input.0,
            perform_verify: verify,
            meta,
            prover_implementation,
        }
    }
}

/// The circuit families the service builds and proves.
#[derive(Clone, Copy, Debug, PartialEq, Eq, Structural)]
pub enum CircuitType {
    Boojum,
    Circom,
    Gnark,
    Halo2,
    Jolt,
    Noir,
    Plonky2,
    Sp1,
}

/// Details of one proof job as the detail endpoint reports them. The
/// proof and verification key are opaque JSON payloads, present only
/// when the caller asked for them and the service has them.
#[derive(Clone, Debug)]
pub struct ProofInfoResponse {
    pub proof_id: String,
    pub circuit_type: CircuitType,
    pub status: JobStatus,
    pub proof: Option<Option<serde_json::Value>>,
    pub verification_key: Option<Option<serde_json::Value>>,
    pub error: Option<String>,
}

/// Why a proof payload could not be read.
#[derive(Clone, Debug)]
pub enum ProofDataError {
    /// The response carries no proof payload.
    Missing,
    /// The payload is not a JSON object.
    NotObject,
    /// The payload object does not have exactly one field.
    NotSingleField,
    /// The single field's value is not a string.
    NotAString,
    /// The single field's string is not valid base64; carries the
    /// decoder's message.
    Base64(String),
    /// Byte extraction is defined only for the circuit families whose
    /// proof payload is one base64 field.
    UnsupportedCircuitType,
}

impl ProofDataError {
    /// A human-readable description of the failure.
    pub fn message(&self) -> (r: String)
        ensures
            self matches ProofDataError::Missing ==> r@ == "Proof field is not populated"@,
            self matches ProofDataError::NotObject ==> r@ == "Input must be a JSON object"@,
            self matches ProofDataError::NotSingleField ==> r@
                == "JSON object must have exactly one field"@,
            self matches ProofDataError::NotAString ==> r@
                == "Failed to convert proof to string"@,
            self matches ProofDataError::Base64(d) ==> r@ == "Failed to decode base64: "@ + d@,
            self matches ProofDataError::UnsupportedCircuitType ==> r@
                == "Proof extraction as bytes is not supported for this circuit type"@,
    {
        match self {
            ProofDataError::Missing => "Proof field is not populated".to_owned(),
            ProofDataError::NotObject => "Input must be a JSON object".to_owned(),
            ProofDataError::NotSingleField => "JSON object must have exactly one field".to_owned(),
            ProofDataError::NotAString => "Failed to convert proof to string".to_owned(),
            ProofDataError::Base64(d) => {
                let mut m = "Failed to decode base64: ".to_owned();
                m.append(d.as_str());
                m
            },
            ProofDataError::UnsupportedCircuitType => {
                "Proof extraction as bytes is not supported for this circuit type".to_owned()
            },
        }
    }
}

/// Relies on `serde_json::Value::as_object` and the object map's `len`
/// and `values`: observes the payload's shape without deciding anything
/// — `None` when the payload is not an object, else the object's field
/// count and its first field's value.
#[verifier::external_body]
fn object_fields(v: &serde_json::Value) -> (r: Option<(usize, Option<serde_json::Value>)>)
{
    match v.as_object() {
        None => None,
        Some(m) => Some((m.len(), m.values().next().cloned())),
    }
}

/// Maps the observed shape of a payload to the extraction result:
/// exactly the first field's value when the object has exactly one
/// field, and the matching error otherwise. The decision is made here,
/// in verified code, on the plain facts the JSON library observed.
pub fn single_field_result(fields: Option<(usize, Option<serde_json::Value>)>) -> (r: Result<
    serde_json::Value,
    ProofDataError,
>)
    ensures
        fields is None <==> (r matches Err(e) && e matches ProofDataError::NotObject),
        fields matches Some(f) ==> (f.0 != 1 ==> (r matches Err(e) && e matches
            ProofDataError::NotSingleField)),
        fields matches Some(f) ==> (f.1 matches Some(v) ==> (f.0 == 1 ==> (r matches Ok(rv)
            && rv == v))),
        r is Ok ==> (fields matches Some(f) && f.0 == 1 && f.1 is Some),
        fields matches Some(f) ==> (f.0 == 1 && f.1 is None ==> (r matches Err(e) && e matches
            ProofDataError::NotSingleField)),
{
    match fields {
        None => Err(ProofDataError::NotObject),
        Some((count, first)) => {
            if count == 1 {
                match first {
                    Some(v) => Ok(v),
                    None => Err(ProofDataError::NotSingleField),
                }
            } else {
                Err(ProofDataError::NotSingleField)
            }
        },
    }
}

/// Extracts the value of a JSON object that has exactly one field; any
/// other shape is an error. The shape is observed by the JSON library,
/// so this call promises only that the result matches that observation;
/// `single_field_result` fixes the mapping.
pub fn extract_single_value(value: &serde_json::Value) -> (r: Result<
    serde_json::Value,
    ProofDataError,
>)
    ensures
        r matches Err(e) ==> (!(e matches ProofDataError::Missing) && !(e matches
            ProofDataError::UnsupportedCircuitType)),
{
    single_field_result(object_fields(value))
}

/// What the base64 decoder of the standard alphabet returns: a function
/// of the input characters alone, `None` when they are not valid
/// base64.
pub uninterp spec fn base64_decode_of(s: Seq<char>) -> Option<Seq<u8>>;

/// Relies on the `base64` crate's standard-alphabet engine: decoding
/// depends on the input characters alone.
#[verifier::external_body]
fn base64_decode(s: &str) -> (r: Result<Vec<u8>, String>)
    ensures
        r matches Ok(v) ==> base64_decode_of(s@) == Some(v@),
        r is Err <==> base64_decode_of(s@) is None,
{
    base64::engine::general_purpose::STANDARD.decode(s).map_err(|e| e.to_string())
}

/// Relies on `serde_json::Value::as_str`: the string payload of a JSON
/// string value.
#[verifier::external_body]
fn value_as_str(v: &serde_json::Value) -> (r: Option<&str>)
{
    v.as_str()
}

impl ProofInfoResponse {
    /// The proof payload as a JSON value, when the response carries one.
    pub fn get_proof_as_serde_json(&self) -> (r: Result<serde_json::Value, ProofDataError>)
        ensures
            self.proof matches Some(Some(v)) ==> (r matches Ok(rv) && rv == v),
            r is Ok ==> (self.proof matches Some(inner) && inner is Some),
            r matches Err(e) ==> e matches ProofDataError::Missing,
    {
        match &self.proof {
            Some(inner) => match inner {
                Some(v) => Ok(v.clone()),
                None => Err(ProofDataError::Missing),
            },
            None => Err(ProofDataError::Missing),
        }
    }

    /// The proof payload as raw bytes, for the circuit families whose
    /// payload is one base64-encoded field. A missing payload or an
    /// unsupported family is refused exactly; the shape and decode
    /// steps run in the JSON and base64 libraries, and their verdicts
    /// pass through unchanged.
    pub fn get_proof_as_bytes(&self) -> (r: Result<Vec<u8>, ProofDataError>)
        ensures
            (r matches Err(e) && e matches ProofDataError::Missing) <==> !(self.proof matches
                Some(inner) && inner is Some),
            (r matches Err(e) && e matches ProofDataError::UnsupportedCircuitType) <==> (
            self.proof matches Some(inner) && inner is Some && !(self.circuit_type
                == CircuitType::Halo2 || self.circuit_type == CircuitType::Sp1)),
            r is Ok ==> ((self.circuit_type == CircuitType::Halo2 || self.circuit_type
                == CircuitType::Sp1) && (self.proof matches Some(inner) && inner is Some)),
    {
        let proof_value = match self.get_proof_as_serde_json() {
            Ok(v) => v,
            Err(e) => {
                return Err(e);
            },
        };
        match self.circuit_type {
            CircuitType::Halo2 | CircuitType::Sp1 => {},
            _ => {
                return Err(ProofDataError::UnsupportedCircuitType);
            },
        }
        let single = match extract_single_value(&proof_value) {
            Ok(v) => v,
            Err(e) => {
                return Err(e);
            },
        };
        let text = match value_as_str(&single) {
            Some(t) => t,
            None => {
                return Err(ProofDataError::NotAString);
            },
        };
        match base64_decode(text) {
            Ok(bytes) => Ok(bytes),
            Err(m) => Err(ProofDataError::Base64(m)),
        }
    }
}

} // verus!
