use sindri::poller::JobStatus;
use sindri::types::{
    extract_single_value, CircuitProveInput, CircuitType, InternalProofInput, ObtainApikeyInput,
    ProofDataError, ProofInfoResponse, ProofInput, TokenVerifyInputSchema,
};

fn json(text: &str) -> serde_json::Value {
    serde_json::from_str(text).unwrap()
}

fn proof_response(circuit_type: CircuitType, proof: Option<Option<serde_json::Value>>) -> ProofInfoResponse {
    ProofInfoResponse {
        proof_id: "proof_123".to_string(),
        circuit_type,
        status: JobStatus::Ready,
        proof,
        verification_key: None,
        error: None,
    }
}

#[test]
fn test_proof_input_from_string() {
    let input_string = String::from("x=10\ny=20");
    let proof_input: ProofInput = input_string.clone().into();

    match proof_input.0 {
        InternalProofInput::String(s) => assert_eq!(s, input_string),
        _ => panic!("Expected String variant"),
    }
}

#[test]
fn test_proof_input_from_str() {
    let input_str = "x=10\ny=20";
    let proof_input: ProofInput = input_str.into();

    match proof_input.0 {
        InternalProofInput::String(s) => assert_eq!(s, input_str),
        _ => panic!("Expected String variant"),
    }
}

#[test]
fn test_proof_input_from_json() {
    let json_value = json("{\"x\": 10, \"y\": 20}");
    let proof_input: ProofInput = json_value.clone().into();

    match proof_input.0 {
        InternalProofInput::Json(v) => assert_eq!(v, json_value),
        _ => panic!("Expected JSON variant"),
    }
}

#[test]
fn test_proof_input_roundtrip() {
    let original = ProofInput(InternalProofInput::String("x=10\ny=20".to_string()));
    let internal: InternalProofInput = original.clone().into();
    match internal.clone() {
        InternalProofInput::String(s) => assert_eq!(s, "x=10\ny=20"),
        _ => panic!("Expected String variant"),
    }

    let proof_input: ProofInput = internal.into();
    assert_eq!(proof_input, original);
}

#[test]
fn test_proof_into_json_success() {
    let json_value = json("{\"pi_a\": \"256\", \"pi_b\": \"256\"}");
    let proof_response = proof_response(CircuitType::Circom, Some(Some(json_value.clone())));

    let result = proof_response.get_proof_as_serde_json().unwrap();
    assert_eq!(result, json_value);
}

#[test]
fn test_proof_into_json_none() {
    let mut response = proof_response(CircuitType::Circom, None);
    response.status = JobStatus::Queued;

    let error = response.get_proof_as_serde_json().unwrap_err();
    assert_eq!(error.message(), "Proof field is not populated");
}

#[test]
fn test_extract_single_value() {
    let value = json("{\"any_key\": \"value\"}");
    let result = extract_single_value(&value).unwrap();
    assert_eq!(result, json("\"value\""));

    let value = json("{\"key1\": \"value1\", \"key2\": \"value2\"}");
    let error = extract_single_value(&value).unwrap_err();
    assert_eq!(error.message(), "JSON object must have exactly one field");

    let value = json("\"not an object\"");
    let error = extract_single_value(&value).unwrap_err();
    assert_eq!(error.message(), "Input must be a JSON object");
}

#[test]
fn test_proof_as_bytes_decodes_base64() {
    let response = proof_response(CircuitType::Sp1, Some(Some(json("{\"proof\": \"aGVsbG8=\"}"))));
    let bytes = response.get_proof_as_bytes().unwrap();
    assert_eq!(bytes, b"hello".to_vec());
}

#[test]
fn test_proof_as_bytes_error_variants() {
    let missing = proof_response(CircuitType::Sp1, None);
    assert!(matches!(missing.get_proof_as_bytes(), Err(ProofDataError::Missing)));

    let unsupported = proof_response(CircuitType::Circom, Some(Some(json("{\"p\": \"aGk=\"}"))));
    let err = unsupported.get_proof_as_bytes().unwrap_err();
    assert!(matches!(err, ProofDataError::UnsupportedCircuitType));
    assert!(err.message().contains("not supported"));

    let not_a_string = proof_response(CircuitType::Halo2, Some(Some(json("{\"p\": 5}"))));
    let err = not_a_string.get_proof_as_bytes().unwrap_err();
    assert_eq!(err.message(), "Failed to convert proof to string");

    let bad_base64 = proof_response(CircuitType::Sp1, Some(Some(json("{\"p\": \"!!!\"}"))));
    let err = bad_base64.get_proof_as_bytes().unwrap_err();
    assert!(matches!(err, ProofDataError::Base64(_)));
    assert!(err.message().contains("Failed to decode base64"));

    let not_object = proof_response(CircuitType::Sp1, Some(Some(json("[1, 2]"))));
    let err = not_object.get_proof_as_bytes().unwrap_err();
    assert_eq!(err.message(), "Input must be a JSON object");
}

#[test]
fn test_credential_inputs() {
    let input = ObtainApikeyInput::new("test_user".to_string(), "test_pass".to_string());
    assert_eq!(input.username, "test_user");
    assert_eq!(input.password, "test_pass");
    assert!(input.name.is_none());

    let input = TokenVerifyInputSchema::new("test_jwt_token".to_string());
    assert_eq!(input.token, "test_jwt_token");
}

#[test]
fn test_prove_input_passthrough() {
    let meta = Some(vec![
        ("key1".to_string(), "value1".to_string()),
        ("key2".to_string(), "value2".to_string()),
    ]);
    let request = CircuitProveInput::new(
        ProofInput::from("{\"a\": 1, \"b\": 2}"),
        meta.clone(),
        Some(true),
        None,
    );
    match &request.proof_input {
        InternalProofInput::String(s) => assert_eq!(s, "{\"a\": 1, \"b\": 2}"),
        _ => panic!("Expected String variant"),
    }
    assert_eq!(request.perform_verify, Some(true));
    assert_eq!(request.meta, meta);
    assert_eq!(request.prover_implementation, None);
}
