use sindri::transport::{
    decode_compressed_body, prepare_request, urlencode, HeaderDeduplicatorMiddleware,
    LoggingMiddleware, Request, ZstdRequestCompressionMiddleware, ZSTD_MIN_BODY_SIZE,
};

fn get_request(headers: Vec<(String, String)>, body: Vec<u8>) -> Request {
    Request {
        method: "GET".to_string(),
        url: "https://sindri.app/api".to_string(),
        headers,
        body,
    }
}

fn pair(name: &str, value: &str) -> (String, String) {
    (name.to_string(), value.to_string())
}

#[test]
fn test_header_deduplicator() {
    let headers = vec![
        pair("Authorization", "Bearer firstkey"),
        pair("Authorization", "Bearer secondkey"),
        pair("Content-Type", "application/json"),
    ];
    let request = get_request(headers, Vec::new());

    let deduped = HeaderDeduplicatorMiddleware.handle(request);

    assert_eq!(
        deduped.headers,
        vec![
            pair("Authorization", "Bearer firstkey"),
            pair("Content-Type", "application/json"),
        ]
    );
}

#[test]
fn test_header_dedup_many_values() {
    let headers = vec![
        pair("X-A", "1"),
        pair("X-B", "b"),
        pair("X-A", "2"),
        pair("X-A", "3"),
        pair("X-A", "4"),
    ];
    let deduped = HeaderDeduplicatorMiddleware.handle(get_request(headers, Vec::new()));
    assert_eq!(deduped.headers, vec![pair("X-A", "1"), pair("X-B", "b")]);
}

#[test]
fn test_logging_leaves_request_unchanged() {
    let request = get_request(vec![pair("X-A", "1")], vec![7, 8, 9]);
    let (passed, record) = LoggingMiddleware.handle(request);
    assert_eq!(passed.method, "GET");
    assert_eq!(passed.url, "https://sindri.app/api");
    assert_eq!(passed.headers, vec![pair("X-A", "1")]);
    assert_eq!(passed.body, vec![7, 8, 9]);
    assert_eq!(record.method, "GET");
    assert_eq!(record.url, "https://sindri.app/api");
    assert_eq!(record.header_count, 1);
    assert_eq!(record.body_len, 3);
}

#[test]
fn test_small_body_not_compressed() {
    let body = vec![b'A'; ZSTD_MIN_BODY_SIZE - 1];
    let request = get_request(vec![pair("Content-Type", "application/json")], body.clone());
    let out = ZstdRequestCompressionMiddleware.handle(request);
    assert_eq!(out.body, body);
    assert_eq!(out.headers, vec![pair("Content-Type", "application/json")]);
}

#[test]
fn test_zstd_request_compression() {
    let original_body = vec![b'A'; ZSTD_MIN_BODY_SIZE];
    let request = get_request(Vec::new(), original_body.clone());

    let out = ZstdRequestCompressionMiddleware.handle(request);

    assert_eq!(out.headers, vec![pair("Content-Encoding", "zstd")]);
    assert_ne!(out.body, original_body);
    let decompressed_body = decode_compressed_body(&out.body).unwrap();
    assert_eq!(
        decompressed_body, original_body,
        "Decompressed body does not match original input."
    );
}

#[test]
fn test_pipeline_order_and_effect() {
    let headers = vec![
        pair("Authorization", "Bearer firstkey"),
        pair("Authorization", "Bearer secondkey"),
    ];
    let body = vec![b'B'; ZSTD_MIN_BODY_SIZE + 10];
    let (prepared, record) = prepare_request(get_request(headers, body.clone()));

    assert_eq!(record.body_len, body.len());
    assert_eq!(
        prepared.headers,
        vec![
            pair("Authorization", "Bearer firstkey"),
            pair("Content-Encoding", "zstd"),
        ]
    );
    assert_eq!(decode_compressed_body(&prepared.body).unwrap(), body);

    let (small, _) = prepare_request(get_request(vec![pair("X-A", "1")], vec![1, 2, 3]));
    assert_eq!(small.headers, vec![pair("X-A", "1")]);
    assert_eq!(small.body, vec![1, 2, 3]);
}

#[test]
fn test_dedup_is_case_insensitive() {
    let headers = vec![
        pair("Authorization", "Bearer firstkey"),
        pair("authorization", "Bearer secondkey"),
        pair("AUTHORIZATION", "Bearer thirdkey"),
        pair("Content-Type", "application/json"),
    ];
    let deduped = HeaderDeduplicatorMiddleware.handle(get_request(headers, Vec::new()));
    assert_eq!(
        deduped.headers,
        vec![
            pair("Authorization", "Bearer firstkey"),
            pair("Content-Type", "application/json"),
        ]
    );
}

#[test]
fn test_dedup_empty_and_distinct() {
    let deduped = HeaderDeduplicatorMiddleware.handle(get_request(Vec::new(), Vec::new()));
    assert!(deduped.headers.is_empty());

    let headers = vec![pair("X-A", "1"), pair("X-B", "2")];
    let deduped = HeaderDeduplicatorMiddleware.handle(get_request(headers.clone(), Vec::new()));
    assert_eq!(deduped.headers, headers);
}

#[test]
fn test_urlencode_path_segment() {
    assert_eq!(urlencode("mycircuit-1.0_x~"), b"mycircuit-1.0_x~".to_vec());
    assert_eq!(urlencode("team/name:tag"), b"team%2Fname%3Atag".to_vec());
    assert_eq!(urlencode(" "), b"%20".to_vec());
    assert_eq!(urlencode(""), Vec::<u8>::new());
}
