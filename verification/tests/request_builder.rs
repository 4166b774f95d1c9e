use kinesis_payload::Settings;
use kinesis_payload::settings::ConfigError;

fn dict(pairs: &[(&str, &str)]) -> Vec<(String, String)> {
    pairs.iter().map(|(k, v)| (k.to_string(), v.to_string())).collect()
}

fn base_config() -> Vec<(String, String)> {
    dict(&[
        ("aws_access_key", "AKIAEXAMPLE"),
        ("aws_secret_key", "SECRETEXAMPLE"),
        ("aws_region", "us-east-1"),
        ("kinesis_stream", "my-stream"),
    ])
}

// Fixed signing instant: 2024-01-01T00:00:00Z.
const T0: u64 = 1_704_067_200_000;

fn header_value<'a>(headers: &'a [(String, String)], name: &str) -> Option<&'a str> {
    headers.iter().find(|(k, _)| k == name).map(|(_, v)| v.as_str())
}

#[test]
fn minimal_happy_path_by_name() {
    let s = Settings::new(base_config()).unwrap();
    assert_eq!(s.generate_kinesis_host(), "kinesis.us-east-1.amazonaws.com");
    assert_eq!(s.generate_kinesis_url(), "https://kinesis.us-east-1.amazonaws.com/");

    let body = s.generate_body("hello".to_string());
    let expected = format!(
        "{{\"Data\":\"aGVsbG8=\",\"PartitionKey\":\"{}\",\"StreamName\":\"my-stream\"}}",
        s.kinesis_partition
    );
    assert_eq!(body, expected);
    assert!(!body.contains("StreamARN"));
}

#[test]
fn body_is_valid_json_with_expected_fields() {
    let s = Settings::new(base_config()).unwrap();
    let body = s.generate_body("hello".to_string());
    let v: serde_json::Value = serde_json::from_str(&body).unwrap();
    let obj = v.as_object().unwrap();
    assert_eq!(obj.len(), 3);
    assert_eq!(obj.get("Data").unwrap().as_str().unwrap(), "aGVsbG8=");
    assert_eq!(
        obj.get("PartitionKey").unwrap().as_str().unwrap(),
        s.kinesis_partition
    );
    assert_eq!(obj.get("StreamName").unwrap().as_str().unwrap(), "my-stream");
    assert!(obj.get("StreamARN").is_none());
}

#[test]
fn arn_routing() {
    let mut cfg = base_config();
    cfg.push((
        "kinesis_stream".to_string(),
        "arn:aws:kinesis:us-east-1:123456789012:stream/my-stream".to_string(),
    ));
    let s = Settings::new(cfg).unwrap();
    let body = s.generate_body("hello".to_string());
    let v: serde_json::Value = serde_json::from_str(&body).unwrap();
    let obj = v.as_object().unwrap();
    assert_eq!(
        obj.get("StreamARN").unwrap().as_str().unwrap(),
        "arn:aws:kinesis:us-east-1:123456789012:stream/my-stream"
    );
    assert!(obj.get("StreamName").is_none());
}

#[test]
fn explicit_partition_key() {
    let mut cfg = base_config();
    cfg.push(("kinesis_partition".to_string(), "user-42".to_string()));
    let s = Settings::new(cfg).unwrap();
    assert_eq!(s.kinesis_partition, "user-42");
    let b1 = s.generate_body("one".to_string());
    let b2 = s.generate_body("two".to_string());
    assert!(b1.contains("\"PartitionKey\":\"user-42\""));
    assert!(b2.contains("\"PartitionKey\":\"user-42\""));
}

#[test]
fn generated_partition_key_is_a_uuid() {
    let s = Settings::new(base_config()).unwrap();
    let pk = s.kinesis_partition.as_bytes();
    assert_eq!(pk.len(), 36);
    for (i, b) in pk.iter().enumerate() {
        if i == 8 || i == 13 || i == 18 || i == 23 {
            assert_eq!(*b, b'-');
        } else {
            assert!(b.is_ascii_hexdigit() && !b.is_ascii_uppercase());
        }
    }
    assert_eq!(pk[14], b'4');
    // generated once per configuration, not per record
    let b1 = s.generate_body("one".to_string());
    let b2 = s.generate_body("two".to_string());
    assert!(b1.contains(&s.kinesis_partition));
    assert!(b2.contains(&s.kinesis_partition));
    // two configurations draw distinct keys
    let s2 = Settings::new(base_config()).unwrap();
    assert_ne!(s.kinesis_partition, s2.kinesis_partition);
}

#[test]
fn empty_partition_value_is_replaced() {
    let mut cfg = base_config();
    cfg.push(("kinesis_partition".to_string(), "".to_string()));
    let s = Settings::new(cfg).unwrap();
    assert_eq!(s.kinesis_partition.len(), 36);
}

#[test]
fn empty_payload_encodes_to_empty_data() {
    let s = Settings::new(base_config()).unwrap();
    let body = s.generate_body(String::new());
    assert!(body.starts_with("{\"Data\":\"\","));
}

#[test]
fn partition_key_is_json_escaped() {
    let mut cfg = base_config();
    let pk = "a\"b\\c\nd\te\u{1}f";
    cfg.push(("kinesis_partition".to_string(), pk.to_string()));
    let s = Settings::new(cfg).unwrap();
    let body = s.generate_body("x".to_string());
    assert!(body.contains("a\\\"b\\\\c\\nd\\te\\u0001f"));
    let v: serde_json::Value = serde_json::from_str(&body).unwrap();
    assert_eq!(v.as_object().unwrap().get("PartitionKey").unwrap().as_str().unwrap(), pk);
}

#[test]
fn missing_region() {
    let cfg = dict(&[
        ("aws_access_key", "AKIAEXAMPLE"),
        ("aws_secret_key", "SECRETEXAMPLE"),
        ("kinesis_stream", "my-stream"),
    ]);
    match Settings::new(cfg) {
        Err(ConfigError::MissingConfig(k)) => assert_eq!(k, "aws_region"),
        Ok(_) => panic!("settings built without a region"),
    }
}

#[test]
fn missing_keys_are_reported_in_order() {
    match Settings::new(Vec::new()) {
        Err(ConfigError::MissingConfig(k)) => assert_eq!(k, "aws_access_key"),
        Ok(_) => panic!("settings built from an empty mapping"),
    }
    match Settings::new(dict(&[("aws_access_key", "AK")])) {
        Err(ConfigError::MissingConfig(k)) => assert_eq!(k, "aws_secret_key"),
        Ok(_) => panic!("settings built without a secret key"),
    }
    match Settings::new(dict(&[
        ("aws_access_key", "AK"),
        ("aws_secret_key", "SK"),
        ("aws_region", "eu-west-1"),
    ])) {
        Err(ConfigError::MissingConfig(k)) => assert_eq!(k, "kinesis_stream"),
        Ok(_) => panic!("settings built without a stream"),
    }
}

#[test]
fn unknown_keys_are_ignored_and_later_values_win() {
    let mut cfg = base_config();
    cfg.push(("something_else".to_string(), "ignored".to_string()));
    cfg.push(("aws_region".to_string(), "eu-central-1".to_string()));
    let s = Settings::new(cfg).unwrap();
    assert_eq!(s.region, "eu-central-1");
    assert_eq!(s.access_key, "AKIAEXAMPLE");
}

#[test]
fn session_token_defaults_to_empty() {
    let s = Settings::new(base_config()).unwrap();
    assert_eq!(s.session_token, "");
}

#[test]
fn headers_contain_protocol_headers_and_signature() {
    let s = Settings::new(base_config()).unwrap();
    let url = s.generate_kinesis_url();
    let body = s.generate_body("hello".to_string());
    let headers = s.generate_headers_at(&url, &body, T0);
    assert!(headers.len() > 2, "the signer rejected its inputs");
    assert_eq!(
        headers[headers.len() - 2],
        ("x-amz-target".to_string(), "Kinesis_20131202.PutRecord".to_string())
    );
    assert_eq!(
        headers[headers.len() - 1],
        ("content-type".to_string(), "application/x-amz-json-1.1".to_string())
    );
    let auth = header_value(&headers, "authorization").expect("authorization header");
    assert!(auth.starts_with(
        "AWS4-HMAC-SHA256 Credential=AKIAEXAMPLE/20240101/us-east-1/kinesis/aws4_request,"
    ));
    assert!(auth.contains("Signature="));
    assert_eq!(header_value(&headers, "x-amz-date"), Some("20240101T000000Z"));
    assert!(header_value(&headers, "x-amz-security-token").is_none());
}

#[test]
fn wall_clock_headers_have_the_same_shape() {
    let s = Settings::new(base_config()).unwrap();
    let url = s.generate_kinesis_url();
    let body = s.generate_body("hello".to_string());
    let headers = s.generate_headers(url, body);
    assert!(headers.len() > 2, "the signer rejected its inputs");
    let auth = header_value(&headers, "authorization").expect("authorization header");
    assert!(auth.contains("/us-east-1/kinesis/aws4_request,"));
    assert_eq!(
        header_value(&headers, "x-amz-target"),
        Some("Kinesis_20131202.PutRecord")
    );
    assert_eq!(
        header_value(&headers, "content-type"),
        Some("application/x-amz-json-1.1")
    );
}

#[test]
fn session_token_propagation() {
    let mut cfg = base_config();
    cfg.push(("aws_session_token".to_string(), "TOKEN".to_string()));
    let s = Settings::new(cfg).unwrap();
    let url = s.generate_kinesis_url();
    let body = s.generate_body("hello".to_string());
    let headers = s.generate_headers_at(&url, &body, T0);
    assert!(headers.len() > 2, "the signer rejected its inputs");
    assert_eq!(header_value(&headers, "x-amz-security-token"), Some("TOKEN"));
    let auth = header_value(&headers, "authorization").unwrap();
    let signed = auth.split("SignedHeaders=").nth(1).unwrap().split(',').next().unwrap();
    assert!(signed.split(';').any(|h| h == "x-amz-security-token"));
}

#[test]
fn hostless_url_is_rejected_unsigned() {
    let s = Settings::new(base_config()).unwrap();
    let body = s.generate_body("hello".to_string());
    let headers = s.generate_headers_at("/", &body, T0);
    assert_eq!(
        headers,
        vec![
            ("x-amz-target".to_string(), "Kinesis_20131202.PutRecord".to_string()),
            ("content-type".to_string(), "application/x-amz-json-1.1".to_string()),
        ]
    );
}

#[test]
fn deterministic_signing() {
    let mut cfg = base_config();
    cfg.push(("kinesis_partition".to_string(), "fixed-key".to_string()));
    let s = Settings::new(cfg).unwrap();
    let url = s.generate_kinesis_url();
    let body1 = s.generate_body("payload".to_string());
    let body2 = s.generate_body("payload".to_string());
    assert_eq!(body1, body2);
    let h1 = s.generate_headers_at(&url, &body1, T0);
    let h2 = s.generate_headers_at(&url, &body2, T0);
    assert!(h1.len() > 2, "the signer rejected its inputs");
    assert_eq!(h1, h2);
}

#[test]
fn base64_framing_round_trips() {
    let s = Settings::new(base_config()).unwrap();
    let payload = "\u{0}\u{1}binary-ish \u{7f}\u{2603} data";
    let body = s.generate_body(payload.to_string());
    let v: serde_json::Value = serde_json::from_str(&body).unwrap();
    let data = v.as_object().unwrap().get("Data").unwrap().as_str().unwrap().to_string();
    let decoded = base64::Engine::decode(&base64::prelude::BASE64_STANDARD, data).unwrap();
    assert_eq!(decoded, payload.as_bytes());
}
