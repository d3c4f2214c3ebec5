use nsq_client::config::{Compress, Config};
use nsq_client::error::NsqError;
use serde_json::Value;

#[test]
fn test_config() {

    let mut config = Config::default();
    config.compress = Compress::Deflate { level: 6 };
    let json = String::from_utf8(config.identify_json()).unwrap();
    println!("{}", json);

    let value: Value = serde_json::from_str(&json).unwrap();
    let object = value.as_object().unwrap();
    assert_eq!(object.get("deflate"), Some(&Value::from(true)));
    assert_eq!(object.get("deflate_level"), Some(&Value::from(6)));
    assert_eq!(object.get("snappy"), None);
}

#[test]
fn identify_json_renders_all_fields() {

    let mut config = Config::default();
    config.client_id = "cid".to_string();
    config.hostname = "host\"x".to_string();
    config.auth_secret = Some("never-rendered".to_string());
    let json = String::from_utf8(config.identify_json()).unwrap();
    let value: Value = serde_json::from_str(&json).unwrap();
    let object = value.as_object().unwrap();
    assert_eq!(object.get("client_id"), Some(&Value::from("cid")));
    assert_eq!(object.get("hostname"), Some(&Value::from("host\"x")));
    assert_eq!(object.get("user_agent"), Some(&Value::from(nsq_client::USER_AGENT)));
    assert_eq!(object.get("tls_v1"), Some(&Value::from(false)));
    assert_eq!(object.get("snappy"), Some(&Value::from(false)));
    assert_eq!(object.get("deflate"), Some(&Value::from(false)));
    assert_eq!(object.get("heartbeat_interval"), Some(&Value::from(30000)));
    assert_eq!(object.get("max_attempts"), Some(&Value::from(5)));
    assert_eq!(object.get("max_in_flight"), Some(&Value::from(8)));
    assert_eq!(object.get("output_buffer_size"), Some(&Value::from(16384)));
    assert_eq!(object.get("output_buffer_timeout"), Some(&Value::from(250)));
    assert_eq!(object.get("msg_timeout"), Some(&Value::from(5000)));
    assert_eq!(object.get("sample_rate"), Some(&Value::from(0)));
    assert_eq!(object.get("feature_negotiation"), Some(&Value::from(true)));
    assert_eq!(object.get("auth_secret"), None);
}

#[test]
fn compress_flags() {
    assert!(!Compress::Disabled.is_enabled());
    assert!(Compress::Snappy.is_enabled());
    assert!(Compress::Snappy.is_snappy());
    assert!(!Compress::Snappy.is_deflate());
    assert!(Compress::Deflate { level: 3 }.is_deflate());
    assert!(!Compress::Deflate { level: 3 }.is_snappy());
    assert!(Compress::Deflate { level: 3 }.is_enabled());
}

#[test]
fn fatal_error_codes() {
    let non_fatal = ["E_FIN_FAILED", "E_REQ_FAILED", "E_TOUCH_FAILED"];
    for code in non_fatal {
        let e = NsqError::new(code.to_string(), "d".to_string());
        assert!(!e.is_fatal(), "{} should not be fatal", code);
    }
    for code in ["E_BAD_TOPIC", "E_INVALID", "E_PUB_FAILED", "Unknown"] {
        let e = NsqError::new(code.to_string(), "d".to_string());
        assert!(e.is_fatal(), "{} should be fatal", code);
    }
}
