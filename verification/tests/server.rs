use madari::server::{
    api_key_digest, authorize, content_range, plan_route, unsatisfiable_range, ApiError, ErrorCode, PlanRoute,
    ServiceError,
};
use sha2::Digest;

const KEY: &str = "0123456789abcdef0123456789abcdef";

#[test]
fn api_keys_must_be_long_printable_ascii() {
    let digest = api_key_digest(KEY).unwrap();
    assert_eq!(digest, sha2::Sha256::digest(KEY.as_bytes()).to_vec());
    assert!(api_key_digest("short").is_none());
    assert!(api_key_digest("0123456789abcdef 0123456789abcdef").is_none());
    assert!(api_key_digest(&"x".repeat(1024)).is_some());
    assert!(api_key_digest(&"x".repeat(1025)).is_none());
    assert!(api_key_digest("0123456789abcdef0123456789abcdeé").is_none());
}

#[test]
fn bearer_tokens_are_compared_by_digest() {
    let digest = api_key_digest(KEY).unwrap();
    assert!(authorize(Some(&format!("Bearer {KEY}")), &digest));
    assert!(!authorize(Some(&format!("bearer {KEY}")), &digest));
    assert!(!authorize(Some(KEY), &digest));
    assert!(!authorize(Some("Bearer wrong"), &digest));
    assert!(!authorize(None, &digest));
    assert!(!authorize(Some(&format!("Bearer {}", "x".repeat(1025))), &digest));
}

#[test]
fn error_codes_map_to_http_statuses() {
    let status = |code| {
        ApiError(ServiceError {
            code,
            message: String::new(),
        })
        .status()
    };
    assert_eq!(status(ErrorCode::InvalidInput), 400);
    assert_eq!(status(ErrorCode::ConfigurationRequired), 400);
    assert_eq!(status(ErrorCode::Forbidden), 403);
    assert_eq!(status(ErrorCode::NotFound), 404);
    assert_eq!(status(ErrorCode::Conflict), 409);
    assert_eq!(status(ErrorCode::Busy), 429);
    assert_eq!(status(ErrorCode::Timeout), 504);
    assert_eq!(status(ErrorCode::Storage), 500);
    assert_eq!(status(ErrorCode::Media), 502);
    assert_eq!(status(ErrorCode::Upstream), 502);
}

#[test]
fn plans_need_both_key_and_video_or_neither() {
    assert_eq!(plan_route(Some(1), Some("v")).unwrap(), PlanRoute::Resume(1, "v"));
    assert_eq!(plan_route::<i32, &str>(None, None).unwrap(), PlanRoute::Fresh);
    let err = plan_route::<i32, &str>(Some(1), None).unwrap_err();
    assert_eq!(err.code, ErrorCode::InvalidInput);
    assert_eq!(err.message, "provide both key and video_id to recover resume state");
    assert!(plan_route::<i32, &str>(None, Some("v")).is_err());
}

#[test]
fn range_headers() {
    assert_eq!(content_range(0, 1024, 4096), "bytes 0-1023/4096");
    assert_eq!(content_range(3000, 1096, 4096), "bytes 3000-4095/4096");
    assert_eq!(unsatisfiable_range(4096), "bytes */4096");
}

use madari::server::{allowed_origins, internal_base, ListenIp, OriginError};

#[test]
fn allowed_origins_must_be_exact_web_origins() {
    assert_eq!(allowed_origins(""), Ok(vec![]));
    assert_eq!(
        allowed_origins("http://localhost:5173,,https://app.example.org"),
        Ok(vec!["http://localhost:5173".to_string(), "https://app.example.org".to_string()])
    );
    assert_eq!(
        allowed_origins("https://app.example.org/"),
        Err(OriginError::NotExactOrigin("https://app.example.org/".into()))
    );
    assert_eq!(allowed_origins("ftp://x.org"), Err(OriginError::NotExactOrigin("ftp://x.org".into())));
    assert_eq!(allowed_origins("localhost"), Err(OriginError::Unparsable("localhost".into())));
    assert_eq!(
        allowed_origins("https://a.org,nope,ftp://b"),
        Err(OriginError::Unparsable("nope".into()))
    );
}

#[test]
fn ffmpeg_reads_through_the_loopback_address() {
    assert_eq!(internal_base(ListenIp::V4(0, 0, 0, 0), 11470).as_deref(), Some("http://127.0.0.1:11470"));
    assert_eq!(internal_base(ListenIp::V4(127, 0, 0, 2), 80).as_deref(), Some("http://127.0.0.2:80"));
    assert_eq!(internal_base(ListenIp::V4(192, 168, 1, 2), 80), None);
    assert_eq!(internal_base(ListenIp::V6([0; 8]), 9).as_deref(), Some("http://[::1]:9"));
    assert_eq!(internal_base(ListenIp::V6([0, 0, 0, 0, 0, 0, 0, 1]), 9).as_deref(), Some("http://[::1]:9"));
    assert_eq!(internal_base(ListenIp::V6([0xfe80, 0, 0, 0, 0, 0, 0, 1]), 9), None);
}
