use perry::compose::backend::BackendProbeResult;
use perry::compose::error::{compose_error_to_js, ComposeError};

#[test]
fn test_error_codes() {
    let err = ComposeError::NotFound("foo".into());
    assert_eq!(compose_error_to_js(&err).contains("\"code\":404"), true);

    let err = ComposeError::DependencyCycle {
        services: vec!["a".into()],
    };
    assert_eq!(compose_error_to_js(&err).contains("\"code\":422"), true);

    let err = ComposeError::ValidationError {
        message: "bad".into(),
    };
    assert_eq!(compose_error_to_js(&err).contains("\"code\":400"), true);

    let err = ComposeError::VerificationFailed {
        image: "img".into(),
        reason: "fail".into(),
    };
    assert_eq!(compose_error_to_js(&err).contains("\"code\":403"), true);

    let err = ComposeError::ParseError(
        serde_yaml::from_str::<serde_yaml::Value>("bad: [1,2").unwrap_err().to_string(),
    );
    assert_eq!(compose_error_to_js(&err).contains("\"code\":400"), true);
}

#[test]
fn every_error_has_its_text_and_code() {
    let probe = BackendProbeResult { name: "podman".into(), available: false, reason: "no \"x\"".into() };
    let cases: Vec<(ComposeError, &str, i32)> = vec![
        (
            ComposeError::DependencyCycle { services: vec!["a".into(), "b\"".into()] },
            "Dependency cycle detected in services: [\"a\", \"b\\\"\"]",
            422,
        ),
        (
            ComposeError::ServiceStartupFailed { service: "db".into(), message: "m".into() },
            "Service 'db' failed to start: m",
            500,
        ),
        (
            ComposeError::BackendError { code: -7, message: "m".into() },
            "Backend error (exit -7): m",
            -7,
        ),
        (ComposeError::NotFound("x".into()), "Not found: x", 404),
        (ComposeError::ParseError("p".into()), "Parse error: p", 400),
        (ComposeError::JsonError("j".into()), "JSON error: j", 400),
        (ComposeError::IoError("i".into()), "I/O error: i", 500),
        (ComposeError::validation("v"), "Validation error: v", 400),
        (
            ComposeError::VerificationFailed { image: "i".into(), reason: "r".into() },
            "Image verification failed for 'i': r",
            403,
        ),
        (ComposeError::FileNotFound { path: "f".into() }, "File not found: f", 404),
        (
            ComposeError::NoBackendFound { probed: vec![probe] },
            "No container backend found. Probed: [BackendProbeResult { name: \"podman\", available: false, reason: \"no \\\"x\\\"\" }]",
            503,
        ),
        (
            ComposeError::BackendNotAvailable { name: "n".into(), reason: "r".into() },
            "Specified backend 'n' is not available: r",
            503,
        ),
        (
            ComposeError::EnforcementViolation {
                backend: "apple".into(),
                service: "s".into(),
                details: "d".into(),
            },
            "Backend 'apple' cannot honor the spec for service 's': d",
            500,
        ),
    ];
    for (error, text, code) in cases {
        assert_eq!(error.text(), text);
        assert_eq!(error.code(), code);
    }
}

#[test]
fn errors_are_valid_json() {
    let err = ComposeError::NotFound("a\"b\n".into());
    assert_eq!(
        compose_error_to_js(&err),
        "{\"code\":404,\"message\":\"Not found: a\\\"b\\n\"}"
    );
    let back: serde_json::Value = serde_json::from_str(&compose_error_to_js(&err)).unwrap();
    assert_eq!(back["message"], "Not found: a\"b\n");
    assert_eq!(back["code"], 404);
}

#[test]
fn messages_are_escaped_for_json() {
    let e = ComposeError::NotFound("\"\\\u{8}\u{c}\n\r\t\u{1}\u{1f}\u{7f}/é".to_string());
    assert_eq!(
        compose_error_to_js(&e),
        "{\"code\":404,\"message\":\"Not found: \\\"\\\\\\b\\f\\n\\r\\t\\u0001\\u001f\u{7f}/é\"}"
    );
}
