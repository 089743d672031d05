use std::time::Duration;

use stability_image::config::{ApiKeyRef, ImageExecutionSpec, StabilityImageSpec};
use stability_image::error::ConfigError;

fn minimal_image_exec(model: &str) -> ImageExecutionSpec {
    ImageExecutionSpec {
        model: model.into(),
        ..Default::default()
    }
}

fn spec(base_url: Option<&str>, model: &str) -> StabilityImageSpec {
    StabilityImageSpec {
        base_url: base_url.map(|u| u.to_string()),
        api_key: ApiKeyRef::new("k"),
        image: minimal_image_exec(model),
    }
}

#[test]
fn default_base_url() {
    let s = StabilityImageSpec {
        base_url: None,
        api_key: ApiKeyRef::new("k"),
        image: minimal_image_exec("core"),
    };
    assert_eq!(s.resolved_base_url(), "https://api.stability.ai");
    s.validate(Ok(())).unwrap();
}

#[test]
fn override_base_url() {
    let s = StabilityImageSpec {
        base_url: Some("https://example.com".into()),
        api_key: ApiKeyRef::new("k"),
        image: minimal_image_exec("ultra"),
    };
    assert_eq!(s.resolved_base_url(), "https://example.com");
}

#[test]
fn each_supported_model_validates() {
    for m in ["core", "sd3", "ultra", "CORE", "Sd3"] {
        let s = StabilityImageSpec {
            base_url: None,
            api_key: ApiKeyRef::new("k"),
            image: minimal_image_exec(m),
        };
        s.validate(Ok(())).expect(m);
    }
}

#[test]
fn unknown_model_rejected() {
    let s = StabilityImageSpec {
        base_url: None,
        api_key: ApiKeyRef::new("k"),
        image: minimal_image_exec("dall-e-3"),
    };
    let err = s.validate(Ok(())).unwrap_err();
    let msg = err.message();
    assert!(msg.contains("core"));
    assert!(msg.contains("sd3"));
    assert!(msg.contains("ultra"));
}

#[test]
fn unknown_model_message_is_exact() {
    let err = spec(None, "a \"b\"\n").validate(Ok(())).unwrap_err();
    let expected = format!(
        "stability_image: model must be one of {:?}, got {:?}",
        StabilityImageSpec::SUPPORTED_MODELS,
        "a \"b\"\n"
    );
    assert_eq!(err, ConfigError::InvalidSpec(expected.clone()));
    assert_eq!(
        expected,
        "stability_image: model must be one of [\"core\", \"sd3\", \"ultra\"], got \"a \\\"b\\\"\\n\""
    );
}

#[test]
fn shared_refusal_wins() {
    let refused = || Err(ConfigError::InvalidSpec("model is empty".to_string()));
    assert_eq!(
        spec(None, "dall-e-3").validate(refused()).unwrap_err().message(),
        "model is empty"
    );
    assert_eq!(
        spec(None, "core").validate(refused()).unwrap_err().message(),
        "model is empty"
    );
}

#[test]
fn white_space_and_case_do_not_decide() {
    for m in [" core", "ULTRA\t", "\u{3000}sD3\u{a0}"] {
        spec(None, m).validate(Ok(())).expect(m);
    }
    for m in ["", "   ", "cores", "co re", "\u{c7}ore", "sd-3"] {
        assert!(spec(None, m).validate(Ok(())).is_err(), "{m}");
    }
}

#[test]
fn model_route_is_normalized() {
    assert_eq!(spec(None, "  Sd3 ").model_route(), "sd3");
    assert_eq!(spec(None, "CORE").model_route(), "core");
}

#[test]
fn empty_base_url_stays_empty() {
    assert_eq!(spec(Some(""), "core").resolved_base_url(), "");
}

#[test]
fn image_defaults() {
    let image = ImageExecutionSpec::default();
    assert_eq!(image.model, "");
    assert_eq!(image.connect_timeout_ms, 5000);
    assert_eq!(image.connect_timeout(), Duration::from_secs(5));
    let image = ImageExecutionSpec { connect_timeout_ms: 1501, ..Default::default() };
    assert_eq!(image.connect_timeout().as_nanos(), 1_501_000_000);
}

#[test]
fn key_reference_is_kept() {
    assert_eq!(ApiKeyRef::new("vault://secret#key").expose(), "vault://secret#key");
}
