use std::time::Duration;

use serde_json::Value;

use stability_image::config::{ApiKeyRef, ImageExecutionSpec, StabilityImageSpec};
use stability_image::error::{BackendError, ConfigError, ProviderError};
use stability_image::image_adapter::StabilityImageAdapter;
use stability_image::image_plugin::{
    AdapterFault, BackendResponse, PLUGIN_ID, PLUGIN_KIND, PLUGIN_NAME, PluginCapability,
    PluginClass, StabilityImagePlugin, accept_adapter, adapter_for, execute_arguments,
    finish_execute, not_made,
};

fn spec(model: &str, base_url: Option<&str>) -> StabilityImageSpec {
    StabilityImageSpec {
        base_url: base_url.map(|u| u.to_string()),
        api_key: ApiKeyRef::new("k"),
        image: ImageExecutionSpec {
            model: model.to_string(),
            ..Default::default()
        },
    }
}

const SECOND: Duration = Duration::from_secs(1);

fn register(plugin: &mut StabilityImagePlugin, name: &str, model: &str) {
    plugin.register_profile(name, spec(model, None), Ok(()), "k").unwrap();
}

#[test]
fn stability_image_plugin_kind_and_manifest() {
    let p = StabilityImagePlugin::new();
    assert_eq!(p.kind(), "stability.image");
    assert_eq!(p.manifest().id, "dev.mcpg.backend.stability.image");
}

#[test]
fn stability_image_register_minimal_spec_succeeds() {
    let mut plugin = StabilityImagePlugin::new();
    plugin.register_profile("img", spec("core", None), Ok(()), "k").unwrap();
    assert_eq!(plugin.registered_profile_count(), 1);
}

#[test]
fn stability_image_register_accepts_each_supported_route() {
    for m in ["core", "sd3", "ultra"] {
        let mut plugin = StabilityImagePlugin::new();
        plugin
            .register_profile("img", spec(m, None), Ok(()), "k")
            .unwrap_or_else(|e| panic!("model {m} should register: {e:?}"));
    }
}

#[test]
fn stability_image_register_rejects_unknown_model() {
    let mut plugin = StabilityImagePlugin::new();
    let err = plugin.register_profile("img", spec("dall-e-3", None), Ok(()), "k").unwrap_err();
    match err {
        BackendError::InvalidSpec { message } => {
            assert!(message.contains("core"), "{message}");
            assert!(message.contains("sd3"), "{message}");
            assert!(message.contains("ultra"), "{message}");
        }
        other => panic!("expected InvalidSpec, got {other:?}"),
    }
}

#[test]
fn stability_image_register_rejects_empty_api_key_at_call_time() {
    let mut plugin = StabilityImagePlugin::new();
    plugin.register_profile("img", spec("core", None), Ok(()), "k").unwrap();
    assert_eq!(plugin.registered_profile_count(), 1);
}

#[test]
fn empty_key_is_refused_when_registered() {
    let mut plugin = StabilityImagePlugin::new();
    assert_eq!(
        plugin.register_profile("img", spec("core", None), Ok(()), "").unwrap_err(),
        BackendError::InvalidSpec { message: "api_key is empty".to_string() }
    );
    assert_eq!(plugin.registered_profile_count(), 0);

    // An unknown model is told before the key, the key before an empty address.
    assert_eq!(
        adapter_for(&spec("core", Some("")), Ok(()), "", SECOND).err(),
        Some(AdapterFault::Rejected { message: "api_key is empty".to_string() })
    );
    match adapter_for(&spec("dall-e-3", None), Ok(()), "", SECOND).err() {
        Some(AdapterFault::Rejected { message }) => assert!(message.contains("sd3"), "{message}"),
        other => panic!("expected Rejected, got {other:?}"),
    }
    assert_eq!(
        adapter_for(&spec("core", Some("")), Ok(()), "k", SECOND).err(),
        Some(AdapterFault::NotMade {
            fault: ProviderError::BadRequest { message: "base_url is empty".to_string() }
        })
    );
}

#[test]
fn adapter_is_the_one_of_the_configuration() {
    let made = adapter_for(&spec(" SD3 ", Some("http://p/")), Ok(()), "hidden", SECOND).unwrap();
    assert_eq!(made.endpoint_url(), "http://p/v2beta/stable-image/generate/sd3");
    let headers = made.build_headers().unwrap();
    assert_eq!(headers.get("authorization").unwrap().to_str().unwrap(), "Bearer hidden");

    let mut plugin = StabilityImagePlugin::new();
    plugin.register_adapter("a", spec(" SD3 ", None).image, made);
    assert_eq!(plugin.registered_profile_count(), 1);
    assert_eq!(
        plugin.profile("a").unwrap().adapter.endpoint_url(),
        "http://p/v2beta/stable-image/generate/sd3"
    );
}

#[test]
fn manifest_and_default() {
    let p = StabilityImagePlugin::default();
    assert_eq!(p.registered_profile_count(), 0);
    assert_eq!(p.manifest().id, PLUGIN_ID);
    assert_eq!(p.manifest().name, "Stability AI Image Generation");
    assert_eq!(p.manifest().name, PLUGIN_NAME);
    assert_eq!(p.kind(), PLUGIN_KIND);
    assert_eq!(p.manifest().class, PluginClass::Backend);
    assert_eq!(p.manifest().capabilities, vec![PluginCapability::NetworkOutbound]);
    assert_eq!(p.manifest().capabilities[0].name(), "network_outbound");
}

#[test]
fn last_registration_of_a_name_counts() {
    let mut plugin = StabilityImagePlugin::new();
    register(&mut plugin, "a", "core");
    register(&mut plugin, "b", " SD3 ");
    assert_eq!(plugin.registered_profile_count(), 2);
    register(&mut plugin, "a", "ultra");
    assert_eq!(plugin.registered_profile_count(), 2);
    let url = |name: &str| plugin.profile(name).unwrap().adapter.endpoint_url();
    assert_eq!(url("a"), "https://api.stability.ai/v2beta/stable-image/generate/ultra");
    assert_eq!(url("b"), "https://api.stability.ai/v2beta/stable-image/generate/sd3");
    assert_eq!(plugin.profile("b").unwrap().image.model, " SD3 ");
}

#[test]
fn refused_registration_changes_nothing() {
    let mut plugin = StabilityImagePlugin::new();
    register(&mut plugin, "a", "core");
    assert_eq!(
        plugin.register_profile("a", spec("ultra", Some("")), Ok(()), "k").unwrap_err(),
        BackendError::InvalidSpec {
            message: "build stability image adapter: base_url is empty".to_string()
        }
    );
    let shared = Err(ConfigError::InvalidSpec("timeout_ms must be positive".to_string()));
    assert_eq!(
        plugin.register_profile("c", spec("ultra", None), shared, "k").unwrap_err(),
        BackendError::InvalidSpec { message: "timeout_ms must be positive".to_string() }
    );
    assert_eq!(plugin.registered_profile_count(), 1);
    assert_eq!(plugin.profile("a").unwrap().image.model, "core");
}

#[test]
fn adapter_that_could_not_be_made_is_told() {
    let fault = ProviderError::Network { message: "build http client: no tls".to_string() };
    assert_eq!(
        accept_adapter(Err(AdapterFault::NotMade { fault })).err(),
        Some(BackendError::InvalidSpec {
            message: "build stability image adapter: build http client: no tls".to_string()
        })
    );
    assert_eq!(
        accept_adapter(Err(AdapterFault::Rejected { message: "no".to_string() })).err(),
        Some(BackendError::InvalidSpec { message: "no".to_string() })
    );
    assert_eq!(
        not_made("no tls"),
        BackendError::InvalidSpec { message: "build stability image adapter: no tls".to_string() }
    );
    let made = StabilityImageAdapter::new("http://p", "k", "core", SECOND).unwrap();
    assert_eq!(
        accept_adapter(Ok(made)).unwrap().endpoint_url(),
        "http://p/v2beta/stable-image/generate/core"
    );
}

#[test]
fn unknown_profile_is_told_before_a_bad_payload() {
    let mut plugin = StabilityImagePlugin::new();
    register(&mut plugin, "a", "core");
    assert_eq!(
        plugin.begin_execute("b", b"{oops").err(),
        Some(BackendError::ProfileNotFound { backend_name: "b".to_string() })
    );
    let fault = serde_json::from_slice::<Value>(b"{oops").unwrap_err();
    assert_eq!(
        plugin.begin_execute("a", b"{oops").err(),
        Some(BackendError::InvalidSpec {
            message: format!("execute payload was not JSON: {fault}")
        })
    );
    let (profile, args) = plugin.begin_execute("a", b"{\"prompt\": \"x\"}").unwrap();
    assert_eq!(profile.backend_name, "a");
    assert_eq!(args.get("prompt").unwrap().as_str(), Some("x"));
}

#[test]
fn empty_payload_means_no_arguments() {
    let args = execute_arguments(b"").unwrap();
    assert!(args.as_object().unwrap().is_empty());
    assert_eq!(execute_arguments(b"{}").unwrap(), args);
    assert_eq!(execute_arguments(b"3").unwrap(), Value::from(3));
}

#[test]
fn response_is_the_rendered_value() {
    let value: Value = serde_json::from_str("{ \"images\": [ { \"mime_type\": \"image/png\" } ] }").unwrap();
    assert_eq!(
        finish_execute(&value).unwrap(),
        BackendResponse {
            payload: b"{\"images\":[{\"mime_type\":\"image/png\"}]}".to_vec(),
            truncated: false
        }
    );
}

#[test]
fn every_kind_of_value_is_rendered() {
    for text in [
        "null",
        "true",
        "-3",
        "18446744073709551615",
        "0.1",
        "-0.0",
        "\"a\\n\\u0001\"",
        "[]",
        "{}",
        "{\"a\":[1,{\"b\":null}],\"z\":\"\"}",
    ] {
        let value = execute_arguments(text.as_bytes()).unwrap();
        assert_eq!(finish_execute(&value).unwrap().payload, text.as_bytes(), "{text}");
    }
    let value = execute_arguments(b" { \"z\" : 1 , \"a\" : 2 } ").unwrap();
    assert_eq!(finish_execute(&value).unwrap().payload, b"{\"a\":2,\"z\":1}");
}

#[test]
fn calls_are_labelled() {
    let mut plugin = StabilityImagePlugin::new();
    register(&mut plugin, "art", "Core");
    let labels = plugin.profile("art").unwrap().call_labels(true);
    assert_eq!(labels.backend, "art");
    assert_eq!(labels.provider, "stability");
    assert_eq!(labels.model, "Core");
    assert_eq!(labels.status, "ok");
    assert_eq!(plugin.profile("art").unwrap().call_labels(false).status, "error");
}
