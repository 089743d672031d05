use std::time::Duration;

use stability_image::error::ProviderError;
use stability_image::image_adapter::{
    Exchange, IgnoredOption, NormalizedImageRequest, StabilityImageAdapter, conclude,
    output_format_for,
};

fn req(prompt: &str) -> NormalizedImageRequest {
    NormalizedImageRequest {
        model: "core".into(),
        prompt: prompt.into(),
        n: 1,
        size: None,
        quality: None,
        style: None,
        seed: None,
        negative_prompt: None,
        output_format: None,
    }
}

fn adapter(route: &str) -> StabilityImageAdapter {
    StabilityImageAdapter::new(
        "https://api.stability.ai",
        "k",
        route,
        Duration::from_secs(1),
    )
    .unwrap()
}

fn fields(route: &str, request: &NormalizedImageRequest) -> Vec<(String, String)> {
    adapter(route).form_fields(request).unwrap()
}

fn pairs(list: &[(&str, &str)]) -> Vec<(String, String)> {
    list.iter().map(|(n, v)| (n.to_string(), v.to_string())).collect()
}

#[test]
fn encode_form_includes_required_prompt() {
    let a = adapter("core");
    a.build_form(&req("a cat sitting on a chair")).unwrap();
}

#[test]
fn encode_form_maps_aspect_ratio_from_size_wh() {
    let a = adapter("core");
    let mut r = req("x");
    r.size = Some("1920x1080".into());
    a.build_form(&r).unwrap();

    r.size = Some("1024x1024".into());
    a.build_form(&r).unwrap();

    r.size = Some("9:16".into());
    a.build_form(&r).unwrap();
}

#[test]
fn encode_form_rejects_unsupported_aspect_ratio() {
    let a = adapter("core");
    let mut r = req("x");
    r.size = Some("1234x567".into());
    let err = a.build_form(&r).unwrap_err();
    let msg = err.message();
    assert!(msg.contains("not supported"), "{msg}");
    assert!(msg.contains("1:1"), "{msg}");
}

#[test]
fn encode_form_rejects_unparseable_size() {
    let a = adapter("core");
    let mut r = req("x");
    r.size = Some("garbage".into());
    let err = a.build_form(&r).unwrap_err();
    assert!(matches!(err, ProviderError::BadRequest { .. }));
}

#[test]
fn encode_form_rejects_n_greater_than_one() {
    let a = adapter("core");
    let mut r = req("x");
    r.n = 3;
    let err = a.build_form(&r).unwrap_err();
    let msg = err.message();
    assert!(msg.contains("one image per call"), "{msg}");
}

#[test]
fn output_format_for_falls_back_to_png_when_unset() {
    let r = req("x");
    assert_eq!(output_format_for(&r), "png");
}

#[test]
fn output_format_for_uses_request_value_when_set() {
    let mut r = req("x");
    r.output_format = Some("webp".into());
    assert_eq!(output_format_for(&r), "webp");
}

#[test]
fn output_format_for_treats_empty_as_unset() {
    let mut r = req("x");
    r.output_format = Some("   ".into());
    assert_eq!(output_format_for(&r), "png");
}

#[test]
fn encode_form_accepts_negative_prompt_on_core() {
    let a = adapter("core");
    let mut r = req("x");
    r.negative_prompt = Some("blurry, extra limbs".into());
    a.build_form(&r).unwrap();
}

#[test]
fn encode_form_drops_negative_prompt_on_ultra() {
    let a = adapter("ultra");
    let mut r = req("x");
    r.negative_prompt = Some("blurry".into());
    a.build_form(&r).unwrap();
}

#[test]
fn endpoint_url_assembles_route_path_core() {
    let a = adapter("core");
    assert_eq!(
        a.endpoint_url(),
        "https://api.stability.ai/v2beta/stable-image/generate/core"
    );
}

#[test]
fn endpoint_url_assembles_route_path_sd3() {
    let a = adapter("sd3");
    assert_eq!(
        a.endpoint_url(),
        "https://api.stability.ai/v2beta/stable-image/generate/sd3"
    );
}

#[test]
fn endpoint_url_assembles_route_path_ultra() {
    let a = adapter("ultra");
    assert_eq!(
        a.endpoint_url(),
        "https://api.stability.ai/v2beta/stable-image/generate/ultra"
    );
}

#[test]
fn endpoint_url_trims_trailing_slash_on_base_url() {
    let a = StabilityImageAdapter::new(
        "https://api.stability.ai/",
        "k",
        "core",
        Duration::from_secs(1),
    )
    .unwrap();
    assert_eq!(
        a.endpoint_url(),
        "https://api.stability.ai/v2beta/stable-image/generate/core"
    );
}

#[test]
fn build_headers_rejects_empty_api_key() {
    let a = StabilityImageAdapter::new(
        "https://api.stability.ai",
        "",
        "core",
        Duration::from_secs(1),
    )
    .unwrap();
    let err = a.build_headers().unwrap_err();
    assert!(matches!(err, ProviderError::AuthFailed { .. }));
}

#[test]
fn fields_of_a_bare_request() {
    assert_eq!(
        fields("core", &req("a cat")),
        pairs(&[("prompt", "a cat"), ("output_format", "png")])
    );
}

#[test]
fn fields_of_a_full_request() {
    let mut r = req(" a cat ");
    r.n = 0;
    r.size = Some("1920x1080".into());
    r.quality = Some("hd".into());
    r.style = Some("vivid".into());
    r.seed = Some(-12345);
    r.negative_prompt = Some("blurry".into());
    r.output_format = Some(" WebP ".into());
    let full = [
        ("prompt", " a cat "),
        ("aspect_ratio", "16:9"),
        ("output_format", "webp"),
        ("seed", "-12345"),
        ("negative_prompt", "blurry"),
    ];
    assert_eq!(fields("core", &r), pairs(&full));
    assert_eq!(fields("sd3", &r), pairs(&full));
    assert_eq!(fields("ultra", &r), pairs(&full[..4]));
}

#[test]
fn quality_and_style_change_no_field() {
    let mut r = req("x");
    let bare = fields("sd3", &r);
    r.quality = Some("hd".into());
    r.style = Some("vivid".into());
    assert_eq!(fields("sd3", &r), bare);
}

#[test]
fn empty_negative_prompt_is_not_sent() {
    let mut r = req("x");
    r.negative_prompt = Some("".into());
    assert_eq!(fields("core", &r), pairs(&[("prompt", "x"), ("output_format", "png")]));
}

#[test]
fn several_images_are_refused_before_the_size() {
    let mut r = req("x");
    r.n = 2;
    r.size = Some("garbage".into());
    assert_eq!(
        adapter("core").form_fields(&r).unwrap_err(),
        ProviderError::BadRequest {
            message: "Stability AI returns one image per call; pass n=1 (or omit)".to_string()
        }
    );
}

#[test]
fn form_debug_shows_the_parts_in_order() {
    let mut r = req("p");
    r.size = Some("1:1".into());
    r.seed = Some(7);
    let shown = format!("{:?}", adapter("core").build_form(&r).unwrap());
    let at = |name: &str| shown.find(&format!("\"{name}\"")).unwrap();
    assert!(at("prompt") < at("aspect_ratio"));
    assert!(at("aspect_ratio") < at("output_format"));
    assert!(at("output_format") < at("seed"));
    assert!(!shown.contains("negative_prompt"));
}

#[test]
fn headers_are_accept_and_authorization() {
    let h = adapter("core").build_headers().unwrap();
    assert_eq!(h.len(), 2);
    assert_eq!(h.get("accept").unwrap(), "application/json");
    assert_eq!(h.get("authorization").unwrap(), "Bearer k");
}

#[test]
fn keys_that_fit_no_header_are_refused() {
    let with_key = |key: &str| {
        StabilityImageAdapter::new("https://x", key, "core", Duration::from_secs(1))
            .unwrap()
            .build_headers()
    };
    for key in ["a\nb", "a\rb", "\u{7f}", "\u{0}", "a\u{1f}"] {
        assert_eq!(
            with_key(key).unwrap_err(),
            ProviderError::BadRequest {
                message: "api_key contains characters not allowed in HTTP headers".to_string()
            }
        );
    }
    for key in ["a\tb", " ", "~", "\u{e9}", "\u{1f600}"] {
        let h = with_key(key).unwrap();
        let sent = format!("Bearer {key}");
        assert_eq!(h.get("authorization").unwrap().as_bytes(), sent.as_bytes());
    }
}

#[test]
fn adapters_that_cannot_be_made() {
    let make = |url: &str, route: &str| {
        StabilityImageAdapter::new(url, "k", route, Duration::from_secs(1)).err()
    };
    assert_eq!(
        make("", "core"),
        Some(ProviderError::BadRequest { message: "base_url is empty".to_string() })
    );
    assert_eq!(
        make("https://x", " \t"),
        Some(ProviderError::BadRequest { message: "model_route is empty".to_string() })
    );
    assert_eq!(
        make("", ""),
        Some(ProviderError::BadRequest { message: "base_url is empty".to_string() })
    );
    let failed = StabilityImageAdapter::with_client(Err("no tls".to_string()), "", "k", "");
    assert_eq!(
        failed.err(),
        Some(ProviderError::Network { message: "build http client: no tls".to_string() })
    );
}

#[test]
fn routes_and_urls_are_normalized() {
    let url = |base: &str, route: &str| {
        StabilityImageAdapter::new(base, "k", route, Duration::from_secs(1)).unwrap().endpoint_url()
    };
    assert_eq!(url("http://p///", " Sd3 "), "http://p/v2beta/stable-image/generate/sd3");
    assert_eq!(url("/", "core"), "/v2beta/stable-image/generate/core");
    assert_eq!(url("http://p/a/", "core"), url("http://p/a", "CORE"));
}

#[test]
fn debug_text_hides_the_key() {
    let a = StabilityImageAdapter::new("http://p/", "hidden", "Core", Duration::from_secs(1));
    let a = a.unwrap();
    assert_eq!(
        a.debug_text(false),
        "StabilityImageAdapter { base_url: \"http://p\", model_route: \"core\" }"
    );
    assert_eq!(
        a.debug_text(true),
        "StabilityImageAdapter {\n    base_url: \"http://p\",\n    model_route: \"core\",\n}"
    );
    assert_eq!(adapter("core").label(), "stability");
}

#[test]
fn ignored_options_are_told() {
    let mut r = req("x");
    assert_eq!(adapter("ultra").ignored_options(&r), vec![]);
    r.quality = Some("hd".into());
    r.style = Some("vivid".into());
    r.negative_prompt = Some("".into());
    assert_eq!(
        adapter("ultra").ignored_options(&r),
        vec![IgnoredOption::Quality, IgnoredOption::Style, IgnoredOption::NegativePrompt]
    );
    assert_eq!(
        adapter("core").ignored_options(&r),
        vec![IgnoredOption::Quality, IgnoredOption::Style]
    );
    r.size = Some("garbage".into());
    assert_eq!(
        adapter("ultra").ignored_options(&r),
        vec![IgnoredOption::Quality, IgnoredOption::Style]
    );
    r.n = 2;
    assert_eq!(adapter("ultra").ignored_options(&r), vec![]);
}

#[test]
fn prepared_request_is_complete() {
    let p = adapter("core").prepare(&req("x")).unwrap();
    assert_eq!(p.url, "https://api.stability.ai/v2beta/stable-image/generate/core");
    assert_eq!(p.headers.get("authorization").unwrap(), "Bearer k");
    assert!(format!("{:?}", p.form).contains("prompt"));
}

#[test]
fn refused_form_goes_before_refused_headers() {
    let a = StabilityImageAdapter::new("https://x", "", "core", Duration::from_secs(1)).unwrap();
    let mut r = req("x");
    assert!(matches!(a.prepare(&r).err(), Some(ProviderError::AuthFailed { .. })));
    r.n = 2;
    assert!(matches!(a.prepare(&r).err(), Some(ProviderError::BadRequest { .. })));
}

#[test]
fn exchanges_are_concluded() {
    let mut r = req("x");
    r.output_format = Some("JPEG".into());
    assert_eq!(
        conclude(&r, &Exchange::SendFailed("refused".to_string())).unwrap_err(),
        ProviderError::Network { message: "send: refused".to_string() }
    );
    assert_eq!(
        conclude(&r, &Exchange::BodyFailed("eof".to_string())).unwrap_err(),
        ProviderError::Network { message: "read body: eof".to_string() }
    );
    let body = b"{\"image\": \"aGVs\", \"finish_reason\": \"SUCCESS\"}".to_vec();
    let done = conclude(&r, &Exchange::Answered { status: 200, body }).unwrap();
    assert_eq!(done.images[0].bytes, b"hel");
    assert_eq!(done.images[0].mime_type, "image/jpeg");
    let body = b"{\"errors\": [\"no credits\"]}".to_vec();
    assert_eq!(
        conclude(&r, &Exchange::Answered { status: 402, body }).unwrap_err(),
        ProviderError::BadRequest { message: "no credits".to_string() }
    );
}

#[test]
fn client_is_usable() {
    let a = adapter("core");
    let built = a.client().get("http://localhost/").build().unwrap();
    assert_eq!(built.url().as_str(), "http://localhost/");
    assert!(format!("{:?}", a.client()).contains("mcpg-plugin-backend-llm-stability/1.0"));
}
