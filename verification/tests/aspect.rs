use stability_image::aspect::{SUPPORTED_LIST, aspect_ratio_for, gcd, parse_dims, supported};
use stability_image::error::ProviderError;

const RATIOS: [&str; 9] = [
    "21:9", "16:9", "3:2", "5:4", "1:1", "4:5", "2:3", "9:16", "9:21",
];

fn refusal(size: &str) -> String {
    match aspect_ratio_for(size).unwrap_err() {
        ProviderError::BadRequest { message } => message,
        other => panic!("expected BadRequest, got {other:?}"),
    }
}

#[test]
fn aspect_ratio_for_wh_simplifies_via_gcd() {
    assert_eq!(aspect_ratio_for("1920x1080").unwrap(), "16:9");
    assert_eq!(aspect_ratio_for("1024x1024").unwrap(), "1:1");
    assert_eq!(aspect_ratio_for("1080x1920").unwrap(), "9:16");
    assert_eq!(aspect_ratio_for("1500x1000").unwrap(), "3:2");
}

#[test]
fn aspect_ratio_for_passes_through_already_ratio() {
    assert_eq!(aspect_ratio_for("21:9").unwrap(), "21:9");
    assert_eq!(aspect_ratio_for("9:21").unwrap(), "9:21");
}

#[test]
fn aspect_ratio_for_rejects_zero_dim() {
    assert!(aspect_ratio_for("0x100").is_err());
    assert!(aspect_ratio_for("100x0").is_err());
}

#[test]
fn every_accepted_ratio_passes_through_and_is_listed() {
    for ratio in RATIOS {
        assert_eq!(aspect_ratio_for(ratio).unwrap(), ratio);
    }
    assert_eq!(SUPPORTED_LIST, format!("{RATIOS:?}"));
}

#[test]
fn supported_is_the_list() {
    for w in 0u32..30 {
        for h in 0u32..30 {
            let listed = RATIOS.contains(&format!("{w}:{h}").as_str());
            assert_eq!(supported(w, h), listed);
        }
    }
}

#[test]
fn a_ratio_that_is_not_listed_is_reduced() {
    assert_eq!(aspect_ratio_for("32:18").unwrap(), "16:9");
    assert_eq!(aspect_ratio_for("2:2").unwrap(), "1:1");
    assert_eq!(aspect_ratio_for(" 1080 : 1920 ").unwrap(), "9:16");
    for w in 1u32..60 {
        for h in 1u32..60 {
            let ratio = format!("{w}:{h}");
            let d = gcd(w, h);
            let lowest = format!("{}:{}", w / d, h / d);
            let expected = [ratio.as_str(), lowest.as_str()]
                .into_iter()
                .find(|r| RATIOS.contains(r))
                .map(|r| r.to_string());
            assert_eq!(aspect_ratio_for(&ratio).ok(), expected, "{ratio}");
        }
    }
}

#[test]
fn pixel_sizes_of_a_ratio_are_reduced_to_it() {
    for (p, q) in [(16u32, 9u32), (3, 2), (5, 4), (1, 1), (4, 5), (2, 3), (9, 16)] {
        for k in [1u32, 2, 7, 120, 1000, 268435455] {
            if let (Some(w), Some(h)) = (p.checked_mul(k), q.checked_mul(k)) {
                assert_eq!(aspect_ratio_for(&format!("{w}x{h}")).unwrap(), format!("{p}:{q}"));
                assert_eq!(aspect_ratio_for(&format!("{w}:{h}")).unwrap(), format!("{p}:{q}"));
            }
        }
    }
}

#[test]
fn nothing_is_reduced_to_twenty_one_to_nine() {
    for size in ["21x9", "2100x900", "9x21", "900x2100", "2520x1080", "42:18", "18:42", "2100:900"] {
        assert!(aspect_ratio_for(size).is_err(), "{size}");
    }
    assert_eq!(
        refusal("2100x900"),
        format!(
            "aspect ratio 7:3 (from size \"2100x900\") is not supported by Stability AI. \
             Supported aspect ratios: {RATIOS:?}"
        )
    );
}

#[test]
fn refusals_are_exact() {
    assert_eq!(
        refusal("gar\"bage"),
        format!("size must be `WxH` or `W:H`; got \"gar\\\"bage\". Supported aspect ratios: {RATIOS:?}")
    );
    assert_eq!(
        refusal("0x100"),
        format!("size dimensions must be > 0; got \"0x100\". Supported aspect ratios: {RATIOS:?}")
    );
    assert_eq!(
        refusal(" 3:0"),
        format!("size dimensions must be > 0; got \" 3:0\". Supported aspect ratios: {RATIOS:?}")
    );
    assert_eq!(
        refusal("7:3"),
        format!(
            "aspect ratio 7:3 is not supported by Stability AI. Supported aspect ratios: {RATIOS:?}"
        )
    );
    assert_eq!(
        refusal("42:18"),
        format!(
            "aspect ratio 42:18 is not supported by Stability AI. Supported aspect ratios: {RATIOS:?}"
        )
    );
}

#[test]
fn every_refusal_names_every_accepted_ratio() {
    for size in ["", "junk", "0x0", "0:9", "9x0", "7:3", "42:18", "2100x900", "4294967296x1"] {
        let message = refusal(size);
        for ratio in RATIOS {
            assert!(message.contains(ratio), "{size}: {message}");
        }
    }
}

#[test]
fn reduced_ratio_gives_itself() {
    for size in ["1920x1080", "10x8", "512X768", " 21 : 9 "] {
        let once = aspect_ratio_for(size).unwrap();
        assert_eq!(aspect_ratio_for(&once).unwrap(), once);
    }
}

#[test]
fn dims_of_odd_texts() {
    assert_eq!(parse_dims(" 16 : 9\n"), Some((16, 9, true)));
    assert_eq!(parse_dims("+16x+09"), Some((16, 9, false)));
    assert_eq!(parse_dims("512X768"), Some((512, 768, false)));
    assert_eq!(parse_dims("1:2:3"), None);
    assert_eq!(parse_dims("1x2:3"), None);
    assert_eq!(parse_dims("1x2x3"), None);
    assert_eq!(parse_dims("1X2x3"), None);
    assert_eq!(parse_dims("x"), None);
    assert_eq!(parse_dims(""), None);
    assert_eq!(parse_dims("-1x2"), None);
    assert_eq!(parse_dims("4294967295x4294967296"), None);
    assert_eq!(parse_dims("4294967295:1"), Some((4294967295, 1, true)));
    assert_eq!(aspect_ratio_for("+021:9").unwrap(), "21:9");
}

#[test]
fn gcd_values() {
    assert_eq!(gcd(1920, 1080), 120);
    assert_eq!(gcd(1080, 1920), 120);
    assert_eq!(gcd(0, 0), 0);
    assert_eq!(gcd(0, 5), 5);
    assert_eq!(gcd(5, 0), 5);
    assert_eq!(gcd(4294967295, 4294967294), 1);
}
