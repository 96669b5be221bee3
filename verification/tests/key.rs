use binary_cache::features::normalize;
use binary_cache::key::{join, key, BuildIdentity};
use binary_cache::order::str_precedes;

fn strings(items: &[&str]) -> Vec<String> {
    items.iter().map(|s| s.to_string()).collect()
}

fn windows_identity(features: &[&str]) -> BuildIdentity {
    BuildIdentity {
        revision: "a1b2c3d4".to_string(),
        target: "x86_64-pc-windows-msvc".to_string(),
        crt_static: true,
        features: strings(features),
        debug: false,
    }
}

#[test]
fn key_of_static_windows_build() {
    let k = key("a1b2c3d4", "x86_64-pc-windows-msvc", true, &strings(&["gl", "vulkan"]), false);
    assert_eq!(k, "a1b2c3d4-x86_64-pc-windows-msvc-gl-vulkan-static");
}

#[test]
fn key_with_reversed_features_is_identical() {
    let forward = key("a1b2c3d4", "x86_64-pc-windows-msvc", true, &strings(&["gl", "vulkan"]), false);
    let reversed = key("a1b2c3d4", "x86_64-pc-windows-msvc", true, &strings(&["vulkan", "gl"]), false);
    assert_eq!(reversed, "a1b2c3d4-x86_64-pc-windows-msvc-gl-vulkan-static");
    assert_eq!(forward, reversed);
}

#[test]
fn derive_key_agrees_with_key() {
    assert_eq!(
        windows_identity(&["gl", "vulkan"]).derive_key(),
        "a1b2c3d4-x86_64-pc-windows-msvc-gl-vulkan-static"
    );
    assert_eq!(
        windows_identity(&["vulkan", "gl"]).derive_key(),
        windows_identity(&["gl", "vulkan"]).derive_key()
    );
}

#[test]
fn key_is_the_same_on_every_call() {
    let identity = windows_identity(&["textlayout", "gl", "webp", "gl"]);
    let first = identity.derive_key();
    let second = identity.derive_key();
    assert_eq!(first.as_bytes(), second.as_bytes());
    assert_eq!(first, "a1b2c3d4-x86_64-pc-windows-msvc-gl-textlayout-webp-static");
}

#[test]
fn key_without_features_has_no_feature_component() {
    assert_eq!(key("0123abcd", "aarch64-apple-darwin", false, &[], false), "0123abcd-aarch64-apple-darwin");
    assert_eq!(
        key("0123abcd", "aarch64-apple-darwin", true, &[], true),
        "0123abcd-aarch64-apple-darwin-static-debug"
    );
}

#[test]
fn debug_flag_only_appends_debug() {
    for crt_static in [false, true] {
        for features in [strings(&[]), strings(&["gl"]), strings(&["vulkan", "gl", "svg"])] {
            let release = key("a1b2c3d4", "x86_64-unknown-linux-gnu", crt_static, &features, false);
            let debug = key("a1b2c3d4", "x86_64-unknown-linux-gnu", crt_static, &features, true);
            assert_eq!(debug, format!("{}-debug", release));
        }
    }
}

#[test]
fn static_flag_stands_before_debug() {
    assert_eq!(
        key("abc", "x86_64-pc-windows-msvc", true, &strings(&["d3d"]), true),
        "abc-x86_64-pc-windows-msvc-d3d-static-debug"
    );
    assert_eq!(
        key("abc", "x86_64-pc-windows-msvc", false, &strings(&["d3d"]), true),
        "abc-x86_64-pc-windows-msvc-d3d-debug"
    );
}

#[test]
fn repeated_features_count_once() {
    let once = key("abc", "t", false, &strings(&["gl", "vulkan"]), false);
    let repeated = key("abc", "t", false, &strings(&["vulkan", "gl", "vulkan", "gl", "gl"]), false);
    assert_eq!(once, "abc-t-gl-vulkan");
    assert_eq!(repeated, once);
}

#[test]
fn features_are_ordered_by_their_bytes() {
    assert_eq!(key("r", "t", false, &strings(&["b", "a", "B", "ab", "a0"]), false), "r-t-B-a-a0-ab-b");
    // 'z' is one byte, 0x7a; 'é' begins with the byte 0xc3
    assert_eq!(key("r", "t", false, &strings(&["é", "z"]), false), "r-t-z-é");
}

#[test]
fn an_empty_feature_name_is_a_feature() {
    assert_eq!(key("r", "t", false, &strings(&[""]), false), "r-t-");
    assert_eq!(key("r", "t", false, &strings(&["gl", ""]), true), "r-t--gl-debug");
}

#[test]
fn key_agrees_with_sort_dedup_join() {
    let lists: [&[&str]; 5] = [
        &["vulkan", "gl", "metal", "d3d", "gl"],
        &["x", "x", "x"],
        &["webp-encode", "webp", "webp-decode"],
        &["svg", "SVG", "Svg"],
        &["10", "9", "1", ""],
    ];
    for list in lists {
        let mut expected = strings(list);
        expected.sort();
        expected.dedup();
        let expected = format!("rev-triple-{}-static", expected.join("-"));
        assert_eq!(key("rev", "triple", true, &strings(list), false), expected);
    }
}

#[test]
fn key_adds_no_grouping_characters() {
    let k = key("a1b2c3d4", "x86_64-pc-windows-msvc", true, &strings(&["gl", "text_layout", "v1.2"]), true);
    assert!(k.chars().all(|c| c.is_ascii_alphanumeric() || c == '.' || c == '_' || c == '-'));
    assert!(!k.chars().any(|c| "<>[]{}()".contains(c)));
}

#[test]
fn normalize_sorts_and_drops_repetitions() {
    assert_eq!(normalize(&strings(&["vulkan", "gl", "vulkan"])), strings(&["gl", "vulkan"]));
    assert_eq!(normalize(&strings(&["b", "a", "c", "a", "b"])), strings(&["a", "b", "c"]));
    assert_eq!(normalize(&strings(&[])), strings(&[]));
    assert_eq!(normalize(&strings(&["only"])), strings(&["only"]));
}

#[test]
fn str_precedes_is_the_order_of_strings() {
    let samples = ["", "a", "ab", "b", "B", "a0", "é", "z", "zz", "\u{10000}", "\u{ff}"];
    for a in samples {
        for b in samples {
            assert_eq!(str_precedes(a, b), a < b, "{:?} before {:?}", a, b);
        }
    }
    assert!(str_precedes("gl", "vulkan"));
    assert!(!str_precedes("vulkan", "gl"));
    assert!(!str_precedes("gl", "gl"));
    assert!(str_precedes("gl", "gles"));
}

#[test]
fn join_puts_the_separator_between_parts() {
    assert_eq!(join(&strings(&[]), "-"), "");
    assert_eq!(join(&strings(&["a"]), "-"), "a");
    assert_eq!(join(&strings(&["a", "b", "c"]), "-"), "a-b-c");
    assert_eq!(join(&strings(&["a", "", "c"]), "::"), "a::::c");
}
