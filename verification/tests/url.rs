use binary_cache::key::BuildIdentity;
use binary_cache::url::{download_url, substitute};

#[test]
fn download_url_fills_in_tag_and_key() {
    assert_eq!(
        download_url("https://example/{tag}/{key}.tar.gz".to_string(), "0.9.1", "abc-static"),
        "https://example/0.9.1/abc-static.tar.gz"
    );
}

#[test]
fn template_without_placeholders_is_unchanged() {
    for template in ["", "https://example/archive.tar.gz", "{tag", "tag}", "{ tag }", "{}", "{TAG}/{Key}"] {
        assert_eq!(download_url(template.to_string(), "0.9.1", "abc"), template);
    }
}

#[test]
fn every_occurrence_is_replaced() {
    assert_eq!(
        download_url("{tag}/{key}/{tag}/{key}{key}".to_string(), "1.0.0", "k"),
        "1.0.0/k/1.0.0/kk"
    );
    assert_eq!(download_url("{tag}".to_string(), "", "k"), "");
    assert_eq!(download_url("{{tag}}".to_string(), "t", "k"), "{t}");
}

#[test]
fn substituted_values_are_not_escaped() {
    // the tag goes in first, so a key placeholder inside it is filled in too
    assert_eq!(download_url("{tag}".to_string(), "{key}", "k"), "k");
    // the key goes in last and stays as it is
    assert_eq!(download_url("{key}".to_string(), "t", "{tag}"), "{tag}");
    assert_eq!(download_url("{key}/{tag}".to_string(), "a b", "ü/ö"), "ü/ö/a b");
}

#[test]
fn download_url_agrees_with_replace() {
    let templates = ["https://h/{tag}/skia-binaries-{key}.tar.gz", "{tag}{tag}{key", "{ke{key}y}", "é{tag}é"];
    for template in templates {
        let expected = template.replace("{tag}", "0.1.0").replace("{key}", "abc-gl");
        assert_eq!(download_url(template.to_string(), "0.1.0", "abc-gl"), expected);
    }
}

#[test]
fn substitute_reads_from_the_left() {
    assert_eq!(substitute("aaa", "aa", "X"), "Xa");
    assert_eq!(substitute("aaaa", "aa", "X"), "XX");
    assert_eq!(substitute("abcabc", "bc", ""), "aa");
    assert_eq!(substitute("abc", "abcd", "X"), "abc");
    assert_eq!(substitute("", "a", "X"), "");
    assert_eq!(substitute("äöü", "ö", "oe"), "äoeü");
}

#[test]
fn substitute_with_an_empty_pattern_changes_nothing() {
    assert_eq!(substitute("abc", "", "X"), "abc");
    assert_eq!(substitute("", "", "X"), "");
}

#[test]
fn archive_url_of_an_identity() {
    let identity = BuildIdentity {
        revision: "a1b2c3d4".to_string(),
        target: "x86_64-pc-windows-msvc".to_string(),
        crt_static: true,
        features: vec!["vulkan".to_string(), "gl".to_string()],
        debug: false,
    };
    assert_eq!(
        identity.archive_url("https://example/{tag}/skia-binaries-{key}.tar.gz".to_string(), "0.9.1"),
        "https://example/0.9.1/skia-binaries-a1b2c3d4-x86_64-pc-windows-msvc-gl-vulkan-static.tar.gz"
    );
}
