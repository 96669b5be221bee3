use std::io::{Read, Write};

use binary_cache::archive::{flatten, Move, ARCHIVE_NAME};

fn strings(items: &[&str]) -> Vec<String> {
    items.iter().map(|s| s.to_string()).collect()
}

#[test]
fn archive_name_is_fixed() {
    assert_eq!(ARCHIVE_NAME, "skia-binaries");
}

#[test]
fn flatten_moves_each_child_up_one_level() {
    assert_eq!(
        flatten(&strings(&["a.lib", "tag.txt"])),
        vec![
            Move { from: "skia-binaries/a.lib".to_string(), to: "a.lib".to_string() },
            Move { from: "skia-binaries/tag.txt".to_string(), to: "tag.txt".to_string() },
        ]
    );
}

#[test]
fn flatten_of_an_empty_directory_moves_nothing() {
    assert_eq!(flatten(&[]), vec![]);
}

#[test]
fn flatten_keeps_names_as_they_are() {
    let moves = flatten(&strings(&["skia-binaries", "lib skia.a", "ü"]));
    assert_eq!(moves[0], Move { from: "skia-binaries/skia-binaries".to_string(), to: "skia-binaries".to_string() });
    assert_eq!(moves[1], Move { from: "skia-binaries/lib skia.a".to_string(), to: "lib skia.a".to_string() });
    assert_eq!(moves[2], Move { from: "skia-binaries/ü".to_string(), to: "ü".to_string() });
}

/// Names of the entries that stand directly inside the archive's directory.
fn children_of(archive: &[u8]) -> Vec<String> {
    let mut names = Vec::new();
    let mut tar = tar::Archive::new(flate2::read::GzDecoder::new(archive));
    for entry in tar.entries().unwrap() {
        let entry = entry.unwrap();
        let path = entry.path().unwrap().into_owned();
        let parts: Vec<String> =
            path.components().map(|c| c.as_os_str().to_str().unwrap().to_string()).collect();
        if parts.len() == 2 && parts[0] == ARCHIVE_NAME {
            names.push(parts[1].clone());
        }
    }
    names
}

fn archive_with(files: &[(&str, &[u8])]) -> Vec<u8> {
    let mut tar = tar::Builder::new(Vec::new());
    for (name, contents) in files {
        let mut header = tar::Header::new_gnu();
        header.set_size(contents.len() as u64);
        header.set_mode(0o644);
        header.set_cksum();
        tar.append_data(&mut header, format!("{}/{}", ARCHIVE_NAME, name), *contents).unwrap();
    }
    let bytes = tar.into_inner().unwrap();
    let mut gz = flate2::write::GzEncoder::new(Vec::new(), flate2::Compression::default());
    gz.write_all(&bytes).unwrap();
    gz.finish().unwrap()
}

#[test]
fn unpacked_archive_is_flattened() {
    let archive = archive_with(&[("a.lib", b"library"), ("tag.txt", b"0.9.1")]);
    let mut unzipped = Vec::new();
    flate2::read::GzDecoder::new(&archive[..]).read_to_end(&mut unzipped).unwrap();
    assert!(!unzipped.is_empty());

    let moves = flatten(&children_of(&archive));
    let targets: Vec<&str> = moves.iter().map(|m| m.to.as_str()).collect();
    assert_eq!(targets, vec!["a.lib", "tag.txt"]);
    assert!(moves.iter().all(|m| m.from == format!("skia-binaries/{}", m.to)));
    assert!(moves.iter().all(|m| !m.to.contains("skia-binaries")));
}
