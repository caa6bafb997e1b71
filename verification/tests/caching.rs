use dep_miner::cache::{manifest_from_archive, CacheModel};

#[test]
fn ensure_fetches_once_then_hits() {
    let name = "demo".to_string();
    let vers = "1.0.0".to_string();
    let mut cache = CacheModel::new();
    assert!(!cache.contains(&name, &vers));
    assert!(cache.ensure(&name, &vers));
    assert!(cache.contains(&name, &vers));
    assert!(!cache.ensure(&name, &vers));
    assert!(cache.contains(&name, &vers));
}

#[test]
fn ensure_distinguishes_versions() {
    let name = "demo".to_string();
    let mut cache = CacheModel::new();
    assert!(cache.ensure(&name, &"1.0.0".to_string()));
    assert!(cache.ensure(&name, &"2.0.0".to_string()));
    assert!(!cache.ensure(&name, &"1.0.0".to_string()));
}

fn gzipped_tar(entries: &[(&str, &[u8])]) -> Vec<u8> {
    let encoder = flate2::write::GzEncoder::new(Vec::new(), flate2::Compression::default());
    let mut builder = tar::Builder::new(encoder);
    for (path, data) in entries {
        let mut header = tar::Header::new_gnu();
        header.set_size(data.len() as u64);
        header.set_mode(0o644);
        header.set_cksum();
        builder.append_data(&mut header, path, *data).unwrap();
    }
    builder.into_inner().unwrap().finish().unwrap()
}

#[test]
fn archive_manifest_is_extracted() {
    let manifest = b"[package]\nname = \"demo\"\n";
    let archive = gzipped_tar(&[
        ("demo-1.0.0/README.md", b"hello".as_slice()),
        ("demo-1.0.0/Cargo.toml", manifest.as_slice()),
        ("demo-1.0.0/src/lib.rs", b"fn f() {}".as_slice()),
    ]);
    let got = manifest_from_archive(&archive).unwrap();
    assert_eq!(got, Some(manifest.to_vec()));
}

#[test]
fn archive_without_manifest_is_silent_absence() {
    let archive = gzipped_tar(&[("demo-1.0.0/README.md", b"hello".as_slice())]);
    let got = manifest_from_archive(&archive).unwrap();
    assert!(got.is_none());
}

#[test]
fn nested_manifest_name_must_match_exactly() {
    let archive = gzipped_tar(&[("demo-1.0.0/Cargo.toml.orig", b"nope".as_slice())]);
    let got = manifest_from_archive(&archive).unwrap();
    assert!(got.is_none());
}

#[test]
fn corrupt_archive_is_an_error() {
    let garbage = vec![0x1f, 0x8b, 0x00, 0x01, 0x02, 0x03];
    assert!(manifest_from_archive(&garbage).is_err());
}
