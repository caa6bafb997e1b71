use dep_miner::shard::{download_url, manifest_rel_path, shard_dir};

#[test]
fn one_char_name() {
    assert_eq!(shard_dir("a"), "1");
}

#[test]
fn two_char_name() {
    assert_eq!(shard_dir("ab"), "2");
}

#[test]
fn three_char_name() {
    assert_eq!(shard_dir("abc"), "3/a");
}

#[test]
fn long_name() {
    assert_eq!(shard_dir("abcdxyz"), "ab/cd");
}

#[test]
fn four_char_name() {
    assert_eq!(shard_dir("serde"), "se/rd");
}

#[test]
fn rel_path_long() {
    assert_eq!(manifest_rel_path("serde", "1.0.0"), "se/rd/serde-1.0.0/Cargo.toml");
}

#[test]
fn rel_path_short() {
    assert_eq!(manifest_rel_path("syn", "2.0.1"), "3/s/syn-2.0.1/Cargo.toml");
}

#[test]
fn url_template() {
    assert_eq!(
        download_url("serde", "1.0.0"),
        "https://static.crates.io/crates/serde/serde-1.0.0.crate"
    );
}
