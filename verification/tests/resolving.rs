use dep_miner::records::is_index_file_name;
use dep_miner::resolve::resolve_file;

fn lines(v: &[&str]) -> Vec<String> {
    v.iter().map(|s| s.to_string()).collect()
}

#[test]
fn empty_file_resolves_to_nothing() {
    let r = resolve_file(&Vec::new()).unwrap();
    assert!(r.is_none());
}

#[test]
fn latest_record_wins() {
    let l = lines(&[
        r#"{"name":"demo","vers":"0.1.0","yanked":false}"#,
        r#"{"name":"demo","vers":"0.2.0","yanked":false}"#,
    ]);
    let p = resolve_file(&l).unwrap().unwrap();
    assert_eq!(p.name, "demo");
    assert_eq!(p.vers, "0.2.0");
}

#[test]
fn trailing_yank_falls_back_to_earlier_record() {
    let l = lines(&[
        r#"{"name":"demo","vers":"0.1.0","yanked":false}"#,
        r#"{"name":"demo","vers":"0.2.0","yanked":true}"#,
    ]);
    let p = resolve_file(&l).unwrap().unwrap();
    assert_eq!(p.name, "demo");
    assert_eq!(p.vers, "0.1.0");
}

#[test]
fn all_yanked_resolves_to_nothing() {
    let l = lines(&[
        r#"{"name":"demo","vers":"0.1.0","yanked":true}"#,
        r#"{"name":"demo","vers":"0.2.0","yanked":true}"#,
    ]);
    let r = resolve_file(&l).unwrap();
    assert!(r.is_none());
}

#[test]
fn resolving_twice_gives_the_same_package() {
    let l = lines(&[
        r#"{"name":"demo","vers":"0.1.0","yanked":false}"#,
        r#"{"name":"demo","vers":"0.2.0","yanked":true}"#,
        r#"{"name":"demo","vers":"0.3.0","yanked":false}"#,
    ]);
    let first = resolve_file(&l).unwrap();
    let second = resolve_file(&l).unwrap();
    assert_eq!(first, second);
    assert_eq!(first.unwrap().vers, "0.3.0");
}

#[test]
fn malformed_last_line_is_an_error() {
    let l = lines(&[r#"{"name":"demo","vers":"0.1.0","yanked":false}"#, "not json at all"]);
    assert!(resolve_file(&l).is_err());
}

#[test]
fn malformed_line_behind_a_yank_is_an_error() {
    let l = lines(&["not json at all", r#"{"name":"demo","vers":"0.2.0","yanked":true}"#]);
    assert!(resolve_file(&l).is_err());
}

#[test]
fn malformed_line_behind_a_kept_record_is_ignored() {
    let l = lines(&["not json at all", r#"{"name":"demo","vers":"0.2.0","yanked":false}"#]);
    let p = resolve_file(&l).unwrap().unwrap();
    assert_eq!(p.vers, "0.2.0");
}

#[test]
fn missing_field_is_an_error() {
    let l = lines(&[r#"{"name":"demo","vers":"0.1.0"}"#]);
    assert!(resolve_file(&l).is_err());
}

#[test]
fn extra_fields_are_ignored() {
    let l = lines(&[
        r#"{"name":"demo","vers":"0.1.0","yanked":false,"cksum":"abc","deps":[]}"#,
    ]);
    let p = resolve_file(&l).unwrap().unwrap();
    assert_eq!(p.name, "demo");
    assert_eq!(p.vers, "0.1.0");
}

#[test]
fn index_walk_skips_hidden_and_control_files() {
    assert!(!is_index_file_name(".git"));
    assert!(!is_index_file_name("config.json"));
    assert!(is_index_file_name("serde"));
    assert!(is_index_file_name("a"));
}
