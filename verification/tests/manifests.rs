use dep_miner::manifest::{read_manifest, select_macro_like, Manifest};

#[test]
fn reads_a_macro_manifest() {
    let text = "[package]\nname = \"demo-macros\"\n\n[lib]\nproc-macro = true\n\n[dependencies]\nsyn = \"1\"\nserde = \"1\"\n";
    let m = read_manifest(text).unwrap();
    assert_eq!(m.name, "demo-macros");
    assert!(m.proc_macro);
    assert_eq!(m.deps, vec!["serde".to_string(), "syn".to_string()]);
}

#[test]
fn legacy_project_section_is_recognized() {
    let text = "[project]\nname = \"old-style\"\n";
    let m = read_manifest(text).unwrap();
    assert_eq!(m.name, "old-style");
    assert!(!m.proc_macro);
    assert!(m.deps.is_empty());
}

#[test]
fn legacy_flag_spelling_is_recognized() {
    let text = "[package]\nname = \"demo\"\n\n[lib]\nproc_macro = true\n";
    let m = read_manifest(text).unwrap();
    assert!(m.proc_macro);
}

#[test]
fn missing_lib_section_defaults_to_not_macro() {
    let text = "[package]\nname = \"demo\"\n";
    let m = read_manifest(text).unwrap();
    assert!(!m.proc_macro);
}

#[test]
fn flag_set_to_false_is_not_macro() {
    let text = "[package]\nname = \"demo\"\n\n[lib]\nproc-macro = false\n";
    let m = read_manifest(text).unwrap();
    assert!(!m.proc_macro);
}

#[test]
fn unparsable_manifest_is_skipped() {
    assert!(read_manifest("this is { not toml").is_none());
}

#[test]
fn manifest_without_a_name_is_skipped() {
    assert!(read_manifest("[lib]\nproc-macro = true\n").is_none());
}

fn manifest(name: &str, proc_macro: bool, deps: &[&str]) -> Manifest {
    Manifest {
        name: name.to_string(),
        proc_macro,
        deps: deps.iter().map(|d| d.to_string()).collect(),
    }
}

#[test]
fn selection_keeps_only_macro_like_packages() {
    let ms = vec![
        manifest("plain", false, &["serde"]),
        manifest("macro-a", true, &["syn"]),
    ];
    let selected = select_macro_like(&ms);
    assert_eq!(selected.len(), 1);
    assert_eq!(selected[0].name, "macro-a");
}

#[test]
fn selection_keeps_one_entry_per_name_last_seen_wins() {
    let ms = vec![
        manifest("macro-a", true, &["syn"]),
        manifest("macro-b", true, &["quote"]),
        manifest("macro-a", true, &["rand"]),
    ];
    let selected = select_macro_like(&ms);
    assert_eq!(selected.len(), 2);
    assert_eq!(selected[0].name, "macro-b");
    assert_eq!(selected[1].name, "macro-a");
    assert_eq!(selected[1].deps, vec!["rand".to_string()]);
}
