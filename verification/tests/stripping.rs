use dep_miner::deps::{is_standard_dep, strip_standard};
use dep_miner::manifest::Manifest;
use dep_miner::report::{build_report, count_deps, find_weird_dependencies, significant_packages};

fn deps(v: &[&str]) -> Vec<String> {
    v.iter().map(|d| d.to_string()).collect()
}

fn manifest(name: &str, d: &[&str]) -> Manifest {
    Manifest { name: name.to_string(), proc_macro: true, deps: deps(d) }
}

#[test]
fn allow_list_membership() {
    assert!(is_standard_dep(&"syn".to_string()));
    assert!(is_standard_dep(&"proc-macro2".to_string()));
    assert!(!is_standard_dep(&"serde".to_string()));
    assert!(!is_standard_dep(&"my-weird-dep".to_string()));
}

#[test]
fn strip_removes_exactly_the_standard_names() {
    let stripped = strip_standard(&deps(&["syn", "my-weird-dep", "serde", "quote"]));
    assert_eq!(stripped, deps(&["my-weird-dep", "serde"]));
}

#[test]
fn strip_twice_equals_strip_once() {
    let once = strip_standard(&deps(&["syn", "my-weird-dep", "serde", "heck"]));
    let twice = strip_standard(&once);
    assert_eq!(once, twice);
}

#[test]
fn end_to_end_retained_and_tallied() {
    let weird = find_weird_dependencies(&vec![manifest("demo", &["syn", "my-weird-dep", "serde"])]);
    assert_eq!(weird.len(), 1);
    assert_eq!(weird[0].deps, deps(&["my-weird-dep", "serde"]));

    let (entries, counts) = build_report(&weird, 1);
    assert_eq!(entries.len(), 1);
    assert_eq!(entries[0].name, "demo");
    assert_eq!(entries[0].deps, deps(&["my-weird-dep", "serde"]));

    let mut counts = counts;
    counts.sort();
    assert_eq!(counts, vec![("my-weird-dep".to_string(), 1), ("serde".to_string(), 1)]);
}

#[test]
fn all_standard_package_is_dropped_entirely() {
    let weird = find_weird_dependencies(&vec![manifest("demo", &["syn"])]);
    assert!(weird.is_empty());
}

#[test]
fn single_weird_dep_is_dropped_and_not_tallied() {
    let weird = find_weird_dependencies(&vec![manifest("demo", &["my-weird-dep"])]);
    assert_eq!(weird.len(), 1);

    let (entries, counts) = build_report(&weird, 1);
    assert!(entries.is_empty());
    assert!(counts.is_empty());
}

#[test]
fn threshold_is_configuration() {
    let weird = find_weird_dependencies(&vec![manifest("demo", &["my-weird-dep"])]);
    let (entries, counts) = build_report(&weird, 0);
    assert_eq!(entries.len(), 1);
    assert_eq!(counts, vec![("my-weird-dep".to_string(), 1)]);
}

#[test]
fn counts_span_the_surviving_corpus() {
    let corpus = vec![
        manifest("a", &["x", "y"]),
        manifest("b", &["y", "z"]),
        manifest("c", &["y"]),
    ];
    let entries = significant_packages(&corpus, 1);
    assert_eq!(entries.len(), 2);
    let mut counts = count_deps(&entries);
    counts.sort();
    assert_eq!(
        counts,
        vec![
            ("x".to_string(), 1),
            ("y".to_string(), 2),
            ("z".to_string(), 1),
        ]
    );
}
