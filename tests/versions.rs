use capcut_version_guard::catalog::get_archive_versions;
use capcut_version_guard::natural::{fits_natural_order, sort_versions};
use capcut_version_guard::versions::{
    explicit_deletions, heuristic_deletions, paths_at, total_size, VersionInfo,
};

fn version(name: &str) -> VersionInfo {
    VersionInfo { name: name.to_string(), path: format!("/apps/{}", name), size_bytes: 0 }
}

fn names(vs: &[VersionInfo]) -> Vec<&str> {
    vs.iter().map(|v| v.name.as_str()).collect()
}

#[test]
fn natural_order_puts_ten_after_three() {
    let sorted = sort_versions(vec![version("10.0.0"), version("3.2.0"), version("2.9.0")]);
    assert_eq!(names(&sorted), vec!["2.9.0", "3.2.0", "10.0.0"]);
}

#[test]
fn natural_order_with_four_components() {
    let sorted = sort_versions(vec![
        version("4.0.0.1539"),
        version("4.0.0.200"),
        version("1.5.0.230"),
    ]);
    assert_eq!(names(&sorted), vec!["1.5.0.230", "4.0.0.200", "4.0.0.1539"]);
}

#[test]
fn sorting_nothing_gives_nothing() {
    assert!(sort_versions(Vec::new()).is_empty());
}

#[test]
fn sorting_keeps_sizes_and_paths_with_names() {
    let mut a = version("3.2.0");
    a.size_bytes = 32;
    let mut b = version("2.9.0");
    b.size_bytes = 29;
    let sorted = sort_versions(vec![a, b]);
    assert_eq!(sorted[0].size_bytes, 29);
    assert_eq!(sorted[0].path, "/apps/2.9.0");
    assert_eq!(sorted[1].size_bytes, 32);
}

#[test]
fn digit_runs_must_fit_u32() {
    assert!(fits_natural_order("4294967295"));
    assert!(!fits_natural_order("4294967296"));
    assert!(!fits_natural_order("v12345678901"));
    assert!(fits_natural_order("7.7.0.3143"));
    assert!(fits_natural_order(""));
}

#[test]
fn heuristic_removes_only_the_newest() {
    let three = vec![version("1.5.0"), version("2.9.0"), version("3.2.0")];
    assert_eq!(heuristic_deletions(&three), vec![2]);
    assert_eq!(heuristic_deletions(&three[..2].iter().map(|v| version(&v.name)).collect()), vec![1]);
    assert_eq!(heuristic_deletions(&vec![version("1.5.0")]), Vec::<usize>::new());
    assert_eq!(heuristic_deletions(&Vec::new()), Vec::<usize>::new());
}

#[test]
fn explicit_removes_all_but_selection() {
    let three = vec![version("1.5.0"), version("2.9.0"), version("3.2.0")];
    assert_eq!(explicit_deletions(&three, Some(1)), vec![0, 2]);
    assert_eq!(explicit_deletions(&three, Some(0)), vec![1, 2]);
    assert_eq!(explicit_deletions(&three, Some(3)), Vec::<usize>::new());
    assert_eq!(explicit_deletions(&three, None), Vec::<usize>::new());
}

#[test]
fn paths_at_follows_picks() {
    let three = vec![version("1.5.0"), version("2.9.0"), version("3.2.0")];
    assert_eq!(paths_at(&three, &vec![2, 0]), vec!["/apps/3.2.0".to_string(), "/apps/1.5.0".to_string()]);
}

#[test]
fn total_size_sums_and_saturates() {
    assert_eq!(total_size(&vec![]), 0);
    assert_eq!(total_size(&vec![1, 2, 3]), 6);
    assert_eq!(total_size(&vec![u64::MAX, 1, 5]), u64::MAX);
}

#[test]
fn catalog_lists_six_releases_oldest_first() {
    let list = get_archive_versions();
    let versions: Vec<&str> = list.iter().map(|a| a.version.as_str()).collect();
    assert_eq!(versions, vec!["1.5.0", "2.5.4", "2.9.0", "3.2.0", "3.9.0", "4.0.0"]);
    assert_eq!(list[4].risk_level, "High");
    assert_eq!(list[0].features, vec!["Clean UI", "Offline Only", "No Nags"]);
}
