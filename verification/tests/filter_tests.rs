use desklaunch::entry::DesktopEntry;
use desklaunch::filter::{entry_matches, filter_catalog};

fn entry(name: &str, exec: &str, path: &str) -> DesktopEntry {
    DesktopEntry {
        display_name: name.to_string(),
        exec_command: exec.to_string(),
        source_path: path.to_string(),
    }
}

fn chars(s: &str) -> Vec<char> {
    s.chars().collect()
}

fn sample_catalog() -> Vec<DesktopEntry> {
    vec![
        entry("Firefox", "firefox", "/usr/share/applications/a.desktop"),
        entry("Files", "nautilus", "/usr/share/applications/f.desktop"),
        entry("Terminal", "xterm", "/usr/share/applications/b.desktop"),
    ]
}

#[test]
fn filter_keeps_exactly_the_matches_in_order() {
    let catalog = sample_catalog();
    let filtered = filter_catalog(&catalog, &chars("fi"));
    let names: Vec<&str> = filtered.iter().map(|e| e.display_name.as_str()).collect();
    assert_eq!(names, vec!["Firefox", "Files"]);
}

#[test]
fn empty_query_returns_catalog_unchanged() {
    let catalog = sample_catalog();
    let filtered = filter_catalog(&catalog, &chars(""));
    assert_eq!(filtered.len(), 3);
    let names: Vec<&str> = filtered.iter().map(|e| e.display_name.as_str()).collect();
    assert_eq!(names, vec!["Firefox", "Files", "Terminal"]);
}

#[test]
fn longer_query_filters_a_subsequence_of_the_shorter() {
    let catalog = sample_catalog();
    let wide = filter_catalog(&catalog, &chars("fi"));
    let narrow = filter_catalog(&catalog, &chars("fire"));
    let wide_names: Vec<&str> = wide.iter().map(|e| e.display_name.as_str()).collect();
    let narrow_names: Vec<&str> = narrow.iter().map(|e| e.display_name.as_str()).collect();
    assert_eq!(wide_names, vec!["Firefox", "Files"]);
    assert_eq!(narrow_names, vec!["Firefox"]);
    // every narrow entry appears in the wide list, in the same order
    let mut wide_iter = wide_names.iter();
    for n in &narrow_names {
        assert!(wide_iter.any(|w| w == n));
    }
}

#[test]
fn matching_is_case_insensitive() {
    let catalog = sample_catalog();
    assert_eq!(filter_catalog(&catalog, &chars("FIRE")).len(), 1);
    assert_eq!(filter_catalog(&catalog, &chars("fIrEfOx")).len(), 1);
    assert_eq!(filter_catalog(&catalog, &chars("TERM")).len(), 1);
}

#[test]
fn unmatched_query_yields_empty_list() {
    let catalog = sample_catalog();
    assert_eq!(filter_catalog(&catalog, &chars("xyz123")).len(), 0);
}

#[test]
fn entry_matches_substring_anywhere() {
    assert!(entry_matches("Firefox", &chars("refo")));
    assert!(entry_matches("Firefox", &chars("")));
    assert!(entry_matches("Firefox", &chars("FOX")));
    assert!(!entry_matches("Firefox", &chars("foxes")));
    assert!(!entry_matches("", &chars("a")));
    assert!(entry_matches("", &chars("")));
}
