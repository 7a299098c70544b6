use desklaunch::entry::entry_of_fields;
use desklaunch::scan::{
    build_catalog, collect_descriptor_paths, configured_directories, descriptor_paths,
    directories_for_home, is_descriptor_name, load_entry, DirScan,
};

fn strings(v: &[&str]) -> Vec<String> {
    v.iter().map(|s| s.to_string()).collect()
}

#[test]
fn descriptor_names_end_in_the_extension() {
    assert!(is_descriptor_name("firefox.desktop"));
    assert!(is_descriptor_name(".desktop"));
    assert!(!is_descriptor_name("desktop"));
    assert!(!is_descriptor_name("xdesktop"));
    assert!(!is_descriptor_name("notes.txt"));
    assert!(!is_descriptor_name("top"));
    assert!(!is_descriptor_name("a.desktop.bak"));
    assert!(!is_descriptor_name(""));
}

#[test]
fn descriptor_paths_keep_only_descriptors_in_order() {
    let files = strings(&["a.desktop", "b.txt", "c.desktop", "README"]);
    let paths = descriptor_paths(&"/apps/".to_string(), &files);
    assert_eq!(paths, strings(&["/apps/a.desktop", "/apps/c.desktop"]));
}

#[test]
fn directories_follow_the_home_lookup() {
    let with_home = directories_for_home(Some("/home/u".to_string()));
    assert_eq!(
        with_home,
        strings(&["/usr/share/applications/", "/home/u/.local/share/applications/"])
    );
    let without_home = directories_for_home(None);
    assert_eq!(without_home, strings(&["/usr/share/applications/"]));
}

#[test]
fn configured_directories_start_with_the_system_directory() {
    let dirs = configured_directories();
    assert!(!dirs.is_empty() && dirs.len() <= 2);
    assert_eq!(dirs[0], "/usr/share/applications/");
    if dirs.len() == 2 {
        assert!(dirs[1].ends_with("/.local/share/applications/"));
    }
}

#[test]
fn record_needs_both_fields() {
    let path = "/apps/a.desktop".to_string();
    assert!(entry_of_fields(&path, None, Some("firefox".to_string())).is_none());
    assert!(entry_of_fields(&path, Some("Firefox".to_string()), None).is_none());
    assert!(entry_of_fields(&path, None, None).is_none());
    let e = entry_of_fields(&path, Some("Firefox".to_string()), Some("firefox %u".to_string()))
        .expect("both fields present");
    assert_eq!(e.display_name, "Firefox");
    assert_eq!(e.exec_command, "firefox %u");
    assert_eq!(e.source_path, "/apps/a.desktop");
}

#[test]
fn unreadable_file_is_skipped() {
    let got = load_entry(&"/nonexistent-dir-for-sure/x.desktop".to_string());
    assert!(got.is_none());
}

#[test]
fn unreadable_directory_does_not_block_the_rest() {
    let scans = vec![
        DirScan { dir: "/unreadable/".to_string(), files: None },
        DirScan {
            dir: "/apps/".to_string(),
            files: Some(strings(&["a.desktop", "skip.txt", "b.desktop"])),
        },
    ];
    let paths = collect_descriptor_paths(&scans);
    assert_eq!(paths, strings(&["/apps/a.desktop", "/apps/b.desktop"]));
}

#[test]
fn catalog_of_unparsable_files_is_empty_but_scan_finishes() {
    let scans = vec![
        DirScan { dir: "/unreadable/".to_string(), files: None },
        DirScan {
            dir: "/nonexistent-dir-for-sure/".to_string(),
            files: Some(strings(&["a.desktop", "b.desktop"])),
        },
    ];
    let catalog = build_catalog(&scans);
    assert_eq!(catalog.entries.len(), 0);
}
