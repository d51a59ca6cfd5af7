use plugin_sdk::errors::PluginError;
use plugin_sdk::paths::{join, list_plugins, plugin_name_from_entry, DirEntry};
use plugin_sdk::plugin::{python_add_path, Plugin};

fn directory(path: &str, name: &str) -> DirEntry {
    DirEntry { path: path.to_string(), is_dir: true, name: Some(name.to_string()) }
}

#[test]
fn join_puts_one_separator_between() {
    assert_eq!(join("/plugins", "alpha"), "/plugins/alpha");
    assert_eq!(join("/plugins/", "alpha"), "/plugins/alpha");
    assert_eq!(join("plugins", "alpha"), "plugins/alpha");
    assert_eq!(join("/", "alpha"), "/alpha");
}

#[test]
fn join_with_an_empty_side() {
    assert_eq!(join("", "alpha"), "alpha");
    assert_eq!(join("/plugins", ""), "/plugins/");
    assert_eq!(join("/plugins/", ""), "/plugins/");
    assert_eq!(join("", ""), "");
}

#[test]
fn join_lets_an_absolute_part_stand_for_itself() {
    assert_eq!(join("/plugins", "/etc"), "/etc");
    assert_eq!(join("", "/etc"), "/etc");
}

#[test]
fn join_agrees_with_the_standard_library_on_these() {
    let cases = [
        ("/plugins", "alpha"),
        ("/plugins/", "alpha"),
        ("plugins", "alpha"),
        ("", "alpha"),
        ("/plugins", ""),
        ("/plugins", "/etc"),
        ("/", "alpha"),
        ("a/b", "c/d"),
    ];
    for (base, part) in cases {
        let expected = std::path::Path::new(base).join(part);
        assert_eq!(join(base, part), expected.to_str().unwrap());
    }
}

#[test]
fn join_counts_characters_not_bytes() {
    assert_eq!(join("/pl\u{fc}gins", "\u{e9}t\u{e9}"), "/pl\u{fc}gins/\u{e9}t\u{e9}");
    assert_eq!(join("/pl\u{fc}gins\u{e9}", "x"), "/pl\u{fc}gins\u{e9}/x");
}

#[test]
fn name_to_path_ends_in_the_entry_file() {
    assert_eq!(Plugin::name_to_path("/plugins", "alpha"), "/plugins/alpha/main.py");
    assert_eq!(Plugin::name_to_path("/plugins/", "alpha"), "/plugins/alpha/main.py");
    assert_eq!(Plugin::name_to_path("", "alpha"), "alpha/main.py");
}

#[test]
fn plugin_name_from_path_is_the_plugin_directory() {
    assert_eq!(Plugin::plugin_name_from_path("/plugins", "alpha".to_string()), "/plugins/alpha");
    assert_eq!(Plugin::plugin_name_from_path("/plugins/", "alpha".to_string()), "/plugins/alpha");
}

#[test]
fn entry_file_leads_back_to_the_plugin_name() {
    assert_eq!(plugin_name_from_entry("/plugins/alpha/main.py"), Some("alpha".to_string()));
    assert_eq!(plugin_name_from_entry("alpha/main.py"), Some("alpha".to_string()));
    assert_eq!(plugin_name_from_entry("a/b/c/d.py"), Some("c".to_string()));
    assert_eq!(plugin_name_from_entry("/pl/\u{e9}t\u{e9}/main.py"), Some("\u{e9}t\u{e9}".to_string()));
    for name in ["alpha", "b", "with space", "x.y"] {
        let entry = Plugin::name_to_path("/plugins", name);
        assert_eq!(plugin_name_from_entry(&entry), Some(name.to_string()));
    }
}

#[test]
fn entry_file_without_a_named_directory_has_no_plugin_name() {
    assert_eq!(plugin_name_from_entry("main.py"), None);
    assert_eq!(plugin_name_from_entry("/main.py"), None);
    assert_eq!(plugin_name_from_entry(""), None);
    assert_eq!(plugin_name_from_entry("/"), None);
    assert_eq!(plugin_name_from_entry("alpha//main.py"), None);
}

#[test]
fn listing_keeps_directories_in_listing_order() {
    let entries = vec![
        directory("/plugins/beta", "beta"),
        DirEntry {
            path: "/plugins/readme.txt".to_string(),
            is_dir: false,
            name: Some("readme.txt".to_string()),
        },
        directory("/plugins/alpha", "alpha"),
    ];
    let (found, skipped) = list_plugins("/plugins", Some(&entries)).unwrap();
    assert_eq!(
        found,
        vec![
            ("beta".to_string(), "/plugins/beta".to_string()),
            ("alpha".to_string(), "/plugins/alpha".to_string())
        ]
    );
    assert!(skipped.is_empty());
}

#[test]
fn listing_of_an_empty_directory_is_empty() {
    let (found, skipped) = list_plugins("/plugins", Some(&vec![])).unwrap();
    assert!(found.is_empty());
    assert!(skipped.is_empty());
}

#[test]
fn listing_that_could_not_be_read_fails() {
    assert_eq!(
        list_plugins("/plugins", None),
        Err(PluginError::DirectoryUnreadable { path: "/plugins".to_string() })
    );
}

#[test]
fn directory_without_a_usable_name_is_skipped_and_recorded() {
    let entries = vec![
        directory("/plugins/alpha", "alpha"),
        DirEntry { path: "/plugins/\u{fffd}".to_string(), is_dir: true, name: None },
        DirEntry { path: "/plugins/\u{fffd}.txt".to_string(), is_dir: false, name: None },
        directory("/plugins/beta", "beta"),
    ];
    let (found, skipped) = list_plugins("/plugins", Some(&entries)).unwrap();
    let mut names: Vec<String> = found.iter().map(|c| c.0.clone()).collect();
    names.sort();
    assert_eq!(names, vec!["alpha".to_string(), "beta".to_string()]);
    assert_eq!(
        skipped,
        vec![PluginError::EntryNameUnresolvable { path: "/plugins/\u{fffd}".to_string() }]
    );
}

#[test]
fn search_path_grows_at_the_front() {
    let mut search_path = vec!["/usr/lib/python".to_string()];
    python_add_path(&mut search_path, "/plugins/alpha");
    python_add_path(&mut search_path, "/plugins/beta");
    assert_eq!(
        search_path,
        vec![
            "/plugins/beta".to_string(),
            "/plugins/alpha".to_string(),
            "/usr/lib/python".to_string()
        ]
    );
}

#[test]
fn search_path_keeps_a_path_that_is_registered_again() {
    let mut search_path: Vec<String> = Vec::new();
    python_add_path(&mut search_path, "/plugins/alpha");
    python_add_path(&mut search_path, "/plugins/alpha");
    assert_eq!(search_path, vec!["/plugins/alpha".to_string(), "/plugins/alpha".to_string()]);
}
