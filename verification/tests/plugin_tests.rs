use triplewrapper_core::plugin::{
    find_for_extension, find_for_id, plugin_env, plugin_extract_args, plugin_info_from_reply,
    plugin_list_args, plugin_test_args, select_plugin_files, DirEntryInfo, PluginInfo,
};

fn entry(name: &str, executable: bool) -> DirEntryInfo {
    DirEntryInfo { file_name: Some(name.to_string()), path: format!("/d/{name}"), executable }
}

fn reply(id: &str, exts: &[&str]) -> PluginInfo {
    PluginInfo {
        id: id.to_string(),
        extensions: exts.iter().map(|e| e.to_string()).collect(),
        description: "test plugin".to_string(),
        path: String::new(),
    }
}

#[test]
fn test_discover_finds_mock_plugin() {
    let entries = vec![entry("triplewrapper-mock", true)];
    let picked = select_plugin_files(&entries);
    assert_eq!(picked, vec![0]);
    let found: Vec<PluginInfo> = picked
        .iter()
        .map(|&i| plugin_info_from_reply("triplewrapper-mock", &entries[i].path, Some(reply("mock", &["mock"]))))
        .collect();
    assert_eq!(found.len(), 1);
    assert_eq!(found[0].id, "mock");
    assert!(found[0].handles("MOCK"));
    assert!(!found[0].handles("zip"));
}

#[test]
fn test_filename_fallback_when_plugin_info_fails() {
    let entries = vec![entry("triplewrapper-broken", true)];
    let found: Vec<PluginInfo> = select_plugin_files(&entries)
        .iter()
        .map(|&i| plugin_info_from_reply("triplewrapper-broken", &entries[i].path, None))
        .collect();
    assert_eq!(found.len(), 1);
    assert_eq!(found[0].id, "broken");
    assert!(found[0].handles("broken"));
}

#[test]
fn test_non_plugin_files_ignored() {
    let entries = vec![entry("random-tool", true), entry("notes.txt", false)];
    assert!(select_plugin_files(&entries).is_empty());
}

#[test]
fn discovery_takes_each_name_once_executables_only() {
    let entries = vec![
        entry("triplewrapper-rar", false),
        entry("triplewrapper-rar", true),
        entry("triplewrapper-rar", true),
        DirEntryInfo { file_name: None, path: "/d/?".to_string(), executable: true },
        entry("triplewrapper-iso", true),
    ];
    assert_eq!(select_plugin_files(&entries), vec![1, 4]);
}

#[test]
fn replies_are_completed_and_lookups_take_the_first() {
    let p = plugin_info_from_reply("triplewrapper-x", "/d/triplewrapper-x", Some(reply("xz2", &[])));
    assert_eq!(p.extensions, vec!["xz2".to_string()]);
    assert_eq!(p.path, "/d/triplewrapper-x");
    let q = plugin_info_from_reply("triplewrapper-y", "/d/triplewrapper-y", Some(reply("", &["a"])));
    assert_eq!(q.id, "y");
    let plugins = vec![
        PluginInfo { path: "/1".into(), ..reply("one", &["dup", "one"]) },
        PluginInfo { path: "/2".into(), ..reply("two", &["DUP"]) },
    ];
    assert_eq!(find_for_extension(&plugins, "Dup").map(|p| p.path), Some("/1".to_string()));
    assert_eq!(find_for_id(&plugins, "two").map(|p| p.path), Some("/2".to_string()));
    assert!(find_for_id(&plugins, "three").is_none());
    assert!(find_for_extension(&plugins, "zip").is_none());
}

#[test]
fn plugin_command_lines_and_environment() {
    assert_eq!(plugin_list_args("/tmp/fake.mock"), vec!["list", "-a", "/tmp/fake.mock", "--json"]);
    let files = vec!["a.txt".to_string(), "b.txt".to_string()];
    assert_eq!(
        plugin_extract_args("/a.mock", "/out", Some(&files)),
        vec!["extract", "-a", "/a.mock", "-o", "/out", "-f", "a.txt", "-f", "b.txt"]
    );
    assert_eq!(plugin_extract_args("/a.mock", "/out", None), vec!["extract", "-a", "/a.mock", "-o", "/out"]);
    assert_eq!(plugin_test_args("/a.mock"), vec!["test", "-a", "/a.mock"]);
    assert_eq!(plugin_env(Some("s3cret")), vec![("TRIPLEWRAPPER_PASSWORD".to_string(), "s3cret".to_string())]);
    assert!(plugin_env(Some("")).is_empty());
    assert!(plugin_env(None).is_empty());
}
