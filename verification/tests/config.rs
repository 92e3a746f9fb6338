use frida_gg::config::{
    configure, explore_app_packages, find_file, find_pkg, reconf, traverse_files, validate_config,
    Config, FsNode, Startup, Stored, MAX_WALK_DEPTH,
};
use frida_gg::error::Error;

fn config(package: &str, path: &str) -> Config {
    Config { gg_package: package.to_string(), path: path.to_string() }
}

fn file(name: &str, path: &str) -> FsNode {
    FsNode::File { name: name.to_string(), path: path.to_string() }
}

fn dir(name: &str, path: &str, entries: Vec<FsNode>) -> FsNode {
    FsNode::Dir { name: name.to_string(), path: path.to_string(), entries }
}

fn target_app() -> FsNode {
    dir(
        "com.target.app",
        "/data/data/com.target.app",
        vec![
            dir("cache", "/data/data/com.target.app/cache", vec![]),
            dir(
                "files",
                "/data/data/com.target.app/files",
                vec![dir(
                    "lib",
                    "/data/data/com.target.app/files/lib",
                    vec![
                        file("version.gg", "/data/data/com.target.app/files/lib/version.gg"),
                        file("lib01.so", "/data/data/com.target.app/files/lib/lib01.so"),
                    ],
                )],
            ),
        ],
    )
}

fn other_app(name: &str) -> FsNode {
    dir(name, "/data/data/other", vec![dir("files", "/data/data/other/files", vec![file("a.txt", "/a.txt")])])
}

fn chain(levels: usize) -> FsNode {
    let mut node = file("lib01.so", "/deep/lib01.so");
    for _ in 0..levels {
        node = dir("d", "/deep", vec![node]);
    }
    node
}

#[test]
fn configuration_needs_package_and_path() {
    assert!(validate_config(&config("com.target.app", "/data/x")));
    assert!(!validate_config(&config("", "/data/x")));
    assert!(!validate_config(&config("com.target.app", "")));
    assert!(!validate_config(&config("", "")));
}

#[test]
fn absent_configuration_is_discovered_stored_and_loaded_again() {
    assert_eq!(configure(Stored::Absent), Startup::Locate);
    let base = dir("data", "/data/data", vec![other_app("com.other"), target_app()]);
    let found = find_pkg(&base);
    assert_eq!(
        found,
        Some(("com.target.app".to_string(), "/data/data/com.target.app/files/lib/lib01.so".to_string()))
    );
    let made = reconf(found).unwrap();
    assert_eq!(made, config("com.target.app", "/data/data/com.target.app/files/lib/lib01.so"));
    assert_eq!(
        configure(Stored::Found(made)),
        Startup::Use(config("com.target.app", "/data/data/com.target.app/files/lib/lib01.so"))
    );
}

#[test]
fn configuration_without_a_field_is_discovered_again() {
    assert_eq!(configure(Stored::Found(config("", "/p"))), Startup::Locate);
    assert_eq!(configure(Stored::Found(config("pkg", ""))), Startup::Locate);
}

#[test]
fn unreadable_configuration_ends_the_watchdog() {
    assert_eq!(configure(Stored::Unreadable), Startup::Fail(Error::ConfigurationUnavailable));
}

#[test]
fn no_target_found_ends_the_watchdog() {
    assert_eq!(reconf(None), Err(Error::ConfigurationUnavailable));
    assert_eq!(find_pkg(&dir("data", "/data/data", vec![other_app("a")])), None);
    assert_eq!(find_pkg(&dir("data", "/data/data", vec![])), None);
    assert_eq!(find_pkg(&file("data", "/data/data")), None);
}

#[test]
fn first_application_with_a_payload_is_the_target() {
    let second = dir(
        "com.second",
        "/data/data/com.second",
        vec![dir(
            "files",
            "/data/data/com.second/files",
            vec![
                file("lib01.so", "/data/data/com.second/files/lib01.so"),
                file("version.gg", "/data/data/com.second/files/version.gg"),
            ],
        )],
    );
    let apps = vec![other_app("com.first"), second, target_app()];
    assert_eq!(
        explore_app_packages(&apps),
        Some(("com.second".to_string(), "/data/data/com.second/files/lib01.so".to_string()))
    );
}

#[test]
fn hidden_and_nameless_entries_are_no_applications() {
    let hidden = match target_app() {
        FsNode::Dir { path, entries, .. } => FsNode::Dir { name: ".hidden".to_string(), path, entries },
        other => other,
    };
    let nameless = match target_app() {
        FsNode::Dir { path, entries, .. } => FsNode::Dir { name: String::new(), path, entries },
        other => other,
    };
    assert_eq!(explore_app_packages(&vec![hidden, nameless]), None);
}

#[test]
fn application_needs_a_files_directory() {
    let without = dir("com.a", "/data/data/com.a", vec![file("version.gg", "/v"), file("lib01.so", "/l")]);
    let as_file = dir("com.b", "/data/data/com.b", vec![file("files", "/data/data/com.b/files")]);
    assert_eq!(explore_app_packages(&vec![without, as_file, file("com.c", "/data/data/com.c")]), None);
}

#[test]
fn payload_needs_both_files() {
    let only_lib = dir("files", "/f", vec![file("lib01.so", "/f/lib01.so")]);
    let only_version = dir("files", "/f", vec![file("version.gg", "/f/version.gg")]);
    assert_eq!(traverse_files(&only_lib, "pkg"), None);
    assert_eq!(traverse_files(&only_version, "pkg"), None);
    assert_eq!(traverse_files(&file("files", "/f"), "pkg"), None);
    let apart = dir(
        "files",
        "/f",
        vec![
            dir("a", "/f/a", vec![file("lib01.so", "/f/a/lib01.so")]),
            dir("b", "/f/b", vec![file("lib01.so", "/f/b/lib01.so"), file("version.gg", "/f/b/version.gg")]),
        ],
    );
    assert_eq!(traverse_files(&apart, "pkg"), Some(("pkg".to_string(), "/f/a/lib01.so".to_string())));
}

#[test]
fn search_goes_no_deeper_than_the_cap() {
    assert_eq!(MAX_WALK_DEPTH, 16);
    assert_eq!(find_file(&chain(MAX_WALK_DEPTH), "lib01.so", MAX_WALK_DEPTH), Some("/deep/lib01.so"));
    assert_eq!(find_file(&chain(MAX_WALK_DEPTH + 1), "lib01.so", MAX_WALK_DEPTH), None);
    assert_eq!(find_file(&chain(0), "lib01.so", 0), Some("/deep/lib01.so"));
    assert_eq!(find_file(&chain(1), "lib01.so", 0), None);
    assert_eq!(find_file(&chain(1), "lib01.s", 5), None);
}
