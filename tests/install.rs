use java_setup::install::{locate_runtime_root, plan_relocation, relative_path, InstallAction, RelocationError, TreeEntry, WalkEntry};

fn walk(path: &str, depth: usize, is_dir: bool, has_bin_child: bool) -> WalkEntry {
    WalkEntry { path: path.to_string(), depth, is_dir, has_bin_child }
}

fn tree(path: &str, is_dir: bool) -> TreeEntry {
    TreeEntry { path: path.to_string(), is_dir }
}

#[test]
fn locates_root_at_depth_two() {
    let w = vec![
        walk("/x/a", 1, true, false),
        walk("/x/a/readme", 2, false, false),
        walk("/x/a/jdk", 2, true, true),
        walk("/x/a/jdk/bin", 3, true, false),
    ];
    assert_eq!(locate_runtime_root(&w), Some(2));
}

#[test]
fn no_root_within_depth_is_not_found() {
    let w = vec![
        walk("/x/a", 1, true, false),
        walk("/x/a/b", 2, true, false),
        walk("/x/a/b/c", 3, true, false),
        walk("/x/a/b/c/d", 4, true, true),
        walk("/x/f", 1, false, true),
    ];
    assert_eq!(locate_runtime_root(&w), None);
    assert_eq!(locate_runtime_root(&vec![]), None);
}

#[test]
fn extraction_dir_itself_is_not_a_root() {
    let w = vec![walk("/x", 0, true, true), walk("/x/jdk", 1, true, true)];
    assert_eq!(locate_runtime_root(&w), Some(1));
}

#[test]
fn first_match_wins() {
    let w = vec![walk("/x/a", 1, true, true), walk("/x/b", 1, true, true)];
    assert_eq!(locate_runtime_root(&w), Some(0));
}

#[test]
fn relative_paths() {
    assert_eq!(relative_path("/x/jdk", "/x/jdk"), Some(String::new()));
    assert_eq!(relative_path("/x/jdk/bin/java", "/x/jdk"), Some("bin/java".to_string()));
    assert_eq!(relative_path("C:\\x\\jdk\\bin", "C:\\x\\jdk"), Some("bin".to_string()));
    assert_eq!(relative_path("/x/jdk2", "/x/jdk"), None);
    assert_eq!(relative_path("/x", "/x/jdk"), None);
}

#[test]
fn relocation_replaces_existing_install() {
    let t = vec![tree("/x/jdk-17", true), tree("/x/jdk-17/bin", true), tree("/x/jdk-17/bin/java", false), tree("/x/jdk-17/release", false)];
    let acts = plan_relocation("/x/jdk-17", "/install/jdk-17", true, &t).unwrap();
    assert_eq!(
        acts,
        vec![
            InstallAction::RemoveAll("/install/jdk-17".to_string()),
            InstallAction::CreateDir("/install/jdk-17".to_string()),
            InstallAction::CreateDir("/install/jdk-17".to_string()),
            InstallAction::CreateDir("/install/jdk-17/bin".to_string()),
            InstallAction::CopyFile("/x/jdk-17/bin/java".to_string(), "/install/jdk-17/bin/java".to_string()),
            InstallAction::CopyFile("/x/jdk-17/release".to_string(), "/install/jdk-17/release".to_string()),
        ]
    );
}

#[test]
fn relocation_into_fresh_directory() {
    let acts = plan_relocation("/r", "/i", false, &vec![tree("/r/f", false)]).unwrap();
    assert_eq!(
        acts,
        vec![InstallAction::CreateDir("/i".to_string()), InstallAction::CopyFile("/r/f".to_string(), "/i/f".to_string())]
    );
}

#[test]
fn relocation_refuses_entry_outside_root() {
    let t = vec![tree("/r", true), tree("/other/f", false)];
    assert_eq!(plan_relocation("/r", "/i", false, &t), Err(RelocationError::OutsideRoot(1)));
}
