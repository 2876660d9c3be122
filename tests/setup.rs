use java_setup::catalog::{Json, Resolution};
use java_setup::extract::{ExtractError, FsAction};
use std::io::{Cursor, Write};
use java_setup::install::{InstallAction, TreeEntry, WalkEntry};
use java_setup::pipeline::{next_stage, JavaSetup, Outcome, Stage};
use java_setup::search_path::{contains_text, persistence_script, persistence_script_path, register_entry};

fn zip_bytes(entries: &[(&str, Option<&[u8]>)]) -> Vec<u8> {
    let mut w = zip::ZipWriter::new(Cursor::new(Vec::new()));
    for (name, data) in entries {
        match data {
            Some(d) => {
                w.start_file(*name, zip::write::FileOptions::default()).unwrap();
                w.write_all(d).unwrap();
            }
            None => w.add_directory(*name, zip::write::FileOptions::default()).unwrap(),
        }
    }
    w.finish().unwrap().into_inner()
}

#[test]
fn extract_reads_zip_archive() {
    let js = JavaSetup::new("17", "/d/jdk.zip", "/d/x", "/i");
    let archive = zip_bytes(&[("jdk-17/", None), ("jdk-17/bin/java", Some(b"JAVA")), ("jdk-17/release", Some(b""))]);
    assert_eq!(
        js.extractor.extract(archive).unwrap(),
        vec![
            FsAction::CreateDir("/d/x/jdk-17".to_string()),
            FsAction::WriteFile("/d/x/jdk-17/bin/java".to_string(), b"JAVA".to_vec()),
            FsAction::WriteFile("/d/x/jdk-17/release".to_string(), vec![]),
        ]
    );
}

#[test]
fn extract_neutralizes_parent_segments() {
    let js = JavaSetup::new("17", "/d/jdk.zip", "/d/x", "/i");
    let archive = zip_bytes(&[("../../evil", Some(b"E"))]);
    let acts = js.extractor.extract(archive).unwrap();
    assert_eq!(acts.len(), 1);
    match &acts[0] {
        FsAction::WriteFile(p, d) => {
            assert!(p.starts_with("/d/x/"));
            assert!(!p.contains(".."));
            assert_eq!(d, &b"E".to_vec());
        }
        other => panic!("unexpected action {:?}", other),
    }
}

#[test]
fn extract_refuses_garbage() {
    let js = JavaSetup::new("17", "/d/jdk.zip", "/d/x", "/i");
    assert_eq!(js.extractor.extract(b"not a zip".to_vec()), Err(ExtractError::UnreadableArchive));
    assert_eq!(js.extractor.extract(vec![]), Err(ExtractError::UnreadableArchive));
}

#[test]
fn extract_refuses_encrypted_entry() {
    let js = JavaSetup::new("17", "/d/jdk.zip", "/d/x", "/i");
    let mut archive = zip_bytes(&[("a", Some(b"data"))]);
    // Set the "encrypted" flag in the local and the central header of the one entry.
    archive[6] |= 1;
    let central = archive.windows(4).position(|w| w == [0x50, 0x4b, 0x01, 0x02]).unwrap();
    archive[central + 8] |= 1;
    assert_eq!(js.extractor.extract(archive), Err(ExtractError::UnreadableArchive));
}

fn obj(k: &str, v: Json) -> Json {
    Json::Object(vec![(k.to_string(), v)])
}

#[test]
fn register_adds_missing_entry() {
    assert_eq!(register_entry("C:\\Windows", "/opt/jdk/bin"), Some("C:\\Windows;/opt/jdk/bin".to_string()));
    assert_eq!(register_entry("", "/b"), Some(";/b".to_string()));
}

#[test]
fn register_twice_keeps_one_entry() {
    let once = register_entry("/usr/bin", "/opt/jdk/bin").unwrap();
    assert_eq!(register_entry(&once, "/opt/jdk/bin"), None);
    assert_eq!(once.matches("/opt/jdk/bin").count(), 1);
}

#[test]
fn register_skips_entry_present_as_substring() {
    assert_eq!(register_entry("/a;/opt/jdk/bin/extra", "/opt/jdk/bin"), None);
}

#[test]
fn substring_search() {
    assert!(contains_text("abcabd", "abd"));
    assert!(contains_text("abc", ""));
    assert!(!contains_text("ab", "abc"));
    assert!(!contains_text("abcab", "abd"));
}

#[test]
fn script_embeds_bin_path() {
    let sc = persistence_script("C:\\jdk\\bin");
    assert!(sc.starts_with("\n$jdkPath = \"C:\\jdk\\bin\"\n$userPath = [Environment]::GetEnvironmentVariable(\"PATH\", \"User\")\n"));
    assert!(sc.contains("if ($userPath -notlike \"*$jdkPath*\") {"));
    assert!(sc.ends_with("    Write-Host \"PATH already contains the JDK.\"\n}\n"));
}

#[test]
fn script_location_defaults() {
    assert_eq!(persistence_script_path(Some("C:\\T"), Some("D:")), "C:\\T\\add_jdk_to_path.ps1");
    assert_eq!(persistence_script_path(None, Some("D:")), "D:\\Temp\\add_jdk_to_path.ps1");
    assert_eq!(persistence_script_path(None, None), "C:\\Temp\\add_jdk_to_path.ps1");
}

#[test]
fn configure_uses_bin_of_install() {
    let js = JavaSetup::new("17", "/d/a.zip", "/d/x", "/install/jdk-17");
    assert_eq!(js.env_configurator.bin_dir("/"), "/install/jdk-17/bin");
    assert_eq!(js.env_configurator.configure("/usr/bin", "/"), Some("/usr/bin;/install/jdk-17/bin".to_string()));
    assert_eq!(js.env_configurator.configure("/usr/bin;/install/jdk-17/bin", "/"), None);
}

#[test]
fn configure_on_windows_paths() {
    let js = JavaSetup::new("17", "C:\\d\\a.zip", "C:\\d\\x", "C:\\jdk");
    assert_eq!(js.env_configurator.bin_dir("\\"), "C:\\jdk\\bin");
    assert_eq!(js.env_configurator.configure("C:\\Windows", "\\"), Some("C:\\Windows;C:\\jdk\\bin".to_string()));
    assert_eq!(js.env_configurator.configure("C:\\jdk\\bin2;D:\\x", "\\"), None);
    let once = js.env_configurator.configure("C:\\Windows", "\\").unwrap();
    assert_eq!(js.env_configurator.configure(&once, "\\"), None);
    assert_eq!(once.matches("C:\\jdk\\bin").count(), 1);
}

#[test]
fn successful_run_reaches_cleanup_then_done() {
    let mut st = Stage::EnsureDownloadDir;
    let mut seen = vec![st];
    for o in [Outcome::Succeeded, Outcome::Succeeded, Outcome::Succeeded, Outcome::Skipped, Outcome::Succeeded, Outcome::Succeeded] {
        st = next_stage(st, o);
        seen.push(st);
    }
    assert_eq!(
        seen,
        vec![Stage::EnsureDownloadDir, Stage::Fetch, Stage::Extract, Stage::LocateAndInstall, Stage::RegisterPath, Stage::Cleanup, Stage::Done]
    );
}

#[test]
fn failed_extraction_never_cleans_up() {
    let mut st = Stage::EnsureDownloadDir;
    st = next_stage(st, Outcome::Succeeded);
    st = next_stage(st, Outcome::Succeeded);
    assert_eq!(st, Stage::Extract);
    st = next_stage(st, Outcome::Fatal);
    assert_eq!(st, Stage::Failed);
    for o in [Outcome::Succeeded, Outcome::Skipped, Outcome::Fatal] {
        st = next_stage(st, o);
        assert_eq!(st, Stage::Failed);
    }
    assert_eq!(next_stage(Stage::Done, Outcome::Fatal), Stage::Done);
}

#[test]
fn missing_link_run_goes_on() {
    let js = JavaSetup::new("17", "/d/a.zip", "/d/x", "/i");
    assert_eq!(js.downloader.download(&Json::Array(vec![])), Resolution::NotFound);
    assert_eq!(next_stage(Stage::Fetch, Outcome::Skipped), Stage::Extract);
}

#[test]
fn end_to_end_plan() {
    let js = JavaSetup::new("17", "/d/jdk.zip", "/d/x", "/install/jdk-17");
    let catalog = Json::Array(vec![obj(
        "binaries",
        Json::Array(vec![obj("package", obj("link", Json::Str("http://host/jdk.zip".to_string())))]),
    )]);
    assert_eq!(js.downloader.download(&catalog), Resolution::Found("http://host/jdk.zip".to_string()));

    let archive = zip_bytes(&[("jdk-17/bin/java", Some(b"J")), ("jdk-17/release", Some(b"R"))]);
    assert_eq!(
        js.extractor.extract(archive).unwrap(),
        vec![
            FsAction::WriteFile("/d/x/jdk-17/bin/java".to_string(), b"J".to_vec()),
            FsAction::WriteFile("/d/x/jdk-17/release".to_string(), b"R".to_vec()),
        ]
    );

    let w = vec![
        WalkEntry { path: "/d/x/jdk-17".to_string(), depth: 1, is_dir: true, has_bin_child: true },
        WalkEntry { path: "/d/x/jdk-17/bin".to_string(), depth: 2, is_dir: true, has_bin_child: false },
    ];
    assert_eq!(js.installer.locate(&w), Some(0));

    let t = vec![
        TreeEntry { path: "/d/x/jdk-17".to_string(), is_dir: true },
        TreeEntry { path: "/d/x/jdk-17/bin".to_string(), is_dir: true },
        TreeEntry { path: "/d/x/jdk-17/bin/java".to_string(), is_dir: false },
        TreeEntry { path: "/d/x/jdk-17/release".to_string(), is_dir: false },
    ];
    let acts = js.installer.install("/d/x/jdk-17", false, &t).unwrap();
    assert!(acts.contains(&InstallAction::CopyFile("/d/x/jdk-17/bin/java".to_string(), "/install/jdk-17/bin/java".to_string())));
    assert!(acts.contains(&InstallAction::CopyFile("/d/x/jdk-17/release".to_string(), "/install/jdk-17/release".to_string())));

    let path = js.env_configurator.configure("/usr/bin", "/").unwrap();
    assert!(path.contains("/install/jdk-17/bin"));
    assert_eq!(js.download_dir(), "/d");
}
