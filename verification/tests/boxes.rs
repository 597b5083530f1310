use migratory::box_manager::{keeping_line, prune_steps, pruning_line, PruneStep};
use migratory::mutate::pick_source;
use migratory::box_cmd::{
    box_is_outdated, box_name_from_dir, is_url_or_path, list_line, no_provider_error,
    select_add_source, select_box_update,
};
use migratory::box_manager::{
    box_source, compute_checksum, missing_box_file_error, missing_provider_error, package_name,
    path_join, prune_versions, provider_selected, safe_name, select_update, sort_versions, to_hex,
    verify_checksum, BoxManager, BoxSource, RemoteProvider, RemoteVersion, Version,
    latest_local_version, has_newer_version, matches_version_constraint,
};
use migratory::error::MigratoryError;

fn strings(v: &[&str]) -> Vec<String> {
    v.iter().map(|s| s.to_string()).collect()
}

fn provider(name: &str) -> RemoteProvider {
    RemoteProvider {
        name: name.to_string(),
        url: format!("https://boxes/{}", name),
        checksum: None,
        checksum_type: None,
    }
}

fn remote(version: &str, providers: &[&str]) -> RemoteVersion {
    RemoteVersion {
        version: version.to_string(),
        providers: providers.iter().map(|p| provider(p)).collect(),
    }
}

#[test]
fn paths_and_names() {
    assert_eq!(path_join("", "boxes"), "boxes");
    assert_eq!(path_join("/tmp/", "boxes"), "/tmp/boxes");
    assert_eq!(path_join("/tmp", "/abs"), "/abs");
    assert_eq!(safe_name("hashicorp/bionic64"), "hashicorp-VAGRANTSLASH-bionic64");
    assert_eq!(box_name_from_dir("hashicorp-VAGRANTSLASH-bionic64"), "hashicorp/bionic64");
    let m = BoxManager::new("/h/.vagrant.d");
    assert_eq!(
        m.install_dir("hashicorp/bionic64", "1.0.0", "virtualbox"),
        "/h/.vagrant.d/boxes/hashicorp-VAGRANTSLASH-bionic64/1.0.0/virtualbox"
    );
    assert_eq!(m.box_dir("a/b"), "/h/.vagrant.d/boxes/a-VAGRANTSLASH-b");
    assert_eq!(
        package_name("a/b", "1.2.0", "libvirt"),
        "package-a-VAGRANTSLASH-b-1.2.0-libvirt.box"
    );
}

#[test]
fn hex_and_checksums() {
    assert_eq!(to_hex(&[0x00, 0x0f, 0xa5, 0xff]), "000fa5ff");
    assert_eq!(
        compute_checksum("sha256", b"abc").as_deref(),
        Some("ba7816bf8f01cfea414140de5dae2223b00361a396177a9cb410ff61f20015ad")
    );
    assert_eq!(
        compute_checksum("md5", b"abc").as_deref(),
        Some("900150983cd24fb0d6963f7d28e17f72")
    );
    assert_eq!(
        compute_checksum("sha1", b"abc").as_deref(),
        Some("a9993e364706816aba3e25717850c26c9cd0d89d")
    );
    assert_eq!(compute_checksum("sha512", b"abc").map(|h| h.len()), Some(128));
    assert_eq!(compute_checksum("crc32", b"abc"), None);

    assert!(verify_checksum(b"abc", Some("md5"), Some("900150983cd24fb0d6963f7d28e17f72")).is_ok());
    assert!(verify_checksum(b"abc", Some("unknown"), Some("x")).is_ok());
    assert!(verify_checksum(b"abc", None, Some("x")).is_ok());
    assert!(verify_checksum(b"abc", Some("md5"), None).is_ok());
    assert_eq!(
        verify_checksum(b"abc", Some("md5"), Some("deadbeef")),
        Err(MigratoryError::Generic(
            "Checksum mismatch: expected deadbeef, got 900150983cd24fb0d6963f7d28e17f72".to_string()
        ))
    );
}

#[test]
fn box_sources() {
    assert_eq!(box_source("https://example.com/a.box"), BoxSource::Http);
    assert_eq!(box_source("http://example.com/a.box"), BoxSource::Http);
    assert_eq!(
        box_source("file:///tmp/a.box"),
        BoxSource::Local("/tmp/a.box".to_string())
    );
    assert_eq!(box_source("/tmp/a.box"), BoxSource::Local("/tmp/a.box".to_string()));
    assert_eq!(
        missing_box_file_error("/x.box"),
        MigratoryError::NotFound("Box file not found at: /x.box".to_string())
    );
}

#[test]
fn outdated_decisions() {
    let m = BoxManager::new("/h");
    assert_eq!(
        m.outdated("", None, None),
        Err(MigratoryError::Generic("Name cannot be empty".to_string()))
    );
    let local = strings(&["1.0.0", "0.9.0", "notes.txt"]);
    assert_eq!(
        latest_local_version(&local),
        Version {
            major: 1,
            minor: 0,
            patch: 0
        }
    );
    let newer = strings(&["0.5.0", "1.1.0"]);
    let older = strings(&["0.5.0", "1.0.0"]);
    assert!(has_newer_version(&latest_local_version(&local), &newer));
    assert_eq!(m.outdated("a/b", Some(&local), Some(&newer)), Ok(true));
    assert_eq!(m.outdated("a/b", Some(&local), Some(&older)), Ok(false));
    assert_eq!(m.outdated("a/b", None, Some(&newer)), Ok(false));
    assert_eq!(m.outdated("a/b", Some(&local), None), Ok(false));
}

#[test]
fn repackage_decisions() {
    let m = BoxManager::new("/h");
    assert_eq!(
        m.repackage_version("", None),
        Err(MigratoryError::Generic("Name cannot be empty".to_string()))
    );
    assert_eq!(
        m.repackage_version("a/b", None),
        Err(MigratoryError::NotFound("Box 'a/b'".to_string()))
    );
    assert_eq!(
        m.repackage_version("a/b", Some(&vec![])),
        Err(MigratoryError::NotFound("No versions found for box 'a/b'".to_string()))
    );
    assert_eq!(
        m.repackage_version("a/b", Some(&strings(&["1.10.0", "1.9.0", "1.2.0"]))),
        Ok("1.9.0".to_string())
    );
    assert_eq!(
        missing_provider_error("qemu", "a/b", "1.0"),
        MigratoryError::NotFound("Provider 'qemu' not found for box 'a/b' version '1.0'".to_string())
    );
}

#[test]
fn update_and_add_selection() {
    let versions = vec![
        remote("1.0.0", &["virtualbox"]),
        remote("2.0.0", &["vmware", "virtualbox"]),
        remote("2.0", &["libvirt"]),
        remote("bogus", &["virtualbox"]),
    ];
    assert_eq!(select_update(&versions, None), Some((1, 0)));
    assert_eq!(select_update(&versions, Some("virtualbox")), Some((1, 1)));
    assert_eq!(select_update(&versions, Some("libvirt")), None);

    assert_eq!(select_add_source(&versions, None, None), Some((0, 0)));
    assert_eq!(select_add_source(&versions, Some("2.0.0"), Some("virtualbox")), Some((1, 1)));
    assert_eq!(select_add_source(&versions, None, Some("libvirt")), Some((2, 0)));
    assert_eq!(select_add_source(&versions, Some("3.0"), None), None);
    assert_eq!(
        no_provider_error("virtualbox", "a/b"),
        MigratoryError::Generic("Could not find a matching provider 'virtualbox' for box 'a/b'".to_string())
    );

    assert_eq!(select_box_update(&versions, None), Some((3, 0)));
    assert_eq!(select_box_update(&versions, Some("vmware")), Some((1, 0)));
    assert_eq!(select_box_update(&versions, Some("none")), None);
}

#[test]
fn box_command_helpers() {
    assert!(is_url_or_path("https://x/y.box"));
    assert!(is_url_or_path("local.box"));
    assert!(!is_url_or_path("hashicorp/bionic64"));
    assert_eq!(list_line("a/b", "virtualbox", "1.0"), "a/b (virtualbox, 1.0)");
    assert!(box_is_outdated(&strings(&["1.0.0"]), &strings(&["0.9.0", "1.1.0"])));
    assert!(!box_is_outdated(&strings(&["1.0.0"]), &strings(&["1.0.0"])));
    assert!(!box_is_outdated(&strings(&["1.0.0"]), &strings(&[])));
}

#[test]
fn pruning_plans() {
    assert!(prune_versions(&strings(&["1.0.0"])).is_none());
    let plan = prune_versions(&strings(&["1.2.0", "1.10.0", "1.0.0"])).expect("plan");
    assert_eq!(plan.keep, "1.10.0");
    assert_eq!(plan.remove, strings(&["1.0.0", "1.2.0"]));
    let plan = prune_versions(&strings(&["9.0.0", "10.0.0"])).expect("plan");
    assert_eq!(plan.keep, "10.0.0");
    assert_eq!(plan.remove, strings(&["9.0.0"]));
    let plan = prune_versions(&strings(&["2.0", "latest", "1.0.0", "2.0.0"])).expect("plan");
    assert_eq!(plan.keep, "2.0.0");
    assert_eq!(plan.remove, strings(&["latest", "1.0.0", "2.0"]));
    assert_eq!(
        sort_versions(&strings(&["b", "1.0", "a", "0.9.9", "a"])),
        strings(&["a", "a", "b", "0.9.9", "1.0"])
    );
    assert!(provider_selected(None, "virtualbox"));
    assert!(provider_selected(Some("virtualbox"), "virtualbox"));
    assert!(!provider_selected(Some("vmware"), "virtualbox"));
}

#[test]
fn parsed_version_text_round_trip() {
    for (a, b, c) in [(0u64, 0u64, 0u64), (1, 22, 333), (u64::MAX, 10, 7)] {
        let text = format!("{}.{}.{}", a, b, c);
        assert_eq!(
            Version::parse(&text),
            Some(Version {
                major: a,
                minor: b,
                patch: c
            })
        );
    }
    assert!(migratory::box_manager::matches_version_constraint("3.1.4", ""));
    assert!(!migratory::box_manager::matches_version_constraint("x", ""));
}


#[test]
fn test_stubs() {
    let manager = BoxManager::new("/nonexistent/.vagrant.d");
    assert_eq!(
        manager.outdated("box", None, None).expect("operation should succeed"),
        false
    );
    assert!(manager.repackage_version("box", None).is_err());
}

#[test]
fn compound_constraints_are_conjunctions() {
    for v in ["0.9.0", "1.0.0", "1.5.0", "2.0.0"] {
        assert_eq!(
            matches_version_constraint(v, ">= 1.0.0,< 2.0.0"),
            matches_version_constraint(v, ">= 1.0.0") && matches_version_constraint(v, "< 2.0.0")
        );
    }
}

#[test]
fn pruning_lines() {
    assert_eq!(keeping_line("10.0.0", "hashicorp/bionic64"), "Keeping latest version 10.0.0 for box hashicorp/bionic64");
    assert_eq!(
        pruning_line(true, "b", "9.0.0", "virtualbox"),
        "Would remove: b (v9.0.0) provider: virtualbox"
    );
    assert_eq!(
        pruning_line(false, "b", "9.0.0", "virtualbox"),
        "Removing: b (v9.0.0) provider: virtualbox"
    );
}

#[test]
fn mutate_source_is_first_matching_provider() {
    let tree = vec![
        ("1.0.0".to_string(), vec![]),
        ("2.0.0".to_string(), vec!["virtualbox".to_string(), "libvirt".to_string()]),
        ("3.0.0".to_string(), vec!["libvirt".to_string()]),
    ];
    assert_eq!(pick_source(&tree, None), Some((1, 0)));
    assert_eq!(pick_source(&tree, Some("libvirt")), Some((1, 1)));
    assert_eq!(pick_source(&tree, Some("vmware")), None);
    assert_eq!(pick_source(&vec![], None), None);
}

fn describe(steps: Vec<PruneStep>) -> Vec<String> {
    steps
        .into_iter()
        .map(|s| match s {
            PruneStep::Report(l) => format!("say {}", l),
            PruneStep::RemoveProvider(v, p) => format!("rm {}/{}", v, p),
            PruneStep::RemoveVersion(v) => format!("rmdir {}", v),
        })
        .collect()
}

#[test]
fn pruning_steps_dry_run_and_removal() {
    let plan = prune_versions(&strings(&["2.0.0", "1.0.0", "3.0.0"])).expect("plan");
    let listings = vec![strings(&["virtualbox", "libvirt"]), strings(&["libvirt"])];
    let dry = describe(prune_steps("org/box", &plan, &listings, None, true));
    assert_eq!(
        dry,
        strings(&[
            "say Keeping latest version 3.0.0 for box org/box",
            "say Would remove: org/box (v1.0.0) provider: virtualbox",
            "say Would remove: org/box (v1.0.0) provider: libvirt",
            "say Would remove: org/box (v2.0.0) provider: libvirt",
        ])
    );
    let real = describe(prune_steps("org/box", &plan, &listings, Some("libvirt"), false));
    assert_eq!(
        real,
        strings(&[
            "say Keeping latest version 3.0.0 for box org/box",
            "say Removing: org/box (v1.0.0) provider: libvirt",
            "rm 1.0.0/libvirt",
            "rmdir 1.0.0",
            "say Removing: org/box (v2.0.0) provider: libvirt",
            "rm 2.0.0/libvirt",
            "rmdir 2.0.0",
        ])
    );
    let none_selected = describe(prune_steps("b", &plan, &listings, Some("vmware"), true));
    assert_eq!(none_selected, strings(&["say Keeping latest version 3.0.0 for box b"]));
}
