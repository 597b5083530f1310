use migratory::box_manager::{
    matches_version_constraint, resolve_latest_matching_version, BoxManager, Version,
};

#[test]
fn test_version_parsing_and_constraints() {
    assert_eq!(
        Version::parse("1.2.3"),
        Some(Version {
            major: 1,
            minor: 2,
            patch: 3
        })
    );
    assert_eq!(
        Version::parse("v2.0"),
        Some(Version {
            major: 2,
            minor: 0,
            patch: 0
        })
    );
    assert!(Version::parse("invalid").is_none());

    assert!(matches_version_constraint("1.2.3", ">= 1.0.0, < 2.0.0"));
    assert!(!matches_version_constraint("2.0.0", ">= 1.0.0, < 2.0.0"));
    assert!(matches_version_constraint("1.2.5", "~> 1.2"));
    assert!(!matches_version_constraint("2.0.0", "~> 1.2"));
    assert!(!matches_version_constraint("1.0.0", "~> 1.2"));
    assert!(matches_version_constraint("1.2.9", "~> 1.2.3"));
    assert!(!matches_version_constraint("1.3.0", "~> 1.2.3"));
    assert!(!matches_version_constraint("1.1.9", "~> 1.2.0"));
    assert!(matches_version_constraint("2.1.0", "> 2.0.0"));
    assert!(matches_version_constraint("1.9.9", "<= 2.0.0"));
    assert!(matches_version_constraint("1.5.0", "!= 1.0.0"));
    assert!(!matches_version_constraint("1.0.0", "!= 1.0.0"));
    assert!(matches_version_constraint("1.0.0", "= 1.0.0"));

    assert_eq!(
        Version::parse("1"),
        Some(Version {
            major: 1,
            minor: 0,
            patch: 0
        })
    );
    assert_eq!(
        Version::parse("1.2.3-alpha"),
        Some(Version {
            major: 1,
            minor: 2,
            patch: 3
        })
    );
    assert_eq!(
        Version::parse("1.x.y"),
        Some(Version {
            major: 1,
            minor: 0,
            patch: 0
        })
    );
    assert_eq!(Version::parse(""), None);
    assert_eq!(Version::parse("v"), None);
    assert!(!matches_version_constraint("invalid_ver", ">= 1.0.0"));
    assert!(matches_version_constraint("1.0.0", ", 1.0.0, "));
    assert!(!matches_version_constraint("1.0.0", "~> invalid"));
    assert!(!matches_version_constraint("1.0.0", ">= invalid"));
    assert!(!matches_version_constraint("1.0.0", ">= 2.0.0"));
    assert!(!matches_version_constraint("1.0.0", "<= invalid"));
    assert!(!matches_version_constraint("2.0.0", "<= 1.0.0"));
    assert!(!matches_version_constraint("1.0.0", "> invalid"));
    assert!(!matches_version_constraint("1.0.0", "> 1.0.0"));
    assert!(!matches_version_constraint("1.0.0", "> 2.0.0"));
    assert!(!matches_version_constraint("1.0.0", "< invalid"));
    assert!(!matches_version_constraint("2.0.0", "< 1.0.0"));
    assert!(matches_version_constraint("1.0.0", "< 2.0.0"));
    assert!(!matches_version_constraint("1.0.0", "!= invalid"));
    assert!(!matches_version_constraint("1.0.0", "= invalid"));
    assert!(!matches_version_constraint("1.0.0", "= 2.0.0"));
    assert!(!matches_version_constraint("1.0.0", "invalid"));
    assert!(!matches_version_constraint("1.0.0", "2.0.0"));

    let versions = ["1.0.0", "1.1.0", "1.2.0", "1.2.5", "2.0.0"];
    let resolved = resolve_latest_matching_version(&versions, "~> 1.2.0");
    assert_eq!(resolved, Some("1.2.5"));

    let resolved_none = resolve_latest_matching_version(&versions, ">= 3.0.0");
    assert_eq!(resolved_none, None);

    let empty_versions: [&str; 0] = [];
    assert_eq!(
        resolve_latest_matching_version(&empty_versions, ">= 1.0.0"),
        None
    );
    let unsorted_versions = ["2.0.0", "1.0.0", "1.5.0"];
    assert_eq!(
        resolve_latest_matching_version(&unsorted_versions, ">= 1.0.0"),
        Some("2.0.0")
    );
}

#[test]
fn test_box_manager_new() {
    let manager = BoxManager::new("/tmp/.vagrant.d");
    assert_eq!(manager.global_boxes_dir, "/tmp/.vagrant.d/boxes");
}
