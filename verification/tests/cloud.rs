use migratory::cloud_cmd::{cloud_request, done_line, whoami_line, CloudAction, CloudArgs};

fn args() -> CloudArgs {
    CloudArgs {
        name: None,
        version: None,
        provider: None,
        description: None,
        short_description: None,
        checksum: None,
        checksum_type: None,
        file_path: None,
    }
}

#[test]
fn cloud_requests_fill_empty_defaults() {
    let r = cloud_request(CloudAction::ProviderCreate, args());
    assert!(matches!(r.action, CloudAction::ProviderCreate));
    assert_eq!((r.name.as_str(), r.version.as_str(), r.provider.as_str()), ("", "", ""));

    let mut a = args();
    a.name = Some("hashicorp/bionic64".to_string());
    a.version = Some("1.0.282".to_string());
    a.provider = Some("virtualbox".to_string());
    a.checksum = Some("abc".to_string());
    a.checksum_type = Some("sha256".to_string());
    let r = cloud_request(CloudAction::ProviderUpdate, a);
    assert_eq!(r.name, "hashicorp/bionic64");
    assert_eq!(r.version, "1.0.282");
    assert_eq!(r.provider, "virtualbox");
    assert_eq!(r.checksum.as_deref(), Some("abc"));
    assert_eq!(r.checksum_type.as_deref(), Some("sha256"));
    assert_eq!(r.description, None);
}

#[test]
fn cloud_done_lines() {
    assert_eq!(
        done_line(&CloudAction::AuthLogin, false).as_deref(),
        Some("Please use `migratory login` for interactive authentication.")
    );
    assert_eq!(done_line(&CloudAction::AuthLogout, false).as_deref(), Some("Logged out successfully."));
    assert_eq!(done_line(&CloudAction::AuthWhoami, false), None);
    assert_eq!(done_line(&CloudAction::BoxShow, false), None);
    assert_eq!(done_line(&CloudAction::BoxCreate, false).as_deref(), Some("Box created successfully."));
    assert_eq!(done_line(&CloudAction::BoxDelete, false).as_deref(), Some("Box deleted successfully."));
    assert_eq!(done_line(&CloudAction::BoxUpdate, false).as_deref(), Some("Box updated successfully."));
    assert_eq!(
        done_line(&CloudAction::ProviderUpload, true).as_deref(),
        Some("Provider upload successful.")
    );
    assert_eq!(
        done_line(&CloudAction::ProviderUpload, false).as_deref(),
        Some("No file path provided for upload.")
    );
    assert_eq!(
        done_line(&CloudAction::VersionRevoke, false).as_deref(),
        Some("Version revoked successfully.")
    );
    assert_eq!(
        done_line(&CloudAction::VersionRelease, false).as_deref(),
        Some("Version released successfully.")
    );
    assert_eq!(whoami_line("testuser"), "Currently logged in as: testuser");
}
