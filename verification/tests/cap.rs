use migratory::cap::{dispatch_guest_cap, execute, CapArgs, Communicator, Guest, NetworkConfig};
use migratory::error::MigratoryError;
use migratory::output::LineSink;

struct FailingWriter;

impl LineSink for FailingWriter {
    fn write_line(&mut self, _line: &str) -> Result<(), MigratoryError> {
        Err(MigratoryError::Io("write failed".to_string()))
    }
}

struct TestComm {
    fail: bool,
}

impl Communicator for TestComm {
    fn execute(&self, command: &str) -> Result<String, MigratoryError> {
        if self.fail {
            return Err(MigratoryError::Generic("comm failure".to_string()));
        }
        if command.contains("which rsync") {
            return Ok("/usr/bin/rsync".to_string());
        }
        Ok("".to_string())
    }
    fn upload(&self, _local: &str, _remote: &str) -> Result<(), MigratoryError> {
        Ok(())
    }
    fn download(&self, _remote: &str, _local: &str) -> Result<(), MigratoryError> {
        Ok(())
    }
    fn execute_interactive(&self) -> Result<(), MigratoryError> {
        Ok(())
    }
    fn wait_for_ready(&self, _timeout: std::time::Duration) -> Result<(), MigratoryError> {
        Ok(())
    }
}

/// A guest whose capabilities run their commands through the communicator.
struct ShellGuest;

impl Guest for ShellGuest {
    fn detect(&self, comm: &dyn Communicator) -> Result<bool, MigratoryError> {
        comm.execute("uname -s").map(|_| true)
    }
    fn change_hostname(&self, comm: &dyn Communicator, hostname: &str) -> Result<(), MigratoryError> {
        comm.execute(&format!("hostname {}", hostname)).map(|_| ())
    }
    fn configure_networks(
        &self,
        comm: &dyn Communicator,
        _networks: &[NetworkConfig],
    ) -> Result<(), MigratoryError> {
        comm.execute("true").map(|_| ())
    }
    fn mount_shared_folder(
        &self,
        comm: &dyn Communicator,
        name: &str,
        guest_path: &str,
    ) -> Result<(), MigratoryError> {
        comm.execute(&format!("mount -t vboxsf {} {}", name, guest_path))
            .map(|_| ())
    }
    fn halt(&self, comm: &dyn Communicator) -> Result<(), MigratoryError> {
        comm.execute("shutdown -h now").map(|_| ())
    }
    fn update_guest_additions(
        &self,
        comm: &dyn Communicator,
        provider: &str,
        _version: Option<&str>,
    ) -> Result<(), MigratoryError> {
        comm.execute(&format!("update-additions {}", provider))
            .map(|_| ())
    }
    fn mount_virtualbox_shared_folder(
        &self,
        comm: &dyn Communicator,
        name: &str,
        guest_path: &str,
    ) -> Result<(), MigratoryError> {
        comm.execute(&format!("mount -t vboxsf {} {}", name, guest_path))
            .map(|_| ())
    }
    fn mount_nfs_folder(
        &self,
        comm: &dyn Communicator,
        host_ip: &str,
        host_path: &str,
        guest_path: &str,
    ) -> Result<(), MigratoryError> {
        comm.execute(&format!("mount {}:{} {}", host_ip, host_path, guest_path))
            .map(|_| ())
    }
    fn mount_smb_shared_folder(
        &self,
        comm: &dyn Communicator,
        host_path: &str,
        guest_path: &str,
        _username: &str,
        _password: &str,
    ) -> Result<(), MigratoryError> {
        comm.execute(&format!("mount -t cifs {} {}", host_path, guest_path))
            .map(|_| ())
    }
    fn rsync_installed(&self, comm: &dyn Communicator) -> Result<bool, MigratoryError> {
        comm.execute("which rsync").map(|out| !out.is_empty())
    }
}

struct FailGuest;

impl Guest for FailGuest {
    fn detect(&self, _comm: &dyn Communicator) -> Result<bool, MigratoryError> {
        Ok(false)
    }
    fn change_hostname(&self, _comm: &dyn Communicator, _hostname: &str) -> Result<(), MigratoryError> {
        Err(MigratoryError::Generic("fail".into()))
    }
    fn configure_networks(
        &self,
        _comm: &dyn Communicator,
        _networks: &[NetworkConfig],
    ) -> Result<(), MigratoryError> {
        Err(MigratoryError::Generic("fail".into()))
    }
    fn mount_shared_folder(
        &self,
        _comm: &dyn Communicator,
        _name: &str,
        _guest_path: &str,
    ) -> Result<(), MigratoryError> {
        Err(MigratoryError::Generic("fail".into()))
    }
    fn halt(&self, _comm: &dyn Communicator) -> Result<(), MigratoryError> {
        Err(MigratoryError::Generic("fail".into()))
    }
    fn update_guest_additions(
        &self,
        _comm: &dyn Communicator,
        _provider: &str,
        _version: Option<&str>,
    ) -> Result<(), MigratoryError> {
        Err(MigratoryError::Generic("fail".into()))
    }
    fn mount_virtualbox_shared_folder(
        &self,
        _comm: &dyn Communicator,
        _name: &str,
        _guest_path: &str,
    ) -> Result<(), MigratoryError> {
        Err(MigratoryError::Generic("fail".into()))
    }
    fn mount_nfs_folder(
        &self,
        _comm: &dyn Communicator,
        _host_ip: &str,
        _host_path: &str,
        _guest_path: &str,
    ) -> Result<(), MigratoryError> {
        Err(MigratoryError::Generic("fail".into()))
    }
    fn mount_smb_shared_folder(
        &self,
        _comm: &dyn Communicator,
        _host_path: &str,
        _guest_path: &str,
        _username: &str,
        _password: &str,
    ) -> Result<(), MigratoryError> {
        Err(MigratoryError::Generic("fail".into()))
    }
    fn rsync_installed(&self, _comm: &dyn Communicator) -> Result<bool, MigratoryError> {
        Err(MigratoryError::Generic("fail".into()))
    }
}

fn all_caps() -> Vec<(&'static str, Vec<String>)> {
    vec![
        ("change_hostname", vec!["webhost".to_string()]),
        ("configure_networks", vec![]),
        ("mount_shared_folder", vec!["sh".to_string(), "/mnt/sh".to_string()]),
        ("halt", vec![]),
        ("update_guest_additions", vec![]),
        (
            "mount_virtualbox_shared_folder",
            vec!["vbox".to_string(), "/mnt/vb".to_string()],
        ),
        (
            "mount_nfs_folder",
            vec!["10.0.0.1".to_string(), "/srv".to_string(), "/mnt/nfs".to_string()],
        ),
        (
            "mount_smb_folder",
            vec![
                "//srv/sh".to_string(),
                "/mnt/smb".to_string(),
                "usr".to_string(),
                "pwd".to_string(),
            ],
        ),
        ("rsync_installed", vec![]),
    ]
}

#[test]
fn test_dispatch_all_guest_capabilities() {
    let guest = ShellGuest;
    let comm = TestComm { fail: false };
    for (cap, extra) in all_caps() {
        let mut writer = String::new();
        let res = dispatch_guest_cap(&guest, &comm, cap, &extra, "virtualbox", &mut writer);
        assert!(res.is_ok(), "Capability {} failed: {:?}", cap, res);
    }

    let mut writer = String::new();
    let unknown = dispatch_guest_cap(&guest, &comm, "unknown_xyz", &[], "virtualbox", &mut writer);
    assert!(unknown.is_err());
}

#[test]
fn test_dispatch_guest_cap_failures() {
    let guest = FailGuest;
    let comm = TestComm { fail: false };
    let mut writer = String::new();

    let caps = [
        ("change_hostname", vec!["host".to_string()]),
        ("configure_networks", vec![]),
        ("mount_shared_folder", vec!["v".to_string(), "/v".to_string()]),
        ("halt", vec![]),
        ("update_guest_additions", vec![]),
        (
            "mount_virtualbox_shared_folder",
            vec!["v".to_string(), "/v".to_string()],
        ),
        (
            "mount_nfs_folder",
            vec!["1.1.1.1".to_string(), "/h".to_string(), "/g".to_string()],
        ),
        ("mount_smb_folder", vec!["//h/s".to_string(), "/g".to_string()]),
        ("rsync_installed", vec![]),
    ];

    for (cap, extra) in caps {
        let res = dispatch_guest_cap(&guest, &comm, cap, &extra, "virtualbox", &mut writer);
        assert!(res.is_err(), "Expected capability {} to fail", cap);
    }
}

#[test]
fn test_dispatch_guest_cap_writer_failures() {
    let guest = ShellGuest;
    let comm = TestComm { fail: false };
    let caps = [
        ("change_hostname", vec!["host".to_string()]),
        ("configure_networks", vec![]),
        ("mount_shared_folder", vec!["v".to_string(), "/v".to_string()]),
        ("halt", vec![]),
        ("update_guest_additions", vec![]),
        (
            "mount_virtualbox_shared_folder",
            vec!["v".to_string(), "/v".to_string()],
        ),
        (
            "mount_nfs_folder",
            vec!["1.1.1.1".to_string(), "/h".to_string(), "/g".to_string()],
        ),
        ("mount_smb_folder", vec!["//h/s".to_string(), "/g".to_string()]),
        ("rsync_installed", vec![]),
    ];

    for (cap, extra) in caps {
        let mut fail_writer = FailingWriter;
        let res = dispatch_guest_cap(&guest, &comm, cap, &extra, "virtualbox", &mut fail_writer);
        assert!(res.is_err(), "Expected write failure for capability {}", cap);
    }
}

fn cap_args(name: Option<&str>, capability: Option<&str>, check: bool) -> CapArgs {
    CapArgs {
        name: name.map(|s| s.to_string()),
        capability: capability.map(|s| s.to_string()),
        extra_args: vec![],
        check,
        target_guest: None,
    }
}

#[test]
fn test_execute_cap_unsupported() {
    let args = cap_args(None, Some("unknown_cap_123"), false);
    let mut out = String::new();
    let result = execute(&args, &mut out);
    assert!(result.is_err());
}

#[test]
fn test_execute_cap_check_unsupported() {
    let args = cap_args(None, Some("unknown_cap_123"), true);
    let mut out = String::new();
    let result = execute(&args, &mut out);
    assert!(result.is_err());
}

#[test]
fn test_execute_cap_shift() {
    let args = cap_args(Some("halt"), None, true);
    let mut out = String::new();
    assert!(execute(&args, &mut out).is_ok());
    assert_eq!(out.trim(), "Capability 'halt' is supported.");
}

#[test]
fn test_execute_cap_shift_unsupported() {
    let args = cap_args(Some("unsupported_cap"), None, false);
    let mut out = String::new();
    assert!(execute(&args, &mut out).is_err());
}

#[test]
fn test_execute_cap_some_some() {
    let args = cap_args(Some("default"), Some("halt"), true);
    let mut out = String::new();
    assert!(execute(&args, &mut out).is_ok());
}

#[test]
fn test_execute_cap_none() {
    let args = cap_args(None, None, false);
    let mut out = String::new();
    assert!(execute(&args, &mut out).is_ok());
    assert_eq!(out.trim(), "Please specify a capability to execute.");
}

#[test]
fn test_execute_cap_check() {
    let args = cap_args(None, Some("halt"), true);
    let mut out = String::new();
    assert!(execute(&args, &mut out).is_ok());
    assert_eq!(out.trim(), "Capability 'halt' is supported.");
}
