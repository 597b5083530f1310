use migratory::cap::{dispatch_guest_cap, run_host_cap, Communicator, Guest, Host, NetworkConfig};
use migratory::error::MigratoryError;
use std::cell::RefCell;

struct Comm;

impl Communicator for Comm {
    fn execute(&self, _command: &str) -> Result<String, MigratoryError> {
        Ok(String::new())
    }
    fn upload(&self, _local: &str, _remote: &str) -> Result<(), MigratoryError> {
        Ok(())
    }
    fn download(&self, _remote: &str, _local: &str) -> Result<(), MigratoryError> {
        Ok(())
    }
    fn execute_interactive(&self) -> Result<(), MigratoryError> {
        Ok(())
    }
    fn wait_for_ready(&self, _timeout: std::time::Duration) -> Result<(), MigratoryError> {
        Ok(())
    }
}

/// A guest that records each call with its arguments.
#[derive(Default)]
struct Recording {
    calls: RefCell<Vec<String>>,
}

impl Recording {
    fn note(&self, call: String) -> Result<(), MigratoryError> {
        self.calls.borrow_mut().push(call);
        Ok(())
    }
}

impl Guest for Recording {
    fn detect(&self, _comm: &dyn Communicator) -> Result<bool, MigratoryError> {
        Ok(true)
    }
    fn change_hostname(&self, _comm: &dyn Communicator, hostname: &str) -> Result<(), MigratoryError> {
        self.note(format!("hostname {}", hostname))
    }
    fn configure_networks(
        &self,
        _comm: &dyn Communicator,
        networks: &[NetworkConfig],
    ) -> Result<(), MigratoryError> {
        self.note(format!("networks {}", networks.len()))
    }
    fn mount_shared_folder(
        &self,
        _comm: &dyn Communicator,
        name: &str,
        guest_path: &str,
    ) -> Result<(), MigratoryError> {
        self.note(format!("shared {} {}", name, guest_path))
    }
    fn halt(&self, _comm: &dyn Communicator) -> Result<(), MigratoryError> {
        Err(MigratoryError::Generic("cannot halt".to_string()))
    }
    fn update_guest_additions(
        &self,
        _comm: &dyn Communicator,
        provider: &str,
        version: Option<&str>,
    ) -> Result<(), MigratoryError> {
        self.note(format!("additions {} {:?}", provider, version))
    }
    fn mount_virtualbox_shared_folder(
        &self,
        _comm: &dyn Communicator,
        name: &str,
        guest_path: &str,
    ) -> Result<(), MigratoryError> {
        self.note(format!("vbox {} {}", name, guest_path))
    }
    fn mount_nfs_folder(
        &self,
        _comm: &dyn Communicator,
        host_ip: &str,
        host_path: &str,
        guest_path: &str,
    ) -> Result<(), MigratoryError> {
        self.note(format!("nfs {} {} {}", host_ip, host_path, guest_path))
    }
    fn mount_smb_shared_folder(
        &self,
        _comm: &dyn Communicator,
        host_path: &str,
        guest_path: &str,
        username: &str,
        password: &str,
    ) -> Result<(), MigratoryError> {
        self.note(format!("smb {} {} {} {}", host_path, guest_path, username, password))
    }
    fn rsync_installed(&self, _comm: &dyn Communicator) -> Result<bool, MigratoryError> {
        self.calls.borrow_mut().push("rsync".to_string());
        Ok(false)
    }
}

#[test]
fn guest_methods_get_the_resolved_arguments() {
    let guest = Recording::default();
    let mut out = String::new();
    let args = vec!["192.168.1.1".to_string(), "/srv".to_string()];
    assert!(dispatch_guest_cap(&guest, &Comm, "mount_nfs_folder", &args, "virtualbox", &mut out).is_ok());
    assert!(dispatch_guest_cap(&guest, &Comm, "mount_smb_folder", &[], "virtualbox", &mut out).is_ok());
    assert!(dispatch_guest_cap(&guest, &Comm, "update_guest_additions", &[], "libvirt", &mut out).is_ok());
    assert!(dispatch_guest_cap(&guest, &Comm, "rsync_installed", &[], "virtualbox", &mut out).is_ok());
    assert_eq!(
        guest.calls.into_inner(),
        vec![
            "nfs 192.168.1.1 /srv /mnt/nfs",
            "smb //localhost/share /mnt/smb guest ",
            "additions libvirt None",
            "rsync",
        ]
    );
    assert_eq!(
        out,
        "Mounting NFS folder '192.168.1.1:/srv' at '/mnt/nfs'...\n\
         Mounting SMB folder '//localhost/share' at '/mnt/smb'...\n\
         Updating guest additions for provider 'libvirt'...\n\
         Rsync installed on guest: false\n"
    );
}

#[test]
fn guest_errors_are_the_result_after_the_announcement() {
    let guest = Recording::default();
    let mut out = String::new();
    assert_eq!(
        dispatch_guest_cap(&guest, &Comm, "halt", &[], "virtualbox", &mut out),
        Err(MigratoryError::Generic("cannot halt".to_string()))
    );
    assert_eq!(out, "Halting guest OS...\n");
}

/// A host that records which capability ran.
#[derive(Default)]
struct RecordingHost {
    calls: RefCell<Vec<&'static str>>,
}

impl Host for RecordingHost {
    fn check_admin(&self) -> Result<bool, MigratoryError> {
        self.calls.borrow_mut().push("admin");
        Err(MigratoryError::Generic("no shell".to_string()))
    }
    fn configure_nfs(&self, exports: &[String]) -> Result<(), MigratoryError> {
        assert!(exports.is_empty());
        self.calls.borrow_mut().push("nfs");
        Ok(())
    }
    fn configure_smb(&self, shares: &[String]) -> Result<(), MigratoryError> {
        assert!(shares.is_empty());
        self.calls.borrow_mut().push("smb");
        Ok(())
    }
}

#[test]
fn host_capabilities_run_their_own_method() {
    let host = RecordingHost::default();
    let mut out = String::new();
    assert!(run_host_cap(&host, "configure_nfs", &mut out).is_ok());
    assert!(run_host_cap(&host, "configure_smb", &mut out).is_ok());
    assert_eq!(
        run_host_cap(&host, "check_admin", &mut out),
        Err(MigratoryError::Generic("no shell".to_string()))
    );
    assert_eq!(host.calls.into_inner(), vec!["nfs", "smb", "admin"]);
    assert_eq!(
        out,
        "Executing host capability 'configure_nfs'...\nExecuting host capability 'configure_smb'...\n"
    );
}
