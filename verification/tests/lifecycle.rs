use migratory::cap::{Communicator, Guest, NetworkConfig};
use migratory::docker::resolve_docker_image;
use migratory::error::MigratoryError;
use migratory::lifecycle::{
    attempt_graceful_halt, clear_failure, destroy_opening, destroy_outcome, destroy_preamble,
    graceful_outcome, halt_key_path, halt_opening, provider_failure, target_provider,
    DestroyOutcome,
};

struct Comm {
    fail: bool,
}

impl Communicator for Comm {
    fn execute(&self, _command: &str) -> Result<String, MigratoryError> {
        if self.fail {
            Err(MigratoryError::Generic("unreachable".to_string()))
        } else {
            Ok(String::new())
        }
    }
    fn upload(&self, _local: &str, _remote: &str) -> Result<(), MigratoryError> {
        Ok(())
    }
    fn download(&self, _remote: &str, _local: &str) -> Result<(), MigratoryError> {
        Ok(())
    }
    fn execute_interactive(&self) -> Result<(), MigratoryError> {
        Ok(())
    }
    fn wait_for_ready(&self, _timeout: std::time::Duration) -> Result<(), MigratoryError> {
        Ok(())
    }
}

/// A guest that shuts down by running `shutdown` through the communicator.
struct HaltingGuest;

impl Guest for HaltingGuest {
    fn detect(&self, _comm: &dyn Communicator) -> Result<bool, MigratoryError> {
        Ok(true)
    }
    fn change_hostname(&self, _comm: &dyn Communicator, _hostname: &str) -> Result<(), MigratoryError> {
        Ok(())
    }
    fn configure_networks(
        &self,
        _comm: &dyn Communicator,
        _networks: &[NetworkConfig],
    ) -> Result<(), MigratoryError> {
        Ok(())
    }
    fn mount_shared_folder(
        &self,
        _comm: &dyn Communicator,
        _name: &str,
        _guest_path: &str,
    ) -> Result<(), MigratoryError> {
        Ok(())
    }
    fn halt(&self, comm: &dyn Communicator) -> Result<(), MigratoryError> {
        comm.execute("shutdown -h now").map(|_| ())
    }
    fn update_guest_additions(
        &self,
        _comm: &dyn Communicator,
        _provider: &str,
        _version: Option<&str>,
    ) -> Result<(), MigratoryError> {
        Ok(())
    }
    fn mount_virtualbox_shared_folder(
        &self,
        _comm: &dyn Communicator,
        _name: &str,
        _guest_path: &str,
    ) -> Result<(), MigratoryError> {
        Ok(())
    }
    fn mount_nfs_folder(
        &self,
        _comm: &dyn Communicator,
        _host_ip: &str,
        _host_path: &str,
        _guest_path: &str,
    ) -> Result<(), MigratoryError> {
        Ok(())
    }
    fn mount_smb_shared_folder(
        &self,
        _comm: &dyn Communicator,
        _host_path: &str,
        _guest_path: &str,
        _username: &str,
        _password: &str,
    ) -> Result<(), MigratoryError> {
        Ok(())
    }
    fn rsync_installed(&self, _comm: &dyn Communicator) -> Result<bool, MigratoryError> {
        Ok(true)
    }
}

#[test]
fn target_provider_takes_first_or_virtualbox() {
    assert_eq!(target_provider(&vec![]), "virtualbox");
    assert_eq!(
        target_provider(&vec!["libvirt".to_string(), "docker".to_string()]),
        "libvirt"
    );
}

#[test]
fn halt_key_path_prefers_configured_key() {
    assert_eq!(
        halt_key_path("/work", "web", "virtualbox", Some("/keys/id_rsa")),
        "/keys/id_rsa"
    );
    assert_eq!(
        halt_key_path("/work", "web", "virtualbox", None),
        "/work/.vagrant/machines/web/virtualbox/private_key"
    );
    assert_eq!(
        halt_key_path("/work/", "db", "qemu", None),
        "/work/.vagrant/machines/db/qemu/private_key"
    );
}

#[test]
fn halt_lines_follow_the_mode() {
    assert_eq!(halt_opening(true), "Forcing shutdown of VM...");
    assert_eq!(halt_opening(false), "Attempting graceful shutdown of VM...");
    let ok = graceful_outcome(true);
    assert!(!ok.warn && !ok.force_halt);
    assert_eq!(ok.line, "Graceful shutdown initiated by guest OS.");
    let failed = graceful_outcome(false);
    assert!(failed.warn && failed.force_halt);
    assert_eq!(
        failed.line,
        "Graceful shutdown failed, falling back to forced shutdown..."
    );
}

#[test]
fn graceful_halt_needs_a_guest_that_halts() {
    let up = Comm { fail: false };
    let down = Comm { fail: true };
    assert!(!attempt_graceful_halt(None, &up));
    assert!(attempt_graceful_halt(Some(&HaltingGuest), &up));
    assert!(!attempt_graceful_halt(Some(&HaltingGuest), &down));
}

#[test]
fn provider_failures_name_the_operation_and_error() {
    let e = MigratoryError::NotFound("machine".to_string());
    assert_eq!(
        provider_failure("halt", &e),
        "Provider halt failed (expected in tests): Not found: machine"
    );
    assert_eq!(
        clear_failure(&MigratoryError::Io("denied".to_string())),
        "Failed to clear machine state directory: IO error: denied"
    );
}

#[test]
fn destroy_reports_its_steps() {
    assert_eq!(
        destroy_opening(true).as_deref(),
        Some("Attempting graceful shutdown of VM before destruction...")
    );
    assert_eq!(destroy_opening(false), None);
    assert_eq!(
        destroy_preamble(false),
        vec![
            "Destroying VM and associated drives...",
            "Deleting snapshots...",
            "Cleaning up disk and associated drives...",
        ]
    );
    assert_eq!(
        destroy_preamble(true),
        vec![
            "Destroying VM and associated drives...",
            "Forcing destruction...",
            "Deleting snapshots...",
            "Cleaning up disk and associated drives...",
        ]
    );
}

#[test]
fn destroy_clears_state_only_when_the_provider_succeeded() {
    assert!(matches!(destroy_outcome(&Ok(())), DestroyOutcome::ClearState));
    match destroy_outcome(&Err(MigratoryError::Generic("busy".to_string()))) {
        DestroyOutcome::Warn(w) => {
            assert_eq!(w, "Provider destroy failed (expected in tests): busy")
        }
        DestroyOutcome::ClearState => panic!("a failed destruction keeps the state"),
    }
}

#[test]
fn docker_image_is_first_nonblank_box() {
    assert_eq!(resolve_docker_image(&vec![]), "alpine:latest");
    assert_eq!(
        resolve_docker_image(&vec![Some("ubuntu:22.04".to_string())]),
        "ubuntu:22.04"
    );
    assert_eq!(
        resolve_docker_image(&vec![Some("   ".to_string())]),
        "alpine:latest"
    );
    assert_eq!(
        resolve_docker_image(&vec![None, Some("  ".to_string()), Some("debian".to_string())]),
        "debian"
    );
}
