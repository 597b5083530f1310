use migratory::error::MigratoryError;
use migratory::provider::{
    detect_usable_providers_with, ensuring_line, install_provider_with, install_result,
    installer_program, machine_provider_line, providers_from_list, usable_from, usable_report,
    HostOs,
};
use std::cell::RefCell;

#[test]
fn test_detect_usable_providers_mock_binaries() {
    // 1. None found
    let usable = detect_usable_providers_with(&HostOs::Linux, &|_: &str, _: &[&str]| false);
    assert!(usable.is_empty());

    // 2. All primary binaries succeed: VBoxManage, vmrun, docker, virsh
    let usable = detect_usable_providers_with(&HostOs::Linux, &|cmd: &str, _: &[&str]| {
        matches!(cmd, "VBoxManage" | "vmrun" | "docker" | "virsh")
    });
    assert!(usable.contains(&"virtualbox".to_string()));
    assert!(usable.contains(&"vmware".to_string()));
    assert!(usable.contains(&"docker".to_string()));
    assert!(usable.contains(&"qemu".to_string()));

    // 3. Fallback binaries: vmrun fails, vmware succeeds; virsh fails, qemu-img succeeds
    let usable = detect_usable_providers_with(&HostOs::Linux, &|cmd: &str, _: &[&str]| {
        matches!(cmd, "vmware" | "qemu-img")
    });
    assert!(usable.contains(&"vmware".to_string()));
    assert!(usable.contains(&"qemu".to_string()));
}

#[test]
fn detection_asks_fallbacks_only_after_failures_and_keeps_order() {
    let asked = RefCell::new(Vec::new());
    let usable = detect_usable_providers_with(&HostOs::Windows, &|cmd: &str, args: &[&str]| {
        asked.borrow_mut().push(format!("{} {}", cmd, args.join(" ")));
        matches!(cmd, "vmrun" | "qemu-img" | "powershell")
    });
    assert_eq!(usable, vec!["vmware", "qemu", "hyperv"]);
    assert_eq!(
        asked.into_inner(),
        vec![
            "VBoxManage --version",
            "vmrun list",
            "docker --version",
            "virsh --version",
            "qemu-img --version",
            "powershell -NoProfile -Command Get-Command Get-VM -ErrorAction SilentlyContinue",
        ]
    );
    let on_mac = detect_usable_providers_with(&HostOs::MacOs, &|cmd: &str, _: &[&str]| {
        cmd == "powershell" || cmd == "docker"
    });
    assert_eq!(on_mac, vec!["docker"]);
}

#[test]
fn usable_from_verdicts() {
    assert_eq!(
        usable_from(&HostOs::Linux, &vec![true, false, true, false]),
        vec!["virtualbox", "docker"]
    );
    assert_eq!(
        usable_from(&HostOs::Windows, &vec![false, false, false, false, true]),
        vec!["hyperv"]
    );
}

#[test]
fn provider_lists_are_trimmed() {
    assert!(providers_from_list("").is_empty());
    assert!(providers_from_list("   ").is_empty());
    assert_eq!(providers_from_list("docker"), vec!["docker"]);
    assert_eq!(
        providers_from_list(" virtualbox , qemu,docker "),
        vec!["virtualbox", "qemu", "docker"]
    );
    assert_eq!(providers_from_list("a,,b"), vec!["a", "", "b"]);
}

#[test]
fn provider_report_lines() {
    assert_eq!(usable_report(&vec![]), "No usable providers detected on this host.");
    assert_eq!(
        usable_report(&vec!["docker".to_string(), "qemu".to_string()]),
        "Usable providers: docker, qemu"
    );
    assert_eq!(machine_provider_line("web", "libvirt"), "  Machine: web -> libvirt");
    assert_eq!(ensuring_line("qemu"), "Ensuring provider 'qemu' is installed...");
}

#[test]
fn test_install_provider_coverage() {
    // Provider with no mapping
    for os in [HostOs::MacOs, HostOs::Linux, HostOs::Windows, HostOs::Other] {
        assert!(install_provider_with(&os, "unknown_provider_xyz", "x", &|_: &str, _: &[&str]| {
            Err("never asked".to_string())
        })
        .is_ok());
    }

    // macOS: runner returns an error, then false, then true
    let err_io = install_provider_with(&HostOs::MacOs, "virtualbox", "brew", &|_: &str, _: &[&str]| {
        Err("brew missing".to_string())
    });
    assert_eq!(
        err_io,
        Err(MigratoryError::Generic("Brew execution failed: brew missing".to_string()))
    );
    let err_fail =
        install_provider_with(&HostOs::MacOs, "virtualbox", "brew", &|_: &str, _: &[&str]| Ok(false));
    assert_eq!(
        err_fail,
        Err(MigratoryError::Generic(
            "Homebrew failed to install provider package 'virtualbox'".to_string()
        ))
    );
    for p in ["virtualbox", "vmware", "docker", "qemu"] {
        assert!(install_provider_with(&HostOs::MacOs, p, "brew", &|_: &str, _: &[&str]| Ok(true)).is_ok());
    }

    // Linux
    let err_io = install_provider_with(&HostOs::Linux, "virtualbox", "sudo", &|_: &str, _: &[&str]| {
        Err("sudo missing".to_string())
    });
    assert!(err_io.is_err());
    let err_fail =
        install_provider_with(&HostOs::Linux, "virtualbox", "sudo", &|_: &str, _: &[&str]| Ok(false));
    assert!(err_fail.is_err());
    for p in ["virtualbox", "docker", "qemu", "unknown_xyz"] {
        assert!(install_provider_with(&HostOs::Linux, p, "sudo", &|_: &str, _: &[&str]| Ok(true)).is_ok());
    }

    // Windows
    let err_fail =
        install_provider_with(&HostOs::Windows, "docker", "winget", &|_: &str, _: &[&str]| Ok(false));
    assert_eq!(
        err_fail,
        Err(MigratoryError::Generic(
            "Winget failed to install provider package 'docker-desktop'".to_string()
        ))
    );
    assert!(install_provider_with(&HostOs::Windows, "qemu", "winget", &|_: &str, _: &[&str]| Ok(false)).is_ok());
}

#[test]
fn installers_get_the_package_manager_command() {
    let asked = RefCell::new(Vec::new());
    let record = |cmd: &str, args: &[&str]| {
        asked.borrow_mut().push(format!("{} {}", cmd, args.join(" ")));
        Ok(true)
    };
    install_provider_with(&HostOs::MacOs, "vmware", "brew", &record).unwrap();
    install_provider_with(&HostOs::Linux, "qemu", "sudo", &record).unwrap();
    install_provider_with(&HostOs::Windows, "virtualbox", "winget", &record).unwrap();
    assert_eq!(
        asked.into_inner(),
        vec![
            "brew install --cask vmware-fusion",
            "sudo apt-get install -y qemu-kvm",
            "winget install -e --id virtualbox",
        ]
    );
}

#[test]
fn install_results_and_programs() {
    assert_eq!(install_result(&HostOs::Linux, "docker.io", Ok(true)), Ok(()));
    assert_eq!(
        install_result(&HostOs::Linux, "docker.io", Err("no apt".to_string())),
        Err(MigratoryError::Generic("Apt execution failed: no apt".to_string()))
    );
    assert_eq!(
        install_result(&HostOs::Linux, "docker.io", Ok(false)),
        Err(MigratoryError::Generic("Apt failed to install provider package 'docker.io'".to_string()))
    );
    assert_eq!(installer_program(&HostOs::MacOs, None), "brew");
    assert_eq!(installer_program(&HostOs::Linux, None), "sudo");
    assert_eq!(installer_program(&HostOs::Windows, None), "winget");
    assert_eq!(installer_program(&HostOs::Linux, Some("true")), "true");
}
