use migratory::error::MigratoryError;
use migratory::port::ForwardedPortEntry;
use migratory::port_cmd::{
    configured_port_line, nat_conf_paths, port_line, port_lines, port_preamble, port_source,
    port_tool, read_source_ports, unknown_machine_error, PortSource,
};

#[test]
fn providers_map_to_their_port_sources() {
    assert!(matches!(port_source("virtualbox"), Some(PortSource::VirtualBox)));
    assert!(matches!(port_source("docker"), Some(PortSource::Docker)));
    assert!(matches!(port_source("libvirt"), Some(PortSource::Qemu)));
    assert!(matches!(port_source("qemu"), Some(PortSource::Qemu)));
    assert!(matches!(port_source("hyper-v"), Some(PortSource::HyperV)));
    assert!(matches!(port_source("vmware_fusion"), Some(PortSource::VMware)));
    assert!(port_source("parallels").is_none());
}

#[test]
fn port_tools_name_the_machine() {
    let (p, a) = port_tool(&PortSource::VirtualBox, "uuid-1").unwrap();
    assert_eq!(p, "VBoxManage");
    assert_eq!(a, vec!["showvminfo", "uuid-1", "--machinereadable"]);
    let (p, a) = port_tool(&PortSource::Docker, "c1").unwrap();
    assert_eq!((p.as_str(), a), ("docker", vec!["port".to_string(), "c1".to_string()]));
    let (p, a) = port_tool(&PortSource::Qemu, "dom").unwrap();
    assert_eq!(p, "virsh");
    assert_eq!(a, vec!["qemu-monitor-command", "dom", "--hmp", "info usernet"]);
    let (p, a) = port_tool(&PortSource::HyperV, "vm").unwrap();
    assert_eq!(p, "powershell");
    assert_eq!(a[2], "Get-NetNatStaticMapping | ConvertTo-Json");
    assert!(port_tool(&PortSource::VMware, "vm").is_none());
    assert_eq!(nat_conf_paths().len(), 3);
}

#[test]
fn source_output_is_read_by_its_parser() {
    let docker = read_source_ports(&PortSource::Docker, "80/tcp -> 0.0.0.0:8080\n").unwrap();
    assert_eq!(
        docker,
        vec![ForwardedPortEntry { guest: 80, host: 8080, protocol: "tcp".to_string() }]
    );
    let vmware = read_source_ports(&PortSource::VMware, "[incomingtcp]\n2222 = 192.168.56.10:22\n")
        .unwrap();
    assert_eq!(vmware[0].guest, 22);
    assert_eq!(vmware[0].host, 2222);
    assert!(read_source_ports(&PortSource::VirtualBox, "").is_none());
}

#[test]
fn port_output_lines() {
    assert_eq!(port_preamble(Some(22)), vec!["Looking up host port for guest port 22"]);
    assert_eq!(port_preamble(None).len(), 3);
    assert_eq!(port_line(22, "tcp", 2222), "22 (tcp) -> 2222");
    assert_eq!(configured_port_line(80, 8080, None), "80 (tcp) -> 8080");
    assert_eq!(configured_port_line(53, 5353, Some("udp")), "53 (udp) -> 5353");
    let entries = vec![
        ForwardedPortEntry { guest: 22, host: 2222, protocol: "tcp".to_string() },
        ForwardedPortEntry { guest: 80, host: 8080, protocol: "tcp".to_string() },
        ForwardedPortEntry { guest: 22, host: 2200, protocol: "udp".to_string() },
    ];
    assert_eq!(
        port_lines(&entries, None),
        vec!["22 (tcp) -> 2222", "80 (tcp) -> 8080", "22 (udp) -> 2200"]
    );
    assert_eq!(port_lines(&entries, Some(22)), vec!["22 (tcp) -> 2222", "22 (udp) -> 2200"]);
    assert!(port_lines(&entries, Some(443)).is_empty());
    assert_eq!(
        unknown_machine_error("db"),
        MigratoryError::NotFound("Machine 'db' not found".to_string())
    );
}
