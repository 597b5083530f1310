//! The `port` command: which tool reports a provider's live bindings, how
//! its output is read, and the lines printed.

use vstd::prelude::*;
use crate::error::MigratoryError;
use crate::json::parsed_json;
use crate::port::{
    docker_ports, entry_views, hyperv_json_ports, hyperv_ports, parse_docker_ports,
    parse_hyperv_ports, parse_qemu_ports, parse_vboxmanage_ports, parse_vmware_nat_conf,
    qemu_ports, vbox_ports, vmware_ports, ForwardedPortEntry, PortView,
};
use crate::text::{decimal, str_eq, u64_to_decimal};

verus! {

/// Where the live bindings of a provider's machine are read from.
pub enum PortSource {
    /// `VBoxManage showvminfo`.
    VirtualBox,
    /// `docker port`.
    Docker,
    /// The QEMU monitor through `virsh`.
    Qemu,
    /// `Get-NetNatStaticMapping` through PowerShell.
    HyperV,
    /// VMware's NAT configuration file.
    VMware,
}

/// The source of a provider's live bindings; `None` for a provider that
/// has none.
pub open spec fn port_source_of(provider: Seq<char>) -> Option<PortSource> {
    if provider == "virtualbox"@ {
        Some(PortSource::VirtualBox)
    } else if provider == "docker"@ {
        Some(PortSource::Docker)
    } else if provider == "qemu"@ || provider == "libvirt"@ {
        Some(PortSource::Qemu)
    } else if provider == "hyperv"@ || provider == "hyper-v"@ {
        Some(PortSource::HyperV)
    } else if provider == "vmware"@ || provider == "vmware_desktop"@ || provider == "vmware_fusion"@
        || provider == "vmware_workstation"@ {
        Some(PortSource::VMware)
    } else {
        None
    }
}

/// Returns the source of a provider's live bindings.
pub fn port_source(provider: &str) -> (r: Option<PortSource>)
    ensures
        r == port_source_of(provider@),
{
    if str_eq(provider, "virtualbox") {
        Some(PortSource::VirtualBox)
    } else if str_eq(provider, "docker") {
        Some(PortSource::Docker)
    } else if str_eq(provider, "qemu") || str_eq(provider, "libvirt") {
        Some(PortSource::Qemu)
    } else if str_eq(provider, "hyperv") || str_eq(provider, "hyper-v") {
        Some(PortSource::HyperV)
    } else if str_eq(provider, "vmware") || str_eq(provider, "vmware_desktop") || str_eq(
        provider,
        "vmware_fusion",
    ) || str_eq(provider, "vmware_workstation") {
        Some(PortSource::VMware)
    } else {
        None
    }
}

/// The program, and its arguments, whose output lists the bindings of the
/// machine `id`; `None` for VMware, whose bindings are in a file.
pub open spec fn port_tool_of(source: PortSource, id: Seq<char>) -> Option<(Seq<char>, Seq<Seq<char>>)> {
    match source {
        PortSource::VirtualBox => Some(("VBoxManage"@, seq!["showvminfo"@, id, "--machinereadable"@])),
        PortSource::Docker => Some(("docker"@, seq!["port"@, id])),
        PortSource::Qemu => Some(
            ("virsh"@, seq!["qemu-monitor-command"@, id, "--hmp"@, "info usernet"@]),
        ),
        PortSource::HyperV => Some(
            (
                "powershell"@,
                seq!["-NoProfile"@, "-Command"@, "Get-NetNatStaticMapping | ConvertTo-Json"@],
            ),
        ),
        PortSource::VMware => None,
    }
}

/// The views of a list of strings.
pub open spec fn string_views(v: Seq<String>) -> Seq<Seq<char>> {
    v.map_values(|s: String| s@)
}

/// Returns the program, and its arguments, whose output lists the bindings
/// of the machine `id`.
pub fn port_tool(source: &PortSource, id: &str) -> (r: Option<(String, Vec<String>)>)
    ensures
        match port_tool_of(*source, id@) {
            Some((p, a)) => r matches Some((q, b)) && q@ == p && string_views(b@) == a,
            None => r is None,
        },
{
    let (program, args): (&str, Vec<String>) = match source {
        PortSource::VirtualBox => (
            "VBoxManage",
            vec!["showvminfo".to_owned(), id.to_owned(), "--machinereadable".to_owned()],
        ),
        PortSource::Docker => ("docker", vec!["port".to_owned(), id.to_owned()]),
        PortSource::Qemu => (
            "virsh",
            vec![
                "qemu-monitor-command".to_owned(),
                id.to_owned(),
                "--hmp".to_owned(),
                "info usernet".to_owned(),
            ],
        ),
        PortSource::HyperV => (
            "powershell",
            vec![
                "-NoProfile".to_owned(),
                "-Command".to_owned(),
                "Get-NetNatStaticMapping | ConvertTo-Json".to_owned(),
            ],
        ),
        PortSource::VMware => return None,
    };
    let ghost expected = port_tool_of(*source, id@)->0;
    assert(string_views(args@) =~= expected.1);
    Some((program.to_owned(), args))
}

/// The files where VMware keeps its NAT configuration, tried in turn.
pub open spec fn nat_conf_paths_of() -> Seq<Seq<char>> {
    seq![
        "/Library/Preferences/VMware Fusion/vmnet8/nat.conf"@,
        "/etc/vmware/vmnet8/nat/nat.conf"@,
        "C:\\ProgramData\\VMware\\vmnetnat.conf"@,
    ]
}

/// Returns the files where VMware keeps its NAT configuration.
pub fn nat_conf_paths() -> (r: Vec<String>)
    ensures
        string_views(r@) == nat_conf_paths_of(),
{
    let r = vec![
        "/Library/Preferences/VMware Fusion/vmnet8/nat.conf".to_owned(),
        "/etc/vmware/vmnet8/nat/nat.conf".to_owned(),
        "C:\\ProgramData\\VMware\\vmnetnat.conf".to_owned(),
    ];
    assert(string_views(r@) =~= nat_conf_paths_of());
    r
}

/// The bindings that a source's output lists, where it lists any.
pub open spec fn source_ports_of(source: PortSource, text: Seq<char>) -> Option<Seq<PortView>> {
    match source {
        PortSource::VirtualBox => vbox_ports(text),
        PortSource::Docker => docker_ports(text),
        PortSource::Qemu => qemu_ports(text),
        PortSource::HyperV => hyperv_ports(hyperv_json_ports(parsed_json(text)), text),
        PortSource::VMware => vmware_ports(text),
    }
}

/// Reads the bindings from the output of a source's tool (or, for VMware,
/// from its NAT configuration).
pub fn read_source_ports(source: &PortSource, text: &str) -> (r: Option<Vec<ForwardedPortEntry>>)
    ensures
        match source_ports_of(*source, text@) {
            Some(s) => r matches Some(v) && entry_views(v@) == s,
            None => r is None,
        },
{
    match source {
        PortSource::VirtualBox => parse_vboxmanage_ports(text),
        PortSource::Docker => parse_docker_ports(text),
        PortSource::Qemu => parse_qemu_ports(text),
        PortSource::HyperV => parse_hyperv_ports(text),
        PortSource::VMware => parse_vmware_nat_conf(text),
    }
}

/// The lines printed before the bindings: the guest port looked up, or a
/// note on where the values come from.
pub open spec fn port_preamble_of(guest: Option<u16>) -> Seq<Seq<char>> {
    match guest {
        Some(g) => seq!["Looking up host port for guest port "@ + decimal(g as nat)],
        None => seq![
            "The forwarded ports for the machine are listed below. Please note that"@,
            "these values may differ from values configured in the Vagrantfile if the"@,
            "provider supports automatic port collision resolution and the port was in use."@,
        ],
    }
}

/// Returns the lines printed before the bindings.
pub fn port_preamble(guest: Option<u16>) -> (r: Vec<String>)
    ensures
        string_views(r@) == port_preamble_of(guest),
{
    let mut r: Vec<String> = Vec::new();
    match guest {
        Some(g) => {
            let mut l = "Looking up host port for guest port ".to_owned();
            let n = u64_to_decimal(g as u64);
            l.append(n.as_str());
            r.push(l);
        },
        None => {
            r.push(
                "The forwarded ports for the machine are listed below. Please note that".to_owned(),
            );
            r.push(
                "these values may differ from values configured in the Vagrantfile if the".to_owned(),
            );
            r.push(
                "provider supports automatic port collision resolution and the port was in use.".to_owned(),
            );
        },
    }
    assert(string_views(r@) =~= port_preamble_of(guest));
    r
}

/// The line of one binding: `guest (protocol) -> host`.
pub open spec fn port_line_of(guest: u16, protocol: Seq<char>, host: u16) -> Seq<char> {
    decimal(guest as nat) + " ("@ + protocol + ") -> "@ + decimal(host as nat)
}

/// Returns the line of one binding.
pub fn port_line(guest: u16, protocol: &str, host: u16) -> (r: String)
    ensures
        r@ == port_line_of(guest, protocol@, host),
{
    let mut r = u64_to_decimal(guest as u64);
    r.append(" (");
    r.append(protocol);
    r.append(") -> ");
    let h = u64_to_decimal(host as u64);
    r.append(h.as_str());
    r
}

/// The lines of the bindings, in order: those of the guest port asked
/// for, or all of them.
pub open spec fn port_lines_of(entries: Seq<PortView>, guest: Option<u16>) -> Seq<Seq<char>>
    decreases entries.len(),
{
    if entries.len() == 0 {
        Seq::empty()
    } else {
        let e = entries.last();
        let rest = port_lines_of(entries.drop_last(), guest);
        match guest {
            Some(g) => if e.0 != g {
                rest
            } else {
                rest.push(port_line_of(e.0, e.2, e.1))
            },
            None => rest.push(port_line_of(e.0, e.2, e.1)),
        }
    }
}

/// Returns the lines of the bindings, keeping those of `guest` only where
/// it is given.
pub fn port_lines(entries: &Vec<ForwardedPortEntry>, guest: Option<u16>) -> (r: Vec<String>)
    ensures
        string_views(r@) == port_lines_of(entry_views(entries@), guest),
{
    let ghost all = entry_views(entries@);
    let mut r: Vec<String> = Vec::new();
    let mut i: usize = 0;
    assert(all.take(0) =~= Seq::<PortView>::empty());
    while i < entries.len()
        invariant
            i <= entries.len(),
            all == entry_views(entries@),
            string_views(r@) == port_lines_of(all.take(i as int), guest),
        decreases entries.len() - i,
    {
        assert(all.take(i + 1).drop_last() =~= all.take(i as int));
        assert(all.take(i + 1).last() == entries@[i as int]@);
        let e = &entries[i];
        let keep = match guest {
            Some(g) => e.guest == g,
            None => true,
        };
        if keep {
            let l = port_line(e.guest, e.protocol.as_str(), e.host);
            let ghost before = string_views(r@);
            r.push(l);
            assert(string_views(r@) =~= before.push(port_line_of(e.guest, e.protocol@, e.host)));
        }
        i = i + 1;
    }
    assert(all.take(entries.len() as int) =~= all);
    r
}

/// Returns the line of a binding from the configuration, whose protocol is
/// `tcp` where none is given.
pub fn configured_port_line(guest: u16, host: u16, protocol: Option<&str>) -> (r: String)
    ensures
        r@ == port_line_of(
            guest,
            match protocol {
                Some(p) => p@,
                None => "tcp"@,
            },
            host,
        ),
{
    match protocol {
        Some(p) => port_line(guest, p, host),
        None => port_line(guest, "tcp", host),
    }
}

/// Returns the error for a machine that the configuration does not define.
pub fn unknown_machine_error(name: &str) -> (r: MigratoryError)
    ensures
        r matches MigratoryError::NotFound(m) && m@ == "Machine '"@ + name@ + "' not found"@,
{
    let mut m = "Machine '".to_owned();
    m.append(name);
    m.append("' not found");
    MigratoryError::NotFound(m)
}

} // verus!
