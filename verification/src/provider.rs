//! Which providers a host can run, how a provider is installed, and what the
//! `provider` command reports.
//!
//! The programs are run by the caller's runner; the library decides which
//! programs to run, in which order, and what their answers mean.

use vstd::prelude::*;
use crate::error::MigratoryError;
use crate::text::{chars_of, join_strings, join_with, split_by, split_chars, string_of, str_eq, trim, trim_chars, views};

verus! {

/// The host's operating system, as far as providers are concerned.
pub enum HostOs {
    /// macOS: packages come from Homebrew casks.
    MacOs,
    /// Linux: packages come from apt.
    Linux,
    /// Windows: packages come from winget; Hyper-V is probed too.
    Windows,
    /// Any other system: nothing is installed.
    Other,
}

/// The views of a list of string slices.
pub open spec fn slice_views(a: Seq<&str>) -> Seq<Seq<char>> {
    a.map_values(|s: &str| s@)
}

/// The views of a list of strings.
pub open spec fn string_views(a: Seq<String>) -> Seq<Seq<char>> {
    a.map_values(|s: String| s@)
}

/// A program to run and its arguments.
pub type ProbeView = (Seq<char>, Seq<Seq<char>>);

/// Whether `runner`, asked to run `program` with `args`, may answer `b`.
pub open spec fn answers<F: Fn(&str, &[&str]) -> bool>(
    runner: F,
    program: Seq<char>,
    args: Seq<Seq<char>>,
    b: bool,
) -> bool {
    exists|p: &str, a: &[&str]|
        #[trigger] call_ensures(runner, (p, a), b) && p@ == program && slice_views(a@) == args
}

/// Whether the answers of `runner` to `probes`, asked in turn until one
/// answers `true`, give `usable`: `true` where one of them answered `true`
/// after all before it answered `false`; `false` where every one answered
/// `false`.
pub open spec fn group_answered<F: Fn(&str, &[&str]) -> bool>(
    runner: F,
    probes: Seq<ProbeView>,
    usable: bool,
) -> bool
    decreases probes.len(),
{
    if probes.len() == 0 {
        !usable
    } else {
        ||| usable && answers(runner, probes[0].0, probes[0].1, true)
        ||| answers(runner, probes[0].0, probes[0].1, false) && group_answered(
            runner,
            probes.drop_first(),
            usable,
        )
    }
}

/// The providers probed on `os`, in order, each with the probes that show it
/// usable, tried in turn.
pub open spec fn provider_table(os: HostOs) -> Seq<(Seq<char>, Seq<ProbeView>)> {
    let version = seq!["--version"@];
    let base = seq![
        ("virtualbox"@, seq![("VBoxManage"@, version)]),
        ("vmware"@, seq![("vmrun"@, seq!["list"@]), ("vmware"@, seq!["-v"@])]),
        ("docker"@, seq![("docker"@, version)]),
        ("qemu"@, seq![("virsh"@, version), ("qemu-img"@, version)]),
    ];
    match os {
        HostOs::Windows => base.push(
            (
                "hyperv"@,
                seq![
                    (
                        "powershell"@,
                        seq![
                            "-NoProfile"@,
                            "-Command"@,
                            "Get-Command Get-VM -ErrorAction SilentlyContinue"@,
                        ],
                    ),
                ],
            ),
        ),
        _ => base,
    }
}

/// The providers probed on `os`, in order.
pub open spec fn provider_order(os: HostOs) -> Seq<Seq<char>> {
    provider_table(os).map_values(|e: (Seq<char>, Seq<ProbeView>)| e.0)
}

/// The names of `names` whose verdict is `true`, in order.
pub open spec fn usable_of(names: Seq<Seq<char>>, verdicts: Seq<bool>) -> Seq<Seq<char>>
    decreases names.len(),
{
    if names.len() == 0 || verdicts.len() == 0 {
        Seq::empty()
    } else {
        let rest = usable_of(names.drop_last(), verdicts.drop_last());
        if verdicts.last() {
            rest.push(names.last())
        } else {
            rest
        }
    }
}

/// Returns the usable providers of `os`, given the verdict of each provider
/// in the order in which they are probed.
pub fn usable_from(os: &HostOs, verdicts: &Vec<bool>) -> (r: Vec<String>)
    requires
        verdicts.len() == provider_order(*os).len(),
    ensures
        string_views(r@) == usable_of(provider_order(*os), verdicts@),
{
    let names = provider_names(os);
    let mut r: Vec<String> = Vec::new();
    let mut i: usize = 0;
    assert(string_views(names@).take(0) =~= Seq::<Seq<char>>::empty());
    while i < names.len()
        invariant
            i <= names.len(),
            names.len() == verdicts.len(),
            string_views(names@) == provider_order(*os),
            string_views(r@) == usable_of(
                string_views(names@).take(i as int),
                verdicts@.take(i as int),
            ),
        decreases names.len() - i,
    {
        let ghost ns = string_views(names@);
        assert(ns.take(i + 1).drop_last() =~= ns.take(i as int));
        assert(verdicts@.take(i + 1).drop_last() =~= verdicts@.take(i as int));
        assert(ns.take(i + 1).last() == names@[i as int]@);
        if verdicts[i] {
            r.push(names[i].clone());
            assert(string_views(r@) =~= usable_of(ns.take(i as int), verdicts@.take(i as int)).push(
                names@[i as int]@,
            ));
        }
        i = i + 1;
    }
    assert(string_views(names@).take(names.len() as int) =~= string_views(names@));
    assert(verdicts@.take(verdicts.len() as int) =~= verdicts@);
    r
}

/// Returns the providers probed on `os`, in order.
fn provider_names(os: &HostOs) -> (r: Vec<String>)
    ensures
        string_views(r@) == provider_order(*os),
{
    let mut r: Vec<String> = Vec::new();
    r.push("virtualbox".to_owned());
    r.push("vmware".to_owned());
    r.push("docker".to_owned());
    r.push("qemu".to_owned());
    if let HostOs::Windows = os {
        r.push("hyperv".to_owned());
    }
    assert(string_views(r@) =~= provider_order(*os));
    r
}

/// Asks `runner` to run `program` with `args`.
fn probe<F: Fn(&str, &[&str]) -> bool>(runner: &F, program: &str, args: &[&str]) -> (r: bool)
    requires
        forall|p: &str, a: &[&str]| call_requires(*runner, (p, a)),
    ensures
        answers(*runner, program@, slice_views(args@), r),
{
    let r = runner(program, args);
    assert(call_ensures(*runner, (program, args), r));
    r
}

/// Probes one program.
fn probe_one<F: Fn(&str, &[&str]) -> bool>(runner: &F, program: &str, args: &[&str]) -> (r:
    bool)
    requires
        forall|p: &str, a: &[&str]| call_requires(*runner, (p, a)),
    ensures
        group_answered(*runner, seq![(program@, slice_views(args@))], r),
{
    let r = probe(runner, program, args);
    let ghost g = seq![(program@, slice_views(args@))];
    assert(g.drop_first() =~= Seq::<ProbeView>::empty());
    assert(g[0] == (program@, slice_views(args@)));
    proof {
        reveal_with_fuel(group_answered, 2);
    }
    r
}

/// Probes `p1`, and `p2` where `p1` answers `false`.
fn probe_either<F: Fn(&str, &[&str]) -> bool>(
    runner: &F,
    p1: &str,
    a1: &[&str],
    p2: &str,
    a2: &[&str],
) -> (r: bool)
    requires
        forall|p: &str, a: &[&str]| call_requires(*runner, (p, a)),
    ensures
        group_answered(*runner, seq![(p1@, slice_views(a1@)), (p2@, slice_views(a2@))], r),
{
    let ghost g = seq![(p1@, slice_views(a1@)), (p2@, slice_views(a2@))];
    assert(g.drop_first() =~= seq![(p2@, slice_views(a2@))]);
    assert(g.drop_first().drop_first() =~= Seq::<ProbeView>::empty());
    assert(g[0] == (p1@, slice_views(a1@)));
    assert(g.drop_first()[0] == (p2@, slice_views(a2@)));
    proof {
        reveal_with_fuel(group_answered, 3);
    }
    if probe(runner, p1, a1) {
        true
    } else {
        probe(runner, p2, a2)
    }
}

/// Detects the providers usable on the host: each provider of `os` in turn
/// is usable where one of its probes, run by `runner` in turn until one
/// succeeds, succeeds.
pub fn detect_usable_providers_with<F: Fn(&str, &[&str]) -> bool>(os: &HostOs, runner: &F) -> (r:
    Vec<String>)
    requires
        forall|p: &str, a: &[&str]| call_requires(*runner, (p, a)),
    ensures
        exists|verdicts: Seq<bool>|
            #![trigger usable_of(provider_order(*os), verdicts)]
            verdicts.len() == provider_order(*os).len() && (forall|i: int|
                0 <= i < verdicts.len() ==> group_answered(
                    *runner,
                    #[trigger] provider_table(*os)[i].1,
                    verdicts[i],
                )) && string_views(r@) == usable_of(provider_order(*os), verdicts),
{
    let version: [&str; 1] = ["--version"];
    assert(slice_views(version@) =~= seq!["--version"@]);
    let list: [&str; 1] = ["list"];
    assert(slice_views(list@) =~= seq!["list"@]);
    let short_version: [&str; 1] = ["-v"];
    assert(slice_views(short_version@) =~= seq!["-v"@]);
    let ghost table = provider_table(*os);
    let vbox = probe_one(runner, "VBoxManage", &version);
    let vmware = probe_either(runner, "vmrun", &list, "vmware", &short_version);
    let docker = probe_one(runner, "docker", &version);
    let qemu = probe_either(runner, "virsh", &version, "qemu-img", &version);
    let mut verdicts: Vec<bool> = Vec::new();
    verdicts.push(vbox);
    verdicts.push(vmware);
    verdicts.push(docker);
    verdicts.push(qemu);
    if let HostOs::Windows = os {
        let get_vm: [&str; 3] = [
            "-NoProfile",
            "-Command",
            "Get-Command Get-VM -ErrorAction SilentlyContinue",
        ];
        assert(slice_views(get_vm@) =~= seq![
            "-NoProfile"@,
            "-Command"@,
            "Get-Command Get-VM -ErrorAction SilentlyContinue"@,
        ]);
        let hyperv = probe_one(runner, "powershell", &get_vm);
        verdicts.push(hyperv);
        assert(group_answered(*runner, table[4].1, verdicts@[4]));
    }
    assert(verdicts@.len() == provider_order(*os).len());
    assert(group_answered(*runner, table[0].1, verdicts@[0]));
    assert(group_answered(*runner, table[1].1, verdicts@[1]));
    assert(group_answered(*runner, table[2].1, verdicts@[2]));
    assert(group_answered(*runner, table[3].1, verdicts@[3]));
    assert forall|i: int| 0 <= i < verdicts@.len() implies group_answered(
        *runner,
        #[trigger] provider_table(*os)[i].1,
        verdicts@[i],
    ) by {
        if i == 0 {
        } else if i == 1 {
        } else if i == 2 {
        } else if i == 3 {
        } else {
        }
    }
    usable_from(os, &verdicts)
}

/// Each of `ps` trimmed.
pub open spec fn trimmed(ps: Seq<Seq<char>>) -> Seq<Seq<char>> {
    ps.map_values(|p: Seq<char>| trim(p))
}

/// The providers listed in a comma-separated text, each trimmed; none where
/// the text holds only whitespace.
pub open spec fn listed_providers(text: Seq<char>) -> Seq<Seq<char>> {
    if trim(text).len() == 0 {
        Seq::empty()
    } else {
        trimmed(split_by(text, ","@))
    }
}

/// Reads a comma-separated list of providers, such as one given in place of
/// detection.
pub fn providers_from_list(text: &str) -> (r: Vec<String>)
    ensures
        string_views(r@) == listed_providers(text@),
{
    let chars = chars_of(text);
    let mut r: Vec<String> = Vec::new();
    if trim_chars(&chars).len() == 0 {
        assert(string_views(r@) =~= Seq::<Seq<char>>::empty());
        return r;
    }
    let comma: Vec<char> = vec![','];
    proof {
        reveal_strlit(",");
        assert(comma@ =~= ","@);
    }
    let parts = split_chars(&chars, &comma);
    let ghost ps = views(parts@);
    let mut i: usize = 0;
    assert(string_views(r@) =~= trimmed(ps.take(0)));
    while i < parts.len()
        invariant
            i <= parts.len(),
            ps == views(parts@),
            ps == split_by(text@, ","@),
            string_views(r@) == trimmed(ps.take(i as int)),
        decreases parts.len() - i,
    {
        let piece = trim_chars(&parts[i]);
        let ghost before = string_views(r@);
        r.push(string_of(&piece));
        assert(ps[i as int] == parts@[i as int]@);
        assert(string_views(r@) =~= before.push(trim(ps[i as int])));
        assert(trimmed(ps.take(i + 1)) =~= trimmed(ps.take(i as int)).push(trim(ps[i as int])));
        i = i + 1;
    }
    assert(ps.take(parts.len() as int) =~= ps);
    r
}

/// The report of `provider --usable`.
pub open spec fn usable_report_of(usable: Seq<Seq<char>>) -> Seq<char> {
    if usable.len() == 0 {
        "No usable providers detected on this host."@
    } else {
        "Usable providers: "@ + join_with(usable, ", "@)
    }
}

/// Returns the report of `provider --usable`.
pub fn usable_report(usable: &Vec<String>) -> (r: String)
    ensures
        r@ == usable_report_of(string_views(usable@)),
{
    if usable.len() == 0 {
        "No usable providers detected on this host.".to_owned()
    } else {
        let mut r = "Usable providers: ".to_owned();
        let joined = join_strings(usable, ", ");
        r.append(joined.as_str());
        r
    }
}

/// The line that shows which provider a machine uses.
pub open spec fn machine_provider_line_of(machine: Seq<char>, provider: Seq<char>) -> Seq<char> {
    "  Machine: "@ + machine + " -> "@ + provider
}

/// Returns the line that shows which provider a machine uses.
pub fn machine_provider_line(machine: &str, provider: &str) -> (r: String)
    ensures
        r@ == machine_provider_line_of(machine@, provider@),
{
    let mut r = "  Machine: ".to_owned();
    r.append(machine);
    r.append(" -> ");
    r.append(provider);
    r
}

/// The line that opens the installation of a provider.
pub open spec fn ensuring_line_of(provider: Seq<char>) -> Seq<char> {
    "Ensuring provider '"@ + provider + "' is installed..."@
}

/// Returns the line that opens the installation of a provider.
pub fn ensuring_line(provider: &str) -> (r: String)
    ensures
        r@ == ensuring_line_of(provider@),
{
    let mut r = "Ensuring provider '".to_owned();
    r.append(provider);
    r.append("' is installed...");
    r
}

/// The package that installs `provider` on `os`, where it has one.
pub open spec fn install_package_of(os: HostOs, provider: Seq<char>) -> Option<Seq<char>> {
    match os {
        HostOs::MacOs => if provider == "virtualbox"@ {
            Some("virtualbox"@)
        } else if provider == "vmware"@ {
            Some("vmware-fusion"@)
        } else if provider == "docker"@ {
            Some("docker"@)
        } else if provider == "qemu"@ {
            Some("qemu"@)
        } else {
            None
        },
        HostOs::Linux => if provider == "virtualbox"@ {
            Some("virtualbox"@)
        } else if provider == "docker"@ {
            Some("docker.io"@)
        } else if provider == "qemu"@ {
            Some("qemu-kvm"@)
        } else {
            None
        },
        HostOs::Windows => if provider == "virtualbox"@ {
            Some("virtualbox"@)
        } else if provider == "docker"@ {
            Some("docker-desktop"@)
        } else {
            None
        },
        HostOs::Other => None,
    }
}

/// The arguments that make the package manager of `os` install `package`.
pub open spec fn install_args_of(os: HostOs, package: Seq<char>) -> Seq<Seq<char>> {
    match os {
        HostOs::MacOs => seq!["install"@, "--cask"@, package],
        HostOs::Linux => seq!["apt-get"@, "install"@, "-y"@, package],
        HostOs::Windows => seq!["install"@, "-e"@, "--id"@, package],
        HostOs::Other => Seq::empty(),
    }
}

/// The package manager's name in the message of a run that could not start.
pub open spec fn runner_name_of(os: HostOs) -> Seq<char> {
    match os {
        HostOs::MacOs => "Brew"@,
        HostOs::Linux => "Apt"@,
        _ => "Winget"@,
    }
}

/// The package manager's name in the message of a run that failed.
pub open spec fn manager_name_of(os: HostOs) -> Seq<char> {
    match os {
        HostOs::MacOs => "Homebrew"@,
        HostOs::Linux => "Apt"@,
        _ => "Winget"@,
    }
}

/// Whether `r` is what an installation of `package` on `os` comes to, given
/// the package manager's answer: `Ok(true)` where it succeeded, `Ok(false)`
/// where it failed, `Err` with a message where it could not be run.
pub open spec fn install_result_of(
    os: HostOs,
    package: Seq<char>,
    answer: Result<bool, String>,
    r: Result<(), MigratoryError>,
) -> bool {
    match answer {
        Ok(true) => r is Ok,
        Ok(false) => r matches Err(MigratoryError::Generic(m)) && m@ == manager_name_of(os)
            + " failed to install provider package '"@ + package + "'"@,
        Err(e) => r matches Err(MigratoryError::Generic(m)) && m@ == runner_name_of(os)
            + " execution failed: "@ + e@,
    }
}

/// Returns what an installation of `package` on `os` comes to, given the
/// package manager's answer.
pub fn install_result(os: &HostOs, package: &str, answer: Result<bool, String>) -> (r: Result<
    (),
    MigratoryError,
>)
    ensures
        install_result_of(*os, package@, answer, r),
{
    match answer {
        Ok(true) => Ok(()),
        Ok(false) => {
            let mut m = match os {
                HostOs::MacOs => "Homebrew".to_owned(),
                HostOs::Linux => "Apt".to_owned(),
                _ => "Winget".to_owned(),
            };
            m.append(" failed to install provider package '");
            m.append(package);
            m.append("'");
            Err(MigratoryError::Generic(m))
        },
        Err(e) => {
            let mut m = match os {
                HostOs::MacOs => "Brew".to_owned(),
                HostOs::Linux => "Apt".to_owned(),
                _ => "Winget".to_owned(),
            };
            m.append(" execution failed: ");
            m.append(e.as_str());
            Err(MigratoryError::Generic(m))
        },
    }
}

/// The package manager program of `os`, where none is given in its place.
pub open spec fn default_installer_of(os: HostOs) -> Seq<char> {
    match os {
        HostOs::MacOs => "brew"@,
        HostOs::Linux => "sudo"@,
        HostOs::Windows => "winget"@,
        HostOs::Other => Seq::empty(),
    }
}

/// Returns the package manager program of `os`: `given` where there is one,
/// else the default.
pub fn installer_program(os: &HostOs, given: Option<&str>) -> (r: String)
    ensures
        r@ == match given {
            Some(g) => g@,
            None => default_installer_of(*os),
        },
{
    match given {
        Some(g) => g.to_owned(),
        None => match os {
            HostOs::MacOs => "brew".to_owned(),
            HostOs::Linux => "sudo".to_owned(),
            HostOs::Windows => "winget".to_owned(),
            HostOs::Other => String::new(),
        },
    }
}

/// Whether `installer`, asked to run `program` with `args`, may answer
/// `answer`.
pub open spec fn install_answers<I: Fn(&str, &[&str]) -> Result<bool, String>>(
    installer: I,
    program: Seq<char>,
    args: Seq<Seq<char>>,
    answer: Result<bool, String>,
) -> bool {
    exists|p: &str, a: &[&str]|
        #[trigger] call_ensures(installer, (p, a), answer) && p@ == program && slice_views(a@)
            == args
}

/// Returns the package that installs `provider` on `os`, where it has one.
fn install_package(os: &HostOs, provider: &str) -> (r: Option<&'static str>)
    ensures
        match install_package_of(*os, provider@) {
            Some(p) => r matches Some(s) && s@ == p,
            None => r is None,
        },
{
    match os {
        HostOs::MacOs => if str_eq(provider, "virtualbox") {
            Some("virtualbox")
        } else if str_eq(provider, "vmware") {
            Some("vmware-fusion")
        } else if str_eq(provider, "docker") {
            Some("docker")
        } else if str_eq(provider, "qemu") {
            Some("qemu")
        } else {
            None
        },
        HostOs::Linux => if str_eq(provider, "virtualbox") {
            Some("virtualbox")
        } else if str_eq(provider, "docker") {
            Some("docker.io")
        } else if str_eq(provider, "qemu") {
            Some("qemu-kvm")
        } else {
            None
        },
        HostOs::Windows => if str_eq(provider, "virtualbox") {
            Some("virtualbox")
        } else if str_eq(provider, "docker") {
            Some("docker-desktop")
        } else {
            None
        },
        HostOs::Other => None,
    }
}

/// Asks `installer` to run `program` with `args`.
fn run_installer<I: Fn(&str, &[&str]) -> Result<bool, String>>(
    installer: &I,
    program: &str,
    args: &[&str],
) -> (r: Result<bool, String>)
    requires
        forall|p: &str, a: &[&str]| call_requires(*installer, (p, a)),
    ensures
        install_answers(*installer, program@, slice_views(args@), r),
{
    let r = installer(program, args);
    assert(call_ensures(*installer, (program, args), r));
    r
}

/// Installs `provider_name` on `os` where a package is known for it: asks
/// `installer` to run the package manager `program` on the package, and
/// reports its answer. A provider without a package needs nothing.
pub fn install_provider_with<I: Fn(&str, &[&str]) -> Result<bool, String>>(
    os: &HostOs,
    provider_name: &str,
    program: &str,
    installer: &I,
) -> (r: Result<(), MigratoryError>)
    requires
        forall|p: &str, a: &[&str]| call_requires(*installer, (p, a)),
    ensures
        match install_package_of(*os, provider_name@) {
            None => r is Ok,
            Some(package) => exists|answer: Result<bool, String>|
                #![trigger install_result_of(*os, package, answer, r)]
                install_answers(*installer, program@, install_args_of(*os, package), answer)
                    && install_result_of(*os, package, answer, r),
        },
{
    let package = match install_package(os, provider_name) {
        Some(p) => p,
        None => return Ok(()),
    };
    let answer = match os {
        HostOs::MacOs => {
            let args: [&str; 3] = ["install", "--cask", package];
            assert(slice_views(args@) =~= install_args_of(*os, package@));
            run_installer(installer, program, &args)
        },
        HostOs::Linux => {
            let args: [&str; 4] = ["apt-get", "install", "-y", package];
            assert(slice_views(args@) =~= install_args_of(*os, package@));
            run_installer(installer, program, &args)
        },
        HostOs::Windows => {
            let args: [&str; 4] = ["install", "-e", "--id", package];
            assert(slice_views(args@) =~= install_args_of(*os, package@));
            run_installer(installer, program, &args)
        },
        HostOs::Other => return Ok(()),
    };
    install_result(os, package, answer)
}

} // verus!
