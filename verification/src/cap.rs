//! The `cap` command: which capabilities exist, and how a guest capability
//! is carried out on a guest with its arguments and defaults.

use vstd::prelude::*;
use crate::error::MigratoryError;
use crate::output::LineSink;
use crate::text::{str_eq, lowercase, to_lower};

verus! {

/// A connection that runs commands on a machine.
pub trait Communicator {
    /// Runs `command` on the machine and returns its output.
    fn execute(&self, command: &str) -> Result<String, MigratoryError>;

    /// Copies the local file `local` to `remote` on the machine.
    fn upload(&self, local: &str, remote: &str) -> Result<(), MigratoryError>;

    /// Copies `remote` on the machine to the local file `local`.
    fn download(&self, remote: &str, local: &str) -> Result<(), MigratoryError>;

    /// Opens an interactive session on the machine.
    fn execute_interactive(&self) -> Result<(), MigratoryError>;

    /// Waits until the machine accepts commands.
    fn wait_for_ready(&self, timeout: std::time::Duration) -> Result<(), MigratoryError>;
}

/// A network of a machine's configuration.
pub struct NetworkConfig {
    /// The kind of network (e.g. `private_network`).
    pub kind: String,
    /// The address the machine takes on it, if fixed.
    pub ip: Option<String>,
}

/// The views of a list of strings.
pub open spec fn string_seq(v: Seq<String>) -> Seq<Seq<char>> {
    v.map_values(|s: String| s@)
}

/// The view of an optional string slice.
pub open spec fn opt_str_view(o: Option<&str>) -> Option<Seq<char>> {
    match o {
        Some(s) => Some(s@),
        None => None,
    }
}

/// The operating-system side of a machine: what a guest capability does.
/// Each capability's spec function says what an implementation may answer;
/// it is left unspecified for one that does not describe it.
pub trait Guest {
    /// What `change_hostname` may answer for `hostname`.
    closed spec fn change_hostname_spec(&self, hostname: Seq<char>, r: Result<(), MigratoryError>) -> bool {
        arbitrary()
    }

    /// What `configure_networks` may answer for `networks`.
    closed spec fn configure_networks_spec(
        &self,
        networks: Seq<NetworkConfig>,
        r: Result<(), MigratoryError>,
    ) -> bool {
        arbitrary()
    }

    /// What `mount_shared_folder` may answer for `name` at `guest_path`.
    closed spec fn mount_shared_folder_spec(
        &self,
        name: Seq<char>,
        guest_path: Seq<char>,
        r: Result<(), MigratoryError>,
    ) -> bool {
        arbitrary()
    }

    /// What `halt` may answer.
    closed spec fn halt_spec(&self, r: Result<(), MigratoryError>) -> bool {
        arbitrary()
    }

    /// What `update_guest_additions` may answer for `provider` and `version`.
    closed spec fn update_guest_additions_spec(
        &self,
        provider: Seq<char>,
        version: Option<Seq<char>>,
        r: Result<(), MigratoryError>,
    ) -> bool {
        arbitrary()
    }

    /// What `mount_virtualbox_shared_folder` may answer for `name` at
    /// `guest_path`.
    closed spec fn mount_virtualbox_shared_folder_spec(
        &self,
        name: Seq<char>,
        guest_path: Seq<char>,
        r: Result<(), MigratoryError>,
    ) -> bool {
        arbitrary()
    }

    /// What `mount_nfs_folder` may answer for `host_ip:host_path` at
    /// `guest_path`.
    closed spec fn mount_nfs_folder_spec(
        &self,
        host_ip: Seq<char>,
        host_path: Seq<char>,
        guest_path: Seq<char>,
        r: Result<(), MigratoryError>,
    ) -> bool {
        arbitrary()
    }

    /// What `mount_smb_shared_folder` may answer for its arguments.
    closed spec fn mount_smb_shared_folder_spec(
        &self,
        host_path: Seq<char>,
        guest_path: Seq<char>,
        username: Seq<char>,
        password: Seq<char>,
        r: Result<(), MigratoryError>,
    ) -> bool {
        arbitrary()
    }

    /// What `rsync_installed` may answer.
    closed spec fn rsync_installed_spec(&self, r: Result<bool, MigratoryError>) -> bool {
        arbitrary()
    }

    /// Whether the machine runs this guest.
    fn detect(&self, comm: &dyn Communicator) -> Result<bool, MigratoryError>;

    /// Sets the machine's hostname.
    fn change_hostname(&self, comm: &dyn Communicator, hostname: &str) -> (r: Result<
        (),
        MigratoryError,
    >)
        ensures
            self.change_hostname_spec(hostname@, r),
    ;

    /// Configures the machine's networks.
    fn configure_networks(&self, comm: &dyn Communicator, networks: &[NetworkConfig]) -> (r:
        Result<(), MigratoryError>)
        ensures
            self.configure_networks_spec(networks@, r),
    ;

    /// Mounts a shared folder.
    fn mount_shared_folder(&self, comm: &dyn Communicator, name: &str, guest_path: &str) -> (r:
        Result<(), MigratoryError>)
        ensures
            self.mount_shared_folder_spec(name@, guest_path@, r),
    ;

    /// Shuts the machine down.
    fn halt(&self, comm: &dyn Communicator) -> (r: Result<(), MigratoryError>)
        ensures
            self.halt_spec(r),
    ;

    /// Updates the provider's guest additions.
    fn update_guest_additions(
        &self,
        comm: &dyn Communicator,
        provider: &str,
        version: Option<&str>,
    ) -> (r: Result<(), MigratoryError>)
        ensures
            self.update_guest_additions_spec(provider@, opt_str_view(version), r),
    ;

    /// Mounts a VirtualBox shared folder.
    fn mount_virtualbox_shared_folder(
        &self,
        comm: &dyn Communicator,
        name: &str,
        guest_path: &str,
    ) -> (r: Result<(), MigratoryError>)
        ensures
            self.mount_virtualbox_shared_folder_spec(name@, guest_path@, r),
    ;

    /// Mounts an NFS export.
    fn mount_nfs_folder(
        &self,
        comm: &dyn Communicator,
        host_ip: &str,
        host_path: &str,
        guest_path: &str,
    ) -> (r: Result<(), MigratoryError>)
        ensures
            self.mount_nfs_folder_spec(host_ip@, host_path@, guest_path@, r),
    ;

    /// Mounts an SMB share.
    fn mount_smb_shared_folder(
        &self,
        comm: &dyn Communicator,
        host_path: &str,
        guest_path: &str,
        username: &str,
        password: &str,
    ) -> (r: Result<(), MigratoryError>)
        ensures
            self.mount_smb_shared_folder_spec(host_path@, guest_path@, username@, password@, r),
    ;

    /// Whether rsync is installed on the machine.
    fn rsync_installed(&self, comm: &dyn Communicator) -> (r: Result<bool, MigratoryError>)
        ensures
            self.rsync_installed_spec(r),
    ;
}

/// The host side: what a host capability does. Each capability's spec
/// function says what an implementation may answer; it is left unspecified
/// for one that does not describe it.
pub trait Host {
    /// What `check_admin` may answer.
    closed spec fn check_admin_spec(&self, r: Result<bool, MigratoryError>) -> bool {
        arbitrary()
    }

    /// What `configure_nfs` may answer for `exports`.
    closed spec fn configure_nfs_spec(&self, exports: Seq<Seq<char>>, r: Result<(), MigratoryError>) -> bool {
        arbitrary()
    }

    /// What `configure_smb` may answer for `shares`.
    closed spec fn configure_smb_spec(&self, shares: Seq<Seq<char>>, r: Result<(), MigratoryError>) -> bool {
        arbitrary()
    }

    /// Whether the current user has administrator rights.
    fn check_admin(&self) -> (r: Result<bool, MigratoryError>)
        ensures
            self.check_admin_spec(r),
    ;

    /// Configures NFS exports.
    fn configure_nfs(&self, exports: &[String]) -> (r: Result<(), MigratoryError>)
        ensures
            self.configure_nfs_spec(string_seq(exports@), r),
    ;

    /// Configures SMB shares.
    fn configure_smb(&self, shares: &[String]) -> (r: Result<(), MigratoryError>)
        ensures
            self.configure_smb_spec(string_seq(shares@), r),
    ;
}

/// The host capabilities.
pub open spec fn is_host_cap(cap: Seq<char>) -> bool {
    cap == "check_admin"@ || cap == "configure_nfs"@ || cap == "configure_smb"@
}

/// The guest capabilities.
pub open spec fn is_guest_cap(cap: Seq<char>) -> bool {
    ||| cap == "change_hostname"@
    ||| cap == "configure_networks"@
    ||| cap == "mount_shared_folder"@
    ||| cap == "halt"@
    ||| cap == "update_guest_additions"@
    ||| cap == "mount_virtualbox_shared_folder"@
    ||| cap == "mount_nfs_folder"@
    ||| cap == "mount_smb_folder"@
    ||| cap == "rsync_installed"@
}

/// The message of the error for a capability that does not exist.
pub open spec fn unsupported_message(cap: Seq<char>) -> Seq<char> {
    "Capability '"@ + cap + "' is NOT supported."@
}

/// The error for a capability that does not exist.
pub fn unsupported_error(cap: &str) -> (e: MigratoryError)
    ensures
        e matches MigratoryError::Generic(m) && m@ == unsupported_message(cap@),
{
    let mut m = "Capability '".to_owned();
    m.append(cap);
    m.append("' is NOT supported.");
    MigratoryError::Generic(m)
}

/// Whether `cap` is a host capability.
pub fn host_cap(cap: &str) -> (b: bool)
    ensures
        b == is_host_cap(cap@),
{
    str_eq(cap, "check_admin") || str_eq(cap, "configure_nfs") || str_eq(cap, "configure_smb")
}

/// Whether `cap` is a guest capability.
pub fn guest_cap(cap: &str) -> (b: bool)
    ensures
        b == is_guest_cap(cap@),
{
    str_eq(cap, "change_hostname") || str_eq(cap, "configure_networks") || str_eq(
        cap,
        "mount_shared_folder",
    ) || str_eq(cap, "halt") || str_eq(cap, "update_guest_additions") || str_eq(
        cap,
        "mount_virtualbox_shared_folder",
    ) || str_eq(cap, "mount_nfs_folder") || str_eq(cap, "mount_smb_folder") || str_eq(
        cap,
        "rsync_installed",
    )
}

/// A guest capability with its arguments resolved.
#[derive(Debug)]
pub enum GuestCall {
    /// `change_hostname hostname`.
    ChangeHostname { hostname: String },
    /// `configure_networks`.
    ConfigureNetworks,
    /// `mount_shared_folder name guest_path`.
    MountSharedFolder { name: String, guest_path: String },
    /// `halt`.
    Halt,
    /// `update_guest_additions`, for the active provider.
    UpdateGuestAdditions { provider: String },
    /// `mount_virtualbox_shared_folder name guest_path`.
    MountVirtualboxSharedFolder { name: String, guest_path: String },
    /// `mount_nfs_folder host_ip host_path guest_path`.
    MountNfsFolder { host_ip: String, host_path: String, guest_path: String },
    /// `mount_smb_folder host_path guest_path user password`.
    MountSmbFolder { host_path: String, guest_path: String, user: String, password: String },
    /// `rsync_installed`.
    RsyncInstalled,
}

/// The `i`-th argument, or `default` where there are fewer.
pub open spec fn arg_or(args: Seq<Seq<char>>, i: int, default: Seq<char>) -> Seq<char> {
    if 0 <= i < args.len() {
        args[i]
    } else {
        default
    }
}

/// The character views of a list of strings.
pub open spec fn arg_views(args: Seq<String>) -> Seq<Seq<char>> {
    args.map_values(|s: String| s@)
}

/// Whether `call` is the guest capability `cap` with the arguments `args`
/// (missing ones taking their defaults) and the active provider `provider`.
pub open spec fn resolves_to(
    cap: Seq<char>,
    args: Seq<Seq<char>>,
    provider: Seq<char>,
    call: GuestCall,
) -> bool {
    match call {
        GuestCall::ChangeHostname { hostname } => cap == "change_hostname"@ && hostname@ == arg_or(
            args,
            0,
            "vagrant"@,
        ),
        GuestCall::ConfigureNetworks => cap == "configure_networks"@,
        GuestCall::MountSharedFolder { name, guest_path } => cap == "mount_shared_folder"@
            && name@ == arg_or(args, 0, "vagrant"@) && guest_path@ == arg_or(
            args,
            1,
            "/vagrant"@,
        ),
        GuestCall::Halt => cap == "halt"@,
        GuestCall::UpdateGuestAdditions { provider: p } => cap == "update_guest_additions"@ && p@
            == provider,
        GuestCall::MountVirtualboxSharedFolder { name, guest_path } => cap
            == "mount_virtualbox_shared_folder"@ && name@ == arg_or(args, 0, "vagrant"@)
            && guest_path@ == arg_or(args, 1, "/vagrant"@),
        GuestCall::MountNfsFolder { host_ip, host_path, guest_path } => cap == "mount_nfs_folder"@
            && host_ip@ == arg_or(args, 0, "10.0.2.2"@) && host_path@ == arg_or(args, 1, "/tmp"@)
            && guest_path@ == arg_or(args, 2, "/mnt/nfs"@),
        GuestCall::MountSmbFolder { host_path, guest_path, user, password } => cap
            == "mount_smb_folder"@ && host_path@ == arg_or(args, 0, "//localhost/share"@)
            && guest_path@ == arg_or(args, 1, "/mnt/smb"@) && user@ == arg_or(args, 2, "guest"@)
            && password@ == arg_or(args, 3, ""@),
        GuestCall::RsyncInstalled => cap == "rsync_installed"@,
    }
}

fn arg_or_default(args: &[String], i: usize, default: &str) -> (r: String)
    ensures
        r@ == arg_or(arg_views(args@), i as int, default@),
{
    if i < args.len() {
        args[i].clone()
    } else {
        default.to_owned()
    }
}

/// Resolves the guest capability `cap_name` with its arguments; a name that
/// is no guest capability is an error.
pub fn plan_guest_cap(cap_name: &str, args: &[String], provider_name: &str) -> (r: Result<
    GuestCall,
    MigratoryError,
>)
    ensures
        r is Ok <==> is_guest_cap(cap_name@),
        r matches Ok(c) ==> resolves_to(cap_name@, arg_views(args@), provider_name@, c),
        r matches Err(e) ==> e matches MigratoryError::Generic(m) && m@ == unsupported_message(
            cap_name@,
        ),
{
    if str_eq(cap_name, "change_hostname") {
        Ok(GuestCall::ChangeHostname { hostname: arg_or_default(args, 0, "vagrant") })
    } else if str_eq(cap_name, "configure_networks") {
        Ok(GuestCall::ConfigureNetworks)
    } else if str_eq(cap_name, "mount_shared_folder") {
        Ok(
            GuestCall::MountSharedFolder {
                name: arg_or_default(args, 0, "vagrant"),
                guest_path: arg_or_default(args, 1, "/vagrant"),
            },
        )
    } else if str_eq(cap_name, "halt") {
        Ok(GuestCall::Halt)
    } else if str_eq(cap_name, "update_guest_additions") {
        Ok(GuestCall::UpdateGuestAdditions { provider: provider_name.to_owned() })
    } else if str_eq(cap_name, "mount_virtualbox_shared_folder") {
        Ok(
            GuestCall::MountVirtualboxSharedFolder {
                name: arg_or_default(args, 0, "vagrant"),
                guest_path: arg_or_default(args, 1, "/vagrant"),
            },
        )
    } else if str_eq(cap_name, "mount_nfs_folder") {
        Ok(
            GuestCall::MountNfsFolder {
                host_ip: arg_or_default(args, 0, "10.0.2.2"),
                host_path: arg_or_default(args, 1, "/tmp"),
                guest_path: arg_or_default(args, 2, "/mnt/nfs"),
            },
        )
    } else if str_eq(cap_name, "mount_smb_folder") {
        Ok(
            GuestCall::MountSmbFolder {
                host_path: arg_or_default(args, 0, "//localhost/share"),
                guest_path: arg_or_default(args, 1, "/mnt/smb"),
                user: arg_or_default(args, 2, "guest"),
                password: arg_or_default(args, 3, ""),
            },
        )
    } else if str_eq(cap_name, "rsync_installed") {
        Ok(GuestCall::RsyncInstalled)
    } else {
        Err(unsupported_error(cap_name))
    }
}

/// The line written before a guest capability runs (`rsync_installed`
/// writes its line after, with the answer).
pub open spec fn announcement(call: GuestCall) -> Seq<char> {
    match call {
        GuestCall::ChangeHostname { hostname } => "Changing guest hostname to '"@ + hostname@
            + "'..."@,
        GuestCall::ConfigureNetworks => "Configuring guest networks..."@,
        GuestCall::MountSharedFolder { name, guest_path } => "Mounting shared folder '"@ + name@
            + "' at '"@ + guest_path@ + "'..."@,
        GuestCall::Halt => "Halting guest OS..."@,
        GuestCall::UpdateGuestAdditions { provider } => "Updating guest additions for provider '"@
            + provider@ + "'..."@,
        GuestCall::MountVirtualboxSharedFolder { name, guest_path } =>
            "Mounting VirtualBox shared folder '"@ + name@ + "' at '"@ + guest_path@ + "'..."@,
        GuestCall::MountNfsFolder { host_ip, host_path, guest_path } => "Mounting NFS folder '"@
            + host_ip@ + ":"@ + host_path@ + "' at '"@ + guest_path@ + "'..."@,
        GuestCall::MountSmbFolder { host_path, guest_path, .. } => "Mounting SMB folder '"@
            + host_path@ + "' at '"@ + guest_path@ + "'..."@,
        GuestCall::RsyncInstalled => Seq::empty(),
    }
}

/// The spelling of a boolean (`{}` of a `bool`).
pub open spec fn bool_text(b: bool) -> Seq<char> {
    if b {
        "true"@
    } else {
        "false"@
    }
}

fn bool_str(b: bool) -> (s: &'static str)
    ensures
        s@ == bool_text(b),
{
    if b {
        "true"
    } else {
        "false"
    }
}

/// The line that reports whether rsync is installed.
pub open spec fn rsync_line(installed: bool) -> Seq<char> {
    "Rsync installed on guest: "@ + bool_text(installed)
}

/// Returns the line written before `call` runs.
pub fn announce(call: &GuestCall) -> (s: String)
    ensures
        s@ == announcement(*call),
{
    match call {
        GuestCall::ChangeHostname { hostname } => {
            let mut m = "Changing guest hostname to '".to_owned();
            m.append(hostname.as_str());
            m.append("'...");
            m
        },
        GuestCall::ConfigureNetworks => "Configuring guest networks...".to_owned(),
        GuestCall::MountSharedFolder { name, guest_path } => {
            let mut m = "Mounting shared folder '".to_owned();
            m.append(name.as_str());
            m.append("' at '");
            m.append(guest_path.as_str());
            m.append("'...");
            m
        },
        GuestCall::Halt => "Halting guest OS...".to_owned(),
        GuestCall::UpdateGuestAdditions { provider } => {
            let mut m = "Updating guest additions for provider '".to_owned();
            m.append(provider.as_str());
            m.append("'...");
            m
        },
        GuestCall::MountVirtualboxSharedFolder { name, guest_path } => {
            let mut m = "Mounting VirtualBox shared folder '".to_owned();
            m.append(name.as_str());
            m.append("' at '");
            m.append(guest_path.as_str());
            m.append("'...");
            m
        },
        GuestCall::MountNfsFolder { host_ip, host_path, guest_path } => {
            let mut m = "Mounting NFS folder '".to_owned();
            m.append(host_ip.as_str());
            m.append(":");
            m.append(host_path.as_str());
            m.append("' at '");
            m.append(guest_path.as_str());
            m.append("'...");
            m
        },
        GuestCall::MountSmbFolder { host_path, guest_path, .. } => {
            let mut m = "Mounting SMB folder '".to_owned();
            m.append(host_path.as_str());
            m.append("' at '");
            m.append(guest_path.as_str());
            m.append("'...");
            m
        },
        GuestCall::RsyncInstalled => String::new(),
    }
}

/// Whether `r` is an answer that `guest` may give to the call `c` (other
/// than `rsync_installed`), with c's arguments.
pub open spec fn guest_answers<G: Guest + ?Sized>(guest: &G, c: GuestCall, r: Result<(), MigratoryError>) -> bool {
    match c {
        GuestCall::ChangeHostname { hostname } => guest.change_hostname_spec(hostname@, r),
        GuestCall::ConfigureNetworks => guest.configure_networks_spec(Seq::empty(), r),
        GuestCall::MountSharedFolder { name, guest_path } => guest.mount_shared_folder_spec(
            name@,
            guest_path@,
            r,
        ),
        GuestCall::Halt => guest.halt_spec(r),
        GuestCall::UpdateGuestAdditions { provider } => guest.update_guest_additions_spec(
            provider@,
            None,
            r,
        ),
        GuestCall::MountVirtualboxSharedFolder { name, guest_path } =>
            guest.mount_virtualbox_shared_folder_spec(name@, guest_path@, r),
        GuestCall::MountNfsFolder { host_ip, host_path, guest_path } =>
            guest.mount_nfs_folder_spec(host_ip@, host_path@, guest_path@, r),
        GuestCall::MountSmbFolder { host_path, guest_path, user, password } =>
            guest.mount_smb_shared_folder_spec(host_path@, guest_path@, user@, password@, r),
        GuestCall::RsyncInstalled => false,
    }
}

/// What asking `rsync_installed` and reporting the answer `ans` does, with
/// result `r`, to a writer whose text goes from `t0` to `t1` and that
/// accepts (or refuses) every line where `accepts` (or `rejects`) holds: a
/// guest error is the result and nothing is written; otherwise the answer's
/// line is written, and a failed write is an error.
pub open spec fn rsync_reported(
    ans: Result<bool, MigratoryError>,
    t0: Seq<char>,
    t1: Seq<char>,
    accepts: bool,
    rejects: bool,
    r: Result<(), MigratoryError>,
) -> bool {
    match ans {
        Err(e) => r == Err::<(), MigratoryError>(e) && t1 == t0,
        Ok(b) => {
            &&& r is Ok ==> t1 == t0 + rsync_line(b) + seq!['\n']
            &&& accepts ==> r is Ok && t1 == t0 + rsync_line(b) + seq!['\n']
            &&& rejects ==> r is Err
        },
    }
}

/// What dispatching the resolved call `c` (other than `rsync_installed`)
/// does, with result `r`, to a writer whose text goes from `t0` to `t1` and
/// that accepts (or refuses) every line where `accepts` (or `rejects`)
/// holds: its announcement is written, then the guest method runs with c's
/// arguments and its answer is the result; a failed write is an error.
pub open spec fn call_dispatched<G: Guest + ?Sized>(
    guest: &G,
    c: GuestCall,
    t0: Seq<char>,
    t1: Seq<char>,
    accepts: bool,
    rejects: bool,
    r: Result<(), MigratoryError>,
) -> bool {
    &&& r is Ok ==> t1 == t0 + announcement(c) + seq!['\n'] && guest_answers(guest, c, r)
    &&& accepts ==> t1 == t0 + announcement(c) + seq!['\n'] && guest_answers(guest, c, r)
    &&& rejects ==> r is Err
}

/// Dispatches a guest capability to a `Guest` implementation: a capability
/// that does not exist is an error and writes nothing; any other is resolved
/// with its arguments (defaults where missing) and dispatched.
pub fn dispatch_guest_cap<W: LineSink>(
    guest: &dyn Guest,
    comm: &dyn Communicator,
    cap_name: &str,
    args: &[String],
    provider_name: &str,
    writer: &mut W,
) -> (r: Result<(), MigratoryError>)
    ensures
        !is_guest_cap(cap_name@) ==> (r matches Err(e) && e matches MigratoryError::Generic(m)
            && m@ == unsupported_message(cap_name@)) && final(writer).text() == old(writer).text(),
        is_guest_cap(cap_name@) ==> exists|c: GuestCall|
            #[trigger] resolves_to(cap_name@, arg_views(args@), provider_name@, c) && (
            c is RsyncInstalled ==> exists|ans: Result<bool, MigratoryError>|
                #[trigger] guest.rsync_installed_spec(ans) && rsync_reported(
                    ans,
                    old(writer).text(),
                    final(writer).text(),
                    old(writer).accepts_all(),
                    old(writer).rejects_all(),
                    r,
                )) && (!(c is RsyncInstalled) ==> call_dispatched(
                guest,
                c,
                old(writer).text(),
                final(writer).text(),
                old(writer).accepts_all(),
                old(writer).rejects_all(),
                r,
            )),
{
    let call = match plan_guest_cap(cap_name, args, provider_name) {
        Ok(c) => c,
        Err(e) => return Err(e),
    };
    let ghost w0 = *writer;
    match &call {
        GuestCall::RsyncInstalled => {
            let ans = guest.rsync_installed(comm);
            let ghost answer = ans;
            assert(guest.rsync_installed_spec(answer));
            match ans {
                Err(e) => {
                    assert(rsync_reported(
                        answer,
                        w0.text(),
                        writer.text(),
                        w0.accepts_all(),
                        w0.rejects_all(),
                        Err::<(), MigratoryError>(e),
                    ));
                    Err(e)
                },
                Ok(installed) => {
                    let mut m = "Rsync installed on guest: ".to_owned();
                    m.append(bool_str(installed));
                    assert(m@ == rsync_line(installed));
                    let r = writer.write_line(m.as_str());
                    assert(rsync_reported(
                        answer,
                        w0.text(),
                        writer.text(),
                        w0.accepts_all(),
                        w0.rejects_all(),
                        r,
                    ));
                    r
                },
            }
        },
        _ => {
            let line = announce(&call);
            let w = writer.write_line(line.as_str());
            if let Err(e) = w {
                return Err(e);
            }
            let r = match &call {
                GuestCall::ChangeHostname { hostname } => guest.change_hostname(
                    comm,
                    hostname.as_str(),
                ),
                GuestCall::ConfigureNetworks => {
                    let none: [NetworkConfig; 0] = [];
                    assert(none@ =~= Seq::<NetworkConfig>::empty());
                    guest.configure_networks(comm, &none)
                },
                GuestCall::MountSharedFolder { name, guest_path } => guest.mount_shared_folder(
                    comm,
                    name.as_str(),
                    guest_path.as_str(),
                ),
                GuestCall::Halt => guest.halt(comm),
                GuestCall::UpdateGuestAdditions { provider } => guest.update_guest_additions(
                    comm,
                    provider.as_str(),
                    None,
                ),
                GuestCall::MountVirtualboxSharedFolder { name, guest_path } =>
                    guest.mount_virtualbox_shared_folder(comm, name.as_str(), guest_path.as_str()),
                GuestCall::MountNfsFolder { host_ip, host_path, guest_path } =>
                    guest.mount_nfs_folder(
                    comm,
                    host_ip.as_str(),
                    host_path.as_str(),
                    guest_path.as_str(),
                ),
                GuestCall::MountSmbFolder { host_path, guest_path, user, password } =>
                    guest.mount_smb_shared_folder(
                    comm,
                    host_path.as_str(),
                    guest_path.as_str(),
                    user.as_str(),
                    password.as_str(),
                ),
                GuestCall::RsyncInstalled => {
                    assert(false);
                    Ok(())
                },
            };
            assert(guest_answers(guest, call, r));
            r
        },
    }
}

/// The arguments of the `cap` command.
pub struct CapArgs {
    /// The machine name, or the capability where no capability follows.
    pub name: Option<String>,
    /// The capability.
    pub capability: Option<String>,
    /// Extra arguments for the capability.
    pub extra_args: Vec<String>,
    /// Only check whether the capability exists.
    pub check: bool,
    /// The guest to run it on, instead of the configured or detected one.
    pub target_guest: Option<String>,
}

/// What remains to be done after `execute` has decided.
#[derive(Debug)]
pub enum CapStep {
    /// Nothing: the command is complete.
    Done,
    /// Run the host capability on the detected host.
    Host { capability: String },
    /// Run the guest capability on the machine (the named one, or the
    /// configuration's first).
    Guest { machine: Option<String>, capability: String },
}

/// The machine and the capability that the arguments name: with one name
/// only, it is the capability.
pub open spec fn cap_target(name: Option<Seq<char>>, capability: Option<Seq<char>>) -> Option<
    (Option<Seq<char>>, Seq<char>),
> {
    match (name, capability) {
        (Some(n), Some(c)) => Some((Some(n), c)),
        (Some(n), None) => Some((None, n)),
        (None, Some(c)) => Some((None, c)),
        (None, None) => None,
    }
}

/// The view of an optional string.
pub open spec fn opt_view(o: Option<String>) -> Option<Seq<char>> {
    match o {
        Some(s) => Some(s@),
        None => None,
    }
}

/// The line asking for a capability.
pub open spec fn missing_cap_line() -> Seq<char> {
    "Please specify a capability to execute."@
}

/// The line confirming that a capability exists.
pub open spec fn supported_line(cap: Seq<char>) -> Seq<char> {
    "Capability '"@ + cap + "' is supported."@
}

/// The line announcing a guest capability.
pub open spec fn executing_line(cap: Seq<char>) -> Seq<char> {
    "Executing capability '"@ + cap + "'..."@
}

/// Executes the `cap` command up to the work on the host or the guest:
/// shifts a lone name to the capability, answers `--check`, refuses a
/// capability that does not exist, and says which side runs it.
pub fn execute<W: LineSink>(args: &CapArgs, writer: &mut W) -> (r: Result<CapStep, MigratoryError>)
    ensures
        match cap_target(opt_view(args.name), opt_view(args.capability)) {
            None => {
                &&& r is Ok ==> (r matches Ok(CapStep::Done) && final(writer).text() == old(
                    writer,
                ).text() + missing_cap_line() + seq!['\n'])
                &&& old(writer).accepts_all() ==> r is Ok
            },
            Some((m, c)) => if !(is_host_cap(c) || is_guest_cap(c)) {
                &&& r matches Err(e) && e matches MigratoryError::Generic(msg) && msg@
                    == unsupported_message(c)
                &&& final(writer).text() == old(writer).text()
            } else if args.check {
                &&& r is Ok ==> (r matches Ok(CapStep::Done) && final(writer).text() == old(
                    writer,
                ).text() + supported_line(c) + seq!['\n'])
                &&& old(writer).accepts_all() ==> r is Ok
            } else if is_host_cap(c) {
                &&& r matches Ok(CapStep::Host { capability }) && capability@ == c
                &&& final(writer).text() == old(writer).text()
            } else {
                &&& r is Ok ==> (r matches Ok(CapStep::Guest { machine, capability })
                    && capability@ == c && opt_view(machine) == m && final(writer).text() == old(
                    writer,
                ).text() + executing_line(c) + seq!['\n'])
                &&& old(writer).accepts_all() ==> r is Ok
            },
        },
{
    let (machine, cap) = match (&args.name, &args.capability) {
        (Some(n), Some(c)) => (Some(n.clone()), c.clone()),
        (Some(n), None) => (None, n.clone()),
        (None, Some(c)) => (None, c.clone()),
        (None, None) => {
            writer.write_line("Please specify a capability to execute.")?;
            return Ok(CapStep::Done);
        },
    };
    let is_host = host_cap(cap.as_str());
    let is_guest = guest_cap(cap.as_str());
    if args.check {
        if is_host || is_guest {
            let mut m = "Capability '".to_owned();
            m.append(cap.as_str());
            m.append("' is supported.");
            writer.write_line(m.as_str())?;
            return Ok(CapStep::Done);
        }
        return Err(unsupported_error(cap.as_str()));
    }
    if !(is_host || is_guest) {
        return Err(unsupported_error(cap.as_str()));
    }
    if is_host {
        Ok(CapStep::Host { capability: cap })
    } else {
        let mut m = "Executing capability '".to_owned();
        m.append(cap.as_str());
        m.append("'...");
        writer.write_line(m.as_str())?;
        Ok(CapStep::Guest { machine, capability: cap })
    }
}

/// The line announcing a host capability.
pub open spec fn host_line(cap: Seq<char>) -> Seq<char> {
    "Executing host capability '"@ + cap + "'..."@
}

/// The line reporting the administrator check.
pub open spec fn admin_line(is_admin: bool) -> Seq<char> {
    "Admin check executed: "@ + bool_text(is_admin)
}

/// What reporting the administrator check's answer `ans` does, with result
/// `r`, to a writer whose text goes from `t0` to `t1` and that accepts (or
/// refuses) every line where `accepts` (or `rejects`) holds: a host error is
/// the result and nothing is written; otherwise the answer's line is
/// written, and a failed write is an error.
pub open spec fn admin_reported(
    ans: Result<bool, MigratoryError>,
    t0: Seq<char>,
    t1: Seq<char>,
    accepts: bool,
    rejects: bool,
    r: Result<(), MigratoryError>,
) -> bool {
    match ans {
        Err(e) => r == Err::<(), MigratoryError>(e) && t1 == t0,
        Ok(b) => {
            &&& r is Ok ==> t1 == t0 + admin_line(b) + seq!['\n']
            &&& accepts ==> r is Ok && t1 == t0 + admin_line(b) + seq!['\n']
            &&& rejects ==> r is Err
        },
    }
}

/// Whether `r` is an answer `host` may give when the capability `cap` (other
/// than `check_admin`) configures: NFS for `configure_nfs`, SMB for any
/// other name, with no exports or shares.
pub open spec fn host_answers<H: Host + ?Sized>(host: &H, cap: Seq<char>, r: Result<(), MigratoryError>) -> bool {
    if cap == "configure_nfs"@ {
        host.configure_nfs_spec(Seq::empty(), r)
    } else {
        host.configure_smb_spec(Seq::empty(), r)
    }
}

/// Runs a host capability: `check_admin` asks the host, then reports its
/// answer; `configure_nfs` and any other name announce themselves, then
/// configure NFS or SMB respectively, whose answer is the result. A host
/// error or a failed write is the result.
pub fn run_host_cap<W: LineSink>(host: &dyn Host, cap_name: &str, writer: &mut W) -> (r: Result<
    (),
    MigratoryError,
>)
    ensures
        cap_name@ == "check_admin"@ ==> exists|ans: Result<bool, MigratoryError>|
            #[trigger] host.check_admin_spec(ans) && admin_reported(
                ans,
                old(writer).text(),
                final(writer).text(),
                old(writer).accepts_all(),
                old(writer).rejects_all(),
                r,
            ),
        cap_name@ != "check_admin"@ ==> {
            &&& r is Ok ==> final(writer).text() == old(writer).text() + host_line(cap_name@)
                + seq!['\n'] && host_answers(host, cap_name@, r)
            &&& old(writer).accepts_all() ==> final(writer).text() == old(writer).text()
                + host_line(cap_name@) + seq!['\n'] && host_answers(host, cap_name@, r)
            &&& old(writer).rejects_all() ==> r is Err
        },
{
    let ghost w0 = *writer;
    if str_eq(cap_name, "check_admin") {
        let ans = host.check_admin();
        let ghost answer = ans;
        assert(host.check_admin_spec(answer));
        match ans {
            Err(e) => {
                assert(admin_reported(
                    answer,
                    w0.text(),
                    writer.text(),
                    w0.accepts_all(),
                    w0.rejects_all(),
                    Err::<(), MigratoryError>(e),
                ));
                Err(e)
            },
            Ok(is_admin) => {
                let mut m = "Admin check executed: ".to_owned();
                m.append(bool_str(is_admin));
                assert(m@ == admin_line(is_admin));
                let r = writer.write_line(m.as_str());
                assert(admin_reported(
                    answer,
                    w0.text(),
                    writer.text(),
                    w0.accepts_all(),
                    w0.rejects_all(),
                    r,
                ));
                r
            },
        }
    } else {
        let mut m = "Executing host capability '".to_owned();
        m.append(cap_name);
        m.append("'...");
        let w = writer.write_line(m.as_str());
        if let Err(e) = w {
            return Err(e);
        }
        let none: Vec<String> = Vec::new();
        assert(string_seq(none@) =~= Seq::<Seq<char>>::empty());
        if str_eq(cap_name, "configure_nfs") {
            host.configure_nfs(none.as_slice())
        } else {
            host.configure_smb(none.as_slice())
        }
    }
}

/// The kind of guest operating system a capability runs on.
#[derive(Debug, Clone, Copy, PartialEq, Eq, Structural)]
pub enum GuestKind {
    /// Linux (and anything not otherwise named).
    Linux,
    /// Windows.
    Windows,
    /// BSD, FreeBSD among them.
    Bsd,
}

/// The guest that a name selects, in any case: `windows`, `bsd` or
/// `freebsd`, and Linux for anything else.
pub open spec fn guest_kind_of(name: Seq<char>) -> GuestKind {
    let l = lowercase(name);
    if l == "windows"@ {
        GuestKind::Windows
    } else if l == "bsd"@ || l == "freebsd"@ {
        GuestKind::Bsd
    } else {
        GuestKind::Linux
    }
}

/// Returns the guest that a name selects.
pub fn guest_kind(name: &str) -> (k: GuestKind)
    ensures
        k == guest_kind_of(name@),
{
    let l = to_lower(name);
    if str_eq(l.as_str(), "windows") {
        GuestKind::Windows
    } else if str_eq(l.as_str(), "bsd") || str_eq(l.as_str(), "freebsd") {
        GuestKind::Bsd
    } else {
        GuestKind::Linux
    }
}

/// Chooses the guest: the target guest of the arguments, else the guest of
/// the machine's configuration; `None` where neither names one and the guest
/// is to be detected.
pub fn choose_guest(target_guest: Option<&str>, vm_guest: Option<&str>) -> (r: Option<GuestKind>)
    ensures
        target_guest matches Some(t) ==> r == Some(guest_kind_of(t@)),
        target_guest is None ==> (vm_guest matches Some(g) ==> r == Some(guest_kind_of(g@))),
        target_guest is None && vm_guest is None ==> r is None,
{
    match target_guest {
        Some(t) => Some(guest_kind(t)),
        None => match vm_guest {
            Some(g) => Some(guest_kind(g)),
            None => None,
        },
    }
}

} // verus!
