//! The `powershell` command: the command line a PowerShell session runs,
//! the `ssh` arguments that open it, and the copying of its streams.

use vstd::prelude::*;
use crate::error::MigratoryError;
use crate::box_manager::{join_path, path_join};
use crate::text::{decimal, str_eq, u64_to_decimal};

verus! {

/// The remote command of an elevated session that runs `cmd`.
pub open spec fn elevated_command(cmd: Seq<char>) -> Seq<char> {
    "Start-Process powershell -ArgumentList '-NoProfile -NonInteractive -ExecutionPolicy Bypass -Command \""@
        + cmd + "\"\"' -Verb RunAs"@
}

/// The command of an elevated interactive shell.
pub open spec fn elevated_shell() -> Seq<char> {
    "powershell.exe -NoProfile -ExecutionPolicy Bypass -Command \"Start-Process powershell -ArgumentList '-NoLogo -NoExit' -Verb RunAs\""@
}

/// The command of an interactive shell.
pub open spec fn plain_shell() -> Seq<char> {
    "powershell.exe -NoLogo -NoExit"@
}

/// The PowerShell command for an optional command and elevation: a command
/// runs as it is, or through `Start-Process ... -Verb RunAs` where elevated;
/// without a command, an interactive shell, elevated or not.
pub open spec fn powershell_command(command: Option<Seq<char>>, elevated: bool) -> Seq<char> {
    match command {
        Some(cmd) => if elevated {
            elevated_command(cmd)
        } else {
            cmd
        },
        None => if elevated {
            elevated_shell()
        } else {
            plain_shell()
        },
    }
}

/// Formats a powershell command depending on elevation and interactive status.
pub fn format_powershell_command(command: Option<&str>, elevated: bool) -> (s: String)
    ensures
        s@ == powershell_command(
            match command { Some(c) => Some(c@), None => None },
            elevated,
        ),
{
    match command {
        Some(cmd) => if elevated {
            let mut s =
                "Start-Process powershell -ArgumentList '-NoProfile -NonInteractive -ExecutionPolicy Bypass -Command \"".to_owned();
            s.append(cmd);
            s.append("\"\"' -Verb RunAs");
            s
        } else {
            cmd.to_owned()
        },
        None => if elevated {
            "powershell.exe -NoProfile -ExecutionPolicy Bypass -Command \"Start-Process powershell -ArgumentList '-NoLogo -NoExit' -Verb RunAs\"".to_owned()
        } else {
            "powershell.exe -NoLogo -NoExit".to_owned()
        },
    }
}

/// How a machine is reached over SSH.
pub struct SshConfig {
    /// The host name or address.
    pub host: String,
    /// The port.
    pub port: u16,
    /// The user name.
    pub username: String,
    /// The private key, if one is configured.
    pub private_key_path: Option<String>,
}

/// The virtual-machine settings that a session needs.
pub struct VmConfig {
    /// The communicator (`ssh` where unset, or `winrm`).
    pub communicator: Option<String>,
}

/// The configuration of a machine, as far as a PowerShell session reads it.
pub struct MachineConfig {
    /// SSH settings.
    pub ssh: SshConfig,
    /// Virtual-machine settings.
    pub vm: VmConfig,
}

impl Default for MachineConfig {
    fn default() -> (c: MachineConfig)
        ensures
            c.ssh.host@ == Seq::<char>::empty(),
            c.ssh.port == 0,
            c.ssh.username@ == Seq::<char>::empty(),
            c.ssh.private_key_path is None,
            c.vm.communicator is None,
    {
        MachineConfig {
            ssh: SshConfig {
                host: String::new(),
                port: 0,
                username: String::new(),
                private_key_path: None,
            },
            vm: VmConfig { communicator: None },
        }
    }
}

/// Manages an interactive PowerShell remoting session.
pub struct PowerShellSession {
    /// Name of the target machine.
    pub machine_name: String,
    /// Target machine configuration.
    pub machine_config: MachineConfig,
    /// Whether the session runs with elevated administrator privileges.
    pub elevated: bool,
    /// Optional single command to execute instead of launching an interactive shell.
    pub command: Option<String>,
}

/// The view of an optional string.
pub open spec fn opt_str(o: Option<String>) -> Option<Seq<char>> {
    match o {
        Some(s) => Some(s@),
        None => None,
    }
}

/// The decimal spelling of a port.
pub open spec fn port_text(p: u16) -> Seq<char> {
    crate::text::decimal(p as nat)
}

/// The `ssh` arguments that open a session: the target, its port, a
/// terminal, no host-key checks and quiet logging, the key where one exists,
/// and the remote command.
pub open spec fn ssh_arguments(
    user: Seq<char>,
    host: Seq<char>,
    port: u16,
    key: Option<Seq<char>>,
    remote: Seq<char>,
) -> Seq<Seq<char>> {
    seq![user + "@"@ + host, "-p"@, port_text(port), "-t"@, "-o"@, "StrictHostKeyChecking=no"@, "-o"@,
        "UserKnownHostsFile=/dev/null"@, "-o"@, "LogLevel=FATAL"@] + match key {
        Some(k) => seq!["-i"@, k],
        None => Seq::empty(),
    } + seq![remote]
}

/// The character views of a list of strings.
pub open spec fn str_views(v: Seq<String>) -> Seq<Seq<char>> {
    v.map_values(|s: String| s@)
}

impl PowerShellSession {
    /// Creates a new `PowerShellSession`.
    pub fn new(
        machine_name: String,
        machine_config: MachineConfig,
        elevated: bool,
        command: Option<String>,
    ) -> (s: PowerShellSession)
        ensures
            s.machine_name == machine_name,
            s.machine_config == machine_config,
            s.elevated == elevated,
            s.command == command,
    {
        PowerShellSession { machine_name, machine_config, elevated, command }
    }

    /// Formats the command string for this session according to elevation
    /// and interactive mode.
    pub fn format_command(&self) -> (s: String)
        ensures
            s@ == powershell_command(opt_str(self.command), self.elevated),
    {
        match &self.command {
            Some(c) => format_powershell_command(Some(c.as_str()), self.elevated),
            None => format_powershell_command(None, self.elevated),
        }
    }

    /// The arguments of the `ssh` invocation that opens this session;
    /// `key_path` is passed with `-i` where `key_exists` says the file is
    /// there.
    pub fn ssh_args(&self, key_path: Option<&str>, key_exists: bool) -> (r: Vec<String>)
        ensures
            str_views(r@) == ssh_arguments(
                self.machine_config.ssh.username@,
                self.machine_config.ssh.host@,
                self.machine_config.ssh.port,
                match key_path {
                    Some(k) => if key_exists {
                        Some(k@)
                    } else {
                        None
                    },
                    None => None,
                },
                powershell_command(opt_str(self.command), self.elevated),
            ),
    {
        let mut target = self.machine_config.ssh.username.clone();
        target.append("@");
        target.append(self.machine_config.ssh.host.as_str());
        let mut r: Vec<String> = Vec::new();
        r.push(target);
        r.push("-p".to_owned());
        r.push(u64_to_decimal(self.machine_config.ssh.port as u64));
        r.push("-t".to_owned());
        r.push("-o".to_owned());
        r.push("StrictHostKeyChecking=no".to_owned());
        r.push("-o".to_owned());
        r.push("UserKnownHostsFile=/dev/null".to_owned());
        r.push("-o".to_owned());
        r.push("LogLevel=FATAL".to_owned());
        let ghost head = str_views(r@);
        match key_path {
            Some(k) => if key_exists {
                r.push("-i".to_owned());
                r.push(k.to_owned());
            },
            None => {},
        }
        let ghost mid = str_views(r@);
        r.push(self.format_command());
        proof {
            let key = match key_path {
                Some(k) => if key_exists {
                    Some(k@)
                } else {
                    None
                },
                None => None,
            };
            let tail = match key {
                Some(k) => seq!["-i"@, k],
                None => Seq::<Seq<char>>::empty(),
            };
            assert(mid =~= head + tail);
            assert(str_views(r@) =~= mid + seq![
                powershell_command(opt_str(self.command), self.elevated),
            ]);
        }
        r
    }
}

/// The decimal spelling of an integer, with a minus sign where negative.
pub open spec fn int_text(n: int) -> Seq<char> {
    if n < 0 {
        "-"@ + decimal((-n) as nat)
    } else {
        decimal(n as nat)
    }
}

/// Returns the decimal spelling of `n`.
fn i32_to_decimal(n: i32) -> (s: String)
    ensures
        s@ == int_text(n as int),
{
    let wide: i64 = n as i64;
    if wide < 0 {
        let mut s = "-".to_owned();
        let d = u64_to_decimal((-wide) as u64);
        s.append(d.as_str());
        s
    } else {
        u64_to_decimal(wide as u64)
    }
}

/// What a finished `ssh` session comes to: an error where a signal ended it
/// or it exited with a failure (status 1 where it has none).
pub open spec fn session_result_of(
    signal: Option<i32>,
    success: bool,
    code: Option<i32>,
    r: Result<(), MigratoryError>,
) -> bool {
    match signal {
        Some(sig) => r matches Err(MigratoryError::Generic(m)) && m@
            == "PowerShell session interrupted by signal "@ + int_text(sig as int),
        None => if success {
            r is Ok
        } else {
            r matches Err(MigratoryError::Generic(m)) && m@ == "PowerShell exited with status "@
                + int_text(
                match code {
                    Some(c) => c as int,
                    None => 1,
                },
            )
        },
    }
}

/// Returns what a finished `ssh` session comes to, given the signal that
/// ended it, whether it succeeded and its exit status.
pub fn session_result(signal: Option<i32>, success: bool, code: Option<i32>) -> (r: Result<
    (),
    MigratoryError,
>)
    ensures
        session_result_of(signal, success, code, r),
{
    match signal {
        Some(sig) => {
            let mut m = "PowerShell session interrupted by signal ".to_owned();
            let t = i32_to_decimal(sig);
            m.append(t.as_str());
            Err(MigratoryError::Generic(m))
        },
        None => if success {
            Ok(())
        } else {
            let mut m = "PowerShell exited with status ".to_owned();
            let c: i32 = match code {
                Some(c) => c,
                None => 1,
            };
            let t = i32_to_decimal(c);
            m.append(t.as_str());
            Err(MigratoryError::Generic(m))
        },
    }
}

/// The lines that open a session on `machine`: which session, then the
/// command it runs or that it is interactive.
pub open spec fn opening_lines_of(machine: Seq<char>, elevated: bool, command: Option<Seq<char>>) -> Seq<
    Seq<char>,
> {
    let prefix = "==> "@ + machine + ": "@;
    seq![
        prefix + if elevated {
            "Opening elevated powershell session on guest..."@
        } else {
            "Opening powershell session on guest..."@
        },
        match command {
            Some(_) => prefix + "Executing command: "@ + powershell_command(command, elevated),
            None => prefix + "Interactive PowerShell remoting session established."@,
        },
    ]
}

/// The key of a session where none is configured:
/// `<dotfile>/machines/<machine>/virtualbox/private_key`.
pub open spec fn session_key_of(dotfile: Seq<char>, machine: Seq<char>) -> Seq<char> {
    join_path(
        join_path(join_path(join_path(dotfile, "machines"@), machine), "virtualbox"@),
        "private_key"@,
    )
}

impl PowerShellSession {
    /// Whether the session goes through WinRM rather than SSH.
    pub fn uses_winrm(&self) -> (r: bool)
        ensures
            r == (opt_str(self.machine_config.vm.communicator) == Some("winrm"@)),
    {
        match &self.machine_config.vm.communicator {
            Some(c) => str_eq(c.as_str(), "winrm"),
            None => false,
        }
    }

    /// Returns the lines that open this session.
    pub fn opening_lines(&self) -> (r: Vec<String>)
        ensures
            str_views(r@) == opening_lines_of(
                self.machine_name@,
                self.elevated,
                opt_str(self.command),
            ),
    {
        let mut prefix = "==> ".to_owned();
        prefix.append(self.machine_name.as_str());
        prefix.append(": ");
        let mut first = prefix.clone();
        if self.elevated {
            first.append("Opening elevated powershell session on guest...");
        } else {
            first.append("Opening powershell session on guest...");
        }
        let mut second = prefix.clone();
        match &self.command {
            Some(_) => {
                second.append("Executing command: ");
                let c = self.format_command();
                second.append(c.as_str());
            },
            None => second.append("Interactive PowerShell remoting session established."),
        }
        let mut r: Vec<String> = Vec::new();
        r.push(first);
        r.push(second);
        assert(str_views(r@) =~= opening_lines_of(
            self.machine_name@,
            self.elevated,
            opt_str(self.command),
        ));
        r
    }

    /// Returns the key this session logs in with over SSH: the configured
    /// one, else the one generated for the machine under `dotfile`.
    pub fn session_key(&self, dotfile: &str) -> (r: String)
        ensures
            r@ == match opt_str(self.machine_config.ssh.private_key_path) {
                Some(k) => k,
                None => session_key_of(dotfile@, self.machine_name@),
            },
    {
        match &self.machine_config.ssh.private_key_path {
            Some(k) => k.clone(),
            None => {
                let a = path_join(dotfile, "machines");
                let b = path_join(a.as_str(), self.machine_name.as_str());
                let c = path_join(b.as_str(), "virtualbox");
                path_join(c.as_str(), "private_key")
            },
        }
    }
}

/// What the last step of copying a stream gave.
pub enum PipeEvent {
    /// The copy has not started.
    Start,
    /// A read of the buffer returned this: the number of bytes read into it,
    /// 0 at the end of the stream.
    Read(Result<usize, MigratoryError>),
    /// Writing the bytes returned this.
    Wrote(Result<(), MigratoryError>),
    /// Flushing the writer returned this.
    Flushed(Result<(), MigratoryError>),
}

/// What copying a stream does next.
pub enum PipeAction {
    /// Read the next chunk into the buffer.
    Read,
    /// Write all of these bytes.
    Write(Vec<u8>),
    /// Flush the writer.
    Flush,
    /// Stop with this result.
    Finish(Result<(), MigratoryError>),
}

/// Decides the next step of copying a reader to a writer, chunk by chunk,
/// flushing after each chunk: read first; after a read of `n > 0` bytes,
/// write exactly those `n` bytes of `buffer`; after a write, flush; after a
/// flush, read again. An empty read ends the copy with `Ok`; a failed read,
/// write or flush ends it with that failure.
pub fn pipe_step(event: PipeEvent, buffer: &[u8]) -> (a: PipeAction)
    requires
        event matches PipeEvent::Read(Ok(n)) ==> n <= buffer@.len(),
    ensures
        match event {
            PipeEvent::Start => a is Read,
            PipeEvent::Read(Ok(n)) => if n == 0 {
                a == PipeAction::Finish(Ok(()))
            } else {
                a matches PipeAction::Write(b) && b@ == buffer@.subrange(0, n as int)
            },
            PipeEvent::Read(Err(e)) => a == PipeAction::Finish(Err(e)),
            PipeEvent::Wrote(Ok(())) => a is Flush,
            PipeEvent::Wrote(Err(e)) => a == PipeAction::Finish(Err(e)),
            PipeEvent::Flushed(Ok(())) => a is Read,
            PipeEvent::Flushed(Err(e)) => a == PipeAction::Finish(Err(e)),
        },
{
    match event {
        PipeEvent::Start => PipeAction::Read,
        PipeEvent::Read(Ok(n)) => {
            if n == 0 {
                PipeAction::Finish(Ok(()))
            } else {
                let mut bytes: Vec<u8> = Vec::new();
                let mut i: usize = 0;
                while i < n
                    invariant
                        i <= n,
                        n <= buffer@.len(),
                        bytes@ == buffer@.subrange(0, i as int),
                    decreases n - i,
                {
                    bytes.push(buffer[i]);
                    i = i + 1;
                    assert(bytes@ =~= buffer@.subrange(0, i as int));
                }
                PipeAction::Write(bytes)
            }
        },
        PipeEvent::Read(Err(e)) => PipeAction::Finish(Err(e)),
        PipeEvent::Wrote(Ok(())) => PipeAction::Flush,
        PipeEvent::Wrote(Err(e)) => PipeAction::Finish(Err(e)),
        PipeEvent::Flushed(Ok(())) => PipeAction::Read,
        PipeEvent::Flushed(Err(e)) => PipeAction::Finish(Err(e)),
    }
}

} // verus!
