use migratory::error::MigratoryError;
use migratory::powershell::{
    format_powershell_command, pipe_step, session_result, MachineConfig, PipeAction, PipeEvent,
    PowerShellSession,
};

/// Copies `reader` to `writer` as the library's step function directs.
fn pipe_streams<R: std::io::Read, W: std::io::Write>(
    reader: &mut R,
    writer: &mut W,
) -> Result<(), MigratoryError> {
    let io = |e: std::io::Error| MigratoryError::Io(e.to_string());
    let mut buffer = [0u8; 1024];
    let mut event = PipeEvent::Start;
    loop {
        event = match pipe_step(event, &buffer) {
            PipeAction::Read => PipeEvent::Read(reader.read(&mut buffer).map_err(io)),
            PipeAction::Write(bytes) => PipeEvent::Wrote(writer.write_all(&bytes).map_err(io)),
            PipeAction::Flush => PipeEvent::Flushed(writer.flush().map_err(io)),
            PipeAction::Finish(r) => return r,
        };
    }
}

#[test]
fn test_format_powershell_command() {
    let cmd = "Get-Process";
    let unelevated = format_powershell_command(Some(cmd), false);
    assert_eq!(unelevated, "Get-Process");

    let elevated = format_powershell_command(Some(cmd), true);
    assert!(elevated.contains("Start-Process powershell"));
    assert!(elevated.contains("-Verb RunAs"));

    let interactive_unelevated = format_powershell_command(None, false);
    assert_eq!(interactive_unelevated, "powershell.exe -NoLogo -NoExit");

    let interactive_elevated = format_powershell_command(None, true);
    assert!(interactive_elevated.contains("-Verb RunAs"));
}

#[test]
fn elevated_command_is_wrapped_exactly() {
    assert_eq!(
        format_powershell_command(Some("dir"), true),
        "Start-Process powershell -ArgumentList '-NoProfile -NonInteractive -ExecutionPolicy Bypass -Command \"dir\"\"' -Verb RunAs"
    );
}

#[test]
fn test_powershell_session_pipe_streams() {

    let mut input = std::io::Cursor::new(b"Hello PowerShell\n");
    let mut output = Vec::new();

    assert!(pipe_streams(&mut input, &mut output).is_ok());
    assert_eq!(output, b"Hello PowerShell\n");

    struct FailReader;
    impl std::io::Read for FailReader {
        fn read(&mut self, _buf: &mut [u8]) -> std::io::Result<usize> {
            Err(std::io::Error::new(
                std::io::ErrorKind::Other,
                "read failure",
            ))
        }
    }

    struct FailWriter;
    impl std::io::Write for FailWriter {
        fn write(&mut self, _buf: &[u8]) -> std::io::Result<usize> {
            Err(std::io::Error::new(
                std::io::ErrorKind::Other,
                "write failure",
            ))
        }
        fn flush(&mut self) -> std::io::Result<()> {
            Ok(())
        }
    }

    struct FailFlushWriter;
    impl std::io::Write for FailFlushWriter {
        fn write(&mut self, buf: &[u8]) -> std::io::Result<usize> {
            Ok(buf.len())
        }
        fn flush(&mut self) -> std::io::Result<()> {
            Err(std::io::Error::new(
                std::io::ErrorKind::Other,
                "flush failure",
            ))
        }
    }

    let mut out = Vec::new();
    assert!(pipe_streams(&mut FailReader, &mut out).is_err());

    let mut input2 = std::io::Cursor::new(b"test data");
    assert!(pipe_streams(&mut input2, &mut FailWriter).is_err());

    let mut input3 = std::io::Cursor::new(b"test data");
    assert!(pipe_streams(&mut input3, &mut FailFlushWriter).is_err());
}

#[test]
fn ssh_arguments_for_a_session() {
    let mut config = MachineConfig::default();
    config.ssh.host = "192.168.56.10".to_string();
    config.ssh.port = 2222;
    config.ssh.username = "vagrant".to_string();
    let session = PowerShellSession::new(
        "win10".to_string(),
        config,
        false,
        Some("Get-Service".to_string()),
    );
    let args = session.ssh_args(Some("/keys/id_rsa"), true);
    assert_eq!(
        args,
        vec![
            "vagrant@192.168.56.10",
            "-p",
            "2222",
            "-t",
            "-o",
            "StrictHostKeyChecking=no",
            "-o",
            "UserKnownHostsFile=/dev/null",
            "-o",
            "LogLevel=FATAL",
            "-i",
            "/keys/id_rsa",
            "Get-Service",
        ]
    );
    let without_key = session.ssh_args(Some("/keys/id_rsa"), false);
    assert!(!without_key.contains(&"-i".to_string()));
    assert_eq!(session.format_command(), "Get-Service");
}

#[test]
fn test_powershell_session_winrm_and_elevated() {
    let mut config = MachineConfig::default();
    config.vm.communicator = Some("winrm".to_string());
    let session = PowerShellSession::new("win".to_string(), config, true, Some("Get-Process".to_string()));
    assert!(session.uses_winrm());
    let args = session.ssh_args(None, false);
    assert!(!args.contains(&"-i".to_string()));
    let lines = session.opening_lines();
    assert_eq!(lines[0], "==> win: Opening elevated powershell session on guest...");
    assert_eq!(
        lines[1],
        format!("==> win: Executing command: {}", session.format_command())
    );
}

#[test]
fn session_opening_and_keys() {
    let session = PowerShellSession::new("default".to_string(), MachineConfig::default(), false, None);
    assert!(!session.uses_winrm());
    assert_eq!(
        session.opening_lines(),
        vec![
            "==> default: Opening powershell session on guest...",
            "==> default: Interactive PowerShell remoting session established.",
        ]
    );
    assert_eq!(
        session.session_key("/work/.vagrant"),
        "/work/.vagrant/machines/default/virtualbox/private_key"
    );
    let mut config = MachineConfig::default();
    config.ssh.private_key_path = Some("/keys/id".to_string());
    config.vm.communicator = Some("ssh".to_string());
    let keyed = PowerShellSession::new("m".to_string(), config, false, None);
    assert_eq!(keyed.session_key("/work/.vagrant"), "/keys/id");
    assert!(!keyed.uses_winrm());
}

#[test]
fn session_exit_statuses() {
    assert_eq!(session_result(None, true, Some(0)), Ok(()));
    assert_eq!(
        session_result(Some(2), false, None),
        Err(MigratoryError::Generic("PowerShell session interrupted by signal 2".to_string()))
    );
    assert_eq!(
        session_result(None, false, Some(3)),
        Err(MigratoryError::Generic("PowerShell exited with status 3".to_string()))
    );
    assert_eq!(
        session_result(None, false, None),
        Err(MigratoryError::Generic("PowerShell exited with status 1".to_string()))
    );
    assert_eq!(
        session_result(None, false, Some(-1073741510)),
        Err(MigratoryError::Generic("PowerShell exited with status -1073741510".to_string()))
    );
}

#[test]
fn pipe_steps_forward_exactly_what_was_read() {
    let mut buffer = [0u8; 1024];
    buffer[..5].copy_from_slice(b"abcde");
    assert!(matches!(pipe_step(PipeEvent::Start, &buffer), PipeAction::Read));
    match pipe_step(PipeEvent::Read(Ok(3)), &buffer) {
        PipeAction::Write(bytes) => assert_eq!(bytes, b"abc".to_vec()),
        _ => panic!("expected a write"),
    }
    assert!(matches!(pipe_step(PipeEvent::Read(Ok(0)), &buffer), PipeAction::Finish(Ok(()))));
    assert!(matches!(pipe_step(PipeEvent::Wrote(Ok(())), &buffer), PipeAction::Flush));
    assert!(matches!(pipe_step(PipeEvent::Flushed(Ok(())), &buffer), PipeAction::Read));
    let failed = pipe_step(PipeEvent::Flushed(Err(MigratoryError::Io("gone".to_string()))), &buffer);
    assert!(matches!(failed, PipeAction::Finish(Err(MigratoryError::Io(m))) if m == "gone"));
    let failed = pipe_step(PipeEvent::Read(Err(MigratoryError::Io("r".to_string()))), &buffer);
    assert!(matches!(failed, PipeAction::Finish(Err(MigratoryError::Io(m))) if m == "r"));
    let failed = pipe_step(PipeEvent::Wrote(Err(MigratoryError::Io("w".to_string()))), &buffer);
    assert!(matches!(failed, PipeAction::Finish(Err(MigratoryError::Io(m))) if m == "w"));
}
