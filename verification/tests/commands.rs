use migratory::autocomplete::{
    choose_shell, completion_append, completion_block, installed_message, needs_completion_block, shell_paths,
    AutocompleteInstallArgs, ShellKind,
};
use migratory::docker::{
    container_id, exec_args, exec_target, logs_args, run_args, DockerExecArgs, DockerLogsArgs,
    DockerRunArgs,
};
use migratory::error::MigratoryError;
use migratory::mutate::{
    adapt_vagrantfile, execute as mutate_execute, is_disk_extension, metadata_json,
    target_disk_name, target_format, MutateArgs,
};
use migratory::plugin::{expunge_args, gem_home, install_args, resolve_vagrant_home};

#[test]
fn test_resolve_vagrant_home() {
    assert_eq!(
        resolve_vagrant_home(Some("/custom/path"), None),
        "/custom/path"
    );
    assert_eq!(
        resolve_vagrant_home(None, Some("/home/user")),
        "/home/user/.vagrant.d"
    );
    assert_eq!(resolve_vagrant_home(None, None), ".vagrant.d");
}

#[test]
fn plugin_gem_arguments() {
    assert_eq!(gem_home("/h/.vagrant.d"), "/h/.vagrant.d/gems");
    assert_eq!(expunge_args(false, false), vec!["uninstall", "--all", "-x", "-I"]);
    assert_eq!(
        expunge_args(true, true),
        vec!["uninstall", "--all", "-x", "-I", "--local", "--user-install"]
    );
    assert_eq!(
        install_args("vagrant-foo", Some("1.0"), Some("https://gems"), true),
        vec!["install", "vagrant-foo", "-v", "1.0", "--source", "https://gems", "--local"]
    );
    assert_eq!(install_args("x", None, None, false), vec!["install", "x"]);
}

#[test]
fn test_execute_mutate_missing_args() {
    let args = MutateArgs {
        box_name: None,
        destination_provider: None,
        input_provider: None,
        force_virtio: false,
    };
    let result = mutate_execute(&args);
    assert!(result.is_err());
}

#[test]
fn test_execute_mutate_missing_dest() {
    let args = MutateArgs {
        box_name: Some("test/box".to_string()),
        destination_provider: None,
        input_provider: None,
        force_virtio: false,
    };
    let result = mutate_execute(&args);
    assert!(result.is_err());
}

#[test]
fn mutate_errors_and_plan() {
    let missing_box = MutateArgs {
        box_name: None,
        destination_provider: Some("libvirt".to_string()),
        input_provider: None,
        force_virtio: false,
    };
    assert_eq!(
        mutate_execute(&missing_box).err(),
        Some(MigratoryError::Generic("Box name required".to_string()))
    );
    let missing_dest = MutateArgs {
        box_name: Some("test/box".to_string()),
        destination_provider: None,
        input_provider: None,
        force_virtio: false,
    };
    assert_eq!(
        mutate_execute(&missing_dest).err(),
        Some(MigratoryError::Generic(
            "Destination provider required".to_string()
        ))
    );
    let ok = MutateArgs {
        box_name: Some("test/box".to_string()),
        destination_provider: Some("libvirt".to_string()),
        input_provider: None,
        force_virtio: true,
    };
    let plan = mutate_execute(&ok).expect("complete arguments");
    assert_eq!(plan.box_name, "test/box");
    assert_eq!(plan.destination_provider, "libvirt");
}

#[test]
fn mutate_formats_and_files() {
    assert_eq!(target_format("libvirt"), "qcow2");
    assert_eq!(target_format("qemu"), "qcow2");
    assert_eq!(target_format("vmware_desktop"), "vmdk");
    assert_eq!(target_disk_name("qcow2"), "box.img");
    assert_eq!(target_disk_name("vmdk"), "box-disk1.vmdk");
    assert!(is_disk_extension("VMDK"));
    assert!(is_disk_extension("raw"));
    assert!(!is_disk_extension("txt"));
    assert_eq!(
        metadata_json("libvirt", "qcow2"),
        "{\n  \"provider\": \"libvirt\",\n  \"format\": \"qcow2\"\n}\n"
    );
    assert_eq!(
        adapt_vagrantfile(Some("config.vm.provider :virtualbox # virtualbox"), "libvirt", true),
        "config.vm.provider :libvirt # libvirt\n# Forcing virtio driver\n"
    );
    assert_eq!(
        adapt_vagrantfile(Some("virtualbox"), "vmware", true),
        "vmware"
    );
    assert_eq!(
        adapt_vagrantfile(None, "qemu", false),
        "Vagrant.configure(\"2\") do |config|\n  config.vm.provider :qemu do |p|\n  end\nend\n"
    );
}

struct FailingWriter;

impl std::io::Write for FailingWriter {
    fn write(&mut self, _buf: &[u8]) -> std::io::Result<usize> {
        Err(std::io::Error::new(
            std::io::ErrorKind::Other,
            "write failed",
        ))
    }
    fn flush(&mut self) -> std::io::Result<()> {
        Ok(())
    }
}

#[test]
fn autocomplete_test_failing_writer_flush() {
    let mut writer = FailingWriter;
    assert!(std::io::Write::flush(&mut writer).is_ok());
}

#[test]
fn autocomplete_shell_choice_and_paths() {
    let none = AutocompleteInstallArgs {
        bash: false,
        zsh: false,
        fish: false,
    };
    assert_eq!(choose_shell(&none, "/usr/bin/zsh"), ShellKind::Zsh);
    assert_eq!(choose_shell(&none, "/usr/bin/fish"), ShellKind::Fish);
    assert_eq!(choose_shell(&none, ""), ShellKind::Bash);
    let fish = AutocompleteInstallArgs {
        bash: false,
        zsh: false,
        fish: true,
    };
    assert_eq!(choose_shell(&fish, "/bin/zsh"), ShellKind::Fish);

    let (script, profile) = shell_paths(ShellKind::Fish, "/home/u");
    assert_eq!(script, "migratory.fish");
    assert_eq!(profile, "/home/u/.config/fish/config.fish");
    let (script, profile) = shell_paths(ShellKind::Bash, "/home/u/");
    assert_eq!(script, "migratory-autocomplete.bash");
    assert_eq!(profile, "/home/u/.bashrc");
}

#[test]
fn autocomplete_profile_block() {
    let block = completion_block("/h/.vagrant.d/migratory-autocomplete.zsh");
    assert_eq!(
        block,
        "\n# >>>> Migratory command completion (start)\nsource \"/h/.vagrant.d/migratory-autocomplete.zsh\"\n# <<<<  Migratory command completion (end)\n"
    );
    assert!(needs_completion_block("export PATH=/bin\n"));
    assert!(!needs_completion_block(&block));
    assert_eq!(
        installed_message("/h/.zshrc"),
        "Autocomplete installed at paths:\n- /h/.zshrc"
    );
}

#[test]
fn docker_container_ids() {
    assert_eq!(
        container_id("web", Some("abc123".to_string())),
        Ok("abc123".to_string())
    );
    let expected = MigratoryError::NotFound(
        "Docker container ID for machine 'web' not found. Is the container running?".to_string(),
    );
    assert_eq!(container_id("web", Some("  ".to_string())), Err(expected.clone()));
    assert_eq!(container_id("web", None), Err(expected));
}

#[test]
fn docker_argument_lists() {
    let exec = DockerExecArgs {
        name: None,
        interactive: true,
        tty: true,
        detach: false,
        user: Some("root".to_string()),
        command: None,
        args: vec![],
    };
    assert_eq!(exec_target(&exec), "default");
    assert_eq!(
        exec_args(&exec, "c1"),
        vec!["exec", "-i", "-t", "-u", "root", "c1", "sh"]
    );
    let exec_cmd = DockerExecArgs {
        name: Some("web".to_string()),
        interactive: false,
        tty: false,
        detach: true,
        user: None,
        command: Some("ls".to_string()),
        args: vec!["-la".to_string(), "/".to_string()],
    };
    assert_eq!(exec_target(&exec_cmd), "web");
    assert_eq!(exec_args(&exec_cmd, "c2"), vec!["exec", "-d", "c2", "ls", "-la", "/"]);

    let logs = DockerLogsArgs {
        follow: true,
        tail: Some("10".to_string()),
        timestamps: true,
    };
    assert_eq!(logs_args(&logs, "c3"), vec!["logs", "-f", "--tail", "10", "-t", "c3"]);

    let run = DockerRunArgs {
        command: Some("echo".to_string()),
        args: vec!["hi".to_string()],
        no_rm: false,
        detach: true,
        no_detach: true,
        tty: true,
    };
    assert_eq!(
        run_args(&run, "alpine"),
        vec!["run", "--rm", "-t", "-i", "alpine", "echo", "hi"]
    );
}

#[test]
fn autocomplete_install_twice_appends_once() {
    let script = "/h/.vagrant.d/migratory-autocomplete.bash";
    let mut profile = "export PATH=/bin\n".to_string();
    let first = completion_append(&profile, script).expect("block appended");
    assert_eq!(first, completion_block(script));
    profile.push_str(&first);
    assert!(completion_append(&profile, script).is_none());
    assert_eq!(
        profile.matches("# >>>> Migratory command completion (start)").count(),
        1
    );
}
