use migratory::cap::{choose_guest, guest_kind, run_host_cap, GuestKind, Host};
use migratory::error::MigratoryError;
use migratory::init::{output_name, vagrantfile};
use migratory::list_commands::command_line;
use migratory::box_manager::{RemoteProvider, RemoteVersion};
use migratory::cloud_cmd::{publish_target, publishing_line, search_lines, searching_line, show_lines};
use migratory::package::{halt_before_packaging, package_metadata, package_output, package_target};

#[test]
fn init_vagrantfiles() {
    assert_eq!(output_name(None), "Vagrantfile");
    assert_eq!(output_name(Some("Other")), "Other");
    assert_eq!(
        vagrantfile(None, None, None),
        "# -*- mode: ruby -*-\n# vi: set ft=ruby :\n\nVagrant.configure(\"2\") do |config|\n  config.vm.box = \"base\"\nend\n"
    );
    assert_eq!(
        vagrantfile(Some("hashicorp/bionic64"), Some("1.0"), None),
        "# -*- mode: ruby -*-\n# vi: set ft=ruby :\n\nVagrant.configure(\"2\") do |config|\n  config.vm.box = \"hashicorp/bionic64\"\n  config.vm.box_version = \"1.0\"\nend\n"
    );
    assert_eq!(
        vagrantfile(Some("x"), None, Some("box={{box_name}};again={{box_name}}")),
        "box=x;again=x"
    );
}

#[test]
fn command_listing_lines() {
    assert_eq!(command_line("up", "Starts"), format!("{:<15} {}", "up", "Starts"));
    assert_eq!(
        command_line("a-very-long-command", "x"),
        format!("{:<15} {}", "a-very-long-command", "x")
    );
}

#[test]
fn guest_selection() {
    assert_eq!(guest_kind("Windows"), GuestKind::Windows);
    assert_eq!(guest_kind("FreeBSD"), GuestKind::Bsd);
    assert_eq!(guest_kind("ubuntu"), GuestKind::Linux);
    assert_eq!(choose_guest(Some("bsd"), Some("windows")), Some(GuestKind::Bsd));
    assert_eq!(choose_guest(None, Some("windows")), Some(GuestKind::Windows));
    assert_eq!(choose_guest(None, None), None);
}

struct TestHost;

impl Host for TestHost {
    fn check_admin(&self) -> Result<bool, MigratoryError> {
        Ok(true)
    }
    fn configure_nfs(&self, _exports: &[String]) -> Result<(), MigratoryError> {
        Ok(())
    }
    fn configure_smb(&self, _shares: &[String]) -> Result<(), MigratoryError> {
        Err(MigratoryError::Generic("smb unavailable".to_string()))
    }
}

#[test]
fn host_capabilities() {
    let mut out = String::new();
    assert!(run_host_cap(&TestHost, "check_admin", &mut out).is_ok());
    assert_eq!(out, "Admin check executed: true\n");
    let mut out = String::new();
    assert!(run_host_cap(&TestHost, "configure_nfs", &mut out).is_ok());
    assert_eq!(out, "Executing host capability 'configure_nfs'...\n");
    let mut out = String::new();
    assert!(run_host_cap(&TestHost, "configure_smb", &mut out).is_err());
    assert_eq!(out, "Executing host capability 'configure_smb'...\n");
}

#[test]
fn test_execute_list_commands() {
    let commands = vec![
        ("up".to_string(), "Starts and provisions the environment".to_string()),
        ("halt".to_string(), "Stops the machine".to_string()),
    ];
    let mut out = String::new();
    let result = migratory::list_commands::execute(&commands, &mut out);
    assert!(result.is_ok());
    assert_eq!(
        out,
        format!(
            "Below is a listing of all available Migratory commands and a brief\ndescription of what they do.\n\n{:<15} {}\n{:<15} {}\n",
            "up", "Starts and provisions the environment", "halt", "Stops the machine"
        )
    );
}

#[test]
fn cloud_command_lines() {
    assert_eq!(
        publish_target(None, None, None),
        ("test/box".to_string(), "1.0.0".to_string(), "virtualbox".to_string())
    );
    assert_eq!(
        publishing_line("a/b", "2.0", "vmware"),
        "Publishing box a/b v2.0 for provider vmware..."
    );
    assert_eq!(searching_line(None), "Searching for boxes matching ''...");
    assert_eq!(searching_line(Some("ubuntu")), "Searching for boxes matching 'ubuntu'...");
    assert_eq!(search_lines(&vec![], Some(3)), vec!["No boxes found."]);
    let results = vec![
        ("a/one".to_string(), "first".to_string()),
        ("b/two".to_string(), "second".to_string()),
    ];
    assert_eq!(search_lines(&results, Some(1)), vec!["a/one - first"]);
    assert_eq!(search_lines(&results, None), vec!["a/one - first", "b/two - second"]);
    let versions = vec![RemoteVersion {
        version: "1.0".to_string(),
        providers: vec![RemoteProvider {
            name: "virtualbox".to_string(),
            url: "u".to_string(),
            checksum: None,
            checksum_type: None,
        }],
    }];
    assert_eq!(
        show_lines("a/b", "desc", &versions),
        vec!["Box: a/b", "Description: desc", "  Version: 1.0", "    Provider: virtualbox"]
    );
}

#[test]
fn package_decisions() {
    let one = vec!["web".to_string()];
    let two = vec!["web".to_string(), "db".to_string()];
    assert_eq!(package_target(None, &one, false), Ok("web".to_string()));
    assert_eq!(package_target(None, &vec![], false), Ok("default".to_string()));
    assert_eq!(
        package_target(None, &two, false),
        Err(MigratoryError::Generic(
            "A name is required when packaging a multi-machine environment.".to_string()
        ))
    );
    assert_eq!(package_target(Some("db"), &two, false), Ok("db".to_string()));
    assert_eq!(
        package_target(Some("x"), &two, false),
        Err(MigratoryError::NotFound("Machine 'x' not found".to_string()))
    );
    assert_eq!(package_target(Some("x"), &two, true), Ok("x".to_string()));
    assert_eq!(package_output(None), "package.box");
    assert!(halt_before_packaging("running"));
    assert!(!halt_before_packaging("saved"));
    assert_eq!(package_metadata("virtualbox"), "{\n  \"provider\": \"virtualbox\"\n}");
}

#[test]
fn package_metadata_escapes_like_json() {
    assert_eq!(package_metadata("libvirt"), "{\n  \"provider\": \"libvirt\"\n}");
    assert_eq!(
        package_metadata("a\"b\\c\n\u{1}"),
        "{\n  \"provider\": \"a\\\"b\\\\c\\n\\u0001\"\n}"
    );
}
