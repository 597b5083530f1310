use migratory::error::MigratoryError;
use migratory::status::{global_data_dir, pruned_line, short_id, status_report, status_row};

#[test]
fn global_data_dir_prefers_vagrant_home() {
    assert_eq!(global_data_dir(Some("/opt/vagrant"), Some("/home/u")).unwrap(), "/opt/vagrant");
    assert_eq!(global_data_dir(None, Some("/home/u")).unwrap(), "/home/u/.vagrant.d");
    assert_eq!(
        global_data_dir(None, None),
        Err(MigratoryError::Generic("Could not determine VAGRANT_HOME or HOME".to_string()))
    );
}

#[test]
fn short_ids_keep_seven_bytes() {
    assert_eq!(short_id("1a2b3c4d5e6f"), "1a2b3c4");
    assert_eq!(short_id("1a2b3c4"), "1a2b3c4");
    assert_eq!(short_id("abc"), "abc");
    assert_eq!(short_id(""), "");
}

#[test]
fn status_rows_are_aligned() {
    let row = status_row("1a2b3c4", "web", "virtualbox", "running", "/work/project");
    assert_eq!(
        row,
        format!("{:<8} {:<7} {:<10} {:<8} {}", "1a2b3c4", "web", "virtualbox", "running", "/work/project")
    );
    assert_eq!(row, "1a2b3c4  web     virtualbox running  /work/project");
    let long = status_row("12345678", "database", "virtualbox2", "poweroff", "/d");
    assert_eq!(long, "12345678 database virtualbox2 poweroff /d");
}

#[test]
fn status_report_lines() {
    let empty = status_report(vec![]);
    assert_eq!(empty.len(), 5);
    assert_eq!(empty[0], "id       name    provider   state    directory");
    assert_eq!(
        empty[2],
        "There are no active Vagrant environments on this computer! Or,"
    );
    let full = status_report(vec!["row one".to_string(), "row two".to_string()]);
    assert_eq!(full.len(), 2 + 2 + 6);
    assert_eq!(full[2], "row one");
    assert_eq!(full[3], "row two");
    assert_eq!(full[9], "  migratory <command> <id>");
}

#[test]
fn pruned_lines() {
    assert_eq!(pruned_line(0), None);
    assert_eq!(pruned_line(3).as_deref(), Some("Pruned 3 invalid entries."));
    assert_eq!(pruned_line(12).as_deref(), Some("Pruned 12 invalid entries."));
}
