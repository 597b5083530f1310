use migratory::action::{
    Action, ActionResult, BoxCheckOutdatedAction, CallAction, CheckMachineStateAction,
    ConfigValidateAction, Environment, GenerateKeyPairAction, HandleBoxAction,
    HandleForwardedPortCollisionsAction, MachineOrchestrator, ProvisionAction,
    PruneNfsExportsAction, SetHostnameAction, SyncFoldersAction, WaitForCommunicatorAction, Warden,
};
use migratory::error::MigratoryError;

struct Inner {
    should_fail: bool,
}

impl Action for Inner {
    fn name(&self) -> &str {
        "inner"
    }
    fn recover(&self, _env: &mut Environment, _error: &MigratoryError) -> Result<(), MigratoryError> {
        Ok(())
    }
    fn call(&self, env: &mut Environment) -> Result<ActionResult, MigratoryError> {
        env.data.insert("inner_called".to_string(), "true".to_string());
        if self.should_fail {
            Err(MigratoryError::Generic("inner failed".to_string()))
        } else {
            Ok(ActionResult::Continue)
        }
    }
}

#[test]
fn standard_middleware_actions() {
    let mut env = Environment::new();

    let call_true = CallAction::new(|_: &Environment| true, Box::new(Inner { should_fail: false }));
    assert_eq!(call_true.name(), "CallAction");
    assert_eq!(call_true.call(&mut env).ok(), Some(ActionResult::Continue));
    assert_eq!(env.data.get("inner_called").map(|s| s.as_str()), Some("true"));
    assert!(call_true
        .recover(&mut env, &MigratoryError::Generic("err".to_string()))
        .is_ok());

    let mut env_skip = Environment::new();
    let call_false = CallAction::new(|_: &Environment| false, Box::new(Inner { should_fail: true }));
    assert_eq!(call_false.call(&mut env_skip).ok(), Some(ActionResult::Continue));
    assert!(!env_skip.data.contains_key("inner_called"));
    assert!(call_false
        .recover(&mut env_skip, &MigratoryError::Generic("err".to_string()))
        .is_ok());

    let val_action = ConfigValidateAction;
    assert_eq!(val_action.name(), "ConfigValidateAction");
    assert_eq!(val_action.call(&mut env).ok(), Some(ActionResult::Continue));
    env.data
        .insert("config_error".to_string(), "invalid box".to_string());
    assert_eq!(
        val_action.call(&mut env).err(),
        Some(MigratoryError::Validation("invalid box".to_string()))
    );
    env.data.remove("config_error");

    let check_box = BoxCheckOutdatedAction {
        box_name: "ubuntu/focal64".to_string(),
    };
    assert_eq!(check_box.name(), "BoxCheckOutdatedAction");
    assert_eq!(check_box.call(&mut env).ok(), Some(ActionResult::Continue));
    assert_eq!(
        env.data.get("box_checked").map(|s| s.as_str()),
        Some("ubuntu/focal64")
    );

    let handle_box = HandleBoxAction {
        box_name: "ubuntu/focal64".to_string(),
    };
    assert_eq!(handle_box.name(), "HandleBoxAction");
    assert_eq!(handle_box.call(&mut env).ok(), Some(ActionResult::Continue));
    assert_eq!(
        env.data.get("box_handled").map(|s| s.as_str()),
        Some("ubuntu/focal64")
    );

    let port_action = HandleForwardedPortCollisionsAction;
    assert_eq!(port_action.name(), "HandleForwardedPortCollisionsAction");
    assert_eq!(port_action.call(&mut env).ok(), Some(ActionResult::Continue));
    assert_eq!(
        env.data.get("port_collisions_checked").map(|s| s.as_str()),
        Some("true")
    );

    let host_action = SetHostnameAction {
        hostname: "web1.local".to_string(),
    };
    assert_eq!(host_action.name(), "SetHostnameAction");
    assert_eq!(host_action.call(&mut env).ok(), Some(ActionResult::Continue));
    assert_eq!(
        env.data.get("hostname_set").map(|s| s.as_str()),
        Some("web1.local")
    );

    let wait_action = WaitForCommunicatorAction {
        timeout: std::time::Duration::from_secs(45),
    };
    assert_eq!(wait_action.name(), "WaitForCommunicatorAction");
    assert_eq!(wait_action.call(&mut env).ok(), Some(ActionResult::Continue));
    assert_eq!(
        env.data.get("communicator_ready").map(|s| s.as_str()),
        Some("45s")
    );

    let key_action = GenerateKeyPairAction;
    assert_eq!(key_action.name(), "GenerateKeyPairAction");
    assert_eq!(key_action.call(&mut env).ok(), Some(ActionResult::Continue));
    assert_eq!(
        env.data.get("key_pair_generated").map(|s| s.as_str()),
        Some("true")
    );

    let sync_action = SyncFoldersAction;
    assert_eq!(sync_action.name(), "SyncFoldersAction");
    assert_eq!(sync_action.call(&mut env).ok(), Some(ActionResult::Continue));
    assert_eq!(env.data.get("folders_synced").map(|s| s.as_str()), Some("true"));

    let prov_action = ProvisionAction;
    assert_eq!(prov_action.name(), "ProvisionAction");
    assert_eq!(prov_action.call(&mut env).ok(), Some(ActionResult::Continue));
    assert_eq!(env.data.get("provisioned").map(|s| s.as_str()), Some("true"));

    let nfs_action = PruneNfsExportsAction;
    assert_eq!(nfs_action.name(), "PruneNfsExportsAction");
    assert_eq!(nfs_action.call(&mut env).ok(), Some(ActionResult::Continue));
    assert_eq!(
        env.data.get("nfs_exports_pruned").map(|s| s.as_str()),
        Some("true")
    );

    let err = MigratoryError::Generic("err".to_string());
    assert!(val_action.recover(&mut env, &err).is_ok());
    assert!(check_box.recover(&mut env, &err).is_ok());
    assert!(handle_box.recover(&mut env, &err).is_ok());
    assert!(port_action.recover(&mut env, &err).is_ok());
    assert!(host_action.recover(&mut env, &err).is_ok());
    assert!(wait_action.recover(&mut env, &err).is_ok());
    assert!(key_action.recover(&mut env, &err).is_ok());
    assert!(sync_action.recover(&mut env, &err).is_ok());
    assert!(prov_action.recover(&mut env, &err).is_ok());
    assert!(nfs_action.recover(&mut env, &err).is_ok());
}

#[test]
fn check_machine_state_action() {
    let mut env = Environment::new();
    let running = CheckMachineStateAction::new(
        vec!["running".to_string()],
        "web".to_string(),
        "virtualbox".to_string(),
        "/project".to_string(),
        |machine: &str, provider: &str, cwd: &str| {
            assert_eq!((machine, provider, cwd), ("web", "virtualbox", "/project"));
            Ok(Some("running".to_string()))
        },
    );
    assert_eq!(running.name(), "CheckMachineStateAction");
    assert_eq!(running.call(&mut env).ok(), Some(ActionResult::Continue));

    let mismatch = CheckMachineStateAction::new(
        vec!["poweroff".to_string(), "saved".to_string()],
        "web".to_string(),
        "virtualbox".to_string(),
        "/project".to_string(),
        |_: &str, _: &str, _: &str| Ok(None),
    );
    assert_eq!(
        mismatch.call(&mut env).err(),
        Some(MigratoryError::Generic(
            "The VM 'web' is in state 'not_created', but expected one of: [\"poweroff\", \"saved\"]"
                .to_string()
        ))
    );

    let unknown_provider = CheckMachineStateAction::new(
        vec!["running".to_string()],
        "web".to_string(),
        "invalid_prov".to_string(),
        "/project".to_string(),
        |_: &str, p: &str, _: &str| Err(MigratoryError::NotFound(format!("provider {}", p))),
    );
    assert_eq!(
        unknown_provider.call(&mut env).err(),
        Some(MigratoryError::NotFound("provider invalid_prov".to_string()))
    );
    assert!(running
        .recover(&mut env, &MigratoryError::Generic("err".to_string()))
        .is_ok());
}

#[test]
fn machine_orchestrator_sequential() {
    assert!(MachineOrchestrator::run_sequential(&[], |_: &str| Ok(())).is_ok());

    let machines = vec!["web".to_string(), "db".to_string(), "cache".to_string()];
    let seen = std::sync::Mutex::new(Vec::new());
    let res = MachineOrchestrator::run_sequential(&machines, |m: &str| {
        seen.lock().expect("lock").push(m.to_string());
        if m == "db" {
            Err(MigratoryError::Generic("db failed".to_string()))
        } else {
            Ok(())
        }
    });
    assert_eq!(res, Err(MigratoryError::Generic("db failed".to_string())));
    assert_eq!(*seen.lock().expect("lock"), vec!["web".to_string(), "db".to_string()]);

    assert!(MachineOrchestrator::runs_in_parallel(2, true));
    assert!(!MachineOrchestrator::runs_in_parallel(1, true));
    assert!(!MachineOrchestrator::runs_in_parallel(3, false));
    assert_eq!(
        MachineOrchestrator::first_failure(vec![
            Ok(()),
            Err(MigratoryError::Generic("a".to_string())),
            Err(MigratoryError::Generic("b".to_string())),
        ]),
        Err(MigratoryError::Generic("a".to_string()))
    );
    assert_eq!(MachineOrchestrator::first_failure(vec![Ok(()), Ok(())]), Ok(()));
    assert_eq!(
        MachineOrchestrator::panic_error(),
        MigratoryError::Generic("Thread panicked during parallel machine execution".to_string())
    );
}

struct Halting;

impl Action for Halting {
    fn name(&self) -> &str {
        "halting"
    }
    fn call(&self, env: &mut Environment) -> Result<ActionResult, MigratoryError> {
        env.data.insert("halting_called".to_string(), "true".to_string());
        Ok(ActionResult::Halt)
    }
    fn recover(&self, env: &mut Environment, _e: &MigratoryError) -> Result<(), MigratoryError> {
        env.data.insert("halting_recovered".to_string(), "true".to_string());
        Ok(())
    }
}

#[test]
fn halted_chain_succeeds_without_recovery() {
    let mut warden = Warden::new();
    warden.use_action(Box::new(Halting));
    warden.use_action(Box::new(Inner { should_fail: true }));
    let mut env = Environment::new();
    assert!(warden.call(&mut env).is_ok());
    assert!(!env.data.contains_key("inner_called"));
    assert!(!env.data.contains_key("halting_recovered"));
}

#[test]
fn recovery_failure_names_both_errors() {
    struct BadRecover;
    impl Action for BadRecover {
        fn name(&self) -> &str {
            "bad"
        }
        fn call(&self, _env: &mut Environment) -> Result<ActionResult, MigratoryError> {
            Err(MigratoryError::NotFound("thing".to_string()))
        }
        fn recover(&self, _env: &mut Environment, _e: &MigratoryError) -> Result<(), MigratoryError> {
            Err(MigratoryError::Io("disk".to_string()))
        }
    }
    let mut warden = Warden::new();
    warden.use_action(Box::new(BadRecover));
    let mut env = Environment::new();
    assert_eq!(
        warden.call(&mut env),
        Err(MigratoryError::Generic(
            "Error during recovery: IO error: disk, original error: Not found: thing".to_string()
        ))
    );
}

#[test]
fn interrupt_without_flag_runs_everything() {
    let mut warden = Warden::new();
    warden.use_action(Box::new(Inner { should_fail: false }));
    let mut env = Environment::new();
    assert!(warden.call_with_interrupt(&mut env, None).is_ok());
    let cleared = std::sync::atomic::AtomicBool::new(false);
    assert!(warden.call_with_interrupt(&mut env, Some(&cleared)).is_ok());
    let interrupted = std::sync::atomic::AtomicBool::new(true);
    assert_eq!(
        warden.call_with_interrupt(&mut env, Some(&interrupted)),
        Err(MigratoryError::Generic(
            "Operation interrupted by signal (SIGINT)".to_string()
        ))
    );
}

/// Appends its name to the `log` entry when it runs and when it recovers.
struct Logging {
    name: &'static str,
    fail: bool,
}

fn append_log(env: &mut Environment, entry: String) {
    let mut log = env.data.get("log").cloned().unwrap_or_default();
    if !log.is_empty() {
        log.push(',');
    }
    log.push_str(&entry);
    env.data.insert("log".to_string(), log);
}

impl Action for Logging {
    fn name(&self) -> &str {
        self.name
    }
    fn call(&self, env: &mut Environment) -> Result<ActionResult, MigratoryError> {
        append_log(env, format!("call {}", self.name));
        if self.fail {
            Err(MigratoryError::Validation(self.name.to_string()))
        } else {
            Ok(ActionResult::Continue)
        }
    }
    fn recover(&self, env: &mut Environment, e: &MigratoryError) -> Result<(), MigratoryError> {
        append_log(env, format!("recover {} after {}", self.name, e.message()));
        Ok(())
    }
}

#[test]
fn failure_recovers_ran_actions_newest_first_with_the_error() {
    let mut warden = Warden::new();
    warden.use_action(Box::new(Logging { name: "a", fail: false }));
    warden.use_action(Box::new(Logging { name: "b", fail: false }));
    warden.use_action(Box::new(Logging { name: "c", fail: true }));
    warden.use_action(Box::new(Logging { name: "d", fail: false }));
    let mut env = Environment::new();
    assert_eq!(
        warden.call(&mut env),
        Err(MigratoryError::Validation("c".to_string()))
    );
    assert_eq!(
        env.data.get("log").map(|s| s.as_str()),
        Some(
            "call a,call b,call c,recover c after Validation error: c,\
             recover b after Validation error: c,recover a after Validation error: c"
        )
    );
}
