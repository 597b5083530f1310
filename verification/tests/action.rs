use migratory::action::{
    Action, ActionBuilder, ActionHook, ActionResult, Environment, Warden,
};
use migratory::error::MigratoryError;

struct MockAction {
    name: String,
    should_fail: bool,
    should_halt: bool,
}

impl Action for MockAction {
    fn name(&self) -> &str {
        &self.name
    }

    fn call(&self, env: &mut Environment) -> Result<ActionResult, MigratoryError> {
        env.data
            .insert(format!("{}_called", self.name), "true".to_string());
        if self.should_fail {
            Err(MigratoryError::Generic(format!("{} failed", self.name)))
        } else if self.should_halt {
            Ok(ActionResult::Halt)
        } else {
            Ok(ActionResult::Continue)
        }
    }

    fn recover(&self, env: &mut Environment, _error: &MigratoryError) -> Result<(), MigratoryError> {
        env.data
            .insert(format!("{}_recovered", self.name), "true".to_string());
        Ok(())
    }
}

fn mock(name: &str, should_fail: bool, should_halt: bool) -> Box<dyn Action> {
    Box::new(MockAction {
        name: name.to_string(),
        should_fail,
        should_halt,
    })
}

#[test]
fn test_environment() {
    let mut env = Environment::new();
    env.data.insert("key".to_string(), "value".to_string());
    assert_eq!(env.data.get("key"), Some(&"value".to_string()));
}

#[test]
fn test_warden_continue() {
    let action1 = MockAction {
        name: "action1".to_string(),
        should_fail: false,
        should_halt: false,
    };
    assert_eq!(action1.name(), "action1");

    let mut warden = Warden::new();
    warden.use_action(Box::new(action1));
    warden.use_action(mock("action2", false, false));

    let mut env = Environment::new();
    let res = warden.call(&mut env);
    assert!(res.is_ok());
    assert_eq!(env.data.get("action1_called"), Some(&"true".to_string()));
    assert_eq!(env.data.get("action2_called"), Some(&"true".to_string()));
}

#[test]
fn test_warden_halt() {
    let mut warden = Warden::new();
    warden.use_action(mock("action1", false, true));
    warden.use_action(mock("action2", false, false));

    let mut env = Environment::new();
    let res = warden.call(&mut env);
    assert!(res.is_ok());
    assert_eq!(env.data.get("action1_called"), Some(&"true".to_string()));
    assert!(!env.data.contains_key("action2_called"));
}

#[test]
fn test_warden_fail_and_recover() {
    let mut warden = Warden::new();
    warden.use_action(mock("action1", false, false));
    warden.use_action(mock("action2", true, false));

    let mut env = Environment::new();
    let res = warden.call(&mut env);
    assert!(res.is_err());
    assert_eq!(env.data.get("action1_called"), Some(&"true".to_string()));
    assert_eq!(env.data.get("action2_called"), Some(&"true".to_string()));
    assert_eq!(env.data.get("action1_recovered"), Some(&"true".to_string()));
    assert_eq!(env.data.get("action2_recovered"), Some(&"true".to_string()));
}

struct MockRecoverFailAction;

impl Action for MockRecoverFailAction {
    fn name(&self) -> &str {
        "fail_recover"
    }
    fn call(&self, _env: &mut Environment) -> Result<ActionResult, MigratoryError> {
        Err(MigratoryError::Generic("Initial failure".to_string()))
    }
    fn recover(&self, _env: &mut Environment, _error: &MigratoryError) -> Result<(), MigratoryError> {
        Err(MigratoryError::Generic("Recover failure".to_string()))
    }
}

#[test]
fn test_warden_recover_failure() {
    let action = MockRecoverFailAction;
    assert_eq!(action.name(), "fail_recover");

    let mut warden = Warden::new();
    warden.use_action(Box::new(action));
    let mut env = Environment::new();
    let res = warden.call(&mut env);
    assert!(res.is_err());
    let err_msg = res.err().map(|e| e.message()).unwrap_or_default();
    assert!(err_msg.contains("Recover failure"));
    assert!(err_msg.contains("Initial failure"));
}

struct BasicAction;

impl Action for BasicAction {
    fn name(&self) -> &str {
        "basic"
    }
    fn call(&self, _env: &mut Environment) -> Result<ActionResult, MigratoryError> {
        Ok(ActionResult::Continue)
    }
    fn recover(&self, _env: &mut Environment, _error: &MigratoryError) -> Result<(), MigratoryError> {
        Ok(())
    }
}

#[test]
fn test_action_default_recover() {
    let action = BasicAction;
    assert_eq!(action.name(), "basic");
    let mut env = Environment::new();
    assert_eq!(action.call(&mut env).ok(), Some(ActionResult::Continue));
    let err = MigratoryError::Generic("test".to_string());
    assert!(action.recover(&mut env, &err).is_ok());
}

#[test]
fn test_defaults() {
    let env = Environment::default();
    assert!(env.data.is_empty());
    assert!(env.typed_data.entries.is_empty());

    let warden = Warden::default();
    assert!(warden.actions.is_empty());
}

#[test]
fn test_action_builder_and_hooks() {
    let mut builder = ActionBuilder::new();
    assert!(builder.is_empty());
    assert_eq!(builder.len(), 0);

    builder.use_action(mock("mid", false, false));
    assert_eq!(builder.len(), 1);

    builder.prepend(mock("first", false, false));
    assert_eq!(builder.actions[0].name(), "first");
    assert_eq!(builder.actions[1].name(), "mid");

    assert!(builder.insert_before("mid", mock("pre_mid", false, false)).is_ok());
    assert_eq!(builder.actions[1].name(), "pre_mid");

    assert!(builder.insert_after("mid", mock("post_mid", false, false)).is_ok());
    assert_eq!(builder.actions[3].name(), "post_mid");

    assert!(builder.insert_before("nonexistent", mock("x", false, false)).is_err());
    assert!(builder.insert_after("nonexistent", mock("x", false, false)).is_err());
    assert!(builder.replace("nonexistent", mock("x", false, false)).is_err());
    assert!(builder.delete("nonexistent").is_err());

    assert!(builder.replace("pre_mid", mock("new_pre_mid", false, false)).is_ok());
    assert_eq!(builder.actions[1].name(), "new_pre_mid");

    assert!(builder.delete("new_pre_mid").is_ok());
    assert_eq!(builder.len(), 3);

    let warden = builder.to_warden();
    let mut env = Environment::new();
    assert!(warden.call(&mut env).is_ok());
    assert_eq!(env.data.get("first_called"), Some(&"true".to_string()));
    assert_eq!(env.data.get("mid_called"), Some(&"true".to_string()));
    assert_eq!(env.data.get("post_mid_called"), Some(&"true".to_string()));
}

#[test]
fn test_action_hook_apply() {
    let mut builder = ActionBuilder::new();
    builder.use_action(mock("target", false, false));

    let mut hook = ActionHook::new();
    hook.prepend(mock("hook_prepend", false, false));
    hook.before("target", mock("hook_before", false, false));
    hook.after("target", mock("hook_after", false, false));
    hook.append(mock("hook_append", false, false));

    hook.apply(&mut builder);
    assert_eq!(builder.len(), 5);
    assert_eq!(builder.actions[0].name(), "hook_prepend");
    assert_eq!(builder.actions[1].name(), "hook_before");
    assert_eq!(builder.actions[2].name(), "target");
    assert_eq!(builder.actions[3].name(), "hook_after");
    assert_eq!(builder.actions[4].name(), "hook_append");
}

struct InterruptingAction {
    flag: std::sync::Arc<std::sync::atomic::AtomicBool>,
}

impl Action for InterruptingAction {
    fn name(&self) -> &str {
        "interrupter"
    }
    fn call(&self, env: &mut Environment) -> Result<ActionResult, MigratoryError> {
        self.flag.store(true, std::sync::atomic::Ordering::SeqCst);
        env.data
            .insert("interrupter_called".to_string(), "true".to_string());
        Ok(ActionResult::Continue)
    }
    fn recover(&self, env: &mut Environment, _err: &MigratoryError) -> Result<(), MigratoryError> {
        env.data
            .insert("interrupter_recovered".to_string(), "true".to_string());
        Ok(())
    }
}

#[test]
fn test_warden_interrupt_signal() {
    let mut warden = Warden::new();
    warden.use_action(mock("action1", false, false));
    warden.use_action(mock("action2", false, false));

    let interrupted = std::sync::atomic::AtomicBool::new(true);
    let mut env = Environment::new();
    let res = warden.call_with_interrupt(&mut env, Some(&interrupted));
    assert!(res.is_err());
    assert!(res
        .err()
        .map(|e| e.message())
        .unwrap_or_default()
        .contains("SIGINT"));
    assert!(!env.data.contains_key("action1_called"));

    let flag = std::sync::Arc::new(std::sync::atomic::AtomicBool::new(false));
    let mut warden2 = Warden::new();
    warden2.use_action(Box::new(InterruptingAction { flag: flag.clone() }));
    warden2.use_action(mock("never", false, false));

    let mut env2 = Environment::new();
    let res2 = warden2.call_with_interrupt(&mut env2, Some(&flag));
    assert!(res2.is_err());
    assert_eq!(
        env2.data.get("interrupter_called").map(|s| s.as_str()),
        Some("true")
    );
    assert_eq!(
        env2.data.get("interrupter_recovered").map(|s| s.as_str()),
        Some("true")
    );
}

#[test]
fn builder_calls_chain() {
    let mut builder = ActionBuilder::new();
    builder
        .use_action(mock("b", false, false))
        .prepend(mock("a", false, false))
        .use_action(mock("d", false, false));
    builder
        .insert_after("b", mock("c", false, false))
        .expect("b is there")
        .delete("d")
        .expect("d is there");
    assert_eq!(builder.len(), 3);
    assert!(builder.replace("zzz", mock("x", false, false)).is_err());
}

#[test]
fn call_is_call_with_no_flag() {
    let build = || {
        let mut w = Warden::new();
        w.use_action(mock("one", false, false));
        w.use_action(mock("two", true, false));
        w
    };
    let mut env_a = Environment::new();
    let mut env_b = Environment::new();
    let a = build().call(&mut env_a);
    let b = build().call_with_interrupt(&mut env_b, None);
    assert_eq!(a, b);
    for key in ["one_called", "two_called", "one_recovered", "two_recovered"] {
        assert_eq!(env_a.data.get(key), env_b.data.get(key));
    }
    assert_eq!(env_a.data.get("one_recovered"), Some(&"true".to_string()));
}

#[test]
fn warden_from_builder_runs_its_actions_in_order() {
    let mut builder = ActionBuilder::new();
    builder.use_action(mock("a", false, false)).use_action(mock("b", false, true));
    builder.use_action(mock("c", false, false));
    assert_eq!(builder.len(), 3);
    let warden = builder.to_warden();
    let names: Vec<&str> = warden.actions.iter().map(|s| s.name()).collect();
    assert_eq!(names, vec!["a", "b", "c"]);
    let mut env = Environment::new();
    assert!(warden.call(&mut env).is_ok());
    assert_eq!(env.data.get("a_called"), Some(&"true".to_string()));
    assert_eq!(env.data.get("b_called"), Some(&"true".to_string()));
    assert_eq!(env.data.get("c_called"), None);
}
