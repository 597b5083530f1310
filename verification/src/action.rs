//! Action middleware chains: a builder that arranges actions by name, hooks
//! that extend a builder, and the warden that runs a chain and, when a step
//! fails or an interrupt arrives, calls back the steps that ran, newest first.

use vstd::prelude::*;
use crate::error::{MigratoryError, error_message};
use crate::strmap::StringMap;
use crate::text::{str_eq, decimal, u64_to_decimal};
use std::any::Any;
use std::collections::HashMap;
use std::sync::Arc;

verus! {

broadcast use vstd::seq::group_seq_axioms;

/// Typed values that actions share, keyed by name (a std `HashMap` of
/// `Arc<dyn Any + Send + Sync>`, which Verus cannot hold).
#[verifier::external_body]
pub struct TypedData {
    /// The values by name.
    pub entries: HashMap<String, Arc<dyn Any + Send + Sync>>,
}

/// The keys that a `TypedData` holds.
pub uninterp spec fn typed_data_keys(d: TypedData) -> Set<Seq<char>>;

impl TypedData {
    /// std `HashMap::new`: a map without keys.
    #[verifier::external_body]
    pub(crate) fn empty() -> (d: TypedData)
        ensures
            typed_data_keys(d) == Set::<Seq<char>>::empty(),
    {
        TypedData { entries: HashMap::new() }
    }
}

/// A shared environment for action chains.
pub struct Environment {
    /// Generic state map for actions to share string data.
    pub data: StringMap,
    /// Any typed data.
    pub typed_data: TypedData,
}

impl Environment {
    /// Creates a new, empty Environment.
    pub fn new() -> (e: Environment)
        ensures
            e.data@ == Map::<Seq<char>, Seq<char>>::empty(),
            typed_data_keys(e.typed_data) == Set::<Seq<char>>::empty(),
    {
        Environment { data: StringMap::new(), typed_data: TypedData::empty() }
    }
}

impl Default for Environment {
    fn default() -> (e: Environment)
        ensures
            e.data@ == Map::<Seq<char>, Seq<char>>::empty(),
            typed_data_keys(e.typed_data) == Set::<Seq<char>>::empty(),
    {
        Environment::new()
    }
}

/// The result of an Action's `call` method.
#[derive(Debug, Clone, Copy, PartialEq, Eq, Structural)]
pub enum ActionResult {
    /// Continue to the next action in the chain.
    Continue,
    /// Abort the chain immediately, but return Ok.
    Halt,
}

/// A single step (middleware) in an action chain.
///
/// The spec functions describe an implementation: the name it reports, and
/// which changes of the environment and which results a call of `call` may
/// produce. What `recover` does is left to the implementation (its default
/// succeeds and changes nothing).
pub trait Action: Send + Sync {
    /// The name that `name` reports; left unspecified for an implementation
    /// that does not describe it.
    closed spec fn spec_name(&self) -> Seq<char> {
        arbitrary()
    }

    /// Whether a call of `call` may take the environment from `pre` to `post`
    /// and return `r`.
    closed spec fn call_spec(
        &self,
        pre: Environment,
        post: Environment,
        r: Result<ActionResult, MigratoryError>,
    ) -> bool {
        arbitrary()
    }

    /// The name of this action for debugging/logging.
    fn name(&self) -> (n: &str)
        ensures
            n@ == self.spec_name(),
    ;

    /// Called during the "up" phase of the middleware chain.
    fn call(&self, env: &mut Environment) -> (r: Result<ActionResult, MigratoryError>)
        ensures
            self.call_spec(*old(env), *final(env), r),
    ;

    /// Whether a call of `recover` after `error` may take the environment
    /// from `pre` to `post` and return `r`.
    closed spec fn recover_spec(
        &self,
        pre: Environment,
        post: Environment,
        error: MigratoryError,
        r: Result<(), MigratoryError>,
    ) -> bool {
        arbitrary()
    }

    /// Called during the "down" (recovery/rollback) phase of the middleware chain.
    fn recover(&self, env: &mut Environment, error: &MigratoryError) -> (r: Result<
        (),
        MigratoryError,
    >)
        ensures
            self.recover_spec(*old(env), *final(env), *error, r),
    ;
}

/// An action held in a chain.
pub struct ActionSlot {
    /// The action.
    pub action: Box<dyn Action>,
}

impl ActionSlot {
    /// The name of the held action.
    pub fn name(&self) -> (n: &str)
        ensures
            n@ == self.action.spec_name(),
    {
        self.action.name()
    }
}

/// The first position at or after `k` of an action named `t`.
pub open spec fn named_from(s: Seq<ActionSlot>, t: Seq<char>, k: int) -> Option<int>
    decreases s.len() - k,
{
    if k < 0 || k >= s.len() {
        None
    } else if s[k].action.spec_name() == t {
        Some(k)
    } else {
        named_from(s, t, k + 1)
    }
}

/// The first position of an action named `t`.
pub open spec fn position_named(s: Seq<ActionSlot>, t: Seq<char>) -> Option<int> {
    named_from(s, t, 0)
}

proof fn lemma_named_from(s: Seq<ActionSlot>, t: Seq<char>, k: int)
    requires
        0 <= k,
    ensures
        named_from(s, t, k) is Some ==> k <= named_from(s, t, k)->0 < s.len() && s[named_from(
            s,
            t,
            k,
        )->0].action.spec_name() == t,
    decreases s.len() - k,
{
    if k < s.len() && s[k].action.spec_name() != t {
        lemma_named_from(s, t, k + 1);
    }
}

/// Returns the first position of an action named `target`.
fn find_named(actions: &Vec<ActionSlot>, target: &str) -> (r: Option<usize>)
    ensures
        r matches Some(p) ==> position_named(actions@, target@) == Some(p as int),
        r is None ==> position_named(actions@, target@) is None,
{
    let mut i: usize = 0;
    while i < actions.len()
        invariant
            i <= actions@.len(),
            position_named(actions@, target@) == named_from(actions@, target@, i as int),
        decreases actions.len() - i,
    {
        if str_eq(actions[i].name(), target) {
            return Some(i);
        }
        i = i + 1;
    }
    None
}

/// The message of the error for a missing action name: `Action '<name>' not found`.
pub open spec fn missing_action_message(target: Seq<char>) -> Seq<char> {
    "Action '"@ + target + "' not found"@
}

/// Whether `e` reports that no action is named `target`.
pub open spec fn is_missing_action_error(e: MigratoryError, target: Seq<char>) -> bool {
    e matches MigratoryError::NotFound(m) && m@ == missing_action_message(target)
}

fn missing_action(target: &str) -> (e: MigratoryError)
    ensures
        is_missing_action_error(e, target@),
{
    let mut m = "Action '".to_owned();
    m.append(target);
    m.append("' not found");
    MigratoryError::NotFound(m)
}

/// Appends `slot` to `v`.
fn push_slot(v: &mut Vec<ActionSlot>, slot: ActionSlot)
    ensures
        final(v)@ == old(v)@.push(slot),
        final(v)@.len() == old(v)@.len() + 1,
        final(v)@.drop_last() == old(v)@,
        final(v)@.last() == slot,
{
    v.push(slot);
    proof {
        assert(final(v)@.drop_last() =~= old(v)@);
    }
}

/// Inserts `slot` into `v` at `i`.
fn insert_slot(v: &mut Vec<ActionSlot>, i: usize, slot: ActionSlot)
    requires
        i <= old(v)@.len(),
    ensures
        final(v)@ == old(v)@.insert(i as int, slot),
        final(v)@.len() == old(v)@.len() + 1,
        final(v)@[i as int] == slot,
{
    v.insert(i, slot);
}

/// Puts `slot` in place of the item of `v` at `i`.
fn set_slot(v: &mut Vec<ActionSlot>, i: usize, slot: ActionSlot)
    requires
        i < old(v)@.len(),
    ensures
        final(v)@ == old(v)@.update(i as int, slot),
        final(v)@.len() == old(v)@.len(),
        final(v)@[i as int] == slot,
{
    v.set(i, slot);
}

/// Builds and configures an action middleware pipeline matching Vagrant's `Action::Builder`.
pub struct ActionBuilder {
    /// The actions, in the order in which they run.
    pub actions: Vec<ActionSlot>,
}

impl ActionBuilder {
    /// Creates a new, empty ActionBuilder.
    pub fn new() -> (b: ActionBuilder)
        ensures
            b.actions@ == Seq::<ActionSlot>::empty(),
    {
        ActionBuilder { actions: Vec::new() }
    }

    /// Appends an action to the pipeline; returns the builder, for chaining.
    pub fn use_action(&mut self, action: Box<dyn Action>) -> (r: &mut ActionBuilder)
        ensures
            r.actions@ == old(self).actions@.push((ActionSlot { action })),
            r.actions@.len() == old(self).actions@.len() + 1,
            r.actions@.drop_last() == old(self).actions@,
            r.actions@.last() == (ActionSlot { action }),
            *final(self) == *final(r),
    {
        push_slot(&mut self.actions, ActionSlot { action });
        self
    }

    /// Prepends an action to the beginning of the pipeline; returns the
    /// builder, for chaining.
    pub fn prepend(&mut self, action: Box<dyn Action>) -> (r: &mut ActionBuilder)
        ensures
            r.actions@ == old(self).actions@.insert(0, (ActionSlot { action })),
            r.actions@.len() == old(self).actions@.len() + 1,
            r.actions@[0] == (ActionSlot { action }),
            *final(self) == *final(r),
    {
        insert_slot(&mut self.actions, 0, ActionSlot { action });
        self
    }

    /// Inserts an action before the first action named `target_name`;
    /// returns the builder, for chaining.
    ///
    /// # Errors
    ///
    /// Returns `MigratoryError::NotFound` if `target_name` does not exist in the pipeline.
    pub fn insert_before(&mut self, target_name: &str, action: Box<dyn Action>) -> (r: Result<&mut ActionBuilder, MigratoryError>)
        ensures
            r is Ok <==> position_named(old(self).actions@, target_name@) is Some,
            r matches Ok(b) ==> *final(self) == *final(b) && b.actions@ == old(self).actions@.insert(
                position_named(old(self).actions@, target_name@)->0,
                (ActionSlot { action }),
            ),
            r matches Ok(b) ==> b.actions@.len() == old(self).actions@.len() + 1,
            r matches Err(e) ==> final(self).actions@ == old(self).actions@
                && is_missing_action_error(e, target_name@),
    {
        match self.insert_slot_before(target_name, ActionSlot { action }) {
            Ok(()) => Ok(self),
            Err(e) => Err(e),
        }
    }

    fn insert_slot_before(&mut self, target_name: &str, slot: ActionSlot) -> (r: Result<
        (),
        MigratoryError,
    >)
        ensures
            r is Ok <==> position_named(old(self).actions@, target_name@) is Some,
            r is Ok ==> final(self).actions@ == old(self).actions@.insert(
                position_named(old(self).actions@, target_name@)->0,
                slot,
            ),
            r is Ok ==> final(self).actions@.len() == old(self).actions@.len() + 1,
            r matches Err(e) ==> final(self).actions@ == old(self).actions@
                && is_missing_action_error(e, target_name@),
    {
        match find_named(&self.actions, target_name) {
            Some(pos) => {
                proof {
                    lemma_named_from(self.actions@, target_name@, 0);
                }
                insert_slot(&mut self.actions, pos, slot);
                Ok(())
            },
            None => Err(missing_action(target_name)),
        }
    }

    /// Inserts an action after the first action named `target_name`;
    /// returns the builder, for chaining.
    ///
    /// # Errors
    ///
    /// Returns `MigratoryError::NotFound` if `target_name` does not exist in the pipeline.
    pub fn insert_after(&mut self, target_name: &str, action: Box<dyn Action>) -> (r: Result<&mut ActionBuilder, MigratoryError>)
        ensures
            r is Ok <==> position_named(old(self).actions@, target_name@) is Some,
            r matches Ok(b) ==> *final(self) == *final(b) && b.actions@ == old(self).actions@.insert(
                position_named(old(self).actions@, target_name@)->0 + 1,
                (ActionSlot { action }),
            ),
            r matches Ok(b) ==> b.actions@.len() == old(self).actions@.len() + 1,
            r matches Err(e) ==> final(self).actions@ == old(self).actions@
                && is_missing_action_error(e, target_name@),
    {
        match self.insert_slot_after(target_name, ActionSlot { action }) {
            Ok(()) => Ok(self),
            Err(e) => Err(e),
        }
    }

    fn insert_slot_after(&mut self, target_name: &str, slot: ActionSlot) -> (r: Result<
        (),
        MigratoryError,
    >)
        ensures
            r is Ok <==> position_named(old(self).actions@, target_name@) is Some,
            r is Ok ==> final(self).actions@ == old(self).actions@.insert(
                position_named(old(self).actions@, target_name@)->0 + 1,
                slot,
            ),
            r is Ok ==> final(self).actions@.len() == old(self).actions@.len() + 1,
            r matches Err(e) ==> final(self).actions@ == old(self).actions@
                && is_missing_action_error(e, target_name@),
    {
        match find_named(&self.actions, target_name) {
            Some(pos) => {
                proof {
                    lemma_named_from(self.actions@, target_name@, 0);
                }
                assert(pos < self.actions.len());
                insert_slot(&mut self.actions, pos + 1, slot);
                Ok(())
            },
            None => Err(missing_action(target_name)),
        }
    }

    /// Replaces the first action named `target_name` with a new action;
    /// returns the builder, for chaining.
    ///
    /// # Errors
    ///
    /// Returns `MigratoryError::NotFound` if `target_name` does not exist in the pipeline.
    pub fn replace(&mut self, target_name: &str, action: Box<dyn Action>) -> (r: Result<&mut ActionBuilder, MigratoryError>)
        ensures
            r is Ok <==> position_named(old(self).actions@, target_name@) is Some,
            r matches Ok(b) ==> *final(self) == *final(b) && b.actions@ == old(self).actions@.update(
                position_named(old(self).actions@, target_name@)->0,
                (ActionSlot { action }),
            ),
            r matches Ok(b) ==> b.actions@.len() == old(self).actions@.len(),
            r matches Err(e) ==> final(self).actions@ == old(self).actions@
                && is_missing_action_error(e, target_name@),
    {
        match find_named(&self.actions, target_name) {
            Some(pos) => {
                proof {
                    lemma_named_from(self.actions@, target_name@, 0);
                }
                set_slot(&mut self.actions, pos, ActionSlot { action });
                Ok(self)
            },
            None => Err(missing_action(target_name)),
        }
    }

    /// Deletes the first action named `target_name` from the pipeline;
    /// returns the builder, for chaining.
    ///
    /// # Errors
    ///
    /// Returns `MigratoryError::NotFound` if `target_name` does not exist in the pipeline.
    pub fn delete(&mut self, target_name: &str) -> (r: Result<&mut ActionBuilder, MigratoryError>)
        ensures
            r is Ok <==> position_named(old(self).actions@, target_name@) is Some,
            r matches Ok(b) ==> *final(self) == *final(b) && b.actions@ == old(self).actions@.remove(
                position_named(old(self).actions@, target_name@)->0,
            ),
            r matches Err(e) ==> final(self).actions@ == old(self).actions@
                && is_missing_action_error(e, target_name@),
    {
        match find_named(&self.actions, target_name) {
            Some(pos) => {
                proof {
                    lemma_named_from(self.actions@, target_name@, 0);
                }
                assert(position_named(self.actions@, target_name@) == Some(pos as int));
                self.actions.remove(pos);
                Ok(self)
            },
            None => Err(missing_action(target_name)),
        }
    }

    /// Returns the number of actions in the pipeline.
    pub fn len(&self) -> (n: usize)
        ensures
            n == self.actions@.len(),
    {
        self.actions.len()
    }

    /// Returns true if the pipeline contains no actions.
    pub fn is_empty(&self) -> (b: bool)
        ensures
            b == (self.actions@.len() == 0),
    {
        self.actions.len() == 0
    }

    /// Converts this builder into an executable `Warden`.
    pub fn to_warden(self) -> (w: Warden)
        ensures
            w.actions@ == self.actions@,
    {
        Warden { actions: self.actions }
    }
}

impl Default for ActionBuilder {
    fn default() -> (b: ActionBuilder)
        ensures
            b.actions@ == Seq::<ActionSlot>::empty(),
    {
        ActionBuilder::new()
    }
}


/// The Warden manages a chain of Actions and executes them.
pub struct Warden {
    /// The actions, in the order in which they run.
    pub actions: Vec<ActionSlot>,
}

/// What happened at one step of the "up" phase.
pub enum ForwardEvent {
    /// An interrupt was seen before the step's action ran.
    Interrupted,
    /// The step's action returned this.
    Returned(Result<ActionResult, MigratoryError>),
}

/// Whether the "up" phase ends at this event.
pub open spec fn ends_chain(ev: ForwardEvent) -> bool {
    match ev {
        ForwardEvent::Interrupted => true,
        ForwardEvent::Returned(Ok(ActionResult::Continue)) => false,
        ForwardEvent::Returned(_) => true,
    }
}

/// Whether the "up" phase fails at this event.
pub open spec fn fails_chain(ev: ForwardEvent) -> bool {
    match ev {
        ForwardEvent::Interrupted => true,
        ForwardEvent::Returned(Err(_)) => true,
        _ => false,
    }
}

/// The message of the error for an interrupt.
pub open spec fn interrupt_message() -> Seq<char> {
    "Operation interrupted by signal (SIGINT)"@
}

/// The message of the error when a recovery fails: it names both errors.
pub open spec fn recovery_failure_message(recover_err: MigratoryError, err: MigratoryError) -> Seq<
    char,
> {
    "Error during recovery: "@ + error_message(recover_err) + ", original error: "@
        + error_message(err)
}

/// The run of a chain: the environments that the "up" phase passed through,
/// what each of its steps gave, the error that ended it (if any), and what
/// each recovery gave.
pub struct WardenRun {
    /// The environment before the run and after each step of the "up" phase.
    pub envs: Seq<Environment>,
    /// The "up" phase, one event per step.
    pub forward: Seq<ForwardEvent>,
    /// The error that ended the "up" phase.
    pub error: Option<MigratoryError>,
    /// The results of the recoveries, newest action first.
    pub recovered: Seq<Result<(), MigratoryError>>,
    /// The environment after the "up" phase and after each recovery.
    pub renvs: Seq<Environment>,
}

impl WardenRun {
    /// The number of actions whose `call` ran.
    pub open spec fn executed(self) -> int {
        if self.forward.len() > 0 && self.forward.last() is Interrupted {
            self.forward.len() - 1
        } else {
            self.forward.len() as int
        }
    }

    /// The "up" phase runs the actions in order and stops at the first step
    /// that halts, fails or sees an interrupt; it runs them all otherwise.
    pub open spec fn forward_shape(self, n: int) -> bool {
        &&& self.forward.len() <= n
        &&& forall|i: int|
            0 <= i < self.forward.len() - 1 ==> #[trigger] self.forward[i]
                == ForwardEvent::Returned(Ok(ActionResult::Continue))
        &&& self.forward.len() < n ==> self.forward.len() > 0 && ends_chain(self.forward.last())
    }

    /// Each step of the "up" phase is a call of its action, or an interrupt
    /// that leaves the environment alone.
    pub open spec fn forward_calls(self, actions: Seq<ActionSlot>) -> bool {
        forall|i: int|
            0 <= i < self.forward.len() ==> match #[trigger] self.forward[i] {
                ForwardEvent::Interrupted => self.envs[i + 1] == self.envs[i],
                ForwardEvent::Returned(r) => actions[i].action.call_spec(
                    self.envs[i],
                    self.envs[i + 1],
                    r,
                ),
            }
    }

    /// The error is the one of the failing step: the action's own, or the
    /// interrupt error.
    pub open spec fn error_shape(self) -> bool {
        &&& (self.error is Some) == (self.forward.len() > 0 && fails_chain(self.forward.last()))
        &&& self.error matches Some(e) ==> match self.forward.last() {
            ForwardEvent::Interrupted => e matches MigratoryError::Generic(m) && m@
                == interrupt_message(),
            ForwardEvent::Returned(Err(x)) => e == x,
            _ => false,
        }
    }

    /// After a failure the actions that ran are recovered, newest first, until
    /// one recovery fails; without a failure nothing is recovered.
    pub open spec fn recovery_shape(self) -> bool {
        let x = self.executed();
        let n = self.recovered.len() as int;
        match self.error {
            None => n == 0,
            Some(e) => {
                &&& n <= x
                &&& forall|k: int| 0 <= k < n - 1 ==> #[trigger] self.recovered[k] is Ok
                &&& n == x || (n > 0 && self.recovered[n - 1] is Err)
            },
        }
    }

    /// Each recovery is a call of `recover`, with the failure's error, of the
    /// action that ran the corresponding number of steps before the end.
    pub open spec fn recovery_calls(self, actions: Seq<ActionSlot>) -> bool {
        &&& self.renvs.len() == self.recovered.len() + 1
        &&& self.renvs[0] == self.envs.last()
        &&& self.error matches Some(e) ==> forall|k: int|
            0 <= k < self.recovered.len() ==> actions[self.executed() - 1 - k].action.recover_spec(
                self.renvs[k],
                self.renvs[k + 1],
                e,
                #[trigger] self.recovered[k],
            )
    }

    /// A run of `actions` from `pre` to `post`.
    pub open spec fn valid(
        self,
        actions: Seq<ActionSlot>,
        pre: Environment,
        post: Environment,
    ) -> bool {
        &&& self.forward_shape(actions.len() as int)
        &&& self.envs.len() == self.forward.len() + 1
        &&& self.envs[0] == pre
        &&& self.renvs.last() == post
        &&& self.forward_calls(actions)
        &&& self.error_shape()
        &&& self.recovery_shape()
        &&& self.recovery_calls(actions)
    }

    /// Whether `r` is what the chain returns after this run: `Ok` without a
    /// failure; the failure's own error when every recovery succeeded; an
    /// error naming both errors when a recovery failed.
    pub open spec fn outcome(self, r: Result<(), MigratoryError>) -> bool {
        match self.error {
            None => r is Ok,
            Some(e) => {
                let n = self.recovered.len() as int;
                if n > 0 && self.recovered[n - 1] is Err {
                    r matches Err(MigratoryError::Generic(m)) && m@ == recovery_failure_message(
                        self.recovered[n - 1]->Err_0,
                        e,
                    )
                } else {
                    r == Err::<(), MigratoryError>(e)
                }
            },
        }
    }

    /// Whether an interrupt was seen.
    pub open spec fn interrupted(self) -> bool {
        self.forward.len() > 0 && self.forward.last() is Interrupted
    }
}

/// Whether `actions` may run from `pre` to `post` with result `r`: there is
/// a run of them with that outcome, which sees no interrupt unless
/// `interruptible`.
pub open spec fn chain_ran(
    actions: Seq<ActionSlot>,
    pre: Environment,
    post: Environment,
    r: Result<(), MigratoryError>,
    interruptible: bool,
) -> bool {
    exists|run: WardenRun|
        {
            &&& #[trigger] run.valid(actions, pre, post)
            &&& run.outcome(r)
            &&& !interruptible ==> !run.interrupted()
        }
}

/// Whether the interrupt flag is set.
fn interrupt_requested(interrupted: Option<&std::sync::atomic::AtomicBool>) -> (b: bool)
    ensures
        interrupted is None ==> !b,
{
    match interrupted {
        Some(flag) => flag.load(std::sync::atomic::Ordering::SeqCst),
        None => false,
    }
}

fn recovery_failure(recover_err: &MigratoryError, err: &MigratoryError) -> (e: MigratoryError)
    ensures
        e matches MigratoryError::Generic(m) && m@ == recovery_failure_message(*recover_err, *err),
{
    let mut m = "Error during recovery: ".to_owned();
    let a = recover_err.message();
    m.append(a.as_str());
    m.append(", original error: ");
    let b = err.message();
    m.append(b.as_str());
    MigratoryError::Generic(m)
}

impl Warden {
    /// Creates a new, empty Warden.
    pub fn new() -> (w: Warden)
        ensures
            w.actions@ == Seq::<ActionSlot>::empty(),
    {
        Warden { actions: Vec::new() }
    }

    /// Appends an action to the chain.
    pub fn use_action(&mut self, action: Box<dyn Action>)
        ensures
            final(self).actions@ == old(self).actions@.push((ActionSlot { action })),
            final(self).actions@.len() == old(self).actions@.len() + 1,
            final(self).actions@.drop_last() == old(self).actions@,
            final(self).actions@.last() == (ActionSlot { action }),
    {
        push_slot(&mut self.actions, ActionSlot { action });
    }

    /// Executes the middleware chain: exactly what `call_with_interrupt`
    /// does without an interrupt flag.
    pub fn call(&self, env: &mut Environment) -> (r: Result<(), MigratoryError>)
        ensures
            chain_ran(self.actions@, *old(env), *final(env), r, false),
    {
        self.run_chain(env, None)
    }

    /// Executes the middleware chain, checking for cancellation / SIGINT via `interrupted`.
    ///
    /// If an interrupt is detected, execution halts and recovery unwinds in reverse.
    pub fn call_with_interrupt(
        &self,
        env: &mut Environment,
        interrupted: Option<&std::sync::atomic::AtomicBool>,
    ) -> (r: Result<(), MigratoryError>)
        ensures
            chain_ran(self.actions@, *old(env), *final(env), r, interrupted is Some),
    {
        self.run_chain(env, interrupted)
    }

    fn run_chain(
        &self,
        env: &mut Environment,
        interrupted: Option<&std::sync::atomic::AtomicBool>,
    ) -> (r: Result<(), MigratoryError>)
        ensures
            exists|run: WardenRun|
                {
                    &&& #[trigger] run.valid(self.actions@, *old(env), *final(env))
                    &&& run.outcome(r)
                    &&& interrupted is None ==> !run.interrupted()
                },
    {
        let n = self.actions.len();
        let ghost actions = self.actions@;
        let ghost mut envs: Seq<Environment> = seq![*env];
        let ghost mut forward: Seq<ForwardEvent> = Seq::empty();
        let mut error: Option<MigratoryError> = None;
        let mut i: usize = 0;
        let mut stop = false;
        while i < n && !stop
            invariant
                n == actions.len(),
                actions == self.actions@,
                i <= n,
                forward.len() == i || (stop && forward.len() == i + 1 && i < n && forward.last() is Interrupted),
                stop ==> forward.len() > 0 && ends_chain(forward.last()),
                !stop ==> forward.len() == i,
                forward.len() == i ==> !(forward.len() > 0 && forward.last() is Interrupted),
                forall|k: int| 0 <= k < forward.len() - 1 ==> #[trigger] forward[k]
                    == ForwardEvent::Returned(Ok(ActionResult::Continue)),
                !stop ==> forall|k: int| 0 <= k < forward.len() ==> #[trigger] forward[k]
                    == ForwardEvent::Returned(Ok(ActionResult::Continue)),
                envs.len() == forward.len() + 1,
                envs[0] == *old(env),
                envs.last() == *env,
                (WardenRun { envs, forward, error, recovered: Seq::empty(), renvs: seq![envs.last()] }).forward_calls(actions),
                (WardenRun { envs, forward, error, recovered: Seq::empty(), renvs: seq![envs.last()] }).error_shape(),
                interrupted is None ==> !(forward.len() > 0 && forward.last() is Interrupted),
            decreases n - i + (if stop { 0int } else { 1int }),
        {
            if interrupt_requested(interrupted) {
                error = Some(MigratoryError::Generic("Operation interrupted by signal (SIGINT)".to_owned()));
                proof {
                    envs = envs.push(*env);
                    forward = forward.push(ForwardEvent::Interrupted);
                }
                stop = true;
            } else {
                let res = self.actions[i].action.call(env);
                let ghost rr = res;
                proof {
                    envs = envs.push(*env);
                    forward = forward.push(ForwardEvent::Returned(rr));
                }
                match res {
                    Ok(ActionResult::Continue) => {},
                    Ok(ActionResult::Halt) => {
                        stop = true;
                    },
                    Err(e) => {
                        error = Some(e);
                        stop = true;
                    },
                }
                i = i + 1;
            }
        }
        let ghost run0 = WardenRun {
            envs,
            forward,
            error,
            recovered: Seq::empty(),
            renvs: seq![envs.last()],
        };
        assert(run0.forward_shape(n as int));
        match error {
            None => {
                assert(run0.valid(actions, *old(env), *env));
                assert(run0.outcome(Ok(())));
                Ok(())
            },
            Some(err) => {
                let executed: usize = i;
                let ghost mut recovered: Seq<Result<(), MigratoryError>> = Seq::empty();
                let ghost mut renvs: Seq<Environment> = seq![*env];
                assert(executed == run0.executed());
                let mut j: usize = executed;
                while j > 0
                    invariant
                        j <= executed <= n,
                        n == actions.len(),
                        actions == self.actions@,
                        executed == run0.executed(),
                        run0.error == Some(err),
                        run0.forward == forward,
                        run0.envs == envs,
                        run0.forward_shape(actions.len() as int),
                        run0.envs.len() == run0.forward.len() + 1,
                        run0.envs[0] == *old(env),
                        run0.forward_calls(actions),
                        run0.error_shape(),
                        interrupted is None ==> !(forward.len() > 0 && forward.last() is Interrupted),
                        recovered.len() == executed - j,
                        forall|k: int| 0 <= k < recovered.len() ==> #[trigger] recovered[k] is Ok,
                        renvs.len() == recovered.len() + 1,
                        renvs[0] == envs.last(),
                        renvs.last() == *env,
                        forall|k: int|
                            0 <= k < recovered.len() ==> actions[executed - 1 - k].action.recover_spec(
                                renvs[k],
                                renvs[k + 1],
                                err,
                                #[trigger] recovered[k],
                            ),
                    decreases j,
                {
                    j = j - 1;
                    let rr = self.actions[j].action.recover(env, &err);
                    let ghost rg = rr;
                    proof {
                        recovered = recovered.push(rg);
                        renvs = renvs.push(*env);
                    }
                    match rr {
                        Ok(()) => {},
                        Err(recover_err) => {
                            let e = recovery_failure(&recover_err, &err);
                            let ghost run = WardenRun { envs, forward, error: Some(err), recovered, renvs };
                            assert(run.valid(actions, *old(env), *env));
                            assert(run.outcome(Err(e)));
                            return Err(e);
                        },
                    }
                }
                let ghost run = WardenRun { envs, forward, error: Some(err), recovered, renvs };
                assert(run.valid(actions, *old(env), *env));
                assert(run.outcome(Err(err)));
                Err(err)
            },
        }
    }
}

impl Default for Warden {
    fn default() -> (w: Warden)
        ensures
            w.actions@ == Seq::<ActionSlot>::empty(),
    {
        Warden::new()
    }
}

/// `s` after inserting the action of each hook of `hooks`, in order, before
/// the first action named by the hook's target (a hook whose target is
/// missing is skipped).
pub open spec fn hooks_before(s: Seq<ActionSlot>, hooks: Seq<(String, ActionSlot)>) -> Seq<ActionSlot>
    decreases hooks.len(),
{
    if hooks.len() == 0 {
        s
    } else {
        let r = hooks_before(s, hooks.drop_last());
        let t = hooks.last().0@;
        if position_named(r, t) is Some {
            r.insert(position_named(r, t)->0, hooks.last().1)
        } else {
            r
        }
    }
}

/// `s` after inserting the action of each hook of `hooks`, in order, after
/// the first action named by the hook's target (a hook whose target is
/// missing is skipped).
pub open spec fn hooks_after(s: Seq<ActionSlot>, hooks: Seq<(String, ActionSlot)>) -> Seq<ActionSlot>
    decreases hooks.len(),
{
    if hooks.len() == 0 {
        s
    } else {
        let r = hooks_after(s, hooks.drop_last());
        let t = hooks.last().0@;
        if position_named(r, t) is Some {
            r.insert(position_named(r, t)->0 + 1, hooks.last().1)
        } else {
            r
        }
    }
}

/// Extensible action hooks matching Vagrant's `Action::Hook`.
///
/// External plugins and extensions can register hooks into an action stack.
pub struct ActionHook {
    before_hooks: Vec<(String, ActionSlot)>,
    after_hooks: Vec<(String, ActionSlot)>,
    prepend_hooks: Vec<ActionSlot>,
    append_hooks: Vec<ActionSlot>,
}

impl ActionHook {
    /// The hooks that run before a named action: the name and the action.
    pub closed spec fn before_list(&self) -> Seq<(String, ActionSlot)> {
        self.before_hooks@
    }

    /// The hooks that run after a named action: the name and the action.
    pub closed spec fn after_list(&self) -> Seq<(String, ActionSlot)> {
        self.after_hooks@
    }

    /// The actions registered to go first, in the order of registration.
    pub closed spec fn prepend_list(&self) -> Seq<ActionSlot> {
        self.prepend_hooks@
    }

    /// The actions registered to go last, in the order of registration.
    pub closed spec fn append_list(&self) -> Seq<ActionSlot> {
        self.append_hooks@
    }

    /// Creates a new empty `ActionHook`.
    pub fn new() -> (h: ActionHook)
        ensures
            h.before_list() == Seq::<(String, ActionSlot)>::empty(),
            h.after_list() == Seq::<(String, ActionSlot)>::empty(),
            h.prepend_list() == Seq::<ActionSlot>::empty(),
            h.append_list() == Seq::<ActionSlot>::empty(),
    {
        ActionHook {
            before_hooks: Vec::new(),
            after_hooks: Vec::new(),
            prepend_hooks: Vec::new(),
            append_hooks: Vec::new(),
        }
    }

    /// Registers an action to run before `target_name`.
    pub fn before(&mut self, target_name: &str, action: Box<dyn Action>)
        ensures
            exists|t: String|
                t@ == target_name@ && #[trigger] final(self).before_list() == old(
                    self,
                ).before_list().push((t, (ActionSlot { action }))),
            final(self).after_list() == old(self).after_list(),
            final(self).prepend_list() == old(self).prepend_list(),
            final(self).append_list() == old(self).append_list(),
    {
        let t = target_name.to_owned();
        let ghost tg = t;
        self.before_hooks.push((t, ActionSlot { action }));
        assert(self.before_list() == old(self).before_list().push((tg, (ActionSlot { action }))));
    }

    /// Registers an action to run after `target_name`.
    pub fn after(&mut self, target_name: &str, action: Box<dyn Action>)
        ensures
            exists|t: String|
                t@ == target_name@ && #[trigger] final(self).after_list() == old(
                    self,
                ).after_list().push((t, (ActionSlot { action }))),
            final(self).before_list() == old(self).before_list(),
            final(self).prepend_list() == old(self).prepend_list(),
            final(self).append_list() == old(self).append_list(),
    {
        let t = target_name.to_owned();
        let ghost tg = t;
        self.after_hooks.push((t, ActionSlot { action }));
        assert(self.after_list() == old(self).after_list().push((tg, (ActionSlot { action }))));
    }

    /// Registers an action to prepend to the start of the action stack.
    pub fn prepend(&mut self, action: Box<dyn Action>)
        ensures
            final(self).prepend_list() == old(self).prepend_list().push((ActionSlot { action })),
            final(self).before_list() == old(self).before_list(),
            final(self).after_list() == old(self).after_list(),
            final(self).append_list() == old(self).append_list(),
    {
        self.prepend_hooks.push(ActionSlot { action });
    }

    /// Registers an action to append to the end of the action stack.
    pub fn append(&mut self, action: Box<dyn Action>)
        ensures
            final(self).append_list() == old(self).append_list().push((ActionSlot { action })),
            final(self).before_list() == old(self).before_list(),
            final(self).after_list() == old(self).after_list(),
            final(self).prepend_list() == old(self).prepend_list(),
    {
        self.append_hooks.push(ActionSlot { action });
    }

    /// Applies all registered hooks onto the target `ActionBuilder`: each
    /// prepended action goes to the front (so the last one registered runs
    /// first), then the before and after hooks go next to their targets in
    /// the order of registration, then the appended actions go last.
    pub fn apply(self, builder: &mut ActionBuilder)
        ensures
            final(builder).actions@ == hooks_after(
                hooks_before(
                    self.prepend_list().reverse() + old(builder).actions@,
                    self.before_list(),
                ),
                self.after_list(),
            ) + self.append_list(),
    {
        let ghost pre = self.prepend_list();
        let ghost bl = self.before_list();
        let ghost al = self.after_list();
        let ghost ap = self.append_list();
        let ghost start = builder.actions@;
        let ActionHook { before_hooks, after_hooks, prepend_hooks, append_hooks } = self;
        // Prepended actions, each to the front.
        let mut items = prepend_hooks;
        let total = items.len();
        let mut k: usize = 0;
        assert(pre.take(0).reverse() + start =~= start);
        while items.len() > 0
            invariant
                k + items@.len() == total,
                total == pre.len(),
                items@ == pre.skip(k as int),
                builder.actions@ == pre.take(k as int).reverse() + start,
            decreases items.len(),
        {
            let a = items.remove(0);
            assert(a == pre[k as int]);
            assert(pre.take(k + 1).reverse() =~= seq![a] + pre.take(k as int).reverse());
            let ghost x = pre.take(k as int).reverse();
            assert((x + start).insert(0, a) =~= seq![a] + (x + start));
            assert(seq![a] + (x + start) =~= (seq![a] + x) + start);
            builder.actions.insert(0, a);
            k = k + 1;
            assert(items@ =~= pre.skip(k as int));
        }
        assert(pre.take(k as int) =~= pre);
        // Hooks before named actions.
        let ghost s1 = builder.actions@;
        let mut items = before_hooks;
        let total = items.len();
        let mut k: usize = 0;
        assert(bl.take(0) =~= Seq::<(String, ActionSlot)>::empty());
        while items.len() > 0
            invariant
                k + items@.len() == total,
                total == bl.len(),
                items@ == bl.skip(k as int),
                builder.actions@ == hooks_before(s1, bl.take(k as int)),
            decreases items.len(),
        {
            let (target, a) = items.remove(0);
            assert((target, a) == bl[k as int]);
            let _ = builder.insert_slot_before(target.as_str(), a);
            assert(bl.take(k + 1).drop_last() =~= bl.take(k as int));
            k = k + 1;
            assert(items@ =~= bl.skip(k as int));
        }
        assert(bl.take(k as int) =~= bl);
        // Hooks after named actions.
        let ghost s2 = builder.actions@;
        let mut items = after_hooks;
        let total = items.len();
        let mut k: usize = 0;
        assert(al.take(0) =~= Seq::<(String, ActionSlot)>::empty());
        while items.len() > 0
            invariant
                k + items@.len() == total,
                total == al.len(),
                items@ == al.skip(k as int),
                builder.actions@ == hooks_after(s2, al.take(k as int)),
            decreases items.len(),
        {
            let (target, a) = items.remove(0);
            assert((target, a) == al[k as int]);
            let _ = builder.insert_slot_after(target.as_str(), a);
            assert(al.take(k + 1).drop_last() =~= al.take(k as int));
            k = k + 1;
            assert(items@ =~= al.skip(k as int));
        }
        assert(al.take(k as int) =~= al);
        // Appended actions, each to the end.
        let ghost s3 = builder.actions@;
        let mut items = append_hooks;
        let total = items.len();
        let mut k: usize = 0;
        assert(s3 + ap.take(0) =~= s3);
        while items.len() > 0
            invariant
                k + items@.len() == total,
                total == ap.len(),
                items@ == ap.skip(k as int),
                builder.actions@ == s3 + ap.take(k as int),
            decreases items.len(),
        {
            let a = items.remove(0);
            assert(a == ap[k as int]);
            builder.actions.push(a);
            assert(s3 + ap.take(k + 1) =~= (s3 + ap.take(k as int)).push(a));
            k = k + 1;
            assert(items@ =~= ap.skip(k as int));
        }
        assert(ap.take(k as int) =~= ap);
    }
}

impl Default for ActionHook {
    fn default() -> (h: ActionHook)
        ensures
            h.before_list() == Seq::<(String, ActionSlot)>::empty(),
            h.after_list() == Seq::<(String, ActionSlot)>::empty(),
            h.prepend_list() == Seq::<ActionSlot>::empty(),
            h.append_list() == Seq::<ActionSlot>::empty(),
    {
        ActionHook::new()
    }
}

/// Whether `post` is `pre` with the string entry `key` set to `value`.
pub open spec fn marks(pre: Environment, post: Environment, key: Seq<char>, value: Seq<char>) -> bool {
    &&& post.data@ == pre.data@.insert(key, value)
    &&& post.typed_data == pre.typed_data
}

/// Action that validates the structural integrity and options of the machine configuration.
pub struct ConfigValidateAction;

impl Action for ConfigValidateAction {
    /// Has nothing to undo: changes nothing and succeeds.
    open spec fn recover_spec(
        &self,
        pre: Environment,
        post: Environment,
        error: MigratoryError,
        r: Result<(), MigratoryError>,
    ) -> bool {
        post == pre && r is Ok
    }

    fn recover(&self, env: &mut Environment, error: &MigratoryError) -> (r: Result<
        (),
        MigratoryError,
    >) {
        Ok(())
    }

    open spec fn spec_name(&self) -> Seq<char> {
        "ConfigValidateAction"@
    }

    /// Fails with the recorded `config_error`, if there is one; changes nothing.
    open spec fn call_spec(
        &self,
        pre: Environment,
        post: Environment,
        r: Result<ActionResult, MigratoryError>,
    ) -> bool {
        &&& post == pre
        &&& if pre.data@.contains_key("config_error"@) {
            r matches Err(MigratoryError::Validation(m)) && m@ == pre.data@["config_error"@]
        } else {
            r == Ok::<ActionResult, MigratoryError>(ActionResult::Continue)
        }
    }

    fn name(&self) -> (n: &str) {
        "ConfigValidateAction"
    }

    fn call(&self, env: &mut Environment) -> (r: Result<ActionResult, MigratoryError>) {
        match env.data.get("config_error") {
            Some(err) => Err(MigratoryError::Validation(err.clone())),
            None => Ok(ActionResult::Continue),
        }
    }
}

/// Action that checks if a newer box version is available on Vagrant Cloud before boot.
pub struct BoxCheckOutdatedAction {
    /// Name of the box.
    pub box_name: String,
}

impl Action for BoxCheckOutdatedAction {
    /// Has nothing to undo: changes nothing and succeeds.
    open spec fn recover_spec(
        &self,
        pre: Environment,
        post: Environment,
        error: MigratoryError,
        r: Result<(), MigratoryError>,
    ) -> bool {
        post == pre && r is Ok
    }

    fn recover(&self, env: &mut Environment, error: &MigratoryError) -> (r: Result<
        (),
        MigratoryError,
    >) {
        Ok(())
    }

    open spec fn spec_name(&self) -> Seq<char> {
        "BoxCheckOutdatedAction"@
    }

    /// Records `box_checked` and continues.
    open spec fn call_spec(
        &self,
        pre: Environment,
        post: Environment,
        r: Result<ActionResult, MigratoryError>,
    ) -> bool {
        &&& r == Ok::<ActionResult, MigratoryError>(ActionResult::Continue)
        &&& marks(pre, post, "box_checked"@, self.box_name@)
    }

    fn name(&self) -> (n: &str) {
        "BoxCheckOutdatedAction"
    }

    fn call(&self, env: &mut Environment) -> (r: Result<ActionResult, MigratoryError>) {
        env.data.insert("box_checked".to_owned(), self.box_name.clone());
        Ok(ActionResult::Continue)
    }
}

/// Action that verifies base box availability, downloading and extracting it if missing.
pub struct HandleBoxAction {
    /// Name of the box.
    pub box_name: String,
}

impl Action for HandleBoxAction {
    /// Has nothing to undo: changes nothing and succeeds.
    open spec fn recover_spec(
        &self,
        pre: Environment,
        post: Environment,
        error: MigratoryError,
        r: Result<(), MigratoryError>,
    ) -> bool {
        post == pre && r is Ok
    }

    fn recover(&self, env: &mut Environment, error: &MigratoryError) -> (r: Result<
        (),
        MigratoryError,
    >) {
        Ok(())
    }

    open spec fn spec_name(&self) -> Seq<char> {
        "HandleBoxAction"@
    }

    /// Records `box_handled` and continues.
    open spec fn call_spec(
        &self,
        pre: Environment,
        post: Environment,
        r: Result<ActionResult, MigratoryError>,
    ) -> bool {
        &&& r == Ok::<ActionResult, MigratoryError>(ActionResult::Continue)
        &&& marks(pre, post, "box_handled"@, self.box_name@)
    }

    fn name(&self) -> (n: &str) {
        "HandleBoxAction"
    }

    fn call(&self, env: &mut Environment) -> (r: Result<ActionResult, MigratoryError>) {
        env.data.insert("box_handled".to_owned(), self.box_name.clone());
        Ok(ActionResult::Continue)
    }
}

/// Action that sets and persists the guest hostname.
pub struct SetHostnameAction {
    /// The hostname to set.
    pub hostname: String,
}

impl Action for SetHostnameAction {
    /// Has nothing to undo: changes nothing and succeeds.
    open spec fn recover_spec(
        &self,
        pre: Environment,
        post: Environment,
        error: MigratoryError,
        r: Result<(), MigratoryError>,
    ) -> bool {
        post == pre && r is Ok
    }

    fn recover(&self, env: &mut Environment, error: &MigratoryError) -> (r: Result<
        (),
        MigratoryError,
    >) {
        Ok(())
    }

    open spec fn spec_name(&self) -> Seq<char> {
        "SetHostnameAction"@
    }

    /// Records `hostname_set` and continues.
    open spec fn call_spec(
        &self,
        pre: Environment,
        post: Environment,
        r: Result<ActionResult, MigratoryError>,
    ) -> bool {
        &&& r == Ok::<ActionResult, MigratoryError>(ActionResult::Continue)
        &&& marks(pre, post, "hostname_set"@, self.hostname@)
    }

    fn name(&self) -> (n: &str) {
        "SetHostnameAction"
    }

    fn call(&self, env: &mut Environment) -> (r: Result<ActionResult, MigratoryError>) {
        env.data.insert("hostname_set".to_owned(), self.hostname.clone());
        Ok(ActionResult::Continue)
    }
}

/// Action that detects and auto-corrects host forwarded port collisions.
pub struct HandleForwardedPortCollisionsAction;

impl Action for HandleForwardedPortCollisionsAction {
    /// Has nothing to undo: changes nothing and succeeds.
    open spec fn recover_spec(
        &self,
        pre: Environment,
        post: Environment,
        error: MigratoryError,
        r: Result<(), MigratoryError>,
    ) -> bool {
        post == pre && r is Ok
    }

    fn recover(&self, env: &mut Environment, error: &MigratoryError) -> (r: Result<
        (),
        MigratoryError,
    >) {
        Ok(())
    }

    open spec fn spec_name(&self) -> Seq<char> {
        "HandleForwardedPortCollisionsAction"@
    }

    /// Records `port_collisions_checked` as done and continues.
    open spec fn call_spec(
        &self,
        pre: Environment,
        post: Environment,
        r: Result<ActionResult, MigratoryError>,
    ) -> bool {
        &&& r == Ok::<ActionResult, MigratoryError>(ActionResult::Continue)
        &&& marks(pre, post, "port_collisions_checked"@, "true"@)
    }

    fn name(&self) -> (n: &str) {
        "HandleForwardedPortCollisionsAction"
    }

    fn call(&self, env: &mut Environment) -> (r: Result<ActionResult, MigratoryError>) {
        env.data.insert("port_collisions_checked".to_owned(), "true".to_owned());
        Ok(ActionResult::Continue)
    }
}

/// Action that generates and injects a fresh secure SSH key pair.
pub struct GenerateKeyPairAction;

impl Action for GenerateKeyPairAction {
    /// Has nothing to undo: changes nothing and succeeds.
    open spec fn recover_spec(
        &self,
        pre: Environment,
        post: Environment,
        error: MigratoryError,
        r: Result<(), MigratoryError>,
    ) -> bool {
        post == pre && r is Ok
    }

    fn recover(&self, env: &mut Environment, error: &MigratoryError) -> (r: Result<
        (),
        MigratoryError,
    >) {
        Ok(())
    }

    open spec fn spec_name(&self) -> Seq<char> {
        "GenerateKeyPairAction"@
    }

    /// Records `key_pair_generated` as done and continues.
    open spec fn call_spec(
        &self,
        pre: Environment,
        post: Environment,
        r: Result<ActionResult, MigratoryError>,
    ) -> bool {
        &&& r == Ok::<ActionResult, MigratoryError>(ActionResult::Continue)
        &&& marks(pre, post, "key_pair_generated"@, "true"@)
    }

    fn name(&self) -> (n: &str) {
        "GenerateKeyPairAction"
    }

    fn call(&self, env: &mut Environment) -> (r: Result<ActionResult, MigratoryError>) {
        env.data.insert("key_pair_generated".to_owned(), "true".to_owned());
        Ok(ActionResult::Continue)
    }
}

/// Action that coordinates host preparation and guest mounting of synced folders.
pub struct SyncFoldersAction;

impl Action for SyncFoldersAction {
    /// Has nothing to undo: changes nothing and succeeds.
    open spec fn recover_spec(
        &self,
        pre: Environment,
        post: Environment,
        error: MigratoryError,
        r: Result<(), MigratoryError>,
    ) -> bool {
        post == pre && r is Ok
    }

    fn recover(&self, env: &mut Environment, error: &MigratoryError) -> (r: Result<
        (),
        MigratoryError,
    >) {
        Ok(())
    }

    open spec fn spec_name(&self) -> Seq<char> {
        "SyncFoldersAction"@
    }

    /// Records `folders_synced` as done and continues.
    open spec fn call_spec(
        &self,
        pre: Environment,
        post: Environment,
        r: Result<ActionResult, MigratoryError>,
    ) -> bool {
        &&& r == Ok::<ActionResult, MigratoryError>(ActionResult::Continue)
        &&& marks(pre, post, "folders_synced"@, "true"@)
    }

    fn name(&self) -> (n: &str) {
        "SyncFoldersAction"
    }

    fn call(&self, env: &mut Environment) -> (r: Result<ActionResult, MigratoryError>) {
        env.data.insert("folders_synced".to_owned(), "true".to_owned());
        Ok(ActionResult::Continue)
    }
}

/// Action that executes configured provisioners sequentially.
pub struct ProvisionAction;

impl Action for ProvisionAction {
    /// Has nothing to undo: changes nothing and succeeds.
    open spec fn recover_spec(
        &self,
        pre: Environment,
        post: Environment,
        error: MigratoryError,
        r: Result<(), MigratoryError>,
    ) -> bool {
        post == pre && r is Ok
    }

    fn recover(&self, env: &mut Environment, error: &MigratoryError) -> (r: Result<
        (),
        MigratoryError,
    >) {
        Ok(())
    }

    open spec fn spec_name(&self) -> Seq<char> {
        "ProvisionAction"@
    }

    /// Records `provisioned` as done and continues.
    open spec fn call_spec(
        &self,
        pre: Environment,
        post: Environment,
        r: Result<ActionResult, MigratoryError>,
    ) -> bool {
        &&& r == Ok::<ActionResult, MigratoryError>(ActionResult::Continue)
        &&& marks(pre, post, "provisioned"@, "true"@)
    }

    fn name(&self) -> (n: &str) {
        "ProvisionAction"
    }

    fn call(&self, env: &mut Environment) -> (r: Result<ActionResult, MigratoryError>) {
        env.data.insert("provisioned".to_owned(), "true".to_owned());
        Ok(ActionResult::Continue)
    }
}

/// Action that cleans up stale NFS export rules on host during halt/destroy.
pub struct PruneNfsExportsAction;

impl Action for PruneNfsExportsAction {
    /// Has nothing to undo: changes nothing and succeeds.
    open spec fn recover_spec(
        &self,
        pre: Environment,
        post: Environment,
        error: MigratoryError,
        r: Result<(), MigratoryError>,
    ) -> bool {
        post == pre && r is Ok
    }

    fn recover(&self, env: &mut Environment, error: &MigratoryError) -> (r: Result<
        (),
        MigratoryError,
    >) {
        Ok(())
    }

    open spec fn spec_name(&self) -> Seq<char> {
        "PruneNfsExportsAction"@
    }

    /// Records `nfs_exports_pruned` as done and continues.
    open spec fn call_spec(
        &self,
        pre: Environment,
        post: Environment,
        r: Result<ActionResult, MigratoryError>,
    ) -> bool {
        &&& r == Ok::<ActionResult, MigratoryError>(ActionResult::Continue)
        &&& marks(pre, post, "nfs_exports_pruned"@, "true"@)
    }

    fn name(&self) -> (n: &str) {
        "PruneNfsExportsAction"
    }

    fn call(&self, env: &mut Environment) -> (r: Result<ActionResult, MigratoryError>) {
        env.data.insert("nfs_exports_pruned".to_owned(), "true".to_owned());
        Ok(ActionResult::Continue)
    }
}

/// The whole seconds of a duration (std `Duration::as_secs`).
pub uninterp spec fn duration_secs(d: std::time::Duration) -> u64;

/// std `Duration::as_secs`: the whole seconds of `d`.
#[verifier::external_body]
fn whole_secs(d: &std::time::Duration) -> (n: u64)
    ensures
        n == duration_secs(*d),
{
    d.as_secs()
}

/// Action that polls the guest communicator until it is responsive or times out.
pub struct WaitForCommunicatorAction {
    /// Maximum duration to wait before timing out.
    pub timeout: std::time::Duration,
}

impl Action for WaitForCommunicatorAction {
    /// Has nothing to undo: changes nothing and succeeds.
    open spec fn recover_spec(
        &self,
        pre: Environment,
        post: Environment,
        error: MigratoryError,
        r: Result<(), MigratoryError>,
    ) -> bool {
        post == pre && r is Ok
    }

    fn recover(&self, env: &mut Environment, error: &MigratoryError) -> (r: Result<
        (),
        MigratoryError,
    >) {
        Ok(())
    }

    open spec fn spec_name(&self) -> Seq<char> {
        "WaitForCommunicatorAction"@
    }

    /// Records the timeout in whole seconds, as `<n>s`, and continues.
    open spec fn call_spec(
        &self,
        pre: Environment,
        post: Environment,
        r: Result<ActionResult, MigratoryError>,
    ) -> bool {
        &&& r == Ok::<ActionResult, MigratoryError>(ActionResult::Continue)
        &&& marks(
            pre,
            post,
            "communicator_ready"@,
            decimal(duration_secs(self.timeout) as nat) + "s"@,
        )
    }

    fn name(&self) -> (n: &str) {
        "WaitForCommunicatorAction"
    }

    fn call(&self, env: &mut Environment) -> (r: Result<ActionResult, MigratoryError>) {
        let mut v = u64_to_decimal(whole_secs(&self.timeout));
        v.append("s");
        env.data.insert("communicator_ready".to_owned(), v);
        Ok(ActionResult::Continue)
    }
}

/// Conditional branching action matching Vagrant's `Action::Builtin::Call`:
/// the branch action runs only where the condition holds of the environment.
pub struct CallAction<C: Fn(&Environment) -> bool + Send + Sync> {
    condition: C,
    branch: ActionSlot,
}

impl<C: Fn(&Environment) -> bool + Send + Sync> CallAction<C> {
    /// The condition may be asked of every environment.
    #[verifier::type_invariant]
    spec fn condition_total(self) -> bool {
        forall|e: &Environment| self.condition.requires((e,))
    }

    /// The predicate checking if the branch should be executed.
    pub closed spec fn spec_condition(&self) -> C {
        self.condition
    }

    /// The action executed when the condition is met.
    pub closed spec fn spec_branch(&self) -> ActionSlot {
        self.branch
    }

    /// Creates the action from its condition and branch.
    pub fn new(condition: C, branch_action: Box<dyn Action>) -> (c: Self)
        requires
            forall|e: &Environment| condition.requires((e,)),
        ensures
            c.spec_condition() == condition,
            c.spec_branch() == (ActionSlot { action: branch_action }),
    {
        CallAction { condition, branch: ActionSlot { action: branch_action } }
    }
}

impl<C: Fn(&Environment) -> bool + Send + Sync> Action for CallAction<C> {
    open spec fn spec_name(&self) -> Seq<char> {
        "CallAction"@
    }

    /// Asks the condition of the environment; runs the branch where it holds,
    /// and otherwise continues without a change.
    open spec fn call_spec(
        &self,
        pre: Environment,
        post: Environment,
        r: Result<ActionResult, MigratoryError>,
    ) -> bool {
        exists|b: bool|
            {
                &&& #[trigger] self.spec_condition().ensures((&pre,), b)
                &&& b ==> self.spec_branch().action.call_spec(pre, post, r)
                &&& !b ==> post == pre && r == Ok::<ActionResult, MigratoryError>(
                    ActionResult::Continue,
                )
            }
    }

    fn name(&self) -> (n: &str) {
        "CallAction"
    }

    fn call(&self, env: &mut Environment) -> (r: Result<ActionResult, MigratoryError>) {
        proof {
            use_type_invariant(self);
        }
        let ghost pre = *env;
        let holds = (self.condition)(&*env);
        assert(self.spec_condition().ensures((&pre,), holds));
        if holds {
            let r = self.branch.action.call(env);
            r
        } else {
            Ok(ActionResult::Continue)
        }
    }

    /// Asks the condition of the environment; recovers the branch where it
    /// holds, and otherwise succeeds without a change.
    open spec fn recover_spec(
        &self,
        pre: Environment,
        post: Environment,
        error: MigratoryError,
        r: Result<(), MigratoryError>,
    ) -> bool {
        exists|b: bool|
            {
                &&& #[trigger] self.spec_condition().ensures((&pre,), b)
                &&& b ==> self.spec_branch().action.recover_spec(pre, post, error, r)
                &&& !b ==> post == pre && r is Ok
            }
    }

    fn recover(&self, env: &mut Environment, error: &MigratoryError) -> (r: Result<
        (),
        MigratoryError,
    >) {
        proof {
            use_type_invariant(self);
        }
        let ghost pre = *env;
        let holds = (self.condition)(&*env);
        assert(self.spec_condition().ensures((&pre,), holds));
        if holds {
            self.branch.action.recover(env, error)
        } else {
            Ok(())
        }
    }
}

/// The `Debug` text of a list of strings (`["a", "b"]`, each string quoted
/// and escaped).
pub uninterp spec fn debug_text(v: Seq<Seq<char>>) -> Seq<char>;

/// std `format!("{:?}", ..)` of a list of strings.
#[verifier::external_body]
fn debug_list(v: &Vec<String>) -> (s: String)
    ensures
        s@ == debug_text(v@.map_values(|x: String| x@)),
{
    format!("{:?}", v)
}

/// The state of a machine that has no state to report.
pub open spec fn not_created() -> Seq<char> {
    "not_created"@
}

/// The message of the error for a machine in an unexpected state.
pub open spec fn wrong_state_message(
    machine: Seq<char>,
    state: Seq<char>,
    expected: Seq<Seq<char>>,
) -> Seq<char> {
    "The VM '"@ + machine + "' is in state '"@ + state + "', but expected one of: "@ + debug_text(
        expected,
    )
}

/// Action that checks that a machine is in one of the expected states; the
/// state is read through `read_state` (machine name, provider name, working
/// directory), which reports `Ok(None)` for a machine without a state.
pub struct CheckMachineStateAction<
    S: Fn(&str, &str, &str) -> Result<Option<String>, MigratoryError> + Send + Sync,
> {
    expected_states: Vec<String>,
    machine_name: String,
    provider_name: String,
    cwd: String,
    read_state: S,
}

impl<
    S: Fn(&str, &str, &str) -> Result<Option<String>, MigratoryError> + Send + Sync,
> CheckMachineStateAction<S> {
    /// The state reader may be asked of every machine.
    #[verifier::type_invariant]
    spec fn reader_total(self) -> bool {
        forall|a: &str, b: &str, c: &str| self.read_state.requires((a, b, c))
    }

    /// The list of acceptable states (e.g., "running", "saved").
    pub closed spec fn expected(&self) -> Seq<Seq<char>> {
        self.expected_states@.map_values(|x: String| x@)
    }

    /// The name of the machine being checked.
    pub closed spec fn machine(&self) -> Seq<char> {
        self.machine_name@
    }

    /// The provider used by the machine.
    pub closed spec fn provider(&self) -> Seq<char> {
        self.provider_name@
    }

    /// The working directory for reading state.
    pub closed spec fn dir(&self) -> Seq<char> {
        self.cwd@
    }

    /// The state reader.
    pub closed spec fn reader(&self) -> S {
        self.read_state
    }

    /// Creates the action.
    pub fn new(
        expected_states: Vec<String>,
        machine_name: String,
        provider_name: String,
        cwd: String,
        read_state: S,
    ) -> (a: Self)
        requires
            forall|x: &str, y: &str, z: &str| read_state.requires((x, y, z)),
        ensures
            a.expected() == expected_states@.map_values(|x: String| x@),
            a.machine() == machine_name@,
            a.provider() == provider_name@,
            a.dir() == cwd@,
            a.reader() == read_state,
    {
        CheckMachineStateAction { expected_states, machine_name, provider_name, cwd, read_state }
    }

    /// The outcome for a machine whose state was read as `state`: it
    /// continues where the state (`not_created` for none) is expected, and
    /// is an error that names the machine, its state and the expected ones
    /// otherwise.
    pub open spec fn verdict(&self, state: Option<Seq<char>>) -> Result<ActionResult, Seq<char>> {
        let s = match state {
            Some(x) => x,
            None => not_created(),
        };
        if self.expected().contains(s) {
            Ok(ActionResult::Continue)
        } else {
            Err(wrong_state_message(self.machine(), s, self.expected()))
        }
    }

    /// Decides on the state that was read.
    pub fn check_state(&self, state: Option<String>) -> (r: Result<ActionResult, MigratoryError>)
        ensures
            match self.verdict(match state { Some(x) => Some(x@), None => None }) {
                Ok(a) => r == Ok::<ActionResult, MigratoryError>(a),
                Err(m) => r matches Err(e) && e matches MigratoryError::Generic(msg) && msg@ == m,
            },
    {
        let ghost sv = match state {
            Some(ref x) => x@,
            None => not_created(),
        };
        let s = match state {
            Some(x) => x,
            None => "not_created".to_owned(),
        };
        assert(s@ == sv);
        let ghost exp = self.expected();
        let mut i: usize = 0;
        while i < self.expected_states.len()
            invariant
                i <= self.expected_states.len(),
                exp == self.expected_states@.map_values(|x: String| x@),
                exp == self.expected(),
                s@ == sv,
                sv == (match state {
                    Some(x) => x@,
                    None => not_created(),
                }),
                forall|k: int| 0 <= k < i ==> exp[k] != s@,
            decreases self.expected_states.len() - i,
        {
            if str_eq(self.expected_states[i].as_str(), s.as_str()) {
                assert(exp[i as int] == s@);
                assert(exp.contains(sv));
                return Ok(ActionResult::Continue);
            }
            i = i + 1;
        }
        assert(!exp.contains(s@));
        let mut m = "The VM '".to_owned();
        m.append(self.machine_name.as_str());
        m.append("' is in state '");
        m.append(s.as_str());
        m.append("', but expected one of: ");
        let listed = debug_list(&self.expected_states);
        m.append(listed.as_str());
        Err(MigratoryError::Generic(m))
    }
}

impl<
    S: Fn(&str, &str, &str) -> Result<Option<String>, MigratoryError> + Send + Sync,
> Action for CheckMachineStateAction<S> {
    /// Has nothing to undo: changes nothing and succeeds.
    open spec fn recover_spec(
        &self,
        pre: Environment,
        post: Environment,
        error: MigratoryError,
        r: Result<(), MigratoryError>,
    ) -> bool {
        post == pre && r is Ok
    }

    fn recover(&self, env: &mut Environment, error: &MigratoryError) -> (r: Result<
        (),
        MigratoryError,
    >) {
        Ok(())
    }

    open spec fn spec_name(&self) -> Seq<char> {
        "CheckMachineStateAction"@
    }

    /// Reads the machine's state and decides on it; a failure to read is
    /// the outcome. The environment is left as it is.
    open spec fn call_spec(
        &self,
        pre: Environment,
        post: Environment,
        r: Result<ActionResult, MigratoryError>,
    ) -> bool {
        &&& post == pre
        &&& exists|a: &str, b: &str, c: &str, got: Result<Option<String>, MigratoryError>|
            {
                &&& a@ == self.machine() && b@ == self.provider() && c@ == self.dir()
                &&& #[trigger] self.reader().ensures((a, b, c), got)
                &&& match got {
                    Err(e) => r == Err::<ActionResult, MigratoryError>(e),
                    Ok(st) => match self.verdict(match st { Some(x) => Some(x@), None => None }) {
                        Ok(act) => r == Ok::<ActionResult, MigratoryError>(act),
                        Err(m) => r matches Err(e) && e matches MigratoryError::Generic(msg) && msg@
                            == m,
                    },
                }
            }
    }

    fn name(&self) -> (n: &str) {
        "CheckMachineStateAction"
    }

    fn call(&self, env: &mut Environment) -> (r: Result<ActionResult, MigratoryError>) {
        proof {
            use_type_invariant(self);
        }
        let a = self.machine_name.as_str();
        let b = self.provider_name.as_str();
        let c = self.cwd.as_str();
        let got = (self.read_state)(a, b, c);
        let ghost g = got;
        assert(self.reader().ensures((a, b, c), g));
        let r = match got {
            Err(e) => Err(e),
            Ok(st) => self.check_state(st),
        };
        assert(a@ == self.machine() && b@ == self.provider() && c@ == self.dir());
        r
    }
}

/// Runs a task for each of several machines.
pub struct MachineOrchestrator;

/// The outcome of a run in order: the first failure, or success.
pub open spec fn first_failure_of(outs: Seq<Result<(), MigratoryError>>) -> Result<(), MigratoryError>
    decreases outs.len(),
{
    if outs.len() == 0 {
        Ok(())
    } else if outs[0] is Err {
        outs[0]
    } else {
        first_failure_of(outs.drop_first())
    }
}

impl MachineOrchestrator {
    /// Runs `task` on each machine in order, stopping at the first failure,
    /// which is the result.
    pub fn run_sequential<F: Fn(&str) -> Result<(), MigratoryError>>(
        machines: &[String],
        task: F,
    ) -> (r: Result<(), MigratoryError>)
        requires
            forall|m: &str| task.requires((m,)),
        ensures
            exists|args: Seq<(&str,)>, outs: Seq<Result<(), MigratoryError>>|
                #![trigger args.len(), outs.len()]
                {
                    &&& outs.len() <= machines@.len()
                    &&& args.len() == outs.len()
                    &&& forall|i: int|
                        #![trigger args[i]]
                        0 <= i < outs.len() ==> args[i].0@ == machines@[i]@ && task.ensures(
                            args[i],
                            outs[i],
                        )
                    &&& forall|i: int| 0 <= i < outs.len() - 1 ==> outs[i] is Ok
                    &&& r is Ok ==> outs.len() == machines@.len() && forall|i: int|
                        0 <= i < outs.len() ==> outs[i] is Ok
                    &&& r is Err ==> outs.len() > 0 && r == outs.last()
                },
    {
        let ghost mut args: Seq<(&str,)> = Seq::empty();
        let ghost mut outs: Seq<Result<(), MigratoryError>> = Seq::empty();
        let mut i: usize = 0;
        while i < machines.len()
            invariant
                i <= machines.len(),
                forall|m: &str| task.requires((m,)),
                outs.len() == i,
                args.len() == i,
                forall|k: int|
                    #![trigger args[k]]
                    0 <= k < outs.len() ==> args[k].0@ == machines@[k]@ && task.ensures(
                        args[k],
                        outs[k],
                    ),
                forall|k: int| 0 <= k < outs.len() ==> outs[k] is Ok,
            decreases machines.len() - i,
        {
            let m: &str = machines[i].as_str();
            let out = task(m);
            proof {
                let prev_args = args;
                let prev = outs;
                args = args.push((m,));
                outs = outs.push(out);
                assert forall|k: int| #![trigger args[k]] 0 <= k < outs.len() implies args[k].0@ == machines@[k]@
                    && task.ensures(args[k], outs[k]) by {
                    if k < i {
                        assert(args[k] == prev_args[k]);
                        assert(outs[k] == prev[k]);
                        assert(task.ensures(prev_args[k], prev[k]));
                    } else {
                        assert(args[k] == (m,));
                        assert(outs[k] == out);
                        assert(task.ensures((m,), out));
                    }
                }
            }
            match out {
                Err(e) => {
                    assert(outs.len() <= machines@.len() && args.len() == outs.len());
                    return Err(e);
                },
                Ok(()) => {},
            }
            i = i + 1;
        }
        assert(outs.len() <= machines@.len() && args.len() == outs.len());
        Ok(())
    }

    /// Whether the machines run in parallel threads: where asked and there
    /// is more than one.
    pub fn runs_in_parallel(count: usize, parallel: bool) -> (b: bool)
        ensures
            b == (parallel && count > 1),
    {
        parallel && count > 1
    }

    /// The error that stands for a task that panicked in its thread.
    pub fn panic_error() -> (e: MigratoryError)
        ensures
            e matches MigratoryError::Generic(m) && m@
                == "Thread panicked during parallel machine execution"@,
    {
        MigratoryError::Generic("Thread panicked during parallel machine execution".to_owned())
    }

    /// Combines the outcomes of parallel tasks, in the order of the
    /// machines: the first failure, or success.
    pub fn first_failure(outcomes: Vec<Result<(), MigratoryError>>) -> (r: Result<(), MigratoryError>)
        ensures
            r == first_failure_of(outcomes@),
    {
        let ghost all = outcomes@;
        let mut i: usize = 0;
        let mut rest = outcomes;
        assert(all.skip(0) =~= all);
        while i < rest.len()
            invariant
                i <= rest.len(),
                rest@ == all,
                all == outcomes@,
                first_failure_of(all) == first_failure_of(all.skip(i as int)),
            decreases rest.len() - i,
        {
            assert(all.skip(i as int)[0] == all[i as int]);
            let failed = match &rest[i] {
                Err(_) => true,
                Ok(_) => false,
            };
            if failed {
                let r = rest.remove(i);
                assert(r == all[i as int]);
                assert(first_failure_of(all.skip(i as int)) == all[i as int]);
                return r;
            }
            assert(all.skip(i as int).drop_first() =~= all.skip(i + 1));
            i = i + 1;
        }
        assert(all.skip(i as int).len() == 0);
        Ok(())
    }
}

} // verus!
