//! The per-machine decisions of `halt` and `destroy`: which provider handles
//! a machine, which key a graceful halt logs in with, when a halt falls back
//! to the provider, when a machine's state is cleared, and what is reported
//! at each step.

use vstd::prelude::*;
use crate::box_manager::{join_path, path_join};
use crate::cap::{Communicator, Guest};
use crate::error::{error_message, MigratoryError};

verus! {

/// The provider of a machine: the first one its configuration names,
/// `virtualbox` where it names none.
pub open spec fn provider_of(providers: Seq<Seq<char>>) -> Seq<char> {
    if providers.len() > 0 {
        providers[0]
    } else {
        "virtualbox"@
    }
}

/// Returns the provider that handles a machine configured with `providers`.
pub fn target_provider(providers: &Vec<String>) -> (r: String)
    ensures
        r@ == provider_of(providers@.map_values(|p: String| p@)),
{
    if providers.len() > 0 {
        providers[0].clone()
    } else {
        "virtualbox".to_owned()
    }
}

/// The key that the provider generated for a machine:
/// `<cwd>/.vagrant/machines/<machine>/<provider>/private_key`.
pub open spec fn generated_key_path(cwd: Seq<char>, machine: Seq<char>, provider: Seq<char>) -> Seq<
    char,
> {
    join_path(
        join_path(join_path(join_path(join_path(cwd, ".vagrant"@), "machines"@), machine), provider),
        "private_key"@,
    )
}

/// Returns the key a graceful halt logs in with: the configured one, else the
/// one the provider generated for the machine.
pub fn halt_key_path(cwd: &str, machine: &str, provider: &str, configured: Option<&str>) -> (r:
    String)
    ensures
        r@ == match configured {
            Some(k) => k@,
            None => generated_key_path(cwd@, machine@, provider@),
        },
{
    match configured {
        Some(k) => k.to_owned(),
        None => {
            let a = path_join(cwd, ".vagrant");
            let b = path_join(a.as_str(), "machines");
            let c = path_join(b.as_str(), machine);
            let d = path_join(c.as_str(), provider);
            path_join(d.as_str(), "private_key")
        },
    }
}

/// The line that opens the halt of a machine.
pub open spec fn halt_opening_of(force: bool) -> Seq<char> {
    if force {
        "Forcing shutdown of VM..."@
    } else {
        "Attempting graceful shutdown of VM..."@
    }
}

/// Returns the line that opens the halt of a machine.
pub fn halt_opening(force: bool) -> (r: String)
    ensures
        r@ == halt_opening_of(force),
{
    if force {
        "Forcing shutdown of VM...".to_owned()
    } else {
        "Attempting graceful shutdown of VM...".to_owned()
    }
}

/// Asks the guest, where one was detected, to shut the machine down, and
/// returns whether it did: whether its `halt` answered `Ok`. Without a
/// guest there is nothing to ask.
pub fn attempt_graceful_halt(guest: Option<&dyn Guest>, comm: &dyn Communicator) -> (r: bool)
    ensures
        guest is None ==> !r,
        guest matches Some(g) ==> exists|a: Result<(), MigratoryError>|
            #[trigger] g.halt_spec(a) && r == (a is Ok),
{
    match guest {
        Some(g) => {
            let a = g.halt(comm);
            let ghost answer = a;
            assert(g.halt_spec(answer));
            a.is_ok()
        },
        None => false,
    }
}

/// What follows the guest's answer to a graceful halt.
pub struct GracefulOutcome {
    /// Whether the line is a warning rather than information.
    pub warn: bool,
    /// The line reported.
    pub line: String,
    /// Whether the provider is to halt the machine after all.
    pub force_halt: bool,
}

/// Decides what follows the guest's answer: a machine the guest did not shut
/// down is halted through the provider, with a warning.
pub fn graceful_outcome(succeeded: bool) -> (r: GracefulOutcome)
    ensures
        r.warn == !succeeded,
        r.force_halt == !succeeded,
        r.line@ == (if succeeded {
            "Graceful shutdown initiated by guest OS."@
        } else {
            "Graceful shutdown failed, falling back to forced shutdown..."@
        }),
{
    if succeeded {
        GracefulOutcome {
            warn: false,
            line: "Graceful shutdown initiated by guest OS.".to_owned(),
            force_halt: false,
        }
    } else {
        GracefulOutcome {
            warn: true,
            line: "Graceful shutdown failed, falling back to forced shutdown...".to_owned(),
            force_halt: true,
        }
    }
}

/// The warning for a provider operation that failed.
pub open spec fn provider_failure_of(operation: Seq<char>, e: MigratoryError) -> Seq<char> {
    "Provider "@ + operation + " failed (expected in tests): "@ + error_message(e)
}

/// Returns the warning for a provider operation (`halt`, `destroy`) that
/// failed with `e`.
pub fn provider_failure(operation: &str, e: &MigratoryError) -> (r: String)
    ensures
        r@ == provider_failure_of(operation@, *e),
{
    let mut r = "Provider ".to_owned();
    r.append(operation);
    r.append(" failed (expected in tests): ");
    let m = e.message();
    r.append(m.as_str());
    r
}

/// The lines `destroy` reports before the provider destroys the machine,
/// after any graceful halt.
pub open spec fn destroy_preamble_of(force: bool) -> Seq<Seq<char>> {
    seq!["Destroying VM and associated drives..."@] + (if force {
        seq!["Forcing destruction..."@]
    } else {
        Seq::empty()
    }) + seq!["Deleting snapshots..."@, "Cleaning up disk and associated drives..."@]
}

/// Returns the line that announces the halt before a destruction, where one
/// is asked for.
pub fn destroy_opening(graceful: bool) -> (r: Option<String>)
    ensures
        graceful ==> (r matches Some(s) && s@ == "Attempting graceful shutdown of VM before destruction..."@),
        !graceful ==> r is None,
{
    if graceful {
        Some("Attempting graceful shutdown of VM before destruction...".to_owned())
    } else {
        None
    }
}

/// Returns the lines `destroy` reports before the provider destroys the
/// machine.
pub fn destroy_preamble(force: bool) -> (r: Vec<String>)
    ensures
        r@.map_values(|s: String| s@) == destroy_preamble_of(force),
{
    let mut r: Vec<String> = Vec::new();
    r.push("Destroying VM and associated drives...".to_owned());
    if force {
        r.push("Forcing destruction...".to_owned());
    }
    r.push("Deleting snapshots...".to_owned());
    r.push("Cleaning up disk and associated drives...".to_owned());
    assert(r@.map_values(|s: String| s@) =~= destroy_preamble_of(force));
    r
}

/// What follows the provider's answer to a destruction.
pub enum DestroyOutcome {
    /// The machine is gone: its state directory is to be cleared.
    ClearState,
    /// The provider failed: this warning is reported and the state kept.
    Warn(String),
}

/// Decides what follows the provider's answer to a destruction.
pub fn destroy_outcome(destroyed: &Result<(), MigratoryError>) -> (r: DestroyOutcome)
    ensures
        match destroyed {
            Ok(()) => r is ClearState,
            Err(e) => r matches DestroyOutcome::Warn(w) && w@ == provider_failure_of(
                "destroy"@,
                *e,
            ),
        },
{
    match destroyed {
        Ok(()) => DestroyOutcome::ClearState,
        Err(e) => DestroyOutcome::Warn(provider_failure("destroy", e)),
    }
}

/// The warning for a state directory that could not be cleared.
pub open spec fn clear_failure_of(e: MigratoryError) -> Seq<char> {
    "Failed to clear machine state directory: "@ + error_message(e)
}

/// Returns the warning for a state directory that could not be cleared.
pub fn clear_failure(e: &MigratoryError) -> (r: String)
    ensures
        r@ == clear_failure_of(*e),
{
    let mut r = "Failed to clear machine state directory: ".to_owned();
    let m = e.message();
    r.append(m.as_str());
    r
}

} // verus!
