//! Properties that relate several operations of the library, or hold of
//! every input of one.

use vstd::prelude::*;
use crate::action::{
    ActionSlot, ActionResult, ForwardEvent, WardenRun, Warden, Environment, position_named,
    named_from, interrupt_message, chain_ran,
};
use crate::error::MigratoryError;
use crate::box_manager::{
    provider_steps, removal_steps, prune_steps_of, latest_local, target_after, newer_exists, Version, version_lt, version_of, satisfies, piece_holds, replace_char, safe_box_name, hex_of,
    hex_digit,
};
use crate::port::{
    PortView, add_unique, add_all_unique, docker_ports, qemu_ports, vmware_ports, vbox_ports,
    hyperv_text_ports, hyperv_ports, hyperv_json_ports, json_bindings, json_binding, json_items,
};
use crate::json::Json;
use crate::docker::{
    DockerRunArgs, DockerExecArgs, DockerLogsArgs, run_args_of, exec_args_of, logs_args_of, flag,
    str_views,
};
use crate::provider::{HostOs, install_package_of, install_args_of, provider_order};
use crate::cap::{Guest, GuestCall, resolves_to, guest_answers};
use crate::autocomplete::{completion_block_of, marker_start, installed_profile};
use crate::text::{
    decimal, digit_char, digits_value, all_digits, is_digit, parse_uint, unsigned_digits, trim,
    trim_start, trim_end, skip_leading, first_index, lemma_first_index, split_by, split_from,
    find_from, find_sub, matches_at, lemma_find_from, is_ws, has_prefix,
};

verus! {

// ------------------------------------------------------------ action chains

/// A chain that succeeds has seen no failure and recovered nothing: every
/// step it ran returned `Ok`, every step but the last continued, and either
/// every action ran or the last one halted.
pub proof fn law_success_runs_to_end_or_halt(
    run: WardenRun,
    actions: Seq<ActionSlot>,
    pre: crate::action::Environment,
    post: crate::action::Environment,
    r: Result<(), MigratoryError>,
)
    requires
        run.valid(actions, pre, post),
        run.outcome(r),
        r is Ok,
    ensures
        run.error is None,
        run.recovered.len() == 0,
        post == run.envs.last(),
        forall|i: int|
            0 <= i < run.forward.len() ==> (#[trigger] run.forward[i] matches ForwardEvent::Returned(
                res,
            ) && res is Ok),
        run.forward.len() == actions.len() || run.forward.last() == ForwardEvent::Returned(
            Ok(ActionResult::Halt),
        ),
{
    if run.error is Some {
        assert(r is Err);
    }
    assert forall|i: int| 0 <= i < run.forward.len() implies (#[trigger] run.forward[i] matches ForwardEvent::Returned(
        res,
    ) && res is Ok) by {
        if i < run.forward.len() - 1 {
        } else {
            assert(!crate::action::fails_chain(run.forward.last()));
        }
    }
    if run.forward.len() < actions.len() {
        assert(crate::action::ends_chain(run.forward.last()));
    }
}

/// A chain that fails ends with an error. It recovers the actions that ran,
/// newest first, each with the failure's error, until a recovery fails or
/// every one is recovered; every recovery but the last one attempted
/// succeeded; the environment it ends in is the one the recoveries left.
pub proof fn law_failure_recovers_what_ran(
    run: WardenRun,
    actions: Seq<ActionSlot>,
    pre: crate::action::Environment,
    post: crate::action::Environment,
    r: Result<(), MigratoryError>,
)
    requires
        run.valid(actions, pre, post),
        run.outcome(r),
        run.error is Some,
    ensures
        r is Err,
        run.recovered.len() <= run.executed(),
        forall|k: int| 0 <= k < run.recovered.len() - 1 ==> #[trigger] run.recovered[k] is Ok,
        run.recovered.len() == run.executed() || (run.recovered.len() > 0
            && run.recovered.last() is Err),
        run.executed() <= actions.len(),
        forall|k: int|
            0 <= k < run.recovered.len() ==> actions[run.executed() - 1 - k].action.recover_spec(
                run.renvs[k],
                run.renvs[k + 1],
                run.error->0,
                #[trigger] run.recovered[k],
            ),
        run.renvs[0] == run.envs.last(),
        post == run.renvs.last(),
{
}

/// A failed chain whose recoveries all succeed has recovered every action
/// that ran, newest first, each with the failure's error, and returns that
/// error.
pub proof fn law_recovery_covers_all_that_ran(
    run: WardenRun,
    actions: Seq<ActionSlot>,
    pre: crate::action::Environment,
    post: crate::action::Environment,
    r: Result<(), MigratoryError>,
)
    requires
        run.valid(actions, pre, post),
        run.outcome(r),
        run.error is Some,
        forall|k: int| 0 <= k < run.recovered.len() ==> #[trigger] run.recovered[k] is Ok,
    ensures
        run.recovered.len() == run.executed(),
        r == Err::<(), MigratoryError>(run.error->0),
        forall|k: int|
            0 <= k < run.executed() ==> actions[run.executed() - 1 - k].action.recover_spec(
                run.renvs[k],
                run.renvs[k + 1],
                run.error->0,
                #[trigger] run.recovered[k],
            ),
{
    if run.recovered.len() > 0 {
        assert(run.recovered[run.recovered.len() - 1] is Ok);
    }
}

/// A failed recovery is the last one attempted: the actions that ran before
/// it are left alone, and the chain returns an error naming both the
/// recovery's error and the failure's.
pub proof fn law_failed_recovery_reports_both(
    run: WardenRun,
    actions: Seq<ActionSlot>,
    pre: crate::action::Environment,
    post: crate::action::Environment,
    r: Result<(), MigratoryError>,
    j: int,
)
    requires
        run.valid(actions, pre, post),
        run.outcome(r),
        run.error is Some,
        0 <= j < run.recovered.len(),
        run.recovered[j] is Err,
    ensures
        run.recovered.len() == j + 1,
        r matches Err(MigratoryError::Generic(m)) && m@ == crate::action::recovery_failure_message(
            run.recovered[j]->Err_0,
            run.error->0,
        ),
{
    if j < run.recovered.len() - 1 {
        assert(run.recovered[j] is Ok);
    }
}

/// A chain stopped by an interrupt fails; where every recovery succeeded,
/// its error is the interrupt error.
pub proof fn law_interrupt_reports_sigint(
    run: WardenRun,
    actions: Seq<ActionSlot>,
    pre: crate::action::Environment,
    post: crate::action::Environment,
    r: Result<(), MigratoryError>,
)
    requires
        run.valid(actions, pre, post),
        run.outcome(r),
        run.interrupted(),
        forall|k: int| 0 <= k < run.recovered.len() ==> #[trigger] run.recovered[k] is Ok,
    ensures
        r matches Err(e) && e matches MigratoryError::Generic(m) && m@ == interrupt_message(),
        run.executed() == run.forward.len() - 1,
{
    assert(crate::action::fails_chain(run.forward.last()));
    if run.recovered.len() > 0 {
        assert(run.recovered[run.recovered.len() - 1] is Ok);
    }
}

// ------------------------------------------------------------ action builders

/// A warden made from a builder runs exactly the builder's actions, in the
/// builder's order: whatever the environment, the runs that the warden may
/// make are the runs of the builder's chain, with and without an interrupt
/// flag.
pub proof fn law_warden_runs_builder_actions(builder_actions: Seq<ActionSlot>, warden: Warden)
    requires
        warden.actions@ == builder_actions,
    ensures
        forall|pre: Environment, post: Environment, r: Result<(), MigratoryError>, i: bool|
            chain_ran(warden.actions@, pre, post, r, i) == chain_ran(
                builder_actions,
                pre,
                post,
                r,
                i,
            ),
{
}

/// `call` is `call_with_interrupt` without a flag: with no flag given, the
/// runs that `call_with_interrupt` promises are exactly those of `call`, none
/// of which sees an interrupt; and each of them is also a run that a given
/// flag allows.
pub proof fn law_call_is_call_without_flag(
    actions: Seq<ActionSlot>,
    pre: Environment,
    post: Environment,
    r: Result<(), MigratoryError>,
)
    ensures
        chain_ran(actions, pre, post, r, None::<&std::sync::atomic::AtomicBool> is Some)
            == chain_ran(actions, pre, post, r, false),
        chain_ran(actions, pre, post, r, false) ==> chain_ran(actions, pre, post, r, true),
{
    if chain_ran(actions, pre, post, r, false) {
        let run = choose|run: WardenRun|
            {
                &&& #[trigger] run.valid(actions, pre, post)
                &&& run.outcome(r)
                &&& !run.interrupted()
            };
        assert(run.valid(actions, pre, post));
    }
}

proof fn lemma_named_from_unchanged_prefix(s: Seq<ActionSlot>, u: Seq<ActionSlot>, t: Seq<char>, k: int, p: int)
    requires
        0 <= k <= p,
        p <= s.len(),
        p <= u.len(),
        forall|i: int| 0 <= i < p ==> s[i] == u[i],
        forall|i: int| k <= i < p ==> (#[trigger] s[i]).action.spec_name() != t,
    ensures
        named_from(s, t, k) == named_from(s, t, p),
        named_from(u, t, k) == named_from(u, t, p),
    decreases p - k,
{
    if k < p {
        lemma_named_from_unchanged_prefix(s, u, t, k + 1, p);
    }
}

proof fn lemma_named_from_first(s: Seq<ActionSlot>, t: Seq<char>, k: int)
    requires
        0 <= k,
        named_from(s, t, k) is Some,
    ensures
        k <= named_from(s, t, k)->0 < s.len(),
        s[named_from(s, t, k)->0].action.spec_name() == t,
        forall|i: int| k <= i < named_from(s, t, k)->0 ==> (#[trigger] s[i]).action.spec_name() != t,
    decreases s.len() - k,
{
    if k < s.len() && s[k].action.spec_name() != t {
        lemma_named_from_first(s, t, k + 1);
    }
}

/// Inserting before the first action named `t` puts the new action in its
/// place and moves the target one step on, where the new action has
/// another name.
pub proof fn law_insert_before_precedes_target(s: Seq<ActionSlot>, t: Seq<char>, a: ActionSlot)
    requires
        position_named(s, t) is Some,
        a.action.spec_name() != t,
    ensures
        ({
            let p = position_named(s, t)->0;
            let u = s.insert(p, a);
            &&& u[p] == a
            &&& position_named(u, t) == Some(p + 1)
            &&& u.len() == s.len() + 1
        }),
{
    let p = position_named(s, t)->0;
    let u = s.insert(p, a);
    lemma_named_from_first(s, t, 0);
    lemma_named_from_unchanged_prefix(s, u, t, 0, p);
    assert(u[p + 1] == s[p]);
    assert(named_from(u, t, p) == named_from(u, t, p + 1));
}

/// Inserting after the first action named `t` leaves the target where it
/// was and puts the new action right after it.
pub proof fn law_insert_after_follows_target(s: Seq<ActionSlot>, t: Seq<char>, a: ActionSlot)
    requires
        position_named(s, t) is Some,
    ensures
        ({
            let p = position_named(s, t)->0;
            let u = s.insert(p + 1, a);
            &&& u[p + 1] == a
            &&& position_named(u, t) == Some(p)
            &&& u.len() == s.len() + 1
        }),
{
    let p = position_named(s, t)->0;
    let u = s.insert(p + 1, a);
    lemma_named_from_first(s, t, 0);
    lemma_named_from_unchanged_prefix(s, u, t, 0, p);
    assert(u[p] == s[p]);
}

/// Deleting by name undoes inserting before a target: where the new action's
/// name occurs nowhere before the target, it is found where it was put, and
/// removing it gives back the chain as it was.
pub proof fn law_delete_undoes_insert_before(s: Seq<ActionSlot>, t: Seq<char>, a: ActionSlot)
    requires
        position_named(s, t) is Some,
        forall|i: int|
            0 <= i < position_named(s, t)->0 ==> (#[trigger] s[i]).action.spec_name()
                != a.action.spec_name(),
    ensures
        ({
            let p = position_named(s, t)->0;
            let u = s.insert(p, a);
            &&& position_named(u, a.action.spec_name()) == Some(p)
            &&& u.remove(p) == s
        }),
{
    let p = position_named(s, t)->0;
    let u = s.insert(p, a);
    let n = a.action.spec_name();
    lemma_named_from_first(s, t, 0);
    lemma_named_from_unchanged_prefix(s, u, n, 0, p);
    assert(u.remove(p) =~= s);
}

/// Replacing keeps the length and every other action; deleting drops one.
pub proof fn law_replace_and_delete_sizes(s: Seq<ActionSlot>, t: Seq<char>, a: ActionSlot)
    requires
        position_named(s, t) is Some,
    ensures
        ({
            let p = position_named(s, t)->0;
            &&& s.update(p, a).len() == s.len()
            &&& forall|i: int| 0 <= i < s.len() && i != p ==> #[trigger] s.update(p, a)[i] == s[i]
            &&& s.remove(p).len() == s.len() - 1
        }),
{
    lemma_named_from_first(s, t, 0);
}

// ------------------------------------------------------------ parallel runs

/// Combining outcomes gives success exactly when every outcome succeeded,
/// and otherwise the first failure.
pub proof fn law_first_failure(outs: Seq<Result<(), MigratoryError>>)
    ensures
        crate::action::first_failure_of(outs) is Ok <==> forall|i: int|
            0 <= i < outs.len() ==> #[trigger] outs[i] is Ok,
        crate::action::first_failure_of(outs) is Err ==> exists|i: int|
            0 <= i < outs.len() && outs[i] == crate::action::first_failure_of(outs) && forall|
                k: int,
            |
                0 <= k < i ==> #[trigger] outs[k] is Ok,
    decreases outs.len(),
{
    if outs.len() > 0 {
        let rest = outs.drop_first();
        law_first_failure(rest);
        if outs[0] is Err {
            assert(outs[0] == crate::action::first_failure_of(outs));
        } else {
            assert forall|i: int| 1 <= i < outs.len() implies outs[i] == rest[i - 1] by {}
            if crate::action::first_failure_of(rest) is Err {
                let j = choose|j: int|
                    0 <= j < rest.len() && rest[j] == crate::action::first_failure_of(rest)
                        && forall|k: int| 0 <= k < j ==> #[trigger] rest[k] is Ok;
                assert(outs[j + 1] == rest[j]);
                assert forall|k: int| 0 <= k < j + 1 implies #[trigger] outs[k] is Ok by {
                    if k > 0 {
                        assert(outs[k] == rest[k - 1]);
                    }
                }
            } else {
                assert forall|i: int| 0 <= i < outs.len() implies #[trigger] outs[i] is Ok by {
                    if i > 0 {
                        assert(outs[i] == rest[i - 1]);
                    }
                }
            }
        }
    }
}

// ------------------------------------------------------------ versions

/// Versions are strictly and totally ordered: by major, then minor, then
/// patch number.
pub proof fn law_version_order(a: Version, b: Version, c: Version)
    ensures
        !version_lt(a, a),
        version_lt(a, b) ==> !version_lt(b, a),
        version_lt(a, b) && version_lt(b, c) ==> version_lt(a, c),
        version_lt(a, b) || a == b || version_lt(b, a),
{
}

proof fn lemma_decimal_digits(n: nat)
    ensures
        decimal(n).len() > 0,
        all_digits(decimal(n)),
        digits_value(decimal(n)) == n,
    decreases n,
{
    let d = decimal(n);
    if n < 10 {
        let c = digit_char(n as int);
        assert(d == seq![c]);
        assert(c as int == '0' as int + n);
        assert(d.drop_last() =~= Seq::<char>::empty());
        assert(digits_value(d.drop_last()) == 0);
        assert(d.last() == c);
        assert(digits_value(d) == digits_value(d.drop_last()) * 10 + (d.last() as int - '0' as int));
    } else {
        lemma_decimal_digits(n / 10);
        let h = decimal(n / 10);
        let c = digit_char((n % 10) as int);
        assert(d == h + seq![c]);
        assert(c as int == '0' as int + n % 10);
        assert(d.drop_last() =~= h);
        assert(d.last() == c);
        assert(digits_value(d) == digits_value(h) * 10 + (c as int - '0' as int));
        assert(n == (n / 10) * 10 + n % 10) by (nonlinear_arith);
        assert forall|i: int| 0 <= i < d.len() implies is_digit(#[trigger] d[i]) by {
            if i < h.len() {
                assert(d[i] == h[i]);
            }
        }
    }
}

proof fn lemma_parse_decimal(n: u64)
    ensures
        parse_uint(decimal(n as nat), u64::MAX as int) == Some(n as int),
        decimal(n as nat).len() > 0,
        all_digits(decimal(n as nat)),
{
    lemma_decimal_digits(n as nat);
    let d = decimal(n as nat);
    assert(is_digit(d[0]));
    assert(unsigned_digits(d) == d);
}

/// The spelling `M.m.p` of a version's numbers in decimal.
pub open spec fn version_text(v: Version) -> Seq<char> {
    decimal(v.major as nat) + seq!['.'] + decimal(v.minor as nat) + seq!['.'] + decimal(
        v.patch as nat,
    )
}

/// Parsing gives back a version spelled as `M.m.p`.
pub proof fn law_parse_version_text(v: Version)
    ensures
        version_of(version_text(v)) == Some(v),
{
    lemma_parse_decimal(v.major);
    lemma_parse_decimal(v.minor);
    lemma_parse_decimal(v.patch);
    let a = decimal(v.major as nat);
    let b = decimal(v.minor as nat);
    let c = decimal(v.patch as nat);
    let s = version_text(v);
    assert(s == a + seq!['.'] + b + seq!['.'] + c);
    let la = a.len() as int;
    let lb = b.len() as int;
    // every character is a digit or a dot
    assert forall|k: int| 0 <= k < s.len() implies #[trigger] is_digit(s[k]) || s[k] == '.' by {
        if k < la {
            assert(s[k] == a[k]);
        } else if k == la {
        } else if k < la + 1 + lb {
            assert(s[k] == b[k - la - 1]);
        } else if k == la + 1 + lb {
        } else {
            assert(s[k] == c[k - la - 2 - lb]);
        }
    }
    // trimming and the leading `v`s change nothing
    assert(is_digit(s[0]));
    assert(trim_start(s) == s);
    assert(is_digit(s.last())) by {
        assert(s.last() == c.last());
    }
    assert(trim_end(s) == s);
    assert(trim(s) == s);
    assert(skip_leading(s, 'v') == s);
    // no `-` or `+`
    assert forall|k: int| 0 <= k < s.len() implies !seq!['-', '+'].contains(#[trigger] s[k]) by {
        assert(is_digit(s[k]) || s[k] == '.');
        if seq!['-', '+'].contains(s[k]) {
            let j = choose|j: int| 0 <= j < 2 && seq!['-', '+'][j] == s[k];
            assert(j == 0 || j == 1);
        }
    }
    lemma_first_index(s, seq!['-', '+'], s.len() as int);
    assert(s.take(s.len() as int) =~= s);
    // the first dot ends the major number
    assert forall|k: int| 0 <= k < la implies !seq!['.'].contains(#[trigger] s[k]) by {
        assert(s[k] == a[k]);
        assert(is_digit(a[k]));
        if seq!['.'].contains(s[k]) {
            assert(seq!['.'][0] == s[k]);
        }
    }
    assert(s[la] == '.');
    assert(seq!['.'][0] == '.');
    lemma_first_index(s, seq!['.'], la);
    assert(s.take(la) =~= a);
    let rest = s.skip(la + 1);
    assert(rest =~= b + seq!['.'] + c);
    assert forall|k: int| 0 <= k < lb implies !seq!['.'].contains(#[trigger] rest[k]) by {
        assert(rest[k] == b[k]);
        assert(is_digit(b[k]));
        if seq!['.'].contains(rest[k]) {
            assert(seq!['.'][0] == rest[k]);
        }
    }
    assert(rest[lb] == '.');
    lemma_first_index(rest, seq!['.'], lb);
    assert(rest.take(lb) =~= b);
    assert(rest.skip(lb + 1) =~= c);
}

/// An empty constraint is met by every version that parses.
pub proof fn law_empty_constraint(version: Seq<char>)
    ensures
        satisfies(version, Seq::empty()) == (version_of(version) is Some),
{
    let e = Seq::<char>::empty();
    let pieces = split_by(e, seq![',']);
    assert(seq![','].len() == 1);
    assert(crate::text::find_from(e, seq![','], 0) is None);
    assert(e.subrange(0, 0) =~= e);
    assert(crate::text::split_from(e, seq![','], 0) == seq![e.subrange(0, 0)]);
    assert(pieces =~= seq![e]);
    assert(trim(Seq::<char>::empty()) =~= Seq::<char>::empty());
    if version_of(version) is Some {
        assert forall|i: int| 0 <= i < pieces.len() implies piece_holds(
            version_of(version)->0,
            #[trigger] pieces[i],
        ) by {
            assert(pieces[i] == Seq::<char>::empty());
        }
    }
}

// ------------------------------------------------------------ port bindings

proof fn lemma_add_all_unique_distinct(acc: Seq<PortView>, s: Seq<PortView>)
    requires
        acc.no_duplicates(),
    ensures
        add_all_unique(acc, s).no_duplicates(),
        forall|e: PortView| acc.contains(e) ==> add_all_unique(acc, s).contains(e),
        forall|i: int| 0 <= i < s.len() ==> add_all_unique(acc, s).contains(#[trigger] s[i]),
    decreases s.len(),
{
    if s.len() > 0 {
        lemma_add_all_unique_distinct(acc, s.drop_last());
        let mid = add_all_unique(acc, s.drop_last());
        let e = s.last();
        if !mid.contains(e) {
            assert forall|i: int, j: int|
                0 <= i < mid.push(e).len() && 0 <= j < mid.push(e).len() && i != j implies mid.push(
                    e,
                )[i] != mid.push(e)[j] by {
                if i < mid.len() && j < mid.len() {
                } else if i == mid.len() {
                    assert(mid.push(e)[j] == mid[j]);
                } else {
                    assert(mid.push(e)[i] == mid[i]);
                }
            }
            assert(mid.push(e)[mid.len() as int] == e);
            assert forall|x: PortView| mid.contains(x) implies mid.push(e).contains(x) by {
                let k = choose|k: int| 0 <= k < mid.len() && mid[k] == x;
                assert(mid.push(e)[k] == x);
            }
        }
        assert forall|i: int| 0 <= i < s.len() implies add_all_unique(acc, s).contains(
            #[trigger] s[i],
        ) by {
            if i < s.len() - 1 {
                assert(s[i] == s.drop_last()[i]);
            }
        }
    }
}

/// The bindings read from a list of JSON items hold each binding once.
proof fn lemma_json_bindings_distinct(items: Seq<Json>)
    ensures
        json_bindings(items).no_duplicates(),
    decreases items.len(),
{
    if items.len() > 0 {
        lemma_json_bindings_distinct(items.drop_last());
        let acc = json_bindings(items.drop_last());
        match json_binding(items.last()) {
            Some(e) => {
                lemma_add_all_unique_distinct(acc, seq![e]);
                assert(seq![e].drop_last() =~= Seq::<PortView>::empty());
                assert(add_all_unique(acc, Seq::<PortView>::empty()) == acc);
                assert(seq![e].last() == e);
                assert(add_all_unique(acc, seq![e]) == add_unique(acc, e));
            },
            None => {},
        }
    }
}

/// The Docker, QEMU, VMware and Hyper-V readings hold each binding once, and
/// every reading that is not `None` (VirtualBox's too) holds one binding at
/// least. For Hyper-V this holds whatever the output parses to as JSON.
pub proof fn law_port_readings_distinct(text: Seq<char>, doc: Option<Json>)
    ensures
        docker_ports(text) matches Some(v) ==> v.no_duplicates() && v.len() > 0,
        qemu_ports(text) matches Some(v) ==> v.no_duplicates() && v.len() > 0,
        vmware_ports(text) matches Some(v) ==> v.no_duplicates() && v.len() > 0,
        vbox_ports(text) matches Some(v) ==> v.len() > 0,
        hyperv_text_ports(text).no_duplicates(),
        hyperv_ports(hyperv_json_ports(doc), text) matches Some(v) ==> v.no_duplicates() && v.len()
            > 0,
{
    let e = Seq::<PortView>::empty();
    assert(e.no_duplicates());
    let ls = crate::text::lines(text);
    lemma_add_all_unique_distinct(e, crate::port::collect_lines(ls, |l: Seq<char>| crate::port::docker_line(l)));
    lemma_add_all_unique_distinct(e, crate::port::collect_lines(ls, |l: Seq<char>| crate::port::qemu_line(l)));
    lemma_add_all_unique_distinct(e, crate::port::vmware_scan(ls).1);
    let (f, found) = crate::port::hyperv_scan(ls);
    lemma_add_all_unique_distinct(e, found + crate::port::fields_entry(f));
    match doc {
        Some(v) => lemma_json_bindings_distinct(json_items(v)),
        None => {},
    }
}

// ------------------------------------------------------------ box names

proof fn lemma_replace_char_free(s: Seq<char>, c: char, rep: Seq<char>)
    requires
        !rep.contains(c),
    ensures
        !replace_char(s, c, rep).contains(c),
    decreases s.len(),
{
    if s.len() > 0 {
        lemma_replace_char_free(s.drop_last(), c, rep);
        let h = replace_char(s.drop_last(), c, rep);
        let t = if s.last() == c {
            rep
        } else {
            seq![s.last()]
        };
        assert(replace_char(s, c, rep) == h + t);
        if (h + t).contains(c) {
            let k = choose|k: int| 0 <= k < (h + t).len() && (h + t)[k] == c;
            if k < h.len() {
                assert(h[k] == c);
            } else {
                assert(t[k - h.len()] == c);
            }
        }
    }
}

/// The directory name of a cached box holds no `/`.
pub proof fn law_safe_name_has_no_slash(name: Seq<char>)
    ensures
        !safe_box_name(name).contains('/'),
{
    reveal_strlit("-VAGRANTSLASH-");
    let rep = "-VAGRANTSLASH-"@;
    if rep.contains('/') {
        let k = choose|k: int| 0 <= k < rep.len() && rep[k] == '/';
        assert(0 <= k < 14);
    }
    lemma_replace_char_free(name, '/', rep);
}

/// The hexadecimal spelling of bytes has two lowercase hexadecimal digits
/// per byte.
pub proof fn law_hex_spelling(bytes: Seq<u8>)
    ensures
        hex_of(bytes).len() == 2 * bytes.len(),
        forall|i: int|
            0 <= i < hex_of(bytes).len() ==> ('0' <= #[trigger] hex_of(bytes)[i] <= '9' || 'a'
                <= hex_of(bytes)[i] <= 'f'),
    decreases bytes.len(),
{
    if bytes.len() > 0 {
        law_hex_spelling(bytes.drop_last());
        let h = hex_of(bytes.drop_last());
        let b = bytes.last() as int;
        let t = seq![hex_digit(b / 16), hex_digit(b % 16)];
        assert(hex_of(bytes) == h + t);
        assert forall|i: int| 0 <= i < (h + t).len() implies ('0' <= #[trigger] (h + t)[i] <= '9'
            || 'a' <= (h + t)[i] <= 'f') by {
            if i < h.len() {
                assert((h + t)[i] == h[i]);
            } else {
                let d = if i == h.len() {
                    b / 16
                } else {
                    b % 16
                };
                assert(0 <= d < 16);
                assert((h + t)[i] == hex_digit(d));
            }
        }
    }
}

// ------------------------------------------------------------ compound constraints

proof fn lemma_find_from_first(s: Seq<char>, p: Seq<char>, k: int, j: int)
    requires
        0 <= k <= j,
        matches_at(s, p, j),
        forall|i: int| k <= i < j ==> !matches_at(s, p, i),
    ensures
        find_from(s, p, k) == Some(j),
    decreases j - k,
{
    if k < j {
        assert(!matches_at(s, p, k));
        if k + p.len() > s.len() {
            assert(j + p.len() <= s.len());
        }
        lemma_find_from_first(s, p, k + 1, j);
    }
}

proof fn lemma_find_from_shift(pre: Seq<char>, b: Seq<char>, p: Seq<char>, k: int)
    requires
        0 <= k,
        p.len() > 0,
    ensures
        find_from(pre + b, p, pre.len() + k) == match find_from(b, p, k) {
            Some(j) => Some(pre.len() + j),
            None => None::<int>,
        },
    decreases b.len() + 1 - k,
{
    let s = pre + b;
    let n = pre.len() as int;
    if k + p.len() <= b.len() {
        assert(s.subrange(n + k, n + k + p.len()) =~= b.subrange(k, k + p.len()));
        if !matches_at(b, p, k) {
            lemma_find_from_shift(pre, b, p, k + 1);
        }
    }
}

proof fn lemma_split_from_shift(pre: Seq<char>, b: Seq<char>, c: char, k: int)
    requires
        0 <= k <= b.len(),
    ensures
        split_from(pre + b, seq![c], pre.len() + k) == split_from(b, seq![c], k),
    decreases b.len() + 1 - k,
{
    let s = pre + b;
    let n = pre.len() as int;
    let p = seq![c];
    lemma_find_from_shift(pre, b, p, k);
    lemma_find_from(b, p, k);
    match find_from(b, p, k) {
        None => {
            assert(s.subrange(n + k, s.len() as int) =~= b.subrange(k, b.len() as int));
        },
        Some(j) => {
            assert(s.subrange(n + k, n + j) =~= b.subrange(k, j));
            lemma_split_from_shift(pre, b, c, j + 1);
        },
    }
}

proof fn lemma_split_from_concat(a: Seq<char>, b: Seq<char>, c: char, k: int)
    requires
        0 <= k <= a.len(),
    ensures
        split_from(a + seq![c] + b, seq![c], k) == split_from(a, seq![c], k) + split_by(b, seq![c]),
    decreases a.len() - k,
{
    let s = a + seq![c] + b;
    let p = seq![c];
    let n = a.len() as int;
    lemma_find_from(a, p, k);
    match find_from(a, p, k) {
        Some(j) => {
            assert forall|i: int| k <= i < j implies !matches_at(s, p, i) by {
                assert(!matches_at(a, p, i));
                assert(s.subrange(i, i + 1) =~= a.subrange(i, i + 1));
            }
            assert(s.subrange(j, j + 1) =~= a.subrange(j, j + 1));
            lemma_find_from_first(s, p, k, j);
            assert(s.subrange(k, j) =~= a.subrange(k, j));
            lemma_split_from_concat(a, b, c, j + 1);
            assert(split_from(a, p, k) == seq![a.subrange(k, j)] + split_from(a, p, j + 1));
            assert(split_from(s, p, k) == seq![s.subrange(k, j)] + split_from(s, p, j + 1));
            assert(seq![a.subrange(k, j)] + (split_from(a, p, j + 1) + split_by(b, p))
                =~= (seq![a.subrange(k, j)] + split_from(a, p, j + 1)) + split_by(b, p));
        },
        None => {
            assert forall|i: int| k <= i < n implies !matches_at(s, p, i) by {
                assert(!matches_at(a, p, i));
                assert(s.subrange(i, i + 1) =~= a.subrange(i, i + 1));
            }
            assert(s.subrange(n, n + 1) =~= p);
            lemma_find_from_first(s, p, k, n);
            assert(s.subrange(k, n) =~= a.subrange(k, n));
            assert(s =~= (a + p) + b);
            lemma_split_from_shift(a + p, b, c, 0);
            assert(split_from(s, p, k) == seq![s.subrange(k, n)] + split_from(s, p, n + 1));
        },
    }
}

/// Cutting at a separator that joins two strings cuts each of them.
pub proof fn lemma_split_concat(a: Seq<char>, b: Seq<char>, c: char)
    ensures
        split_by(a + seq![c] + b, seq![c]) == split_by(a, seq![c]) + split_by(b, seq![c]),
{
    lemma_split_from_concat(a, b, c, 0);
}

/// Constraints joined by a comma are met together: a version meets
/// `a,b` exactly when it meets `a` and meets `b`.
pub proof fn law_constraint_conjunction(version: Seq<char>, a: Seq<char>, b: Seq<char>)
    ensures
        satisfies(version, a + seq![','] + b) == (satisfies(version, a) && satisfies(version, b)),
{
    lemma_split_concat(a, b, ',');
    let pa = split_by(a, seq![',']);
    let pb = split_by(b, seq![',']);
    let pab = split_by(a + seq![','] + b, seq![',']);
    if version_of(version) is Some {
        let v = version_of(version)->0;
        if satisfies(version, a) && satisfies(version, b) {
            assert forall|i: int| 0 <= i < pab.len() implies piece_holds(v, #[trigger] pab[i]) by {
                if i < pa.len() {
                    assert(pab[i] == pa[i]);
                } else {
                    assert(pab[i] == pb[i - pa.len()]);
                }
            }
        }
        if satisfies(version, a + seq![','] + b) {
            assert forall|i: int| 0 <= i < pa.len() implies piece_holds(v, #[trigger] pa[i]) by {
                assert(pab[i] == pa[i]);
            }
            assert forall|i: int| 0 <= i < pb.len() implies piece_holds(v, #[trigger] pb[i]) by {
                assert(pab[pa.len() + i] == pb[i]);
            }
        }
    }
}

// ------------------------------------------------------------ string maps

/// What an insertion into a string map gives back: the value just put,
/// every other key unchanged, and removing the key again gives the map
/// without it.
pub proof fn law_string_map_insert(
    m: Map<Seq<char>, Seq<char>>,
    k: Seq<char>,
    v: Seq<char>,
    other: Seq<char>,
)
    requires
        other != k,
    ensures
        m.insert(k, v).dom().contains(k) && m.insert(k, v)[k] == v,
        m.insert(k, v).dom().contains(other) == m.dom().contains(other),
        m.dom().contains(other) ==> m.insert(k, v)[other] == m[other],
        m.insert(k, v).remove(k) == m.remove(k),
        !m.dom().contains(k) ==> m.insert(k, v).remove(k) == m,
{
    assert(m.insert(k, v).remove(k) =~= m.remove(k));
    if !m.dom().contains(k) {
        assert(m.remove(k) =~= m);
    }
}

// ------------------------------------------------------------ completion

/// Installing shell completion twice appends its block once: a profile that
/// ends with the completion block holds the start marker, so a second
/// installation finds the block there and appends nothing.
pub proof fn law_completion_block_once(profile: Seq<char>, script_path: Seq<char>)
    ensures
        find_sub(profile + completion_block_of(script_path), marker_start()) is Some,
{
    reveal_strlit("\n");
    let s = profile + completion_block_of(script_path);
    let m = marker_start();
    let k: int = profile.len() as int + 1;
    assert(s.subrange(k, k + m.len()) =~= m);
    assert(matches_at(s, m, k));
    lemma_find_from(s, m, 0);
}

/// Installing completion a second time leaves the profile as the first
/// installation left it: the block is appended at most once.
pub proof fn law_install_twice_unchanged(profile: Seq<char>, script_path: Seq<char>)
    ensures
        installed_profile(installed_profile(profile, script_path), script_path)
            == installed_profile(profile, script_path),
{
    if find_sub(profile, marker_start()) is None {
        law_completion_block_once(profile, script_path);
    }
}

// ------------------------------------------------------------ pruning

proof fn lemma_dry_provider_steps(
    box_name: Seq<char>,
    version: Seq<char>,
    providers: Seq<Seq<char>>,
    filter: Option<Seq<char>>,
)
    ensures
        forall|i: int|
            0 <= i < provider_steps(box_name, version, providers, filter, true).len()
                ==> #[trigger] provider_steps(box_name, version, providers, filter, true)[i] is Report,
    decreases providers.len(),
{
    if providers.len() > 0 {
        lemma_dry_provider_steps(box_name, version, providers.drop_last(), filter);
    }
}

proof fn lemma_dry_removal_steps(
    box_name: Seq<char>,
    versions: Seq<Seq<char>>,
    listings: Seq<Seq<Seq<char>>>,
    filter: Option<Seq<char>>,
)
    ensures
        forall|i: int|
            0 <= i < removal_steps(box_name, versions, listings, filter, true).len()
                ==> #[trigger] removal_steps(box_name, versions, listings, filter, true)[i] is Report,
    decreases versions.len(),
{
    if versions.len() > 0 {
        lemma_dry_removal_steps(box_name, versions.drop_last(), listings.drop_last(), filter);
        lemma_dry_provider_steps(box_name, versions.last(), listings.last(), filter);
    }
}

/// A dry run of pruning removes nothing: every step it plans only reports a
/// line.
pub proof fn law_dry_run_removes_nothing(
    box_name: Seq<char>,
    keep: Seq<char>,
    versions: Seq<Seq<char>>,
    listings: Seq<Seq<Seq<char>>>,
    filter: Option<Seq<char>>,
)
    ensures
        forall|i: int|
            0 <= i < prune_steps_of(box_name, keep, versions, listings, filter, true).len()
                ==> #[trigger] prune_steps_of(box_name, keep, versions, listings, filter, true)[i] is Report,
{
    lemma_dry_removal_steps(box_name, versions, listings, filter);
    let r = removal_steps(box_name, versions, listings, filter, true);
    let s = prune_steps_of(box_name, keep, versions, listings, filter, true);
    assert forall|i: int| 0 <= i < s.len() implies #[trigger] s[i] is Report by {
        if i > 0 {
            assert(s[i] == r[i - 1]);
        }
    }
}

// ------------------------------------------------------------ sequences

proof fn lemma_concat_contains<A>(a: Seq<A>, b: Seq<A>, x: A)
    ensures
        (a + b).contains(x) == (a.contains(x) || b.contains(x)),
{
    if (a + b).contains(x) {
        let k = choose|k: int| 0 <= k < (a + b).len() && (a + b)[k] == x;
        if k < a.len() {
            assert(a[k] == x);
        } else {
            assert(b[k - a.len()] == x);
        }
    }
    if a.contains(x) {
        let k = choose|k: int| 0 <= k < a.len() && a[k] == x;
        assert((a + b)[k] == x);
    }
    if b.contains(x) {
        let k = choose|k: int| 0 <= k < b.len() && b[k] == x;
        assert((a + b)[a.len() + k] == x);
    }
}

proof fn lemma_one_contains<A>(y: A, x: A)
    ensures
        seq![y].contains(x) == (x == y),
{
    if x == y {
        assert(seq![y][0] == x);
    }
}

proof fn lemma_two_contains<A>(y: A, z: A, x: A)
    ensures
        seq![y, z].contains(x) == (x == y || x == z),
{
    if x == y {
        assert(seq![y, z][0] == x);
    }
    if x == z {
        assert(seq![y, z][1] == x);
    }
}

// ------------------------------------------------------------ docker run

/// The words given after the image: the command, then its arguments.
pub open spec fn run_user_words(a: DockerRunArgs) -> Seq<Seq<char>> {
    let command: Seq<Seq<char>> = match a.command {
        Some(c) => seq![c@],
        None => Seq::empty(),
    };
    command + str_views(a.args@)
}

proof fn lemma_run_options_contain(a: DockerRunArgs, x: Seq<char>)
    ensures
        (seq!["run"@] + flag(!a.no_rm, seq!["--rm"@]) + flag(a.detach && !a.no_detach, seq!["-d"@])
            + flag(a.tty, seq!["-t"@, "-i"@])).contains(x) == (x == "run"@ || (!a.no_rm && x
            == "--rm"@) || (a.detach && !a.no_detach && x == "-d"@) || (a.tty && (x == "-t"@ || x
            == "-i"@))),
{
    let f1 = flag(!a.no_rm, seq!["--rm"@]);
    let f2 = flag(a.detach && !a.no_detach, seq!["-d"@]);
    let f3 = flag(a.tty, seq!["-t"@, "-i"@]);
    lemma_concat_contains(seq!["run"@] + f1 + f2, f3, x);
    lemma_concat_contains(seq!["run"@] + f1, f2, x);
    lemma_concat_contains(seq!["run"@], f1, x);
    lemma_one_contains("run"@, x);
    lemma_one_contains("--rm"@, x);
    lemma_one_contains("-d"@, x);
    lemma_two_contains("-t"@, "-i"@, x);
    assert(Seq::<Seq<char>>::empty().contains(x) == false);
}

/// `docker run` starts with `run` and ends with the image followed by the
/// command and its arguments as given; before the image it holds `--rm`
/// exactly when the container is not kept, `-d` exactly when it is detached
/// and not held in the foreground, and `-t -i` exactly when a terminal is
/// asked for (where the image and the user's words do not spell the option
/// themselves).
pub proof fn law_docker_run_options(a: DockerRunArgs, image: Seq<char>)
    ensures
        run_args_of(a, image)[0] == "run"@,
        run_args_of(a, image).len() >= 2 + run_user_words(a).len(),
        run_args_of(a, image).skip(
            run_args_of(a, image).len() - run_user_words(a).len() - 1,
        ) == seq![image] + run_user_words(a),
        !(seq![image] + run_user_words(a)).contains("-d"@) ==> (run_args_of(a, image).contains(
            "-d"@,
        ) <==> a.detach && !a.no_detach),
        !(seq![image] + run_user_words(a)).contains("--rm"@) ==> (run_args_of(a, image).contains(
            "--rm"@,
        ) <==> !a.no_rm),
        !(seq![image] + run_user_words(a)).contains("-t"@) ==> (run_args_of(a, image).contains(
            "-t"@,
        ) <==> a.tty),
        !(seq![image] + run_user_words(a)).contains("-i"@) ==> (run_args_of(a, image).contains(
            "-i"@,
        ) <==> a.tty),
{
    reveal_strlit("run");
    reveal_strlit("--rm");
    reveal_strlit("-d");
    reveal_strlit("-t");
    reveal_strlit("-i");
    let opts = seq!["run"@] + flag(!a.no_rm, seq!["--rm"@]) + flag(
        a.detach && !a.no_detach,
        seq!["-d"@],
    ) + flag(a.tty, seq!["-t"@, "-i"@]);
    let tail = seq![image] + run_user_words(a);
    let r = run_args_of(a, image);
    assert(r =~= opts + tail);
    assert(r.skip(r.len() - run_user_words(a).len() - 1) =~= tail);
    assert(r[0] == opts[0]);
    lemma_concat_contains(opts, tail, "-d"@);
    lemma_concat_contains(opts, tail, "--rm"@);
    lemma_concat_contains(opts, tail, "-t"@);
    lemma_concat_contains(opts, tail, "-i"@);
    lemma_run_options_contain(a, "-d"@);
    lemma_run_options_contain(a, "--rm"@);
    lemma_run_options_contain(a, "-t"@);
    lemma_run_options_contain(a, "-i"@);
    // the options differ in their second character
    assert("run"@[1] == 'u' && "--rm"@[1] == '-' && "-d"@[1] == 'd' && "-t"@[1] == 't'
        && "-i"@[1] == 'i');
}

// ------------------------------------------------------------ providers

/// A package that installs a provider is named after the provider, and the
/// package manager is asked to install exactly that package (it is the last
/// argument); on macOS every probed provider has a package, on Linux every
/// probed provider but VMware does.
pub proof fn law_provider_packages(os: HostOs, provider: Seq<char>)
    ensures
        install_package_of(os, provider) matches Some(pkg) ==> has_prefix(pkg, provider)
            && install_args_of(os, pkg).len() > 0 && install_args_of(os, pkg).last() == pkg,
        forall|i: int|
            0 <= i < provider_order(HostOs::MacOs).len() ==> install_package_of(
                HostOs::MacOs,
                #[trigger] provider_order(HostOs::MacOs)[i],
            ) is Some,
        forall|i: int|
            0 <= i < provider_order(HostOs::Linux).len() && provider_order(HostOs::Linux)[i]
                != "vmware"@ ==> install_package_of(
                HostOs::Linux,
                #[trigger] provider_order(HostOs::Linux)[i],
            ) is Some,
        install_package_of(HostOs::Windows, "virtualbox"@) is Some,
        install_package_of(HostOs::Windows, "docker"@) is Some,
{
    reveal_strlit("virtualbox");
    reveal_strlit("vmware");
    reveal_strlit("vmware-fusion");
    reveal_strlit("docker");
    reveal_strlit("docker.io");
    reveal_strlit("docker-desktop");
    reveal_strlit("qemu");
    reveal_strlit("qemu-kvm");
    assert("vmware-fusion"@.take(6) =~= "vmware"@);
    assert("docker.io"@.take(6) =~= "docker"@);
    assert("docker-desktop"@.take(6) =~= "docker"@);
    assert("qemu-kvm"@.take(4) =~= "qemu"@);
    assert("virtualbox"@.take(10) =~= "virtualbox"@);
    assert("docker"@.take(6) =~= "docker"@);
    assert("qemu"@.take(4) =~= "qemu"@);
    assert forall|i: int| 0 <= i < provider_order(HostOs::MacOs).len() implies install_package_of(
        HostOs::MacOs,
        #[trigger] provider_order(HostOs::MacOs)[i],
    ) is Some by {
        let t = crate::provider::provider_table(HostOs::MacOs);
        assert(provider_order(HostOs::MacOs)[i] == t[i].0);
    }
    assert forall|i: int|
        0 <= i < provider_order(HostOs::Linux).len() && provider_order(HostOs::Linux)[i]
            != "vmware"@ implies install_package_of(
        HostOs::Linux,
        #[trigger] provider_order(HostOs::Linux)[i],
    ) is Some by {
        let t = crate::provider::provider_table(HostOs::Linux);
        assert(provider_order(HostOs::Linux)[i] == t[i].0);
    }
}

// ------------------------------------------------------------ guest capabilities

/// The positional arguments of a guest capability reach the guest's
/// parameters of the same positions: where they are all given, the guest is
/// asked with exactly them, in order.
pub proof fn law_guest_arguments_in_order<G: Guest + ?Sized>(
    guest: &G,
    cap: Seq<char>,
    args: Seq<Seq<char>>,
    provider: Seq<char>,
    c: GuestCall,
    r: Result<(), MigratoryError>,
)
    requires
        resolves_to(cap, args, provider, c),
        guest_answers(guest, c, r),
    ensures
        cap == "change_hostname"@ && args.len() >= 1 ==> guest.change_hostname_spec(args[0], r),
        cap == "mount_shared_folder"@ && args.len() >= 2 ==> guest.mount_shared_folder_spec(
            args[0],
            args[1],
            r,
        ),
        cap == "mount_virtualbox_shared_folder"@ && args.len() >= 2
            ==> guest.mount_virtualbox_shared_folder_spec(args[0], args[1], r),
        cap == "mount_nfs_folder"@ && args.len() >= 3 ==> guest.mount_nfs_folder_spec(
            args[0],
            args[1],
            args[2],
            r,
        ),
        cap == "mount_smb_folder"@ && args.len() >= 4 ==> guest.mount_smb_shared_folder_spec(
            args[0],
            args[1],
            args[2],
            args[3],
            r,
        ),
        cap == "update_guest_additions"@ ==> guest.update_guest_additions_spec(provider, None, r),
{
    reveal_strlit("change_hostname");
    reveal_strlit("configure_networks");
    reveal_strlit("mount_shared_folder");
    reveal_strlit("halt");
    reveal_strlit("update_guest_additions");
    reveal_strlit("mount_virtualbox_shared_folder");
    reveal_strlit("mount_nfs_folder");
    reveal_strlit("mount_smb_folder");
    reveal_strlit("rsync_installed");
    // the capability names are told apart by their length and first characters
    assert("change_hostname"@.len() == 15 && "rsync_installed"@.len() == 15);
    assert("change_hostname"@[0] != "rsync_installed"@[0]);
    assert("mount_nfs_folder"@.len() == 16 && "mount_smb_folder"@.len() == 16);
    assert("mount_nfs_folder"@[6] != "mount_smb_folder"@[6]);
    assert("configure_networks"@.len() == 18 && "mount_shared_folder"@.len() == 19);
    assert("halt"@.len() == 4 && "update_guest_additions"@.len() == 22);
    assert("mount_virtualbox_shared_folder"@.len() == 30);
    match c {
        GuestCall::ChangeHostname { hostname } => {
            assert(cap == "change_hostname"@);
        },
        GuestCall::ConfigureNetworks => {},
        GuestCall::MountSharedFolder { name, guest_path } => {
            assert(cap == "mount_shared_folder"@);
        },
        GuestCall::Halt => {},
        GuestCall::UpdateGuestAdditions { provider: p } => {},
        GuestCall::MountVirtualboxSharedFolder { name, guest_path } => {},
        GuestCall::MountNfsFolder { host_ip, host_path, guest_path } => {
            assert(cap == "mount_nfs_folder"@);
        },
        GuestCall::MountSmbFolder { host_path, guest_path, user, password } => {
            assert(cap == "mount_smb_folder"@);
        },
        GuestCall::RsyncInstalled => {},
    }
}

// ------------------------------------------------------------ outdated boxes

/// The latest local version is at least every version the local names
/// spell, and is either 0.0.0 or one of them.
pub proof fn law_latest_local_is_greatest(names: Seq<Seq<char>>)
    ensures
        forall|i: int|
            0 <= i < names.len() ==> (version_of(#[trigger] names[i]) matches Some(v)
                ==> !version_lt(latest_local(names), v)),
        latest_local(names) == (Version { major: 0, minor: 0, patch: 0 }) || exists|i: int|
            0 <= i < names.len() && version_of(#[trigger] names[i]) == Some(latest_local(names)),
    decreases names.len(),
{
    if names.len() > 0 {
        let prev = names.drop_last();
        law_latest_local_is_greatest(prev);
        let l = latest_local(names);
        assert forall|i: int|
            0 <= i < names.len() implies (version_of(#[trigger] names[i]) matches Some(v)
                ==> !version_lt(l, v)) by {
            if i < prev.len() {
                assert(names[i] == prev[i]);
            }
        }
        if l != latest_local(prev) {
            assert(version_of(names[names.len() - 1]) == Some(l));
        } else if latest_local(prev) != (Version { major: 0, minor: 0, patch: 0 }) {
            let j = choose|j: int|
                0 <= j < prev.len() && version_of(#[trigger] prev[j]) == Some(latest_local(prev));
            assert(names[j] == prev[j]);
        }
    }
}

/// A box is outdated exactly when one of the remote versions, wherever it
/// stands in the list, is later than the latest local version; the order of
/// the remote list does not matter.
pub proof fn law_newer_version_anywhere(
    latest: Version,
    remote: Seq<Seq<char>>,
    other: Seq<Seq<char>>,
)
    ensures
        forall|i: int|
            0 <= i < remote.len() && (version_of(#[trigger] remote[i]) matches Some(v)
                && version_lt(latest, v)) ==> newer_exists(latest, remote),
        (forall|i: int|
            0 <= i < remote.len() ==> (version_of(#[trigger] remote[i]) matches Some(v)
                ==> !version_lt(latest, v))) ==> !newer_exists(latest, remote),
        remote.to_multiset() == other.to_multiset() ==> newer_exists(latest, remote)
            == newer_exists(latest, other),
{
    if remote.to_multiset() == other.to_multiset() {
        remote.to_multiset_ensures();
        other.to_multiset_ensures();
        if newer_exists(latest, remote) {
            let i = choose|i: int|
                0 <= i < remote.len() && (version_of(#[trigger] remote[i]) matches Some(v)
                    && version_lt(latest, v));
            assert(remote.contains(remote[i]));
            assert(remote.to_multiset().count(remote[i]) > 0);
            assert(other.to_multiset().count(remote[i]) > 0);
            assert(other.contains(remote[i]));
            let j = choose|j: int| 0 <= j < other.len() && other[j] == remote[i];
            assert(version_of(other[j]) == version_of(remote[i]));
        }
        if newer_exists(latest, other) {
            let i = choose|i: int|
                0 <= i < other.len() && (version_of(#[trigger] other[i]) matches Some(v)
                    && version_lt(latest, v));
            assert(other.contains(other[i]));
            assert(other.to_multiset().count(other[i]) > 0);
            assert(remote.to_multiset().count(other[i]) > 0);
            assert(remote.contains(other[i]));
            let j = choose|j: int| 0 <= j < remote.len() && remote[j] == other[i];
            assert(version_of(remote[j]) == version_of(other[i]));
        }
    }
}

// ------------------------------------------------------------ single constraints

proof fn lemma_version_text_chars(v: Version)
    ensures
        version_text(v).len() > 0,
        forall|k: int|
            0 <= k < version_text(v).len() ==> #[trigger] is_digit(version_text(v)[k])
                || version_text(v)[k] == '.',
        is_digit(version_text(v)[0]),
        is_digit(version_text(v).last()),
{
    lemma_parse_decimal(v.major);
    lemma_parse_decimal(v.minor);
    lemma_parse_decimal(v.patch);
    let a = decimal(v.major as nat);
    let b = decimal(v.minor as nat);
    let c = decimal(v.patch as nat);
    let s = version_text(v);
    let la = a.len() as int;
    let lb = b.len() as int;
    assert forall|k: int| 0 <= k < s.len() implies #[trigger] is_digit(s[k]) || s[k] == '.' by {
        if k < la {
            assert(s[k] == a[k]);
        } else if k == la {
        } else if k < la + 1 + lb {
            assert(s[k] == b[k - la - 1]);
        } else if k == la + 1 + lb {
        } else {
            assert(s[k] == c[k - la - 2 - lb]);
        }
    }
    assert(s[0] == a[0]);
    assert(s.last() == c.last());
}

proof fn lemma_split_without_separator(s: Seq<char>, c: char)
    requires
        !s.contains(c),
    ensures
        split_by(s, seq![c]) == seq![s],
{
    let p = seq![c];
    assert forall|i: int| 0 <= i implies !matches_at(s, p, i) by {
        if matches_at(s, p, i) {
            assert(s.subrange(i, i + 1)[0] == s[i]);
            assert(s[i] == c);
        }
    }
    lemma_find_from(s, p, 0);
    if find_from(s, p, 0) is Some {
        assert(matches_at(s, p, find_from(s, p, 0)->0));
    }
    assert(s.subrange(0, s.len() as int) =~= s);
    assert(split_by(s, p) == split_from(s, p, 0));
}

proof fn lemma_trim_unchanged(s: Seq<char>)
    requires
        s.len() > 0,
        !is_ws(s[0]),
        !is_ws(s.last()),
    ensures
        trim(s) == s,
{
    assert(trim_start(s) == s);
    assert(trim_end(s) == s);
}

proof fn lemma_digit_not_ws(c: char)
    requires
        is_digit(c),
    ensures
        !is_ws(c),
{
}

proof fn lemma_has_prefix_1(s: Seq<char>, a: char)
    requires
        s.len() >= 1,
    ensures
        has_prefix(s, seq![a]) == (s[0] == a),
{
    if s[0] == a {
        assert(s.take(1) =~= seq![a]);
    }
    if has_prefix(s, seq![a]) {
        assert(s.take(1)[0] == s[0]);
    }
}

proof fn lemma_has_prefix_2(s: Seq<char>, a: char, b: char)
    requires
        s.len() >= 2,
    ensures
        has_prefix(s, seq![a, b]) == (s[0] == a && s[1] == b),
{
    if s[0] == a && s[1] == b {
        assert(s.take(2) =~= seq![a, b]);
    }
    if has_prefix(s, seq![a, b]) {
        assert(s.take(2)[0] == s[0]);
        assert(s.take(2)[1] == s[1]);
    }
}

/// The constraint `op v`: an operator, a space, and a version spelled
/// `M.m.p`.
pub open spec fn constraint_text(op: Seq<char>, v: Version) -> Seq<char> {
    op + seq![' '] + version_text(v)
}

/// The shape of a single constraint `op v`: one piece, untouched by
/// trimming, whose version part (after the operator) reads `v`.
proof fn lemma_single_constraint(op: Seq<char>, b: Version)
    requires
        1 <= op.len() <= 2,
        forall|k: int| 0 <= k < op.len() ==> #[trigger] op[k] != ',' && !is_ws(op[k]),
    ensures
        split_by(constraint_text(op, b), seq![',']) == seq![constraint_text(op, b)],
        trim(constraint_text(op, b)) == constraint_text(op, b),
        target_after(constraint_text(op, b), op.len() as int) == Some(b),
        trim(constraint_text(op, b).skip(op.len() as int)) == version_text(b),
        constraint_text(op, b).len() >= 3,
        constraint_text(op, b)[0] == op[0],
        op.len() == 1 ==> constraint_text(op, b)[1] == ' ',
        op.len() == 2 ==> constraint_text(op, b)[1] == op[1],
{
    lemma_version_text_chars(b);
    law_parse_version_text(b);
    let t = version_text(b);
    let c = constraint_text(op, b);
    let n = op.len() as int;
    assert(c.len() == n + 1 + t.len());
    assert(c[0] == op[0]);
    assert(c.last() == t.last());
    lemma_digit_not_ws(t[0]);
    lemma_digit_not_ws(t.last());
    assert forall|k: int| 0 <= k < c.len() implies #[trigger] c[k] != ',' by {
        if k < n {
            assert(c[k] == op[k]);
        } else if k == n {
        } else {
            assert(c[k] == t[k - n - 1]);
            assert(is_digit(t[k - n - 1]) || t[k - n - 1] == '.');
        }
    }
    if c.contains(',') {
        let k = choose|k: int| 0 <= k < c.len() && c[k] == ',';
        assert(c[k] != ',');
    }
    lemma_split_without_separator(c, ',');
    lemma_trim_unchanged(c);
    let rest = c.skip(n);
    assert(rest =~= seq![' '] + t);
    assert(is_ws(' '));
    assert(rest.drop_first() =~= t);
    assert(trim_start(rest) == trim_start(t));
    lemma_trim_unchanged(t);
    assert(trim_start(t) == t);
    assert(trim(rest) == t);
    if n == 2 {
        assert(c[1] == op[1]);
    } else {
        assert(c[1] == ' ');
    }
}

/// What a piece `op v` decides, read through the operator's first two
/// characters.
proof fn lemma_piece_prefixes(op: Seq<char>, b: Version)
    requires
        1 <= op.len() <= 2,
        forall|k: int| 0 <= k < op.len() ==> #[trigger] op[k] != ',' && !is_ws(op[k]),
    ensures
        ({
            let c = constraint_text(op, b);
            &&& has_prefix(c, seq!['~', '>']) == (c[0] == '~' && c[1] == '>')
            &&& has_prefix(c, seq!['>', '=']) == (c[0] == '>' && c[1] == '=')
            &&& has_prefix(c, seq!['<', '=']) == (c[0] == '<' && c[1] == '=')
            &&& has_prefix(c, seq!['>']) == (c[0] == '>')
            &&& has_prefix(c, seq!['<']) == (c[0] == '<')
            &&& has_prefix(c, seq!['!', '=']) == (c[0] == '!' && c[1] == '=')
            &&& has_prefix(c, seq!['=']) == (c[0] == '=')
        }),
{
    lemma_single_constraint(op, b);
    let c = constraint_text(op, b);
    lemma_has_prefix_2(c, '~', '>');
    lemma_has_prefix_2(c, '>', '=');
    lemma_has_prefix_2(c, '<', '=');
    lemma_has_prefix_2(c, '!', '=');
    lemma_has_prefix_1(c, '>');
    lemma_has_prefix_1(c, '<');
    lemma_has_prefix_1(c, '=');
}

proof fn lemma_satisfies_single(a: Version, op: Seq<char>, b: Version)
    requires
        1 <= op.len() <= 2,
        forall|k: int| 0 <= k < op.len() ==> #[trigger] op[k] != ',' && !is_ws(op[k]),
    ensures
        satisfies(version_text(a), constraint_text(op, b)) == piece_holds(
            a,
            constraint_text(op, b),
        ),
{
    law_parse_version_text(a);
    lemma_single_constraint(op, b);
    let c = constraint_text(op, b);
    assert(split_by(c, seq![','])[0] == c);
}

/// The operators hold no comma and no whitespace.
proof fn lemma_operators_plain()
    ensures
        forall|k: int| 0 <= k < 2 ==> #[trigger] ">="@[k] != ',' && !is_ws(">="@[k]),
        forall|k: int| 0 <= k < 2 ==> #[trigger] "<="@[k] != ',' && !is_ws("<="@[k]),
        forall|k: int| 0 <= k < 1 ==> #[trigger] ">"@[k] != ',' && !is_ws(">"@[k]),
        forall|k: int| 0 <= k < 1 ==> #[trigger] "<"@[k] != ',' && !is_ws("<"@[k]),
        forall|k: int| 0 <= k < 1 ==> #[trigger] "="@[k] != ',' && !is_ws("="@[k]),
        forall|k: int| 0 <= k < 2 ==> #[trigger] "!="@[k] != ',' && !is_ws("!="@[k]),
        ">="@.len() == 2 && "<="@.len() == 2 && ">"@.len() == 1 && "<"@.len() == 1 && "="@.len()
            == 1 && "!="@.len() == 2,
{
    reveal_strlit(">=");
    reveal_strlit("<=");
    reveal_strlit(">");
    reveal_strlit("<");
    reveal_strlit("=");
    reveal_strlit("!=");
}

/// The comparison operators of a constraint compare by the version order:
/// a version `a` meets `>= b` exactly when it is not before `b`, `<= b`
/// exactly when `b` is not before it, `> b` and `< b` exactly when it is
/// strictly after or before `b`, `= b` and a bare `b` exactly when it is `b`,
/// and `!= b` exactly when it is not. In particular every version meets
/// `>=` and `<=` of itself, and neither `>` nor `<` of itself.
pub proof fn law_comparison_constraints(a: Version, b: Version)
    ensures
        satisfies(version_text(a), constraint_text(">="@, b)) == !version_lt(a, b),
        satisfies(version_text(a), constraint_text("<="@, b)) == !version_lt(b, a),
        satisfies(version_text(a), constraint_text(">"@, b)) == version_lt(b, a),
        satisfies(version_text(a), constraint_text("<"@, b)) == version_lt(a, b),
        satisfies(version_text(a), constraint_text("="@, b)) == (a == b),
        satisfies(version_text(a), constraint_text("!="@, b)) == (a != b),
        satisfies(version_text(a), version_text(b)) == (a == b),
        satisfies(version_text(a), constraint_text(">="@, a)),
        satisfies(version_text(a), constraint_text("<="@, a)),
        !satisfies(version_text(a), constraint_text(">"@, a)),
        !satisfies(version_text(a), constraint_text("<"@, a)),
{
    reveal_strlit(">=");
    reveal_strlit("<=");
    reveal_strlit(">");
    reveal_strlit("<");
    reveal_strlit("=");
    reveal_strlit("!=");
    law_version_order(a, b, a);
    law_version_order(a, a, a);
    lemma_operators_plain();
    // each operator with `b`, then `>=`..`<` with `a`
    lemma_satisfies_single(a, ">="@, b);
    lemma_piece_prefixes(">="@, b);
    lemma_single_constraint(">="@, b);
    lemma_satisfies_single(a, "<="@, b);
    lemma_piece_prefixes("<="@, b);
    lemma_single_constraint("<="@, b);
    lemma_satisfies_single(a, ">"@, b);
    lemma_piece_prefixes(">"@, b);
    lemma_single_constraint(">"@, b);
    lemma_satisfies_single(a, "<"@, b);
    lemma_piece_prefixes("<"@, b);
    lemma_single_constraint("<"@, b);
    lemma_satisfies_single(a, "="@, b);
    lemma_piece_prefixes("="@, b);
    lemma_single_constraint("="@, b);
    lemma_satisfies_single(a, "!="@, b);
    lemma_piece_prefixes("!="@, b);
    lemma_single_constraint("!="@, b);
    lemma_satisfies_single(a, ">="@, a);
    lemma_piece_prefixes(">="@, a);
    lemma_single_constraint(">="@, a);
    lemma_satisfies_single(a, "<="@, a);
    lemma_piece_prefixes("<="@, a);
    lemma_single_constraint("<="@, a);
    lemma_satisfies_single(a, ">"@, a);
    lemma_piece_prefixes(">"@, a);
    lemma_single_constraint(">"@, a);
    lemma_satisfies_single(a, "<"@, a);
    lemma_piece_prefixes("<"@, a);
    lemma_single_constraint("<"@, a);
    // a bare version
    law_parse_version_text(a);
    law_parse_version_text(b);
    lemma_version_text_chars(b);
    let t = version_text(b);
    lemma_digit_not_ws(t[0]);
    lemma_digit_not_ws(t.last());
    lemma_trim_unchanged(t);
    if t.contains(',') {
        let k = choose|k: int| 0 <= k < t.len() && t[k] == ',';
        assert(is_digit(t[k]) || t[k] == '.');
    }
    lemma_split_without_separator(t, ',');
    assert(split_by(t, seq![','])[0] == t);
    if t.len() >= 2 {
        lemma_has_prefix_2(t, '~', '>');
        lemma_has_prefix_2(t, '>', '=');
        lemma_has_prefix_2(t, '<', '=');
        lemma_has_prefix_2(t, '!', '=');
    } else {
        assert(!has_prefix(t, seq!['~', '>']));
        assert(!has_prefix(t, seq!['>', '=']));
        assert(!has_prefix(t, seq!['<', '=']));
        assert(!has_prefix(t, seq!['!', '=']));
    }
    lemma_has_prefix_1(t, '>');
    lemma_has_prefix_1(t, '<');
    lemma_has_prefix_1(t, '=');
    assert(piece_holds(a, t) == (a == b));
}

proof fn lemma_version_text_parts(v: Version)
    ensures
        split_by(version_text(v), seq!['.']).len() == 3,
{
    let a = decimal(v.major as nat);
    let b = decimal(v.minor as nat);
    let c = decimal(v.patch as nat);
    lemma_parse_decimal(v.major);
    lemma_parse_decimal(v.minor);
    lemma_parse_decimal(v.patch);
    assert forall|d: Seq<char>| all_digits(d) implies !d.contains('.') by {
        if d.contains('.') {
            let k = choose|k: int| 0 <= k < d.len() && d[k] == '.';
            assert(is_digit(d[k]));
        }
    }
    lemma_split_without_separator(a, '.');
    lemma_split_without_separator(b, '.');
    lemma_split_without_separator(c, '.');
    lemma_split_concat(a, b, '.');
    lemma_split_concat(a + seq!['.'] + b, c, '.');
    assert(version_text(v) == a + seq!['.'] + b + seq!['.'] + c);
}

/// A pessimistic constraint `~> M.m.p` admits exactly the versions from
/// `M.m.p` on that keep the major and minor numbers `M.m`: patch releases.
pub proof fn law_pessimistic_constraint(a: Version, b: Version)
    ensures
        satisfies(version_text(a), constraint_text("~>"@, b)) == (!version_lt(a, b) && a.major
            == b.major && a.minor == b.minor),
        satisfies(version_text(b), constraint_text("~>"@, b)),
{
    reveal_strlit("~>");
    assert(forall|k: int| 0 <= k < 2 ==> #[trigger] "~>"@[k] != ',' && !is_ws("~>"@[k]));
    assert("~>"@.len() == 2);
    lemma_satisfies_single(a, "~>"@, b);
    lemma_satisfies_single(b, "~>"@, b);
    lemma_piece_prefixes("~>"@, b);
    lemma_single_constraint("~>"@, b);
    law_parse_version_text(b);
    lemma_version_text_parts(b);
    law_version_order(a, b, a);
}

/// What follows the options of `docker exec`: the container, then the
/// command and its arguments as given, or `sh` where no command is given.
pub open spec fn exec_tail(a: DockerExecArgs, id: Seq<char>) -> Seq<Seq<char>> {
    let command: Seq<Seq<char>> = match a.command {
        Some(c) => seq![c@],
        None => Seq::empty(),
    };
    let shell: Seq<Seq<char>> = match a.command {
        Some(_) => Seq::empty(),
        None => seq!["sh"@],
    };
    seq![id] + command + str_views(a.args@) + shell
}

/// `docker exec` starts with `exec` and ends with the container and the
/// command (`sh` where none is given); before the container it holds `-i`,
/// `-t` and `-d` exactly when standard input is kept open, a terminal is
/// asked for and the command runs in the background, and `-u` with the user
/// where one is given (where the user and the words after the options do
/// not spell the option themselves).
pub proof fn law_docker_exec_options(a: DockerExecArgs, id: Seq<char>)
    ensures
        exec_args_of(a, id)[0] == "exec"@,
        exec_args_of(a, id).len() >= 1 + exec_tail(a, id).len(),
        exec_args_of(a, id).skip(exec_args_of(a, id).len() - exec_tail(a, id).len())
            == exec_tail(a, id),
        a.command is None ==> exec_args_of(a, id).last() == "sh"@,
        a.user matches Some(u) ==> exec_args_of(a, id)[exec_args_of(a, id).len() - exec_tail(
            a,
            id,
        ).len() - 2] == "-u"@ && exec_args_of(a, id)[exec_args_of(a, id).len() - exec_tail(
            a,
            id,
        ).len() - 1] == u@,
        !exec_tail(a, id).contains("-i"@) && !(a.user matches Some(u) && u@ == "-i"@) ==> (
        exec_args_of(a, id).contains("-i"@) <==> a.interactive),
        !exec_tail(a, id).contains("-t"@) && !(a.user matches Some(u) && u@ == "-t"@) ==> (
        exec_args_of(a, id).contains("-t"@) <==> a.tty),
        !exec_tail(a, id).contains("-d"@) && !(a.user matches Some(u) && u@ == "-d"@) ==> (
        exec_args_of(a, id).contains("-d"@) <==> a.detach),
{
    reveal_strlit("exec");
    reveal_strlit("-i");
    reveal_strlit("-t");
    reveal_strlit("-d");
    reveal_strlit("-u");
    reveal_strlit("sh");
    let f1 = flag(a.interactive, seq!["-i"@]);
    let f2 = flag(a.tty, seq!["-t"@]);
    let f3 = flag(a.detach, seq!["-d"@]);
    let us: Seq<Seq<char>> = match a.user {
        Some(u) => seq!["-u"@, u@],
        None => Seq::empty(),
    };
    let opts = seq!["exec"@] + f1 + f2 + f3 + us;
    let tail = exec_tail(a, id);
    let r = exec_args_of(a, id);
    assert(r =~= opts + tail);
    assert(r.skip(r.len() - tail.len()) =~= tail);
    assert(r[0] == opts[0]);
    if a.command is None {
        assert(tail.last() == "sh"@);
        assert(r.last() == tail.last());
    }
    if a.user is Some {
        assert(r[opts.len() - 2] == opts[opts.len() - 2]);
        assert(r[opts.len() - 1] == opts[opts.len() - 1]);
    }
    assert("exec"@[1] == 'x' && "-i"@[1] == 'i' && "-t"@[1] == 't' && "-d"@[1] == 'd' && "-u"@[1]
        == 'u');
    assert forall|x: Seq<char>| x == "-i"@ || x == "-t"@ || x == "-d"@ implies r.contains(x) == (
    tail.contains(x) || (x == "-i"@ && a.interactive) || (x == "-t"@ && a.tty) || (x == "-d"@
        && a.detach) || (a.user matches Some(u) && u@ == x)) by {
        lemma_concat_contains(opts, tail, x);
        lemma_concat_contains(seq!["exec"@] + f1 + f2 + f3, us, x);
        lemma_concat_contains(seq!["exec"@] + f1 + f2, f3, x);
        lemma_concat_contains(seq!["exec"@] + f1, f2, x);
        lemma_concat_contains(seq!["exec"@], f1, x);
        lemma_one_contains("exec"@, x);
        lemma_one_contains("-i"@, x);
        lemma_one_contains("-t"@, x);
        lemma_one_contains("-d"@, x);
        match a.user {
            Some(u) => lemma_two_contains("-u"@, u@, x),
            None => {},
        }
        assert(Seq::<Seq<char>>::empty().contains(x) == false);
    }
}

/// `docker logs` starts with `logs` and ends with the container; before it
/// it holds `-f` exactly when the output is followed, `-t` exactly when
/// timestamps are asked for, and `--tail` with the count where one is given
/// (where the count and the container do not spell the option
/// themselves).
pub proof fn law_docker_logs_options(a: DockerLogsArgs, id: Seq<char>)
    ensures
        logs_args_of(a, id)[0] == "logs"@,
        logs_args_of(a, id).last() == id,
        a.tail matches Some(t) ==> logs_args_of(a, id).contains("--tail"@) && exists|k: int|
            0 <= k < logs_args_of(a, id).len() - 1 && #[trigger] logs_args_of(a, id)[k]
                == "--tail"@ && logs_args_of(a, id)[k + 1] == t@,
        id != "-f"@ && !(a.tail matches Some(t) && t@ == "-f"@) ==> (logs_args_of(a, id).contains(
            "-f"@,
        ) <==> a.follow),
        id != "-t"@ && !(a.tail matches Some(t) && t@ == "-t"@) ==> (logs_args_of(a, id).contains(
            "-t"@,
        ) <==> a.timestamps),
{
    reveal_strlit("logs");
    reveal_strlit("-f");
    reveal_strlit("-t");
    reveal_strlit("--tail");
    let f1 = flag(a.follow, seq!["-f"@]);
    let ts: Seq<Seq<char>> = match a.tail {
        Some(t) => seq!["--tail"@, t@],
        None => Seq::empty(),
    };
    let f2 = flag(a.timestamps, seq!["-t"@]);
    let r = logs_args_of(a, id);
    let pre = seq!["logs"@] + f1 + ts + f2;
    assert(r =~= pre + seq![id]);
    assert(r[0] == pre[0]);
    assert(r.last() == id);
    assert("logs"@[1] == 'o' && "-f"@[1] == 'f' && "-t"@[1] == 't' && "--tail"@[1] == '-');
    if a.tail is Some {
        let k: int = 1 + f1.len() as int;
        assert(r[k] == ts[0]);
        assert(r[k + 1] == ts[1]);
        assert(r.contains("--tail"@));
    }
    assert forall|x: Seq<char>| x == "-f"@ || x == "-t"@ implies r.contains(x) == (x == id || (x
        == "-f"@ && a.follow) || (x == "-t"@ && a.timestamps) || (a.tail matches Some(t) && t@
        == x)) by {
        lemma_concat_contains(pre, seq![id], x);
        lemma_concat_contains(seq!["logs"@] + f1 + ts, f2, x);
        lemma_concat_contains(seq!["logs"@] + f1, ts, x);
        lemma_concat_contains(seq!["logs"@], f1, x);
        lemma_one_contains("logs"@, x);
        lemma_one_contains("-f"@, x);
        lemma_one_contains("-t"@, x);
        lemma_one_contains(id, x);
        match a.tail {
            Some(t) => lemma_two_contains("--tail"@, t@, x),
            None => {},
        }
        assert(Seq::<Seq<char>>::empty().contains(x) == false);
    }
}

} // verus!
