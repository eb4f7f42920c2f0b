//! The engine driver: executes one action's whole plan against the
//! filesystem state, the actions of a rule strictly in declared order, and
//! the rules of a rule set in declaration order. Per-file failures are
//! isolated: each matched file gets exactly one outcome and a failure never
//! blocks or alters the processing of any other file; action- and
//! rule-level failures are likewise reported and skipped over.
//!
//! Scanning the in-memory state cannot fail; the shell that scans a live
//! directory tree maps an unreadable watch root to [`ActionError::Scan`]
//! and aborts that action alone.

use vstd::prelude::*;

use crate::fsmodel::apply_op_model;
use crate::fsmodel::op_applicable;
use crate::fsmodel::FileModel;
use crate::fsmodel::FsState;
use crate::rules::plan_ops_spec;
use crate::rules::planned_op_spec;
use crate::rules::rename_target_spec;
use crate::rules::required_fields_present;
use crate::rules::ActionError;
use crate::rules::FileOpModel;
use crate::rules::Rule;
use crate::rules::RuleAction;
use crate::rules::RuleActionType;
use crate::rules::Rules;

verus! {

/// The paths of a state's files, in listing order.
pub open spec fn fs_paths(s: Seq<FileModel>) -> Seq<Seq<char>> {
    s.map_values(|m: FileModel| m.path)
}

/// The state after a sequence of operations, applied front to back; a
/// failing operation leaves the state unchanged and the rest proceed.
pub open spec fn apply_ops_model(s: Seq<FileModel>, ops: Seq<FileOpModel>) -> Seq<FileModel>
    decreases ops.len(),
{
    if ops.len() == 0 {
        s
    } else {
        apply_ops_model(apply_op_model(s, ops[0]), ops.drop_first())
    }
}

/// Appending one operation to a plan applies it to the state the earlier
/// operations produced.
pub proof fn lemma_apply_ops_snoc(s: Seq<FileModel>, ops: Seq<FileOpModel>, x: FileOpModel)
    ensures
        apply_ops_model(s, ops.push(x)) == apply_op_model(apply_ops_model(s, ops), x),
    decreases ops.len(),
{
    if ops.len() == 0 {
        reveal_with_fuel(apply_ops_model, 2);
        assert(ops.push(x)[0] == x);
        assert(ops.push(x).drop_first() =~= Seq::<FileOpModel>::empty());
    } else {
        assert(ops.push(x)[0] == ops[0]);
        assert(ops.push(x).drop_first() =~= ops.drop_first().push(x));
        lemma_apply_ops_snoc(apply_op_model(s, ops[0]), ops.drop_first(), x);
    }
}

/// The operations an action plans against a state: one per file of the
/// state whose watch-root-relative path matches, in listing order.
pub open spec fn action_ops(s: Seq<FileModel>, a: RuleAction) -> Seq<FileOpModel> {
    plan_ops_spec(a, fs_paths(s))
}

/// The state an action leaves behind: unchanged when a required field is
/// absent or when dry-run is active, else its whole plan applied.
pub open spec fn run_action_model(s: Seq<FileModel>, a: RuleAction, dry_run: bool) -> Seq<
    FileModel,
> {
    if !required_fields_present(a) || dry_run {
        s
    } else {
        apply_ops_model(s, action_ops(s, a))
    }
}

/// One outcome per planned operation: the k-th outcome reports success
/// exactly when the k-th operation applied to the state the first k left
/// behind, and every failure is a per-file I/O failure.
pub open spec fn outcomes_match(
    s: Seq<FileModel>,
    ops: Seq<FileOpModel>,
    outs: Seq<Result<(), ActionError>>,
) -> bool {
    &&& outs.len() == ops.len()
    &&& forall|k: int|
        0 <= k < ops.len() ==> ((#[trigger] outs[k]) is Ok <==> op_applicable(
            apply_ops_model(s, ops.take(k)),
            ops[k],
        ))
    &&& forall|k: int| 0 <= k < ops.len() && !((#[trigger] outs[k]) is Ok) ==> outs[k]->Err_0
        == ActionError::Io
}

/// Execute one action against the state: validate the kind's required
/// fields once, plan one operation per matched file, and apply the plan in
/// order, collecting one outcome per file and never letting one file's
/// failure touch another's. With dry-run active the same outcomes are
/// reported — one planned notification per matched file — and the state is
/// left untouched.
pub fn run_action(fs: &mut FsState, action: &RuleAction, dry_run: bool) -> (r: Result<
    Vec<Result<(), ActionError>>,
    ActionError,
>)
    requires
        old(fs).inv(),
    ensures
        final(fs).inv(),
        final(fs)@ == run_action_model(old(fs)@, *action, dry_run),
        r is Ok <==> required_fields_present(*action),
        r is Err ==> r->Err_0 == ActionError::MissingParameter,
        r is Ok ==> r->Ok_0@.len() == action_ops(old(fs)@, *action).len(),
        r is Ok && !dry_run ==> outcomes_match(old(fs)@, action_ops(old(fs)@, *action), r->Ok_0@),
        r is Ok && dry_run ==> forall|k: int|
            0 <= k < r->Ok_0@.len() ==> (#[trigger] r->Ok_0@[k]) is Ok,
{
    let listing = fs.list_paths();
    let plan = match action.execute(&listing) {
        Ok(p) => p,
        Err(e) => {
            return Err(e);
        },
    };
    let ghost ops = action_ops(fs@, *action);
    proof {
        assert(listing.deep_view() =~= fs_paths(fs@));
        assert(plan.deep_view() == ops);
    }
    let mut outcomes: Vec<Result<(), ActionError>> = Vec::new();
    let mut i: usize = 0;
    if dry_run {
        while i < plan.len()
            invariant
                i <= plan.len(),
                outcomes.len() == i,
                forall|k: int| 0 <= k < i ==> (#[trigger] outcomes@[k]) is Ok,
            decreases plan.len() - i,
        {
            outcomes.push(Ok(()));
            i += 1;
        }
        return Ok(outcomes);
    }
    while i < plan.len()
        invariant
            i <= plan.len(),
            outcomes.len() == i,
            fs.inv(),
            plan.deep_view() == ops,
            fs@ == apply_ops_model(old(fs)@, ops.take(i as int)),
            forall|k: int|
                0 <= k < i ==> ((#[trigger] outcomes@[k]) is Ok <==> op_applicable(
                    apply_ops_model(old(fs)@, ops.take(k)),
                    ops[k],
                )),
            forall|k: int| 0 <= k < i && !((#[trigger] outcomes@[k]) is Ok) ==> outcomes@[k]->Err_0
                == ActionError::Io,
        decreases plan.len() - i,
    {
        proof {
            assert(plan.deep_view()[i as int] == plan@[i as int].deep_view());
        }
        let res = fs.apply_op(&plan[i]);
        outcomes.push(res);
        proof {
            assert(ops.take(i as int).push(ops[i as int]) =~= ops.take(i + 1));
            lemma_apply_ops_snoc(old(fs)@, ops.take(i as int), ops[i as int]);
        }
        i += 1;
    }
    proof {
        assert(ops.take(ops.len() as int) =~= ops);
    }
    Ok(outcomes)
}

/// The state a rule leaves behind: its actions' effects composed in
/// declared order, each action seeing the state the previous one left.
pub open spec fn run_rule_model(s: Seq<FileModel>, actions: Seq<RuleAction>, dry_run: bool) -> Seq<
    FileModel,
>
    decreases actions.len(),
{
    if actions.len() == 0 {
        s
    } else {
        run_rule_model(run_action_model(s, actions[0], dry_run), actions.drop_first(), dry_run)
    }
}

/// Actions run strictly in declared order: a rule extended by one action
/// behaves as the rule followed by that action on the state the rule left
/// behind — later actions see the files earlier actions produced.
pub proof fn lemma_rule_sequencing(
    s: Seq<FileModel>,
    actions: Seq<RuleAction>,
    a: RuleAction,
    dry_run: bool,
)
    ensures
        run_rule_model(s, actions.push(a), dry_run) == run_action_model(
            run_rule_model(s, actions, dry_run),
            a,
            dry_run,
        ),
    decreases actions.len(),
{
    if actions.len() == 0 {
        reveal_with_fuel(run_rule_model, 2);
        assert(actions.push(a)[0] == a);
        assert(actions.push(a).drop_first() =~= Seq::<RuleAction>::empty());
    } else {
        assert(actions.push(a)[0] == actions[0]);
        assert(actions.push(a).drop_first() =~= actions.drop_first().push(a));
        lemma_rule_sequencing(
            run_action_model(s, actions[0], dry_run),
            actions.drop_first(),
            a,
            dry_run,
        );
    }
}

/// Execute a rule: its actions strictly in declared order, each to
/// completion before the next starts; an action that fails validation is
/// reported and the driver continues with the next action.
pub fn execute_rule(fs: &mut FsState, rule: &Rule, dry_run: bool) -> (r: Vec<
    Result<Vec<Result<(), ActionError>>, ActionError>,
>)
    requires
        old(fs).inv(),
    ensures
        final(fs).inv(),
        final(fs)@ == run_rule_model(old(fs)@, rule.actions@, dry_run),
        r@.len() == rule.actions@.len(),
        forall|k: int|
            0 <= k < r@.len() ==> ((#[trigger] r@[k]) is Ok <==> required_fields_present(
                rule.actions@[k],
            )),
{
    let mut results: Vec<Result<Vec<Result<(), ActionError>>, ActionError>> = Vec::new();
    let mut i: usize = 0;
    while i < rule.actions.len()
        invariant
            i <= rule.actions@.len(),
            results.len() == i,
            fs.inv(),
            fs@ == run_rule_model(old(fs)@, rule.actions@.take(i as int), dry_run),
            forall|k: int|
                0 <= k < i ==> ((#[trigger] results@[k]) is Ok <==> required_fields_present(
                    rule.actions@[k],
                )),
        decreases rule.actions@.len() - i,
    {
        let res = run_action(fs, &rule.actions[i], dry_run);
        results.push(res);
        proof {
            assert(rule.actions@.take(i as int).push(rule.actions@[i as int]) =~= rule.actions@.take(
                i + 1,
            ));
            lemma_rule_sequencing(
                old(fs)@,
                rule.actions@.take(i as int),
                rule.actions@[i as int],
                dry_run,
            );
        }
        i += 1;
    }
    proof {
        assert(rule.actions@.take(rule.actions@.len() as int) =~= rule.actions@);
    }
    results
}

/// The state a whole rule set leaves behind: its rules' effects composed in
/// declaration order.
pub open spec fn run_rules_model(s: Seq<FileModel>, entries: Seq<(String, Rule)>, dry_run: bool) -> Seq<
    FileModel,
>
    decreases entries.len(),
{
    if entries.len() == 0 {
        s
    } else {
        run_rules_model(
            run_rule_model(s, entries[0].1.actions@, dry_run),
            entries.drop_first(),
            dry_run,
        )
    }
}

/// Extending a rule set by one rule runs it on the state the earlier rules
/// left behind.
pub proof fn lemma_rules_snoc(
    s: Seq<FileModel>,
    entries: Seq<(String, Rule)>,
    e: (String, Rule),
    dry_run: bool,
)
    ensures
        run_rules_model(s, entries.push(e), dry_run) == run_rule_model(
            run_rules_model(s, entries, dry_run),
            e.1.actions@,
            dry_run,
        ),
    decreases entries.len(),
{
    if entries.len() == 0 {
        reveal_with_fuel(run_rules_model, 2);
        assert(entries.push(e)[0] == e);
        assert(entries.push(e).drop_first() =~= Seq::<(String, Rule)>::empty());
    } else {
        assert(entries.push(e)[0] == entries[0]);
        assert(entries.push(e).drop_first() =~= entries.drop_first().push(e));
        lemma_rules_snoc(
            run_rule_model(s, entries[0].1.actions@, dry_run),
            entries.drop_first(),
            e,
            dry_run,
        );
    }
}

/// Run every rule of the set in declaration order; a rule's failures are
/// reported by [`execute_rule`]'s outcomes and never halt later rules.
pub fn run(fs: &mut FsState, rules: &Rules, dry_run: bool) -> (r: Vec<
    Vec<Result<Vec<Result<(), ActionError>>, ActionError>>,
>)
    requires
        old(fs).inv(),
    ensures
        final(fs).inv(),
        final(fs)@ == run_rules_model(old(fs)@, rules.entries@, dry_run),
        r@.len() == rules.entries@.len(),
{
    let mut reports: Vec<Vec<Result<Vec<Result<(), ActionError>>, ActionError>>> = Vec::new();
    let mut i: usize = 0;
    while i < rules.entries.len()
        invariant
            i <= rules.entries@.len(),
            reports.len() == i,
            fs.inv(),
            fs@ == run_rules_model(old(fs)@, rules.entries@.take(i as int), dry_run),
        decreases rules.entries@.len() - i,
    {
        let report = execute_rule(fs, &rules.entries[i].1, dry_run);
        reports.push(report);
        proof {
            assert(rules.entries@.take(i as int).push(rules.entries@[i as int])
                =~= rules.entries@.take(i + 1));
            lemma_rules_snoc(
                old(fs)@,
                rules.entries@.take(i as int),
                rules.entries@[i as int],
                dry_run,
            );
        }
        i += 1;
    }
    proof {
        assert(rules.entries@.take(rules.entries@.len() as int) =~= rules.entries@);
    }
    reports
}

/// A rename whose computed target equals the source is a no-op: the planner
/// emits no mutation for such a file, so running the action again on an
/// already-renamed file succeeds and changes nothing.
pub proof fn lemma_rename_idempotent(a: RuleAction, s: Seq<FileModel>, p: Seq<char>)
    requires
        a.action is Rename,
        required_fields_present(a),
    ensures
        rename_target_spec(a.watch_dir@, p, a.match_regex->0@, a.rename_pattern->0@) == p
            ==> planned_op_spec(a, p) is NoOp && op_applicable(s, planned_op_spec(a, p))
            && apply_op_model(s, planned_op_spec(a, p)) == s,
{
}

/// Fault isolation: when the k-th planned operation fails, the final state
/// is exactly what running the plan without that operation produces — every
/// other file is still processed, with unchanged effect.
pub proof fn lemma_fault_isolation(s: Seq<FileModel>, ops: Seq<FileOpModel>, k: int)
    requires
        0 <= k < ops.len(),
    ensures
        !op_applicable(apply_ops_model(s, ops.take(k)), ops[k]) ==> apply_ops_model(s, ops)
            == apply_ops_model(s, ops.remove(k)),
    decreases k,
{
    if !op_applicable(apply_ops_model(s, ops.take(k)), ops[k]) {
        if k == 0 {
            assert(ops.take(0) =~= Seq::<FileOpModel>::empty());
            assert(apply_op_model(s, ops[0]) == s);
            assert(ops.remove(0) =~= ops.drop_first());
        } else {
            let s1 = apply_op_model(s, ops[0]);
            assert(ops.take(k)[0] == ops[0]);
            assert(ops.take(k).drop_first() =~= ops.drop_first().take(k - 1));
            assert(ops.drop_first()[k - 1] == ops[k]);
            lemma_fault_isolation(s1, ops.drop_first(), k - 1);
            assert(ops.remove(k)[0] == ops[0]);
            assert(ops.remove(k).drop_first() =~= ops.drop_first().remove(k - 1));
        }
    }
}

} // verus!
