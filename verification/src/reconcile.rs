//! The reconciliation engine: maps each declaration to zero or more store
//! calls, handling rename-matching, create/update/skip precedence, and
//! dry-run simulation, and records one outcome per action taken.
//!
//! The whole pass is defined mathematically by `spec_reconcile`; the
//! executable engine is proved to produce exactly its outcomes and its final
//! store.

use vstd::prelude::*;
use crate::color::{
    color_digit_message,
    color_length_message,
    lower_hex,
    normalize_color,
    strip_hash,
    valid_color_chars,
};
use crate::config::{Label, LabelConfig, LabelDecl, ConfigData};
use crate::models::{CreateLabelRequest, UpdateLabelRequest, UpdateRequestData};
use crate::store::{entry_of, updated_label, LabelEntry, LabelStore};
use crate::text::{contains_seq, contains_str};
use crate::vec_util::push_and_view;

verus! {

/// What one reconciliation step did.
#[derive(Clone, Copy, Debug, PartialEq, Eq, Structural)]
pub enum ReconcileAction {
    Renamed,
    Created,
    Updated,
    Skipped,
    Deleted,
    Failed,
}

/// One recorded outcome: the action taken, the label name acted upon, and a
/// detail message where there is one (a failure reason, or why a step was
/// skipped).
#[derive(Debug)]
pub struct Outcome {
    pub action: ReconcileAction,
    pub subject: String,
    pub detail: Option<String>,
}

/// The mathematical value of an outcome.
pub struct OutcomeData {
    pub action: ReconcileAction,
    pub subject: Seq<char>,
    pub detail: Option<Seq<char>>,
}

impl View for Outcome {
    type V = OutcomeData;

    open spec fn view(&self) -> OutcomeData {
        OutcomeData {
            action: self.action,
            subject: self.subject@,
            detail: self.detail.deep_view(),
        }
    }
}

impl DeepView for Outcome {
    type V = OutcomeData;

    open spec fn deep_view(&self) -> OutcomeData {
        self.view()
    }
}

/// A remote call, as the engine issues them. The engine's contract counts
/// and orders these; a dry run issues none.
#[allow(inconsistent_fields)]
pub enum CallData {
    Create { name: Seq<char>, color: Seq<char>, description: Option<Seq<char>> },
    Update {
        name: Seq<char>,
        new_name: Option<Seq<char>>,
        color: Option<Seq<char>>,
        description: Option<Seq<char>>,
    },
    Delete { name: Seq<char> },
}

/// Which of the three mutually exclusive branches a declaration falls under:
/// a rename search when it lists candidate names, creation (with conflict
/// resolution) when it carries a color, and otherwise an update in place.
#[derive(Clone, Copy, Debug, PartialEq, Eq, Structural)]
pub enum Branch {
    RenameSearch,
    CreateOrResolve,
    UpdateOnly,
}

/// The branch a declaration falls under, from its fields alone.
pub open spec fn spec_branch(d: LabelDecl) -> Branch {
    if d.update_if_match.len() > 0 {
        Branch::RenameSearch
    } else if d.color is Some {
        Branch::CreateOrResolve
    } else {
        Branch::UpdateOnly
    }
}

/// Decides the branch of one declaration.
pub fn branch_of(label: &Label) -> (b: Branch)
    ensures
        b == spec_branch(label@),
{
    if label.update_if_match.len() > 0 {
        Branch::RenameSearch
    } else if label.color.is_some() {
        Branch::CreateOrResolve
    } else {
        Branch::UpdateOnly
    }
}

/// How a name conflict on creation is resolved: update the existing label,
/// skip it, or fail. `update_if_exists` takes precedence; the skip answer
/// also honours the caller-wide skip flag.
#[derive(Clone, Copy, Debug, PartialEq, Eq, Structural)]
pub enum ConflictPolicy {
    UpdateInstead,
    Skip,
    Fail,
}

/// The conflict policy of one declaration under a caller-wide skip flag.
pub open spec fn spec_resolve_conflict(d: LabelDecl, skip_existing: bool) -> ConflictPolicy {
    if d.update_if_exists {
        ConflictPolicy::UpdateInstead
    } else if d.skip_if_exists || skip_existing {
        ConflictPolicy::Skip
    } else {
        ConflictPolicy::Fail
    }
}

/// Decides the conflict policy of one declaration.
pub fn resolve_conflict(label: &Label, skip_existing: bool) -> (p: ConflictPolicy)
    ensures
        p == spec_resolve_conflict(label@, skip_existing),
{
    if label.update_if_exists {
        ConflictPolicy::UpdateInstead
    } else if label.skip_if_exists || skip_existing {
        ConflictPolicy::Skip
    } else {
        ConflictPolicy::Fail
    }
}

/// Classifies a remote failure text as the store's not-found signal.
pub fn is_not_found_message(msg: &str) -> (r: bool)
    ensures
        r == (contains_seq(msg@, "Not Found"@) || contains_seq(msg@, "404"@)),
{
    contains_str(msg, "Not Found") || contains_str(msg, "404")
}

/// Classifies a remote failure text as the store's ambiguous name-conflict
/// signal.
pub fn is_already_exists_message(msg: &str) -> (r: bool)
    ensures
        r == contains_seq(msg@, "already_exists"@),
{
    contains_str(msg, "already_exists")
}

/// The detail recorded when a name is absent.
pub open spec fn not_found_message() -> Seq<char> {
    "not found"@
}

/// The detail recorded when a name is already taken.
pub open spec fn exists_message() -> Seq<char> {
    "already exists"@
}

/// An outcome without detail.
pub open spec fn outcome(action: ReconcileAction, subject: Seq<char>) -> OutcomeData {
    OutcomeData { action, subject, detail: None }
}

/// An outcome carrying a detail message.
pub open spec fn outcome_with(
    action: ReconcileAction,
    subject: Seq<char>,
    detail: Seq<char>,
) -> OutcomeData {
    OutcomeData { action, subject, detail: Some(detail) }
}

/// Whether the declaration's color, if any, is well-formed.
pub open spec fn decl_color_ok(d: LabelDecl) -> bool {
    match d.color {
        Some(c) => valid_color_chars(strip_hash(c)),
        None => true,
    }
}

/// The declaration's color in normalized form, when present and well-formed.
pub open spec fn decl_color(d: LabelDecl) -> Option<Seq<char>> {
    match d.color {
        Some(c) => Some(lower_hex(strip_hash(c))),
        None => None,
    }
}

/// The detail recorded for a malformed color.
pub open spec fn color_error_message(c: Seq<char>) -> Seq<char> {
    if strip_hash(c).len() != 6 {
        color_length_message()
    } else {
        color_digit_message()
    }
}

/// What one engine step leaves behind: the outcomes recorded, the store as
/// the step leaves it, and the remote calls issued.
#[verifier::ext_equal]
pub struct StepData {
    pub outcomes: Seq<OutcomeData>,
    pub store: Map<Seq<char>, LabelEntry>,
    pub calls: Seq<CallData>,
}

/// A rename search's running state: outcomes, store, calls, and whether any
/// candidate has matched so far.
#[verifier::ext_equal]
pub struct RenameData {
    pub outcomes: Seq<OutcomeData>,
    pub store: Map<Seq<char>, LabelEntry>,
    pub calls: Seq<CallData>,
    pub found: bool,
}

/// The update call a rename search issues for one candidate.
pub open spec fn rename_update_request(d: LabelDecl) -> UpdateRequestData {
    UpdateRequestData { name: Some(d.name), color: decl_color(d), description: d.description }
}

/// One candidate of a rename search: a present candidate is renamed into the
/// declared name (folding it onto any label already holding that name) and
/// marks the search as satisfied; an absent one is recorded as an auxiliary
/// skip.
pub open spec fn candidate_step(
    d: LabelDecl,
    c: Seq<char>,
    s: Map<Seq<char>, LabelEntry>,
) -> RenameData {
    let call = CallData::Update {
        name: c,
        new_name: Some(d.name),
        color: decl_color(d),
        description: d.description,
    };
    if s.contains_key(c) {
        let l2 = updated_label(c, s[c], rename_update_request(d));
        RenameData {
            outcomes: seq![outcome(ReconcileAction::Renamed, c)],
            store: s.remove(c).insert(l2.name, entry_of(l2)),
            calls: seq![call],
            found: true,
        }
    } else {
        RenameData {
            outcomes: seq![outcome_with(ReconcileAction::Skipped, c, not_found_message())],
            store: s,
            calls: seq![call],
            found: false,
        }
    }
}

/// The rename search over the candidates, in order.
pub open spec fn apply_candidates(
    d: LabelDecl,
    cands: Seq<Seq<char>>,
    s: Map<Seq<char>, LabelEntry>,
) -> RenameData
    decreases cands.len(),
{
    if cands.len() == 0 {
        RenameData { outcomes: Seq::empty(), store: s, calls: Seq::empty(), found: false }
    } else {
        let st = candidate_step(d, cands[0], s);
        let rest = apply_candidates(d, cands.drop_first(), st.store);
        RenameData {
            outcomes: st.outcomes + rest.outcomes,
            store: rest.store,
            calls: st.calls + rest.calls,
            found: st.found || rest.found,
        }
    }
}

/// One `Renamed` outcome per candidate, in order.
pub open spec fn renamed_outcomes(cands: Seq<Seq<char>>) -> Seq<OutcomeData> {
    cands.map_values(|c: Seq<char>| outcome(ReconcileAction::Renamed, c))
}

/// The outcomes a dry run records for one declaration: the success path of
/// its branch, one entry per rename candidate.
pub open spec fn dry_decl_outcomes(d: LabelDecl) -> Seq<OutcomeData> {
    match spec_branch(d) {
        Branch::RenameSearch => renamed_outcomes(d.update_if_match),
        Branch::CreateOrResolve => seq![outcome(ReconcileAction::Created, d.name)],
        Branch::UpdateOnly => seq![outcome(ReconcileAction::Updated, d.name)],
    }
}

/// One declaration, reconciled against the store.
///
/// A dry run records the planned outcomes and touches nothing. A malformed
/// color fails the declaration before any call. Otherwise the declaration's
/// branch runs: the rename search (falling through to a creation attempt
/// when nothing matched and a color is declared, and to nothing at all when
/// nothing matched and no color is declared); creation with conflict
/// resolution by policy; or an update in place, failing when the name is
/// absent.
pub open spec fn apply_decl(
    d: LabelDecl,
    s: Map<Seq<char>, LabelEntry>,
    dry_run: bool,
    skip_existing: bool,
) -> StepData {
    if dry_run {
        StepData { outcomes: dry_decl_outcomes(d), store: s, calls: Seq::empty() }
    } else if !decl_color_ok(d) {
        StepData {
            outcomes: seq![
                outcome_with(ReconcileAction::Failed, d.name, color_error_message(d.color->0)),
            ],
            store: s,
            calls: Seq::empty(),
        }
    } else {
        match spec_branch(d) {
            Branch::RenameSearch => {
                let r = apply_candidates(d, d.update_if_match, s);
                if !r.found && d.color is Some {
                    let call = CallData::Create {
                        name: d.name,
                        color: decl_color(d)->0,
                        description: d.description,
                    };
                    if r.store.contains_key(d.name) {
                        StepData {
                            outcomes: r.outcomes.push(
                                outcome_with(ReconcileAction::Failed, d.name, exists_message()),
                            ),
                            store: r.store,
                            calls: r.calls.push(call),
                        }
                    } else {
                        StepData {
                            outcomes: r.outcomes.push(outcome(ReconcileAction::Created, d.name)),
                            store: r.store.insert(
                                d.name,
                                LabelEntry { color: decl_color(d)->0, description: d.description },
                            ),
                            calls: r.calls.push(call),
                        }
                    }
                } else {
                    StepData { outcomes: r.outcomes, store: r.store, calls: r.calls }
                }
            },
            Branch::CreateOrResolve => {
                let col = decl_color(d)->0;
                let call = CallData::Create { name: d.name, color: col, description: d.description };
                if !s.contains_key(d.name) {
                    StepData {
                        outcomes: seq![outcome(ReconcileAction::Created, d.name)],
                        store: s.insert(d.name, LabelEntry { color: col, description: d.description }),
                        calls: seq![call],
                    }
                } else {
                    match spec_resolve_conflict(d, skip_existing) {
                        ConflictPolicy::UpdateInstead => {
                            let req = UpdateRequestData {
                                name: None,
                                color: Some(col),
                                description: d.description,
                            };
                            let l2 = updated_label(d.name, s[d.name], req);
                            let ucall = CallData::Update {
                                name: d.name,
                                new_name: None,
                                color: Some(col),
                                description: d.description,
                            };
                            StepData {
                                outcomes: seq![outcome(ReconcileAction::Updated, d.name)],
                                store: s.remove(d.name).insert(l2.name, entry_of(l2)),
                                calls: seq![call, ucall],
                            }
                        },
                        ConflictPolicy::Skip => StepData {
                            outcomes: seq![
                                outcome_with(ReconcileAction::Skipped, d.name, exists_message()),
                            ],
                            store: s,
                            calls: seq![call],
                        },
                        ConflictPolicy::Fail => StepData {
                            outcomes: seq![
                                outcome_with(ReconcileAction::Failed, d.name, exists_message()),
                            ],
                            store: s,
                            calls: seq![call],
                        },
                    }
                }
            },
            Branch::UpdateOnly => {
                let req = UpdateRequestData { name: None, color: None, description: d.description };
                let call = CallData::Update {
                    name: d.name,
                    new_name: None,
                    color: None,
                    description: d.description,
                };
                if s.contains_key(d.name) {
                    let l2 = updated_label(d.name, s[d.name], req);
                    StepData {
                        outcomes: seq![outcome(ReconcileAction::Updated, d.name)],
                        store: s.remove(d.name).insert(l2.name, entry_of(l2)),
                        calls: seq![call],
                    }
                } else {
                    StepData {
                        outcomes: seq![
                            outcome_with(ReconcileAction::Failed, d.name, not_found_message()),
                        ],
                        store: s,
                        calls: seq![call],
                    }
                }
            },
        }
    }
}

/// One deletion: the name is removed, or the step fails when it is absent; a
/// dry run records the planned deletion and touches nothing.
pub open spec fn apply_delete(
    n: Seq<char>,
    s: Map<Seq<char>, LabelEntry>,
    dry_run: bool,
) -> StepData {
    if dry_run {
        StepData { outcomes: seq![outcome(ReconcileAction::Deleted, n)], store: s, calls: Seq::empty() }
    } else {
        let call = CallData::Delete { name: n };
        if s.contains_key(n) {
            StepData {
                outcomes: seq![outcome(ReconcileAction::Deleted, n)],
                store: s.remove(n),
                calls: seq![call],
            }
        } else {
            StepData {
                outcomes: seq![outcome_with(ReconcileAction::Failed, n, not_found_message())],
                store: s,
                calls: seq![call],
            }
        }
    }
}

/// The declarations, reconciled in document order.
pub open spec fn apply_decls(
    ds: Seq<LabelDecl>,
    s: Map<Seq<char>, LabelEntry>,
    dry_run: bool,
    skip_existing: bool,
) -> StepData
    decreases ds.len(),
{
    if ds.len() == 0 {
        StepData { outcomes: Seq::empty(), store: s, calls: Seq::empty() }
    } else {
        let first = apply_decl(ds[0], s, dry_run, skip_existing);
        let rest = apply_decls(ds.drop_first(), first.store, dry_run, skip_existing);
        StepData {
            outcomes: first.outcomes + rest.outcomes,
            store: rest.store,
            calls: first.calls + rest.calls,
        }
    }
}

/// The deletions, applied in document order.
pub open spec fn apply_deletes(
    ns: Seq<Seq<char>>,
    s: Map<Seq<char>, LabelEntry>,
    dry_run: bool,
) -> StepData
    decreases ns.len(),
{
    if ns.len() == 0 {
        StepData { outcomes: Seq::empty(), store: s, calls: Seq::empty() }
    } else {
        let first = apply_delete(ns[0], s, dry_run);
        let rest = apply_deletes(ns.drop_first(), first.store, dry_run);
        StepData {
            outcomes: first.outcomes + rest.outcomes,
            store: rest.store,
            calls: first.calls + rest.calls,
        }
    }
}

/// The whole reconciliation pass: every declaration in document order, then
/// every deletion in document order, so that renames and creations always
/// precede deletions.
pub open spec fn spec_reconcile(
    c: ConfigData,
    s: Map<Seq<char>, LabelEntry>,
    dry_run: bool,
    skip_existing: bool,
) -> StepData {
    let a = apply_decls(c.labels, s, dry_run, skip_existing);
    let b = apply_deletes(c.delete, a.store, dry_run);
    StepData { outcomes: a.outcomes + b.outcomes, store: b.store, calls: a.calls + b.calls }
}

proof fn lemma_candidates_snoc(
    d: LabelDecl,
    cands: Seq<Seq<char>>,
    c: Seq<char>,
    s: Map<Seq<char>, LabelEntry>,
)
    ensures
        ({
            let r = apply_candidates(d, cands, s);
            let st = candidate_step(d, c, r.store);
            let whole = apply_candidates(d, cands.push(c), s);
            whole.outcomes =~= r.outcomes + st.outcomes && whole.store == st.store
                && whole.calls =~= r.calls + st.calls && whole.found == (r.found || st.found)
        }),
    decreases cands.len(),
{
    if cands.len() == 0 {
        assert(cands.push(c)[0] == c);
        assert(cands.push(c).drop_first() =~= Seq::<Seq<char>>::empty());
        let st = candidate_step(d, c, s);
        let rest = apply_candidates(d, cands.push(c).drop_first(), st.store);
        assert(rest.outcomes =~= Seq::<OutcomeData>::empty());
        assert(st.outcomes + rest.outcomes =~= st.outcomes);
        assert(st.calls + rest.calls =~= st.calls);
        let r = apply_candidates(d, cands, s);
        assert(r.outcomes + st.outcomes =~= st.outcomes);
        assert(r.calls + st.calls =~= st.calls);
    } else {
        let st0 = candidate_step(d, cands[0], s);
        lemma_candidates_snoc(d, cands.drop_first(), c, st0.store);
        assert(cands.push(c)[0] == cands[0]);
        assert(cands.push(c).drop_first() =~= cands.drop_first().push(c));
        let r1 = apply_candidates(d, cands.drop_first(), st0.store);
        let st = candidate_step(d, c, r1.store);
        assert(st0.outcomes + (r1.outcomes + st.outcomes) =~= (st0.outcomes + r1.outcomes)
            + st.outcomes);
        assert(st0.calls + (r1.calls + st.calls) =~= (st0.calls + r1.calls) + st.calls);
    }
}

proof fn lemma_decls_snoc(
    ds: Seq<LabelDecl>,
    d: LabelDecl,
    s: Map<Seq<char>, LabelEntry>,
    dry_run: bool,
    skip_existing: bool,
)
    ensures
        ({
            let r = apply_decls(ds, s, dry_run, skip_existing);
            let st = apply_decl(d, r.store, dry_run, skip_existing);
            let whole = apply_decls(ds.push(d), s, dry_run, skip_existing);
            whole.outcomes =~= r.outcomes + st.outcomes && whole.store == st.store
                && whole.calls =~= r.calls + st.calls
        }),
    decreases ds.len(),
{
    if ds.len() == 0 {
        assert(ds.push(d)[0] == d);
        assert(ds.push(d).drop_first() =~= Seq::<LabelDecl>::empty());
        let st = apply_decl(d, s, dry_run, skip_existing);
        let rest = apply_decls(ds.push(d).drop_first(), st.store, dry_run, skip_existing);
        assert(rest.outcomes =~= Seq::<OutcomeData>::empty());
        assert(st.outcomes + rest.outcomes =~= st.outcomes);
        assert(st.calls + rest.calls =~= st.calls);
        let r = apply_decls(ds, s, dry_run, skip_existing);
        assert(r.outcomes + st.outcomes =~= st.outcomes);
        assert(r.calls + st.calls =~= st.calls);
    } else {
        let st0 = apply_decl(ds[0], s, dry_run, skip_existing);
        lemma_decls_snoc(ds.drop_first(), d, st0.store, dry_run, skip_existing);
        assert(ds.push(d)[0] == ds[0]);
        assert(ds.push(d).drop_first() =~= ds.drop_first().push(d));
        let r1 = apply_decls(ds.drop_first(), st0.store, dry_run, skip_existing);
        let st = apply_decl(d, r1.store, dry_run, skip_existing);
        assert(st0.outcomes + (r1.outcomes + st.outcomes) =~= (st0.outcomes + r1.outcomes)
            + st.outcomes);
        assert(st0.calls + (r1.calls + st.calls) =~= (st0.calls + r1.calls) + st.calls);
    }
}

proof fn lemma_deletes_snoc(ns: Seq<Seq<char>>, n: Seq<char>, s: Map<Seq<char>, LabelEntry>, dry_run: bool)
    ensures
        ({
            let r = apply_deletes(ns, s, dry_run);
            let st = apply_delete(n, r.store, dry_run);
            let whole = apply_deletes(ns.push(n), s, dry_run);
            whole.outcomes =~= r.outcomes + st.outcomes && whole.store == st.store
                && whole.calls =~= r.calls + st.calls
        }),
    decreases ns.len(),
{
    if ns.len() == 0 {
        assert(ns.push(n)[0] == n);
        assert(ns.push(n).drop_first() =~= Seq::<Seq<char>>::empty());
        let st = apply_delete(n, s, dry_run);
        let rest = apply_deletes(ns.push(n).drop_first(), st.store, dry_run);
        assert(rest.outcomes =~= Seq::<OutcomeData>::empty());
        assert(st.outcomes + rest.outcomes =~= st.outcomes);
        assert(st.calls + rest.calls =~= st.calls);
        let r = apply_deletes(ns, s, dry_run);
        assert(r.outcomes + st.outcomes =~= st.outcomes);
        assert(r.calls + st.calls =~= st.calls);
    } else {
        let st0 = apply_delete(ns[0], s, dry_run);
        lemma_deletes_snoc(ns.drop_first(), n, st0.store, dry_run);
        assert(ns.push(n)[0] == ns[0]);
        assert(ns.push(n).drop_first() =~= ns.drop_first().push(n));
        let r1 = apply_deletes(ns.drop_first(), st0.store, dry_run);
        let st = apply_delete(n, r1.store, dry_run);
        assert(st0.outcomes + (r1.outcomes + st.outcomes) =~= (st0.outcomes + r1.outcomes)
            + st.outcomes);
        assert(st0.calls + (r1.calls + st.calls) =~= (st0.calls + r1.calls) + st.calls);
    }
}

/// A copy of an optional string, field for field.
fn clone_opt(o: &Option<String>) -> (r: Option<String>)
    ensures
        r.deep_view() == o.deep_view(),
{
    match o {
        Some(s) => Some(s.clone()),
        None => None,
    }
}

/// Reconciles one declaration against the store, appending its outcomes.
fn apply_declaration(
    label: &Label,
    store: &mut LabelStore,
    dry_run: bool,
    skip_existing: bool,
    outcomes: &mut Vec<Outcome>,
)
    requires
        old(store).wf(),
    ensures
        final(store).wf(),
        final(outcomes).deep_view() == old(outcomes).deep_view() + apply_decl(
            label@,
            old(store)@,
            dry_run,
            skip_existing,
        ).outcomes,
        final(store)@ == apply_decl(label@, old(store)@, dry_run, skip_existing).store,
{
    let ghost base = outcomes.deep_view();
    let ghost s0 = store@;
    let ghost dd = label@;
    if dry_run {
        match branch_of(label) {
            Branch::RenameSearch => {
                let n = label.update_if_match.len();
                let mut j: usize = 0;
                while j < n
                    invariant
                        0 <= j <= n,
                        n == label.update_if_match.len(),
                        dd == label@,
                        outcomes.deep_view() =~= base + renamed_outcomes(
                            dd.update_if_match.take(j as int),
                        ),
                    decreases n - j,
                {
                    push_and_view(
                        outcomes,
                        Outcome {
                            action: ReconcileAction::Renamed,
                            subject: label.update_if_match[j].clone(),
                            detail: None,
                        },
                    );
                    proof {
                        assert(renamed_outcomes(dd.update_if_match.take(j + 1)) =~= renamed_outcomes(
                            dd.update_if_match.take(j as int),
                        ).push(outcome(ReconcileAction::Renamed, dd.update_if_match[j as int])));
                        assert(outcomes.deep_view() =~= base + renamed_outcomes(
                            dd.update_if_match.take(j + 1),
                        ));
                    }
                    j = j + 1;
                }
                proof {
                    assert(dd.update_if_match.take(n as int) =~= dd.update_if_match);
                }
            },
            Branch::CreateOrResolve => {
                push_and_view(
                    outcomes,
                    Outcome {
                        action: ReconcileAction::Created,
                        subject: label.name.clone(),
                        detail: None,
                    },
                );
                proof {
                    assert(outcomes.deep_view() =~= base + dry_decl_outcomes(dd));
                }
            },
            Branch::UpdateOnly => {
                push_and_view(
                    outcomes,
                    Outcome {
                        action: ReconcileAction::Updated,
                        subject: label.name.clone(),
                        detail: None,
                    },
                );
                proof {
                    assert(outcomes.deep_view() =~= base + dry_decl_outcomes(dd));
                }
            },
        }
        return ;
    }
    let norm: Option<String> = match &label.color {
        Some(c) => match normalize_color(c.as_str()) {
            Ok(s) => Some(s),
            Err(e) => {
                let detail = e.message().clone();
                push_and_view(
                    outcomes,
                    Outcome {
                        action: ReconcileAction::Failed,
                        subject: label.name.clone(),
                        detail: Some(detail),
                    },
                );
                proof {
                    assert(!decl_color_ok(dd));
                    assert(outcomes.deep_view() =~= base + apply_decl(
                        dd,
                        s0,
                        dry_run,
                        skip_existing,
                    ).outcomes);
                }
                return ;
            },
        },
        None => None,
    };
    proof {
        assert(decl_color_ok(dd));
        assert(norm.deep_view() == decl_color(dd));
    }
    match branch_of(label) {
        Branch::RenameSearch => {
            let mut found = false;
            let n = label.update_if_match.len();
            let mut j: usize = 0;
            while j < n
                invariant
                    store.wf(),
                    0 <= j <= n,
                    n == label.update_if_match.len(),
                    dd == label@,
                    decl_color_ok(dd),
                    norm.deep_view() == decl_color(dd),
                    ({
                        let r = apply_candidates(dd, dd.update_if_match.take(j as int), s0);
                        outcomes.deep_view() == base + r.outcomes && store@ == r.store && found
                            == r.found
                    }),
                decreases n - j,
            {
                let ghost r_prev = apply_candidates(dd, dd.update_if_match.take(j as int), s0);
                let cand = &label.update_if_match[j];
                let req = UpdateLabelRequest {
                    name: Some(label.name.clone()),
                    color: clone_opt(&norm),
                    description: clone_opt(&label.description),
                };
                proof {
                    assert(req@ == rename_update_request(dd));
                    assert(cand@ == dd.update_if_match[j as int]);
                }
                match store.update(cand.as_str(), &req) {
                    Ok(_) => {
                        push_and_view(
                            outcomes,
                            Outcome {
                                action: ReconcileAction::Renamed,
                                subject: cand.clone(),
                                detail: None,
                            },
                        );
                        found = true;
                    },
                    Err(_) => {
                        push_and_view(
                            outcomes,
                            Outcome {
                                action: ReconcileAction::Skipped,
                                subject: cand.clone(),
                                detail: Some(String::from_str("not found")),
                            },
                        );
                    },
                }
                proof {
                    let st = candidate_step(dd, dd.update_if_match[j as int], r_prev.store);
                    assert(outcomes.deep_view() =~= base + (r_prev.outcomes + st.outcomes));
                    lemma_candidates_snoc(
                        dd,
                        dd.update_if_match.take(j as int),
                        dd.update_if_match[j as int],
                        s0,
                    );
                    assert(dd.update_if_match.take(j as int).push(dd.update_if_match[j as int])
                        =~= dd.update_if_match.take(j + 1));
                    assert(outcomes.deep_view() =~= base + apply_candidates(
                        dd,
                        dd.update_if_match.take(j + 1),
                        s0,
                    ).outcomes);
                }
                j = j + 1;
            }
            proof {
                assert(dd.update_if_match.take(n as int) =~= dd.update_if_match);
            }
            if !found {
                match &norm {
                    Some(colstr) => {
                        let ghost r = apply_candidates(dd, dd.update_if_match, s0);
                        let req = CreateLabelRequest {
                            name: label.name.clone(),
                            color: colstr.clone(),
                            description: clone_opt(&label.description),
                        };
                        match store.create(&req) {
                            Ok(_) => {
                                push_and_view(
                                    outcomes,
                                    Outcome {
                                        action: ReconcileAction::Created,
                                        subject: label.name.clone(),
                                        detail: None,
                                    },
                                );
                            },
                            Err(_) => {
                                push_and_view(
                                    outcomes,
                                    Outcome {
                                        action: ReconcileAction::Failed,
                                        subject: label.name.clone(),
                                        detail: Some(String::from_str("already exists")),
                                    },
                                );
                            },
                        }
                        proof {
                            assert(outcomes.deep_view() =~= base + apply_decl(
                                dd,
                                s0,
                                dry_run,
                                skip_existing,
                            ).outcomes);
                        }
                    },
                    None => {},
                }
            }
        },
        Branch::CreateOrResolve => {
            match &norm {
                Some(colstr) => {
                    let req = CreateLabelRequest {
                        name: label.name.clone(),
                        color: colstr.clone(),
                        description: clone_opt(&label.description),
                    };
                    match store.create(&req) {
                        Ok(_) => {
                            push_and_view(
                                outcomes,
                                Outcome {
                                    action: ReconcileAction::Created,
                                    subject: label.name.clone(),
                                    detail: None,
                                },
                            );
                            proof {
                                assert(outcomes.deep_view() =~= base + apply_decl(
                                    dd,
                                    s0,
                                    dry_run,
                                    skip_existing,
                                ).outcomes);
                            }
                        },
                        Err(_) => {
                            match resolve_conflict(label, skip_existing) {
                                ConflictPolicy::UpdateInstead => {
                                    let ureq = UpdateLabelRequest {
                                        name: None,
                                        color: Some(colstr.clone()),
                                        description: clone_opt(&label.description),
                                    };
                                    match store.update(label.name.as_str(), &ureq) {
                                        Ok(_) => {
                                            push_and_view(
                                                outcomes,
                                                Outcome {
                                                    action: ReconcileAction::Updated,
                                                    subject: label.name.clone(),
                                                    detail: None,
                                                },
                                            );
                                            proof {
                                                assert(outcomes.deep_view() =~= base + apply_decl(
                                                    dd,
                                                    s0,
                                                    dry_run,
                                                    skip_existing,
                                                ).outcomes);
                                            }
                                        },
                                        Err(_) => {
                                            proof {
                                                assert(false);
                                            }
                                        },
                                    }
                                },
                                ConflictPolicy::Skip => {
                                    push_and_view(
                                        outcomes,
                                        Outcome {
                                            action: ReconcileAction::Skipped,
                                            subject: label.name.clone(),
                                            detail: Some(String::from_str("already exists")),
                                        },
                                    );
                                    proof {
                                        assert(outcomes.deep_view() =~= base + apply_decl(
                                            dd,
                                            s0,
                                            dry_run,
                                            skip_existing,
                                        ).outcomes);
                                    }
                                },
                                ConflictPolicy::Fail => {
                                    push_and_view(
                                        outcomes,
                                        Outcome {
                                            action: ReconcileAction::Failed,
                                            subject: label.name.clone(),
                                            detail: Some(String::from_str("already exists")),
                                        },
                                    );
                                    proof {
                                        assert(outcomes.deep_view() =~= base + apply_decl(
                                            dd,
                                            s0,
                                            dry_run,
                                            skip_existing,
                                        ).outcomes);
                                    }
                                },
                            }
                        },
                    }
                },
                None => {
                    proof {
                        assert(false);
                    }
                },
            }
        },
        Branch::UpdateOnly => {
            let ureq = UpdateLabelRequest {
                name: None,
                color: None,
                description: clone_opt(&label.description),
            };
            match store.update(label.name.as_str(), &ureq) {
                Ok(_) => {
                    push_and_view(
                        outcomes,
                        Outcome {
                            action: ReconcileAction::Updated,
                            subject: label.name.clone(),
                            detail: None,
                        },
                    );
                },
                Err(_) => {
                    push_and_view(
                        outcomes,
                        Outcome {
                            action: ReconcileAction::Failed,
                            subject: label.name.clone(),
                            detail: Some(String::from_str("not found")),
                        },
                    );
                },
            }
            proof {
                assert(outcomes.deep_view() =~= base + apply_decl(
                    dd,
                    s0,
                    dry_run,
                    skip_existing,
                ).outcomes);
            }
        },
    }
}

/// Applies one deletion against the store, appending its outcome.
fn apply_deletion(name: &String, store: &mut LabelStore, dry_run: bool, outcomes: &mut Vec<Outcome>)
    requires
        old(store).wf(),
    ensures
        final(store).wf(),
        final(outcomes).deep_view() == old(outcomes).deep_view() + apply_delete(
            name@,
            old(store)@,
            dry_run,
        ).outcomes,
        final(store)@ == apply_delete(name@, old(store)@, dry_run).store,
{
    let ghost base = outcomes.deep_view();
    if dry_run {
        push_and_view(
            outcomes,
            Outcome { action: ReconcileAction::Deleted, subject: name.clone(), detail: None },
        );
        proof {
            assert(outcomes.deep_view() =~= base + apply_delete(name@, store@, dry_run).outcomes);
        }
        return ;
    }
    match store.delete(name.as_str()) {
        Ok(_) => {
            push_and_view(
                outcomes,
                Outcome { action: ReconcileAction::Deleted, subject: name.clone(), detail: None },
            );
        },
        Err(_) => {
            push_and_view(
                outcomes,
                Outcome {
                    action: ReconcileAction::Failed,
                    subject: name.clone(),
                    detail: Some(String::from_str("not found")),
                },
            );
        },
    }
    proof {
        assert(outcomes.deep_view() =~= base + apply_delete(name@, old(store)@, dry_run).outcomes);
    }
}

/// Reconciles a configuration against a store: every declaration in document
/// order, then every deletion in document order, one outcome sequence out.
/// With `dry_run` the store is untouched and the planned outcomes are
/// recorded; `skip_existing` is the caller-wide skip flag for name conflicts.
pub fn reconcile(
    config: &LabelConfig,
    store: &mut LabelStore,
    dry_run: bool,
    skip_existing: bool,
) -> (outcomes: Vec<Outcome>)
    requires
        old(store).wf(),
    ensures
        final(store).wf(),
        outcomes.deep_view() == spec_reconcile(config@, old(store)@, dry_run, skip_existing).outcomes,
        final(store)@ == spec_reconcile(config@, old(store)@, dry_run, skip_existing).store,
        dry_run ==> final(store)@ == old(store)@,
{
    let ghost s0 = store@;
    proof {
        if dry_run {
            crate::laws::law_dry_run_touches_nothing(config@, s0, skip_existing);
        }
    }
    let mut outcomes: Vec<Outcome> = Vec::new();
    proof {
        assert(outcomes.deep_view() =~= Seq::<OutcomeData>::empty());
    }
    let n = config.labels.len();
    let mut i: usize = 0;
    while i < n
        invariant
            store.wf(),
            0 <= i <= n,
            n == config.labels.len(),
            s0 == old(store)@,
            ({
                let r = apply_decls(config@.labels.take(i as int), s0, dry_run, skip_existing);
                outcomes.deep_view() == r.outcomes && store@ == r.store
            }),
        decreases n - i,
    {
        proof {
            assert(config@.labels[i as int] == config.labels@[i as int]@);
        }
        apply_declaration(&config.labels[i], store, dry_run, skip_existing, &mut outcomes);
        proof {
            lemma_decls_snoc(
                config@.labels.take(i as int),
                config@.labels[i as int],
                s0,
                dry_run,
                skip_existing,
            );
            assert(config@.labels.take(i as int).push(config@.labels[i as int])
                =~= config@.labels.take(i + 1));
        }
        i = i + 1;
    }
    proof {
        assert(config@.labels.take(n as int) =~= config@.labels);
    }
    let ghost s1 = apply_decls(config@.labels, s0, dry_run, skip_existing).store;
    let ghost decl_outcomes = apply_decls(config@.labels, s0, dry_run, skip_existing).outcomes;
    let m = config.delete.len();
    let mut k: usize = 0;
    while k < m
        invariant
            store.wf(),
            0 <= k <= m,
            m == config.delete.len(),
            ({
                let r = apply_deletes(config@.delete.take(k as int), s1, dry_run);
                outcomes.deep_view() == decl_outcomes + r.outcomes && store@ == r.store
            }),
        decreases m - k,
    {
        proof {
            assert(config@.delete[k as int] == config.delete@[k as int]@);
        }
        apply_deletion(&config.delete[k], store, dry_run, &mut outcomes);
        proof {
            lemma_deletes_snoc(config@.delete.take(k as int), config@.delete[k as int], s1, dry_run);
            assert(config@.delete.take(k as int).push(config@.delete[k as int])
                =~= config@.delete.take(k + 1));
            assert(outcomes.deep_view() =~= decl_outcomes + apply_deletes(
                config@.delete.take(k + 1),
                s1,
                dry_run,
            ).outcomes);
        }
        k = k + 1;
    }
    proof {
        assert(config@.delete.take(m as int) =~= config@.delete);
    }
    outcomes
}

/// How many outcomes carry this action.
pub open spec fn count_action(s: Seq<OutcomeData>, a: ReconcileAction) -> int
    decreases s.len(),
{
    if s.len() == 0 {
        0
    } else {
        count_action(s.drop_last(), a) + (if s.last().action == a {
            1int
        } else {
            0int
        })
    }
}

/// How many outcomes report success: renames, creations, updates and
/// deletions together.
pub open spec fn success_count(s: Seq<OutcomeData>) -> int {
    count_action(s, ReconcileAction::Renamed) + count_action(s, ReconcileAction::Created)
        + count_action(s, ReconcileAction::Updated) + count_action(s, ReconcileAction::Deleted)
}

/// The reporter's aggregate: how many outcomes succeeded, were skipped, and
/// failed.
#[derive(Debug)]
pub struct Summary {
    pub success: usize,
    pub skipped: usize,
    pub failed: usize,
}

/// Folds the outcome sequence into its summary counts.
pub fn summarize(outcomes: &Vec<Outcome>) -> (s: Summary)
    ensures
        s.success == success_count(outcomes.deep_view()),
        s.skipped == count_action(outcomes.deep_view(), ReconcileAction::Skipped),
        s.failed == count_action(outcomes.deep_view(), ReconcileAction::Failed),
        s.success + s.skipped + s.failed == outcomes.deep_view().len(),
{
    let n = outcomes.len();
    let mut success: usize = 0;
    let mut skipped: usize = 0;
    let mut failed: usize = 0;
    let mut i: usize = 0;
    while i < n
        invariant
            0 <= i <= n,
            n == outcomes@.len(),
            success == success_count(outcomes.deep_view().take(i as int)),
            skipped == count_action(outcomes.deep_view().take(i as int), ReconcileAction::Skipped),
            failed == count_action(outcomes.deep_view().take(i as int), ReconcileAction::Failed),
            success + skipped + failed == i,
        decreases n - i,
    {
        proof {
            assert(outcomes.deep_view().take(i + 1).drop_last() =~= outcomes.deep_view().take(
                i as int,
            ));
            assert(outcomes.deep_view().take(i + 1).last() == outcomes@[i as int].deep_view());
        }
        match outcomes[i].action {
            ReconcileAction::Renamed => {
                success = success + 1;
            },
            ReconcileAction::Created => {
                success = success + 1;
            },
            ReconcileAction::Updated => {
                success = success + 1;
            },
            ReconcileAction::Deleted => {
                success = success + 1;
            },
            ReconcileAction::Skipped => {
                skipped = skipped + 1;
            },
            ReconcileAction::Failed => {
                failed = failed + 1;
            },
        }
        i = i + 1;
    }
    proof {
        assert(outcomes.deep_view().take(n as int) =~= outcomes.deep_view());
    }
    Summary { success, skipped, failed }
}

} // verus!
