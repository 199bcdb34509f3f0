//! The engine's stated laws, proved once and for all over the mathematical
//! model of a reconciliation pass.

use vstd::prelude::*;
use crate::color::{lower_hex, strip_hash, valid_color_chars};
use crate::config::{ConfigData, LabelDecl};
use crate::reconcile::{
    apply_candidates,
    apply_decl,
    apply_decls,
    apply_delete,
    apply_deletes,
    candidate_step,
    decl_color_ok,
    exists_message,
    outcome,
    outcome_with,
    spec_branch,
    spec_reconcile,
    Branch,
    CallData,
    OutcomeData,
    ReconcileAction,
};
use crate::store::LabelEntry;

verus! {

/// The actions of an outcome sequence, in order.
pub open spec fn actions_of(s: Seq<OutcomeData>) -> Seq<ReconcileAction> {
    s.map_values(|o: OutcomeData| o.action)
}

proof fn lemma_candidates_found(d: LabelDecl, cands: Seq<Seq<char>>, s: Map<Seq<char>, LabelEntry>)
    requires
        exists|i: int| 0 <= i < cands.len() && s.contains_key(#[trigger] cands[i]),
    ensures
        apply_candidates(d, cands, s).found,
        exists|k: int|
            0 <= k < apply_candidates(d, cands, s).outcomes.len() && (#[trigger] apply_candidates(
                d,
                cands,
                s,
            ).outcomes[k]).action == ReconcileAction::Renamed,
    decreases cands.len(),
{
    let r = apply_candidates(d, cands, s);
    let st = candidate_step(d, cands[0], s);
    let rest = apply_candidates(d, cands.drop_first(), st.store);
    if s.contains_key(cands[0]) {
        assert(r.outcomes[0].action == ReconcileAction::Renamed);
    } else {
        let i = choose|i: int| 0 <= i < cands.len() && s.contains_key(#[trigger] cands[i]);
        assert(i != 0);
        assert(cands.drop_first()[i - 1] == cands[i]);
        assert(st.store == s);
        lemma_candidates_found(d, cands.drop_first(), s);
        let k = choose|k: int|
            0 <= k < rest.outcomes.len() && (#[trigger] rest.outcomes[k]).action
                == ReconcileAction::Renamed;
        assert(r.outcomes[st.outcomes.len() + k].action == ReconcileAction::Renamed);
    }
}

proof fn lemma_candidates_calls_update(
    d: LabelDecl,
    cands: Seq<Seq<char>>,
    s: Map<Seq<char>, LabelEntry>,
)
    ensures
        forall|k: int|
            0 <= k < apply_candidates(d, cands, s).calls.len() ==> (#[trigger] apply_candidates(
                d,
                cands,
                s,
            ).calls[k]) is Update,
    decreases cands.len(),
{
    if cands.len() > 0 {
        let st = candidate_step(d, cands[0], s);
        lemma_candidates_calls_update(d, cands.drop_first(), st.store);
        let r = apply_candidates(d, cands, s);
        let rest = apply_candidates(d, cands.drop_first(), st.store);
        assert forall|k: int| 0 <= k < r.calls.len() implies (#[trigger] r.calls[k]) is Update by {
            if k >= st.calls.len() {
                assert(r.calls[k] == rest.calls[k - st.calls.len()]);
            }
        }
    }
}

/// A declaration with a rename search and at least one candidate present in
/// the store yields a `Renamed` outcome, and its reconciliation issues no
/// `create` call.
pub proof fn law_rename_match_renames(
    d: LabelDecl,
    s: Map<Seq<char>, LabelEntry>,
    skip_existing: bool,
)
    requires
        d.update_if_match.len() > 0,
        exists|i: int|
            0 <= i < d.update_if_match.len() && s.contains_key(#[trigger] d.update_if_match[i]),
        decl_color_ok(d),
    ensures
        ({
            let r = apply_decl(d, s, false, skip_existing);
            (exists|k: int|
                0 <= k < r.outcomes.len() && (#[trigger] r.outcomes[k]).action
                    == ReconcileAction::Renamed) && (forall|k: int|
                0 <= k < r.calls.len() ==> !((#[trigger] r.calls[k]) is Create))
        }),
{
    lemma_candidates_found(d, d.update_if_match, s);
    lemma_candidates_calls_update(d, d.update_if_match, s);
    let rc = apply_candidates(d, d.update_if_match, s);
    let r = apply_decl(d, s, false, skip_existing);
    assert(rc.found);
    assert(r.outcomes == rc.outcomes);
    assert(r.calls == rc.calls);
    let k = choose|k: int|
        0 <= k < rc.outcomes.len() && (#[trigger] rc.outcomes[k]).action
            == ReconcileAction::Renamed;
    assert(r.outcomes[k].action == ReconcileAction::Renamed);
    assert forall|k2: int| 0 <= k2 < r.calls.len() implies !((#[trigger] r.calls[k2]) is Create) by {
        assert(rc.calls[k2] is Update);
    }
}

/// A declaration with no rename search, a well-formed color, and a name not
/// yet present reconciles to exactly one `Created` outcome, and the store
/// gains exactly that label.
pub proof fn law_absent_name_created(
    d: LabelDecl,
    s: Map<Seq<char>, LabelEntry>,
    skip_existing: bool,
)
    requires
        d.update_if_match.len() == 0,
        d.color is Some,
        valid_color_chars(strip_hash(d.color->0)),
        !s.contains_key(d.name),
    ensures
        ({
            let r = apply_decl(d, s, false, skip_existing);
            r.outcomes =~= seq![outcome(ReconcileAction::Created, d.name)] && r.store == s.insert(
                d.name,
                LabelEntry { color: lower_hex(strip_hash(d.color->0)), description: d.description },
            )
        }),
{
}

/// A declaration with no rename search, a well-formed color, a name already
/// present, and `update_if_exists` set reconciles to exactly one `Updated`
/// outcome — never `Skipped` or `Failed` — whatever the skip flags say.
pub proof fn law_conflict_updates(d: LabelDecl, s: Map<Seq<char>, LabelEntry>, skip_existing: bool)
    requires
        d.update_if_match.len() == 0,
        d.color is Some,
        valid_color_chars(strip_hash(d.color->0)),
        s.contains_key(d.name),
        d.update_if_exists,
    ensures
        ({
            let r = apply_decl(d, s, false, skip_existing);
            r.outcomes =~= seq![outcome(ReconcileAction::Updated, d.name)]
        }),
{
}

/// A declaration with no rename search, a well-formed color, a name already
/// present, and both conflict flags clear (with no caller-wide skip either)
/// reconciles to exactly one `Failed` outcome, and the store is unchanged.
pub proof fn law_conflict_fails(d: LabelDecl, s: Map<Seq<char>, LabelEntry>)
    requires
        d.update_if_match.len() == 0,
        d.color is Some,
        valid_color_chars(strip_hash(d.color->0)),
        s.contains_key(d.name),
        !d.update_if_exists,
        !d.skip_if_exists,
    ensures
        ({
            let r = apply_decl(d, s, false, false);
            r.outcomes =~= seq![outcome_with(ReconcileAction::Failed, d.name, exists_message())]
                && r.store == s
        }),
{
}

proof fn lemma_dry_decls(
    ds: Seq<LabelDecl>,
    s: Map<Seq<char>, LabelEntry>,
    skip_existing: bool,
)
    ensures
        apply_decls(ds, s, true, skip_existing).calls =~= Seq::<CallData>::empty(),
        apply_decls(ds, s, true, skip_existing).store == s,
    decreases ds.len(),
{
    if ds.len() > 0 {
        lemma_dry_decls(ds.drop_first(), s, skip_existing);
    }
}

proof fn lemma_dry_deletes(ns: Seq<Seq<char>>, s: Map<Seq<char>, LabelEntry>)
    ensures
        apply_deletes(ns, s, true).calls =~= Seq::<CallData>::empty(),
        apply_deletes(ns, s, true).store == s,
    decreases ns.len(),
{
    if ns.len() > 0 {
        lemma_dry_deletes(ns.drop_first(), s);
    }
}

/// A dry run issues no remote call at all and leaves the store exactly as it
/// was, whatever the configuration.
pub proof fn law_dry_run_touches_nothing(
    c: ConfigData,
    s: Map<Seq<char>, LabelEntry>,
    skip_existing: bool,
)
    ensures
        spec_reconcile(c, s, true, skip_existing).calls =~= Seq::<CallData>::empty(),
        spec_reconcile(c, s, true, skip_existing).store == s,
{
    lemma_dry_decls(c.labels, s, skip_existing);
    lemma_dry_deletes(c.delete, s);
    assert(spec_reconcile(c, s, true, skip_existing).calls =~= Seq::<CallData>::empty());
}

proof fn lemma_candidates_all_present(
    d: LabelDecl,
    cands: Seq<Seq<char>>,
    s: Map<Seq<char>, LabelEntry>,
)
    requires
        forall|i: int| 0 <= i < cands.len() ==> s.contains_key(#[trigger] cands[i]),
        forall|i: int, j: int| 0 <= i < j < cands.len() ==> cands[i] != cands[j],
    ensures
        apply_candidates(d, cands, s).found == (cands.len() > 0),
        apply_candidates(d, cands, s).outcomes.len() == cands.len(),
        forall|k: int|
            0 <= k < cands.len() ==> (#[trigger] apply_candidates(d, cands, s).outcomes[k]).action
                == ReconcileAction::Renamed,
    decreases cands.len(),
{
    if cands.len() > 0 {
        let st = candidate_step(d, cands[0], s);
        assert(s.contains_key(cands[0]));
        let s1 = st.store;
        assert forall|i: int| 0 <= i < cands.drop_first().len() implies s1.contains_key(
            #[trigger] cands.drop_first()[i],
        ) by {
            assert(cands.drop_first()[i] == cands[i + 1]);
            assert(s.contains_key(cands[i + 1]));
            assert(cands[i + 1] != cands[0]);
        }
        lemma_candidates_all_present(d, cands.drop_first(), s1);
        let r = apply_candidates(d, cands, s);
        let rest = apply_candidates(d, cands.drop_first(), s1);
        assert forall|k: int| 0 <= k < cands.len() implies (#[trigger] r.outcomes[k]).action
            == ReconcileAction::Renamed by {
            if k > 0 {
                assert(r.outcomes[k] == rest.outcomes[k - 1]);
            }
        }
    }
}

/// A declaration takes its branch's success path against this store: its
/// color is well-formed, every rename candidate is present and the candidates
/// are pairwise distinct, a creation's name is absent, an update's name is
/// present.
pub open spec fn decl_previewable(d: LabelDecl, s: Map<Seq<char>, LabelEntry>) -> bool {
    &&& decl_color_ok(d)
    &&& (spec_branch(d) is RenameSearch ==> (forall|i: int|
        0 <= i < d.update_if_match.len() ==> s.contains_key(#[trigger] d.update_if_match[i]))
        && (forall|i: int, j: int|
        0 <= i < j < d.update_if_match.len() ==> d.update_if_match[i] != d.update_if_match[j]))
    &&& (spec_branch(d) is CreateOrResolve ==> !s.contains_key(d.name))
    &&& (spec_branch(d) is UpdateOnly ==> s.contains_key(d.name))
}

/// Under an unchanged store on which a declaration would take its branch's
/// success path, a dry run records the same actions, in the same order, as a
/// real pass.
pub proof fn law_dry_run_previews_actions(
    d: LabelDecl,
    s: Map<Seq<char>, LabelEntry>,
    skip_existing: bool,
)
    requires
        decl_previewable(d, s),
    ensures
        actions_of(apply_decl(d, s, true, skip_existing).outcomes) =~= actions_of(
            apply_decl(d, s, false, skip_existing).outcomes,
        ),
{
    match spec_branch(d) {
        Branch::RenameSearch => {
            lemma_candidates_all_present(d, d.update_if_match, s);
            let r = apply_candidates(d, d.update_if_match, s);
            if d.update_if_match.len() == 0 {
                assert(spec_branch(d) is RenameSearch);
                assert(false);
            }
            assert(r.found);
            assert(actions_of(apply_decl(d, s, true, skip_existing).outcomes) =~= actions_of(
                r.outcomes,
            ));
        },
        Branch::CreateOrResolve => {},
        Branch::UpdateOnly => {},
    }
}

/// Under an unchanged store holding the name to delete, a dry run records the
/// same action for the deletion as a real pass.
pub proof fn law_dry_run_previews_delete(n: Seq<char>, s: Map<Seq<char>, LabelEntry>)
    requires
        s.contains_key(n),
    ensures
        actions_of(apply_delete(n, s, true).outcomes) =~= actions_of(
            apply_delete(n, s, false).outcomes,
        ),
{
}

/// Every declaration, at its turn in the pass, takes its branch's success
/// path against the store as the pass has left it so far.
pub open spec fn decls_previewable(
    ds: Seq<LabelDecl>,
    s: Map<Seq<char>, LabelEntry>,
    skip_existing: bool,
) -> bool
    decreases ds.len(),
{
    ds.len() == 0 || (decl_previewable(ds[0], s) && decls_previewable(
        ds.drop_first(),
        apply_decl(ds[0], s, false, skip_existing).store,
        skip_existing,
    ))
}

/// Every deletion, at its turn in the pass, finds its name in the store as
/// the pass has left it so far.
pub open spec fn deletes_previewable(ns: Seq<Seq<char>>, s: Map<Seq<char>, LabelEntry>) -> bool
    decreases ns.len(),
{
    ns.len() == 0 || (s.contains_key(ns[0]) && deletes_previewable(
        ns.drop_first(),
        apply_delete(ns[0], s, false).store,
    ))
}

proof fn lemma_actions_concat(a: Seq<OutcomeData>, b: Seq<OutcomeData>)
    ensures
        actions_of(a + b) =~= actions_of(a) + actions_of(b),
{
}

proof fn lemma_dry_decls_ignore_store(
    ds: Seq<LabelDecl>,
    s1: Map<Seq<char>, LabelEntry>,
    s2: Map<Seq<char>, LabelEntry>,
    skip_existing: bool,
)
    ensures
        apply_decls(ds, s1, true, skip_existing).outcomes =~= apply_decls(
            ds,
            s2,
            true,
            skip_existing,
        ).outcomes,
    decreases ds.len(),
{
    if ds.len() > 0 {
        lemma_dry_decls_ignore_store(ds.drop_first(), s1, s2, skip_existing);
        assert(apply_decls(ds, s1, true, skip_existing).outcomes =~= apply_decls(
            ds,
            s2,
            true,
            skip_existing,
        ).outcomes);
    }
}

proof fn lemma_preview_decls(
    ds: Seq<LabelDecl>,
    s: Map<Seq<char>, LabelEntry>,
    skip_existing: bool,
)
    requires
        decls_previewable(ds, s, skip_existing),
    ensures
        actions_of(apply_decls(ds, s, true, skip_existing).outcomes) =~= actions_of(
            apply_decls(ds, s, false, skip_existing).outcomes,
        ),
    decreases ds.len(),
{
    if ds.len() > 0 {
        law_dry_run_previews_actions(ds[0], s, skip_existing);
        let dry0 = apply_decl(ds[0], s, true, skip_existing);
        let real0 = apply_decl(ds[0], s, false, skip_existing);
        lemma_preview_decls(ds.drop_first(), real0.store, skip_existing);
        lemma_dry_decls_ignore_store(ds.drop_first(), dry0.store, real0.store, skip_existing);
        lemma_actions_concat(
            dry0.outcomes,
            apply_decls(ds.drop_first(), dry0.store, true, skip_existing).outcomes,
        );
        lemma_actions_concat(
            real0.outcomes,
            apply_decls(ds.drop_first(), real0.store, false, skip_existing).outcomes,
        );
        assert(actions_of(apply_decls(ds.drop_first(), dry0.store, true, skip_existing).outcomes)
            =~= actions_of(apply_decls(ds.drop_first(), real0.store, true, skip_existing).outcomes));
        assert(actions_of(apply_decls(ds, s, true, skip_existing).outcomes) =~= actions_of(
            apply_decls(ds, s, false, skip_existing).outcomes,
        ));
    }
}

proof fn lemma_preview_deletes(ns: Seq<Seq<char>>, s: Map<Seq<char>, LabelEntry>)
    requires
        deletes_previewable(ns, s),
    ensures
        actions_of(apply_deletes(ns, s, true).outcomes) =~= actions_of(
            apply_deletes(ns, s, false).outcomes,
        ),
    decreases ns.len(),
{
    if ns.len() > 0 {
        law_dry_run_previews_delete(ns[0], s);
        let dry0 = apply_delete(ns[0], s, true);
        let real0 = apply_delete(ns[0], s, false);
        lemma_preview_deletes(ns.drop_first(), real0.store);
        lemma_dry_deletes_ignore_store(ns.drop_first(), dry0.store, real0.store);
        lemma_actions_concat(
            dry0.outcomes,
            apply_deletes(ns.drop_first(), dry0.store, true).outcomes,
        );
        lemma_actions_concat(
            real0.outcomes,
            apply_deletes(ns.drop_first(), real0.store, false).outcomes,
        );
        assert(actions_of(apply_deletes(ns.drop_first(), dry0.store, true).outcomes)
            =~= actions_of(apply_deletes(ns.drop_first(), real0.store, true).outcomes));
        assert(actions_of(apply_deletes(ns, s, true).outcomes) =~= actions_of(
            apply_deletes(ns, s, false).outcomes,
        ));
    }
}

/// Under an unchanged store on which every step of the pass would take its
/// success path, a dry run of the whole configuration records the same
/// actions, in the same order, as a real pass.
pub proof fn law_dry_run_previews_run(
    c: ConfigData,
    s: Map<Seq<char>, LabelEntry>,
    skip_existing: bool,
)
    requires
        decls_previewable(c.labels, s, skip_existing),
        deletes_previewable(c.delete, apply_decls(c.labels, s, false, skip_existing).store),
    ensures
        actions_of(spec_reconcile(c, s, true, skip_existing).outcomes) =~= actions_of(
            spec_reconcile(c, s, false, skip_existing).outcomes,
        ),
{
    lemma_preview_decls(c.labels, s, skip_existing);
    let adry = apply_decls(c.labels, s, true, skip_existing);
    let areal = apply_decls(c.labels, s, false, skip_existing);
    lemma_dry_decls(c.labels, s, skip_existing);
    assert(adry.store == s);
    lemma_preview_deletes(c.delete, areal.store);
    lemma_dry_deletes_ignore_store(c.delete, s, areal.store);
    lemma_actions_concat(adry.outcomes, apply_deletes(c.delete, adry.store, true).outcomes);
    lemma_actions_concat(areal.outcomes, apply_deletes(c.delete, areal.store, false).outcomes);
}

proof fn lemma_dry_deletes_ignore_store(
    ns: Seq<Seq<char>>,
    s1: Map<Seq<char>, LabelEntry>,
    s2: Map<Seq<char>, LabelEntry>,
)
    ensures
        apply_deletes(ns, s1, true).outcomes =~= apply_deletes(ns, s2, true).outcomes,
    decreases ns.len(),
{
    if ns.len() > 0 {
        lemma_dry_deletes_ignore_store(ns.drop_first(), s1, s2);
        assert(apply_deletes(ns, s1, true).outcomes =~= apply_deletes(ns, s2, true).outcomes);
    }
}

proof fn lemma_decl_at_least_one(
    d: LabelDecl,
    s: Map<Seq<char>, LabelEntry>,
    dry_run: bool,
    skip_existing: bool,
)
    ensures
        apply_decl(d, s, dry_run, skip_existing).outcomes.len() >= 1,
{
    if dry_run {
        match spec_branch(d) {
            Branch::RenameSearch => {
                assert(d.update_if_match.len() > 0);
            },
            Branch::CreateOrResolve => {},
            Branch::UpdateOnly => {},
        }
    } else if decl_color_ok(d) {
        match spec_branch(d) {
            Branch::RenameSearch => {
                lemma_candidates_count(d, d.update_if_match, s);
            },
            Branch::CreateOrResolve => {},
            Branch::UpdateOnly => {},
        }
    }
}

proof fn lemma_decls_drain(
    ds: Seq<LabelDecl>,
    s: Map<Seq<char>, LabelEntry>,
    dry_run: bool,
    skip_existing: bool,
)
    ensures
        apply_decls(ds, s, dry_run, skip_existing).outcomes.len() >= ds.len(),
    decreases ds.len(),
{
    if ds.len() > 0 {
        lemma_decl_at_least_one(ds[0], s, dry_run, skip_existing);
        let first = apply_decl(ds[0], s, dry_run, skip_existing);
        lemma_decls_drain(ds.drop_first(), first.store, dry_run, skip_existing);
    }
}

proof fn lemma_deletes_drain(ns: Seq<Seq<char>>, s: Map<Seq<char>, LabelEntry>, dry_run: bool)
    ensures
        apply_deletes(ns, s, dry_run).outcomes.len() >= ns.len(),
    decreases ns.len(),
{
    if ns.len() > 0 {
        let first = apply_delete(ns[0], s, dry_run);
        lemma_deletes_drain(ns.drop_first(), first.store, dry_run);
    }
}

/// The engine drains the whole configuration: every declaration and every
/// deletion is reported, however many of them fail, so a pass records at
/// least one outcome per item.
pub proof fn law_every_item_reported(
    c: ConfigData,
    s: Map<Seq<char>, LabelEntry>,
    dry_run: bool,
    skip_existing: bool,
)
    ensures
        spec_reconcile(c, s, dry_run, skip_existing).outcomes.len() >= c.labels.len()
            + c.delete.len(),
{
    lemma_decls_drain(c.labels, s, dry_run, skip_existing);
    let a = apply_decls(c.labels, s, dry_run, skip_existing);
    lemma_deletes_drain(c.delete, a.store, dry_run);
}

proof fn lemma_candidates_count(d: LabelDecl, cands: Seq<Seq<char>>, s: Map<Seq<char>, LabelEntry>)
    ensures
        apply_candidates(d, cands, s).outcomes.len() == cands.len(),
    decreases cands.len(),
{
    if cands.len() > 0 {
        let st = candidate_step(d, cands[0], s);
        lemma_candidates_count(d, cands.drop_first(), st.store);
    }
}

/// A declaration without a rename search records exactly one outcome; one
/// with a rename search records one outcome per candidate, plus one more
/// exactly when the fall-through creation is attempted.
pub proof fn law_outcome_count(d: LabelDecl, s: Map<Seq<char>, LabelEntry>, skip_existing: bool)
    requires
        decl_color_ok(d),
    ensures
        ({
            let r = apply_decl(d, s, false, skip_existing);
            if d.update_if_match.len() == 0 {
                r.outcomes.len() == 1
            } else {
                d.update_if_match.len() <= r.outcomes.len() <= d.update_if_match.len() + 1
            }
        }),
{
    if d.update_if_match.len() > 0 {
        lemma_candidates_count(d, d.update_if_match, s);
    }
}

} // verus!
