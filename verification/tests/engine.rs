use biao::config::{Label, LabelConfig};
use biao::models::CreateLabelRequest;
use biao::reconcile::{reconcile, summarize, ReconcileAction};
use biao::store::LabelStore;

fn decl(name: &str) -> Label {
    Label {
        name: name.to_string(),
        color: None,
        description: None,
        update_if_match: vec![],
        skip_if_exists: false,
        update_if_exists: false,
    }
}

fn seed(store: &mut LabelStore, name: &str, color: &str) {
    let req = CreateLabelRequest {
        name: name.to_string(),
        color: color.to_string(),
        description: None,
    };
    assert!(store.create(&req).is_ok());
}

#[test]
fn test_rename_scenario() {
    // A declaration with two rename candidates, of which only the first is
    // present: one rename, one auxiliary not-found record, and no creation.
    let mut store = LabelStore::new();
    seed(&mut store, "Bug", "ff0000");
    let mut label = decl("bug");
    label.color = Some("d73a49".to_string());
    label.update_if_match = vec!["Bug".to_string(), "bug-report".to_string()];
    let config = LabelConfig { labels: vec![label], delete: vec![] };

    let outcomes = reconcile(&config, &mut store, false, false);

    assert_eq!(outcomes.len(), 2);
    assert_eq!(outcomes[0].action, ReconcileAction::Renamed);
    assert_eq!(outcomes[0].subject, "Bug");
    assert_eq!(outcomes[1].action, ReconcileAction::Skipped);
    assert_eq!(outcomes[1].subject, "bug-report");
    assert_eq!(outcomes[1].detail.as_deref(), Some("not found"));

    let labels = store.list();
    assert_eq!(labels.len(), 1);
    assert_eq!(labels[0].name, "bug");
    assert_eq!(labels[0].color, "d73a49");
}

#[test]
fn test_rename_no_match_creates() {
    // No candidate present and a color declared: fall through to creation.
    let mut store = LabelStore::new();
    let mut label = decl("bug");
    label.color = Some("d73a49".to_string());
    label.update_if_match = vec!["Bug".to_string()];
    let config = LabelConfig { labels: vec![label], delete: vec![] };

    let outcomes = reconcile(&config, &mut store, false, false);

    assert_eq!(outcomes.len(), 2);
    assert_eq!(outcomes[0].action, ReconcileAction::Skipped);
    assert_eq!(outcomes[1].action, ReconcileAction::Created);
    assert_eq!(outcomes[1].subject, "bug");
    assert_eq!(store.list().len(), 1);
}

#[test]
fn test_rename_no_match_no_color_is_noop() {
    // No candidate present and no color: nothing beyond the per-candidate
    // records, and the store stays empty.
    let mut store = LabelStore::new();
    let mut label = decl("bug");
    label.update_if_match = vec!["Bug".to_string()];
    let config = LabelConfig { labels: vec![label], delete: vec![] };

    let outcomes = reconcile(&config, &mut store, false, false);

    assert_eq!(outcomes.len(), 1);
    assert_eq!(outcomes[0].action, ReconcileAction::Skipped);
    assert_eq!(store.list().len(), 0);
}

#[test]
fn test_create_when_absent() {
    let mut store = LabelStore::new();
    let mut label = decl("feature");
    label.color = Some("a2eeef".to_string());
    let config = LabelConfig { labels: vec![label], delete: vec![] };

    let outcomes = reconcile(&config, &mut store, false, false);

    assert_eq!(outcomes.len(), 1);
    assert_eq!(outcomes[0].action, ReconcileAction::Created);
    assert_eq!(outcomes[0].subject, "feature");
    let labels = store.list();
    assert_eq!(labels.len(), 1);
    assert_eq!(labels[0].color, "a2eeef");
}

#[test]
fn test_conflict_updates_when_flagged() {
    // The name is taken and update_if_exists is set: always Updated, even
    // with skip_if_exists set too.
    let mut store = LabelStore::new();
    seed(&mut store, "bug", "ffffff");
    let mut label = decl("bug");
    label.color = Some("d73a49".to_string());
    label.update_if_exists = true;
    label.skip_if_exists = true;
    let config = LabelConfig { labels: vec![label], delete: vec![] };

    let outcomes = reconcile(&config, &mut store, false, false);

    assert_eq!(outcomes.len(), 1);
    assert_eq!(outcomes[0].action, ReconcileAction::Updated);
    let labels = store.list();
    assert_eq!(labels.len(), 1);
    assert_eq!(labels[0].color, "d73a49");
}

#[test]
fn test_conflict_skips_when_flagged() {
    let mut store = LabelStore::new();
    seed(&mut store, "bug", "ffffff");
    let mut label = decl("bug");
    label.color = Some("d73a49".to_string());
    label.skip_if_exists = true;
    let config = LabelConfig { labels: vec![label], delete: vec![] };

    let outcomes = reconcile(&config, &mut store, false, false);

    assert_eq!(outcomes.len(), 1);
    assert_eq!(outcomes[0].action, ReconcileAction::Skipped);
    assert_eq!(outcomes[0].detail.as_deref(), Some("already exists"));
    assert_eq!(store.list()[0].color, "ffffff");
}

#[test]
fn test_conflict_skips_with_caller_flag() {
    // The caller-wide skip flag works like skip_if_exists on every label.
    let mut store = LabelStore::new();
    seed(&mut store, "bug", "ffffff");
    let mut label = decl("bug");
    label.color = Some("d73a49".to_string());
    let config = LabelConfig { labels: vec![label], delete: vec![] };

    let outcomes = reconcile(&config, &mut store, false, true);

    assert_eq!(outcomes.len(), 1);
    assert_eq!(outcomes[0].action, ReconcileAction::Skipped);
}

#[test]
fn test_conflict_fails_by_default() {
    let mut store = LabelStore::new();
    seed(&mut store, "bug", "ffffff");
    let mut label = decl("bug");
    label.color = Some("d73a49".to_string());
    let config = LabelConfig { labels: vec![label], delete: vec![] };

    let outcomes = reconcile(&config, &mut store, false, false);

    assert_eq!(outcomes.len(), 1);
    assert_eq!(outcomes[0].action, ReconcileAction::Failed);
    assert_eq!(outcomes[0].detail.as_deref(), Some("already exists"));
    assert_eq!(store.list()[0].color, "ffffff");
}

#[test]
fn test_update_only_declaration() {
    // No color and no rename candidates: an update in place.
    let mut store = LabelStore::new();
    seed(&mut store, "bug", "d73a49");
    let mut label = decl("bug");
    label.description = Some("Something isn't working".to_string());
    let config = LabelConfig { labels: vec![label], delete: vec![] };

    let outcomes = reconcile(&config, &mut store, false, false);

    assert_eq!(outcomes.len(), 1);
    assert_eq!(outcomes[0].action, ReconcileAction::Updated);
    let labels = store.list();
    assert_eq!(labels[0].color, "d73a49");
    assert_eq!(labels[0].description.as_deref(), Some("Something isn't working"));
}

#[test]
fn test_update_only_missing_fails() {
    let mut store = LabelStore::new();
    let config = LabelConfig { labels: vec![decl("ghost")], delete: vec![] };

    let outcomes = reconcile(&config, &mut store, false, false);

    assert_eq!(outcomes.len(), 1);
    assert_eq!(outcomes[0].action, ReconcileAction::Failed);
    assert_eq!(outcomes[0].detail.as_deref(), Some("not found"));
}

#[test]
fn test_delete_missing_reports_failure() {
    // Deleting a name the store does not hold: one failure, and the run
    // still completes with a summary.
    let mut store = LabelStore::new();
    let config = LabelConfig { labels: vec![], delete: vec!["wontfix".to_string()] };

    let outcomes = reconcile(&config, &mut store, false, false);

    assert_eq!(outcomes.len(), 1);
    assert_eq!(outcomes[0].action, ReconcileAction::Failed);
    assert_eq!(outcomes[0].subject, "wontfix");
    assert_eq!(outcomes[0].detail.as_deref(), Some("not found"));
    let summary = summarize(&outcomes);
    assert_eq!(summary.failed, 1);
    assert_eq!(summary.success, 0);
    assert_eq!(summary.skipped, 0);
}

#[test]
fn test_delete_present() {
    let mut store = LabelStore::new();
    seed(&mut store, "wontfix", "ffffff");
    let config = LabelConfig { labels: vec![], delete: vec!["wontfix".to_string()] };

    let outcomes = reconcile(&config, &mut store, false, false);

    assert_eq!(outcomes.len(), 1);
    assert_eq!(outcomes[0].action, ReconcileAction::Deleted);
    assert_eq!(store.list().len(), 0);
}

#[test]
fn test_labels_precede_deletes() {
    // Declarations run before deletions, so a deletion can remove a stale
    // name the same pass no longer uses.
    let mut store = LabelStore::new();
    seed(&mut store, "old-style", "cccccc");
    let mut label = decl("new-style");
    label.color = Some("0075ca".to_string());
    let config = LabelConfig {
        labels: vec![label],
        delete: vec!["old-style".to_string()],
    };

    let outcomes = reconcile(&config, &mut store, false, false);

    assert_eq!(outcomes.len(), 2);
    assert_eq!(outcomes[0].action, ReconcileAction::Created);
    assert_eq!(outcomes[1].action, ReconcileAction::Deleted);
    let labels = store.list();
    assert_eq!(labels.len(), 1);
    assert_eq!(labels[0].name, "new-style");
}

#[test]
fn test_invalid_color_fails_only_that_declaration() {
    let mut store = LabelStore::new();
    let mut bad = decl("bad");
    bad.color = Some("zzzzzz".to_string());
    let mut good = decl("good");
    good.color = Some("0075ca".to_string());
    let config = LabelConfig { labels: vec![bad, good], delete: vec![] };

    let outcomes = reconcile(&config, &mut store, false, false);

    assert_eq!(outcomes.len(), 2);
    assert_eq!(outcomes[0].action, ReconcileAction::Failed);
    assert_eq!(outcomes[0].detail.as_deref(), Some("Invalid hex color format"));
    assert_eq!(outcomes[1].action, ReconcileAction::Created);
    assert_eq!(store.list().len(), 1);
}

#[test]
fn test_dry_run_changes_nothing_and_previews() {
    // A dry run leaves the store as it was and records the same actions a
    // real pass then takes under the unchanged store.
    let mut store = LabelStore::new();
    seed(&mut store, "Bug", "ff0000");
    seed(&mut store, "stale", "cccccc");
    let mut renamed = decl("bug");
    renamed.color = Some("d73a49".to_string());
    renamed.update_if_match = vec!["Bug".to_string()];
    let mut created = decl("feature");
    created.color = Some("a2eeef".to_string());
    let config = LabelConfig {
        labels: vec![renamed, created],
        delete: vec!["stale".to_string()],
    };

    let preview = reconcile(&config, &mut store, true, false);

    let before: Vec<String> = store.list().iter().map(|l| l.name.clone()).collect();
    assert_eq!(before, vec!["Bug".to_string(), "stale".to_string()]);

    let real = reconcile(&config, &mut store, false, false);

    assert_eq!(preview.len(), real.len());
    for (p, r) in preview.iter().zip(real.iter()) {
        assert_eq!(p.action, r.action);
    }
}

#[test]
fn test_summary_counts() {
    let mut store = LabelStore::new();
    seed(&mut store, "taken", "ffffff");
    let mut created = decl("fresh");
    created.color = Some("0075ca".to_string());
    let mut skipped = decl("taken");
    skipped.color = Some("0075ca".to_string());
    skipped.skip_if_exists = true;
    let config = LabelConfig {
        labels: vec![created, skipped],
        delete: vec!["missing".to_string()],
    };

    let outcomes = reconcile(&config, &mut store, false, false);
    let summary = summarize(&outcomes);

    assert_eq!(summary.success, 1);
    assert_eq!(summary.skipped, 1);
    assert_eq!(summary.failed, 1);
}

#[test]
fn test_empty_config_is_noop() {
    let config = LabelConfig { labels: vec![], delete: vec![] };
    assert!(!config.has_actions());
    let mut store = LabelStore::new();
    let outcomes = reconcile(&config, &mut store, false, false);
    assert!(outcomes.is_empty());
}

#[test]
fn test_has_actions() {
    let with_labels = LabelConfig { labels: vec![decl("x")], delete: vec![] };
    assert!(with_labels.has_actions());
    let with_delete = LabelConfig { labels: vec![], delete: vec!["x".to_string()] };
    assert!(with_delete.has_actions());
}
