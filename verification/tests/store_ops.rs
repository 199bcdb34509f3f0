use biao::models::{CreateLabelRequest, UpdateLabelRequest};
use biao::store::{LabelStore, StoreError};

fn req(name: &str, color: &str) -> CreateLabelRequest {
    CreateLabelRequest {
        name: name.to_string(),
        color: color.to_string(),
        description: None,
    }
}

#[test]
fn test_create_and_get() {
    let mut store = LabelStore::new();
    let created = store
        .create(&CreateLabelRequest {
            name: "bug".to_string(),
            color: "d73a49".to_string(),
            description: Some("Something isn't working".to_string()),
        })
        .unwrap();
    assert_eq!(created.name, "bug");
    let got = store.get("bug").unwrap();
    assert_eq!(got.color, "d73a49");
    assert_eq!(got.description.as_deref(), Some("Something isn't working"));
}

#[test]
fn test_create_duplicate_fails() {
    let mut store = LabelStore::new();
    store.create(&req("bug", "d73a49")).unwrap();
    let err = store.create(&req("bug", "000000")).unwrap_err();
    assert_eq!(err, StoreError::AlreadyExists);
    assert_eq!(store.list()[0].color, "d73a49");
}

#[test]
fn test_get_missing_fails() {
    let store = LabelStore::new();
    assert_eq!(store.get("ghost").unwrap_err(), StoreError::NotFound);
}

#[test]
fn test_delete_removes() {
    let mut store = LabelStore::new();
    store.create(&req("bug", "d73a49")).unwrap();
    store.delete("bug").unwrap();
    assert!(store.list().is_empty());
    assert_eq!(store.delete("bug").unwrap_err(), StoreError::NotFound);
}

#[test]
fn test_update_missing_fails() {
    let mut store = LabelStore::new();
    let r = UpdateLabelRequest { name: None, color: None, description: None };
    assert_eq!(store.update("ghost", &r).unwrap_err(), StoreError::NotFound);
}

#[test]
fn test_update_keeps_absent_fields() {
    let mut store = LabelStore::new();
    store
        .create(&CreateLabelRequest {
            name: "bug".to_string(),
            color: "d73a49".to_string(),
            description: Some("old".to_string()),
        })
        .unwrap();
    let r = UpdateLabelRequest {
        name: None,
        color: Some("000000".to_string()),
        description: None,
    };
    let updated = store.update("bug", &r).unwrap();
    assert_eq!(updated.name, "bug");
    assert_eq!(updated.color, "000000");
    assert_eq!(updated.description.as_deref(), Some("old"));
}

#[test]
fn test_update_renames() {
    let mut store = LabelStore::new();
    store.create(&req("Bug", "d73a49")).unwrap();
    let r = UpdateLabelRequest {
        name: Some("bug".to_string()),
        color: None,
        description: None,
    };
    store.update("Bug", &r).unwrap();
    assert!(store.get("Bug").is_err());
    assert_eq!(store.get("bug").unwrap().color, "d73a49");
}

#[test]
fn test_update_rename_folds_onto_existing() {
    // Renaming onto a name already in use absorbs the old holder: names stay
    // unique and one label remains.
    let mut store = LabelStore::new();
    store.create(&req("bug-report", "cccccc")).unwrap();
    store.create(&req("bug", "d73a49")).unwrap();
    let r = UpdateLabelRequest {
        name: Some("bug".to_string()),
        color: None,
        description: None,
    };
    let updated = store.update("bug-report", &r).unwrap();
    assert_eq!(updated.name, "bug");
    assert_eq!(updated.color, "cccccc");
    let labels = store.list();
    assert_eq!(labels.len(), 1);
    assert_eq!(labels[0].name, "bug");
}

#[test]
fn test_list_keeps_insertion_order() {
    let mut store = LabelStore::new();
    store.create(&req("one", "111111")).unwrap();
    store.create(&req("two", "222222")).unwrap();
    store.create(&req("three", "333333")).unwrap();
    let names: Vec<String> = store.list().iter().map(|l| l.name.clone()).collect();
    assert_eq!(names, vec!["one".to_string(), "two".to_string(), "three".to_string()]);
}

#[test]
fn test_has_label() {
    let mut store = LabelStore::new();
    store.create(&req("bug", "d73a49")).unwrap();
    assert!(store.has_label("bug"));
    assert!(!store.has_label("feature"));
}
