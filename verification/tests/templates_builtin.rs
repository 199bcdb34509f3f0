use biao::templates::{merge_templates, TemplateInfo, TemplateManager};

#[test]
fn test_get_builtin_template() {
    let content = TemplateManager::get_builtin_template("standard");
    assert!(content.is_some());
    let content = content.unwrap();
    assert!(content.contains("bug"));
    assert!(content.contains("feature"));
}

#[test]
fn test_builtin_templates_list() {
    let templates = TemplateManager::builtin_templates();
    assert_eq!(templates.len(), 7);
    assert_eq!(templates[0].0, "standard");
    assert!(templates.iter().any(|t| t.0 == "priority-prefixed"));
}

#[test]
fn test_every_listed_builtin_resolves() {
    for (name, _description) in TemplateManager::builtin_templates() {
        assert!(TemplateManager::get_builtin_template(name).is_some());
    }
}

#[test]
fn test_unknown_template_is_none() {
    assert!(TemplateManager::get_builtin_template("nonexistent").is_none());
}

#[test]
fn test_default_manager_knows_builtins() {
    let manager = TemplateManager::default();
    assert_eq!(manager.template_dirs, vec!["__builtin__".to_string()]);
}

fn info(name: &str, description: &str, path: &str) -> TemplateInfo {
    TemplateInfo {
        name: name.to_string(),
        description: description.to_string(),
        path: path.to_string(),
    }
}

#[test]
fn test_merge_user_shadows_builtin() {
    let user = vec![info("standard", "Custom description", "/home/u/standard.toml")];
    let merged = merge_templates(user);
    assert_eq!(merged.len(), 7);
    let standard = merged.iter().find(|t| t.name == "standard").unwrap();
    assert_eq!(standard.description, "Custom description");
    assert_eq!(standard.path, "/home/u/standard.toml");
    assert!(merged.iter().any(|t| t.name == "semantic" && t.path == "__builtin__"));
}

#[test]
fn test_merge_first_user_entry_wins() {
    let user = vec![
        info("custom", "first", "/a/custom.toml"),
        info("custom", "second", "/b/custom.toml"),
    ];
    let merged = merge_templates(user);
    assert_eq!(merged.len(), 8);
    let custom = merged.iter().find(|t| t.name == "custom").unwrap();
    assert_eq!(custom.description, "first");
}

#[test]
fn test_merge_without_user_entries_lists_builtins() {
    let merged = merge_templates(vec![]);
    let names: Vec<&str> = merged.iter().map(|t| t.name.as_str()).collect();
    assert_eq!(
        names,
        vec!["standard", "semantic", "priority", "priority-prefixed", "type", "area", "operational"]
    );
}
