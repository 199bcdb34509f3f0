use biao::cli::{
    auth_subcommand_arg,
    build_create_request,
    build_update_request,
    needs_repository,
    AuthSubcommands,
    Commands,
    TemplateSubcommands,
};
use biao::error::BiaoError;
use biao::reconcile::{
    branch_of,
    is_already_exists_message,
    is_not_found_message,
    resolve_conflict,
    Branch,
    ConflictPolicy,
};
use biao::config::Label;

fn decl(name: &str) -> Label {
    Label {
        name: name.to_string(),
        color: None,
        description: None,
        update_if_match: vec![],
        skip_if_exists: false,
        update_if_exists: false,
    }
}

#[test]
fn test_needs_repository() {
    assert!(needs_repository(&Commands::List));
    assert!(needs_repository(&Commands::Get { name: "bug".to_string() }));
    assert!(!needs_repository(&Commands::Auth { subcommand: None }));
    assert!(!needs_repository(&Commands::Template { subcommand: TemplateSubcommands::List }));
}

#[test]
fn test_auth_subcommand_arg() {
    assert_eq!(auth_subcommand_arg(&None), "login");
    assert_eq!(auth_subcommand_arg(&Some(AuthSubcommands::Login)), "login");
    assert_eq!(auth_subcommand_arg(&Some(AuthSubcommands::Logout)), "logout");
    assert_eq!(auth_subcommand_arg(&Some(AuthSubcommands::Status)), "status");
}

#[test]
fn test_build_create_request_normalizes() {
    let req = build_create_request("bug", "#D73A49", None).unwrap();
    assert_eq!(req.name, "bug");
    assert_eq!(req.color, "d73a49");
    assert!(req.description.is_none());
}

#[test]
fn test_build_create_request_rejects_bad_color() {
    let err = build_create_request("bug", "red", None).unwrap_err();
    assert!(matches!(err, BiaoError::InvalidInput(_)));
}

#[test]
fn test_build_update_request() {
    let req = build_update_request(
        Some("bug".to_string()),
        Some("#FF0000".to_string()),
        Some("desc".to_string()),
    )
    .unwrap();
    assert_eq!(req.name.as_deref(), Some("bug"));
    assert_eq!(req.color.as_deref(), Some("ff0000"));
    assert_eq!(req.description.as_deref(), Some("desc"));

    let empty = build_update_request(None, None, None).unwrap();
    assert!(empty.name.is_none() && empty.color.is_none() && empty.description.is_none());

    assert!(build_update_request(None, Some("bad".to_string()), None).is_err());
}

#[test]
fn test_branch_of() {
    let mut rename = decl("bug");
    rename.update_if_match = vec!["Bug".to_string()];
    rename.color = Some("d73a49".to_string());
    assert_eq!(branch_of(&rename), Branch::RenameSearch);

    let mut create = decl("bug");
    create.color = Some("d73a49".to_string());
    assert_eq!(branch_of(&create), Branch::CreateOrResolve);

    assert_eq!(branch_of(&decl("bug")), Branch::UpdateOnly);
}

#[test]
fn test_resolve_conflict_precedence() {
    let mut label = decl("bug");
    label.update_if_exists = true;
    label.skip_if_exists = true;
    assert_eq!(resolve_conflict(&label, false), ConflictPolicy::UpdateInstead);

    let mut skip = decl("bug");
    skip.skip_if_exists = true;
    assert_eq!(resolve_conflict(&skip, false), ConflictPolicy::Skip);

    let plain = decl("bug");
    assert_eq!(resolve_conflict(&plain, true), ConflictPolicy::Skip);
    assert_eq!(resolve_conflict(&plain, false), ConflictPolicy::Fail);
}

#[test]
fn test_remote_error_classification() {
    assert!(is_not_found_message("HTTP 404: Not Found (repos/x/y/labels/z)"));
    assert!(is_not_found_message("gh: Not Found"));
    assert!(!is_not_found_message("boom"));
    assert!(is_already_exists_message(
        "HTTP 422: Validation Failed: {\"code\":\"already_exists\"}"
    ));
    assert!(!is_already_exists_message("HTTP 404: Not Found"));
}

#[test]
fn test_error_message_accessor() {
    let e = BiaoError::GhError { message: "boom".to_string() };
    assert_eq!(e.message(), "boom");
    let io = BiaoError::Io("disk".to_string());
    assert_eq!(io.message(), "disk");
    let parse = BiaoError::ParseError { message: "bad json".to_string() };
    assert_eq!(parse.message(), "bad json");
    let nf = BiaoError::GhNotFound { message: "github.com/cli/cli".to_string() };
    assert_eq!(nf.message(), "github.com/cli/cli");
}
