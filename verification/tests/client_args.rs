use biao::client::GithubClient;
use biao::models::{CreateLabelRequest, UpdateLabelRequest};

fn client() -> GithubClient {
    GithubClient::new("octo".to_string(), "hello".to_string())
}

#[test]
fn test_repo_url() {
    assert_eq!(client().repo_url(), "octo/hello");
}

#[test]
fn test_paths() {
    let c = client();
    assert_eq!(c.labels_path(), "repos/octo/hello/labels");
    assert_eq!(c.label_path("bug"), "repos/octo/hello/labels/bug");
}

#[test]
fn test_create_args_with_description() {
    let c = client();
    let req = CreateLabelRequest {
        name: "bug".to_string(),
        color: "d73a49".to_string(),
        description: Some("Something isn't working".to_string()),
    };
    assert_eq!(
        c.create_label_args(&req),
        vec![
            "repos/octo/hello/labels".to_string(),
            "-f".to_string(),
            "name=bug".to_string(),
            "-f".to_string(),
            "color=d73a49".to_string(),
            "-f".to_string(),
            "description=Something isn't working".to_string(),
        ]
    );
}

#[test]
fn test_create_args_without_description() {
    let c = client();
    let req = CreateLabelRequest {
        name: "bug".to_string(),
        color: "d73a49".to_string(),
        description: None,
    };
    assert_eq!(c.create_label_args(&req).len(), 5);
}

#[test]
fn test_update_args_full() {
    let c = client();
    let req = UpdateLabelRequest {
        name: Some("bug".to_string()),
        color: Some("d73a49".to_string()),
        description: Some("desc".to_string()),
    };
    assert_eq!(
        c.update_label_args("Bug", &req),
        vec![
            "repos/octo/hello/labels/Bug".to_string(),
            "-X".to_string(),
            "PATCH".to_string(),
            "-f".to_string(),
            "name=bug".to_string(),
            "-f".to_string(),
            "color=d73a49".to_string(),
            "-f".to_string(),
            "description=desc".to_string(),
        ]
    );
}

#[test]
fn test_update_args_empty_request() {
    let c = client();
    let req = UpdateLabelRequest { name: None, color: None, description: None };
    assert_eq!(
        c.update_label_args("bug", &req),
        vec![
            "repos/octo/hello/labels/bug".to_string(),
            "-X".to_string(),
            "PATCH".to_string(),
        ]
    );
}

#[test]
fn test_delete_args() {
    let c = client();
    assert_eq!(
        c.delete_label_args("bug"),
        vec![
            "repos/octo/hello/labels/bug".to_string(),
            "-X".to_string(),
            "DELETE".to_string(),
        ]
    );
}
