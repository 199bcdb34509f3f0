use biao::git::parse_github_url;

#[test]
fn test_parse_https_url() {
    let (owner, repo) = parse_github_url("https://github.com/cli/cli.git").unwrap();
    assert_eq!(owner, "cli");
    assert_eq!(repo, "cli");
}

#[test]
fn test_parse_https_url_no_git() {
    let (owner, repo) = parse_github_url("https://github.com/cli/cli").unwrap();
    assert_eq!(owner, "cli");
    assert_eq!(repo, "cli");
}

#[test]
fn test_parse_ssh_url() {
    let (owner, repo) = parse_github_url("git@github.com:cli/cli.git").unwrap();
    assert_eq!(owner, "cli");
    assert_eq!(repo, "cli");
}

#[test]
fn test_parse_ssh_url_no_git() {
    let (owner, repo) = parse_github_url("git@github.com:cli/cli").unwrap();
    assert_eq!(owner, "cli");
    assert_eq!(repo, "cli");
}

#[test]
fn test_parse_unsupported_url() {
    let err = parse_github_url("https://gitlab.com/cli/cli.git").unwrap_err();
    let msg = err.message().clone();
    assert!(msg.starts_with("Unsupported remote URL"));
    assert!(msg.contains("https://gitlab.com/cli/cli.git"));
}

#[test]
fn test_parse_url_without_repo() {
    let err = parse_github_url("https://github.com/onlyowner").unwrap_err();
    assert_eq!(err.message(), "Could not parse owner and repo from remote URL");
}

#[test]
fn test_extract_ignores_extra_segments() {
    let (owner, repo) = parse_github_url("https://github.com/owner/repo/extra").unwrap();
    assert_eq!(owner, "owner");
    assert_eq!(repo, "repo");
}
