use sorcery_server::parsing::is_provider_path;
use sorcery_server::parsing::{parse_mirror_path, parse_remote_url, MirrorQuery};
use sorcery_server::render::build_mirror_page;
use sorcery_server::urlenc::percent_decode;

fn no_query() -> MirrorQuery {
    MirrorQuery { branch: None, remote: None }
}

fn with_branch(b: &str) -> MirrorQuery {
    MirrorQuery { branch: Some(b.to_string()), remote: None }
}

fn with_remote(r: &str) -> MirrorQuery {
    MirrorQuery { branch: None, remote: Some(r.to_string()) }
}

#[test]
fn test_passthrough_github_redirect() {
    let t = parse_remote_url("https://github.com/owner/repo/blob/main/src/lib.rs#L42").unwrap();
    assert_eq!(t.remote, "github.com/owner/repo");
    assert_eq!(t.repo_name, "repo");
    assert_eq!(t.ref_value.as_deref(), Some("main"));
    assert_eq!(t.file_path.as_deref(), Some("src/lib.rs"));
    assert_eq!(t.line, Some(42));
    assert!(!t.is_absolute);
    let location = t.to_mirror_url();
    assert!(location.contains("/repo/src/lib.rs:42"));
    assert!(location.contains("branch=main"));
    assert!(location.contains("remote=https://github.com/owner/repo"));
    assert_eq!(location, "/repo/src/lib.rs:42?branch=main&remote=https://github.com/owner/repo");
}

#[test]
fn test_passthrough_gitlab_redirect() {
    let t = parse_remote_url("https://gitlab.com/group/project/-/blob/master/lib/file.rb#L12")
        .unwrap();
    assert_eq!(t.remote, "gitlab.com/group/project");
    assert_eq!(t.repo_name, "project");
    let location = t.to_mirror_url();
    assert!(location.contains("/project/lib/file.rb:12"));
    assert!(location.contains("remote=https://gitlab.com/group/project"));
}

#[test]
fn test_passthrough_repo_only() {
    let t = parse_remote_url("https://github.com/owner/repo").unwrap();
    assert_eq!(t.ref_value, None);
    assert_eq!(t.file_path, None);
    assert_eq!(t.line, None);
    let location = t.to_mirror_url();
    assert!(location.contains("/repo?"));
    assert!(location.contains("remote=https://github.com/owner/repo"));
    assert!(!location.contains("branch"));
}

#[test]
fn test_passthrough_invalid_url() {
    let e = parse_remote_url("not-a-valid-url").unwrap_err();
    assert_eq!(e.message, "invalid remote URL");
    assert_eq!(e.original_url, "not-a-valid-url");
}

#[test]
fn test_passthrough_without_https_prefix() {
    let t = parse_remote_url("github.com/owner/repo/blob/main/file.rs#L10").unwrap();
    let location = t.to_mirror_url();
    assert!(location.contains("/repo/file.rs:10"));
    assert!(location.contains("remote=https://github.com/owner/repo"));
}

#[test]
fn test_scheme_insensitivity_yields_same_descriptor() {
    let a = parse_remote_url("https://github.com/o/r/blob/m/f.rs#L1").unwrap();
    let b = parse_remote_url("github.com/o/r/blob/m/f.rs#L1").unwrap();
    assert_eq!(a.remote, b.remote);
    assert_eq!(a.repo_name, b.repo_name);
    assert_eq!(a.ref_value, b.ref_value);
    assert_eq!(a.file_path, b.file_path);
    assert_eq!(a.line, b.line);
    let c = parse_remote_url("http://github.com/o/r/blob/m/f.rs#L1").unwrap();
    assert_eq!(a.remote, c.remote);
}

#[test]
fn test_gitea_style_url() {
    let t = parse_remote_url("https://codeberg.org/owner/repo/src/branch/dev/a.txt").unwrap();
    assert_eq!(t.remote, "codeberg.org/owner/repo");
    assert_eq!(t.ref_value.as_deref(), Some("dev"));
    assert_eq!(t.file_path.as_deref(), Some("a.txt"));
    assert_eq!(t.provider_name(), "Codeberg");
    assert_eq!(
        t.to_view_url().as_deref(),
        Some("https://codeberg.org/owner/repo/src/branch/dev/a.txt")
    );
}

#[test]
fn test_github_view_url_round_trip() {
    let t = parse_remote_url("https://github.com/owner/repo/blob/main/src/lib.rs#L42").unwrap();
    assert_eq!(
        t.to_view_url().as_deref(),
        Some("https://github.com/owner/repo/blob/main/src/lib.rs#L42")
    );
    assert_eq!(t.provider_name(), "GitHub");
}

#[test]
fn test_gitlab_view_url_and_tree() {
    let t = parse_remote_url("https://gitlab.com/group/project/-/blob/master/lib/file.rb#L12")
        .unwrap();
    assert_eq!(
        t.to_view_url().as_deref(),
        Some("https://gitlab.com/group/project/-/blob/master/lib/file.rb#L12")
    );
    let bare = parse_remote_url("https://gitlab.com/group/project").unwrap();
    assert_eq!(bare.to_view_url().as_deref(), Some("https://gitlab.com/group/project"));
}

#[test]
fn test_self_hosted_gitlab_heuristic() {
    let t = parse_remote_url("gitlab.mycompany.com/team/proj/-/blob/main/x.rs").unwrap();
    assert_eq!(t.remote, "gitlab.mycompany.com/team/proj");
    assert_eq!(t.provider_name(), "GitLab");
}

#[test]
fn test_generic_provider_fallback_name() {
    let t = parse_remote_url("example.com/a/b").unwrap();
    assert_eq!(t.provider_name(), "Git");
    assert_eq!(t.to_view_url().as_deref(), Some("https://example.com/a/b"));
}

#[test]
fn test_bitbucket_repo_only() {
    let t = parse_remote_url("https://bitbucket.org/team/repo").unwrap();
    assert_eq!(t.remote, "bitbucket.org/team/repo");
    assert_eq!(t.provider_name(), "Bitbucket");
}

#[test]
fn test_mirror_path_basic() {
    let t = parse_mirror_path("/myrepo/src/file.rs:42", with_branch("main")).unwrap();
    assert_eq!(t.repo_name, "myrepo");
    assert_eq!(t.file_path.as_deref(), Some("src/file.rs"));
    assert_eq!(t.line, Some(42));
    assert!(!t.is_absolute);
    let page = build_mirror_page(&t);
    assert_eq!(page.srcuri_url, "srcuri://myrepo/src/file.rs:42?branch=main");
    assert_eq!(page.repo_name, "myrepo");
    assert_eq!(page.file_path, "src/file.rs");
    assert_eq!(page.line, ":42");
    assert_eq!(page.og_description, "src/file.rs:42 on main branch");
}

#[test]
fn test_mirror_repo_only_page() {
    let t = parse_mirror_path("/myrepo", no_query()).unwrap();
    assert_eq!(t.repo_name, "myrepo");
    assert_eq!(t.file_path, None);
    let page = build_mirror_page(&t);
    assert_eq!(page.srcuri_url, "srcuri://myrepo/");
    assert_eq!(page.og_description, "myrepo repository");
}

#[test]
fn test_mirror_absolute_path() {
    let t = parse_mirror_path("//Users/foo/file.txt:7", no_query()).unwrap();
    assert!(t.is_absolute);
    assert_eq!(t.repo_name, "");
    assert_eq!(t.file_path.as_deref(), Some("/Users/foo/file.txt"));
    assert_eq!(t.line, Some(7));
    let page = build_mirror_page(&t);
    assert_eq!(page.srcuri_url, "srcuri:///Users/foo/file.txt:7");
}

#[test]
fn test_mirror_remote_reprefixed() {
    let t = parse_mirror_path("/myrepo/file.rs", with_remote("https://github.com/o/r")).unwrap();
    assert_eq!(t.remote, "github.com/o/r");
    let page = build_mirror_page(&t);
    assert_eq!(page.srcuri_url, "srcuri://myrepo/file.rs?remote=https://github.com/o/r");
    assert_eq!(t.to_mirror_url(), "/myrepo/file.rs?remote=https://github.com/o/r");
}

#[test]
fn test_branch_with_special_chars_is_url_encoded() {
    let t = parse_mirror_path("/myrepo/src/file.rs:42", with_branch("feature/c++")).unwrap();
    let page = build_mirror_page(&t);
    assert!(
        page.srcuri_url.contains("branch=feature%2Fc%2B%2B"),
        "Expected URL-encoded branch in the local-tool URL: {}",
        page.srcuri_url
    );
}

#[test]
fn test_invalid_branch_shell_metachar_rejected() {
    let e = parse_mirror_path("/myrepo/file.rs:10", with_branch("main;rm -rf")).unwrap_err();
    assert_eq!(e.message, "Invalid branch name");
}

#[test]
fn test_invalid_branch_path_traversal_rejected() {
    let e = parse_mirror_path("/myrepo/file.rs:10", with_branch("../../../etc/passwd"))
        .unwrap_err();
    assert_eq!(e.message, "Invalid branch name");
}

#[test]
fn test_invalid_remote_shell_metachar_rejected() {
    let e = parse_mirror_path("/myrepo/file.rs:10", with_remote("github.com/owner/repo;whoami"))
        .unwrap_err();
    assert_eq!(e.message, "Invalid remote URL");
}

#[test]
fn test_invalid_remote_path_traversal_rejected() {
    let e = parse_mirror_path(
        "/myrepo/file.rs:10",
        with_remote("github.com/../../../etc/passwd"),
    )
    .unwrap_err();
    assert_eq!(e.message, "Invalid remote URL");
}

#[test]
fn test_invalid_workspace_shell_metachar_rejected() {
    let path = percent_decode("/my%60repo/file.rs:10");
    let e = parse_mirror_path(&path, no_query()).unwrap_err();
    assert_eq!(e.message, "Invalid workspace name");
}

#[test]
fn test_valid_branch_accepted() {
    let t = parse_mirror_path("/myrepo/file.rs:10", with_branch("feature/add-tests")).unwrap();
    let page = build_mirror_page(&t);
    assert!(page.srcuri_url.starts_with("srcuri://"));
    assert!(page.srcuri_url.contains("branch=feature%2Fadd-tests"));
}

#[test]
fn test_file_path_question_mark_rejected() {
    let path = percent_decode("/myrepo/file.rs%3Fevil%3Dparam");
    let e = parse_mirror_path(&path, no_query()).unwrap_err();
    assert_eq!(e.message, "Invalid file path");
}

#[test]
fn test_line_number_non_numeric_becomes_filename() {
    let t = parse_mirror_path("/myrepo/file.rs:abc", no_query()).unwrap();
    assert_eq!(t.file_path.as_deref(), Some("file.rs:abc"));
    assert_eq!(t.line, None);
}

#[test]
fn test_line_number_numeric_extracted() {
    let t = parse_mirror_path("/myrepo/file.rs:42", no_query()).unwrap();
    let page = build_mirror_page(&t);
    assert_eq!(page.srcuri_url, "srcuri://myrepo/file.rs:42");
}

#[test]
fn test_file_path_traversal_rejected() {
    let e = parse_mirror_path("/myrepo/../../etc/passwd", no_query()).unwrap_err();
    assert_eq!(e.message, "Invalid file path");
    assert_eq!(e.original_url, "/myrepo/../../etc/passwd");
}

#[test]
fn test_file_path_too_long_rejected() {
    let long_path = format!("/myrepo/{}", "a".repeat(1100));
    let e = parse_mirror_path(&long_path, no_query()).unwrap_err();
    assert_eq!(e.message, "Invalid file path");
}

#[test]
fn test_file_path_at_limit_accepted() {
    let path = format!("/myrepo/{}", "a".repeat(1024));
    let t = parse_mirror_path(&path, no_query()).unwrap();
    assert_eq!(t.file_path.as_deref().map(|p| p.len()), Some(1024));
}

#[test]
fn test_file_path_shell_metachar_rejected() {
    let e = parse_mirror_path("/myrepo/file.rs;rm -rf", no_query()).unwrap_err();
    assert_eq!(e.message, "Invalid file path");
}

#[test]
fn test_file_path_quotes_rejected() {
    let path = percent_decode("/myrepo/file%22.rs");
    let e = parse_mirror_path(&path, no_query()).unwrap_err();
    assert_eq!(e.message, "Invalid file path");
}

#[test]
fn test_file_path_backtick_rejected() {
    let path = percent_decode("/myrepo/file%60whoami%60.rs");
    let e = parse_mirror_path(&path, no_query()).unwrap_err();
    assert_eq!(e.message, "Invalid file path");
}

#[test]
fn test_file_path_angle_brackets_rejected() {
    let path = percent_decode("/myrepo/%3Cscript%3E.js");
    let e = parse_mirror_path(&path, no_query()).unwrap_err();
    assert_eq!(e.message, "Invalid file path");
}

#[test]
fn test_file_path_pipe_rejected() {
    let path = percent_decode("/myrepo/file%7Ccat.rs");
    let e = parse_mirror_path(&path, no_query()).unwrap_err();
    assert_eq!(e.message, "Invalid file path");
}

#[test]
fn test_is_provider_path_detection() {
    assert!(is_provider_path("/github.com/owner/repo"));
    assert!(is_provider_path("/https://github.com/owner/repo"));
    assert!(is_provider_path("/something/-/blob/main/x"));
    assert!(is_provider_path("/something/codespaces/x"));
    assert!(is_provider_path("/org/project/_git/repo"));
    assert!(is_provider_path("/gitlab.mycompany.com/a/b"));
    assert!(!is_provider_path("/myrepo/file.rs"));
    assert!(!is_provider_path("/localhost:3000/x"));
}

#[test]
fn test_error_page_fields() {
    let e = parse_remote_url("not-a-valid-url").unwrap_err();
    let page = sorcery_server::render::build_error_page(&e);
    assert_eq!(page.message, "invalid remote URL");
    assert_eq!(page.url, "not-a-valid-url");
}
