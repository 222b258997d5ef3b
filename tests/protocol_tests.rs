use enva::error::EnvaError;
use enva::protocol::{bearer_token, commit, fetch, CommitRequest, FetchRequest};
use enva::store::CommitStore;

fn commit_req(id: &str, files: &[(&str, &str)]) -> CommitRequest {
    CommitRequest {
        repo_url: "https://github.com/acme/widgets".to_string(),
        branch: "main".to_string(),
        commit_id: id.to_string(),
        env_files: files.iter().map(|(a, b)| (a.to_string(), b.to_string())).collect(),
    }
}

fn fetch_req(id: &str) -> FetchRequest {
    FetchRequest { repo_url: "https://github.com/acme/widgets".to_string(), commit_id: id.to_string() }
}

#[test]
fn bearer_token_extraction() {
    assert_eq!(bearer_token(Some("Bearer abc")), "abc");
    assert_eq!(bearer_token(Some("Bearer ")), "");
    assert_eq!(bearer_token(Some("Basic abc")), "");
    assert_eq!(bearer_token(None), "");
}

#[test]
fn commit_then_fetch_scenario() {
    let mut s = CommitStore::new();
    let r = commit(&mut s, "tok", Some(Ok(())), &commit_req("abc123", &[(".env", "KEY=1")]));
    assert!(r.success);
    assert_eq!(r.error, None);
    let f = fetch(&s, "tok", Some(Ok(())), &fetch_req("abc123"));
    assert!(f.success);
    assert_eq!(f.env_files, Some(vec![(".env".to_string(), "KEY=1".to_string())]));
    assert_eq!(f.error, None);
}

#[test]
fn fetch_unknown_commit_fails() {
    let s = CommitStore::new();
    let f = fetch(&s, "tok", Some(Ok(())), &fetch_req("zzz"));
    assert!(!f.success);
    assert_eq!(f.env_files, None);
    assert_eq!(f.error, Some("Commit acme/widgets/zzz not found".to_string()));
}

#[test]
fn missing_token_refused_on_both_endpoints() {
    let mut s = CommitStore::new();
    let r = commit(&mut s, "", None, &commit_req("c1", &[(".env", "A")]));
    assert!(!r.success);
    assert_eq!(r.error, Some("No token provided".to_string()));
    assert!(s.commits.is_empty() && s.blobs.is_empty());
    let r = commit(&mut s, "", Some(Ok(())), &commit_req("c1", &[(".env", "A")]));
    assert_eq!(r.error, Some("No token provided".to_string()));
    assert!(s.commits.is_empty());
    let f = fetch(&s, "", None, &fetch_req("c1"));
    assert!(!f.success);
    assert_eq!(f.env_files, None);
    assert_eq!(f.error, Some("No token provided".to_string()));
}

#[test]
fn denied_verdict_is_reported_and_nothing_saved() {
    let mut s = CommitStore::new();
    let r = commit(&mut s, "tok", Some(Err(EnvaError::NotOrgOwned)), &commit_req("c1", &[(".env", "A")]));
    assert!(!r.success);
    assert_eq!(r.error, Some("This repo is not owned by an organization".to_string()));
    assert!(s.commits.is_empty());
    let f = fetch(&s, "tok", Some(Err(EnvaError::InsufficientPermission)), &fetch_req("c1"));
    assert_eq!(f.error, Some("You don't have read permissions on this repo".to_string()));
}

#[test]
fn recommit_replaces_files() {
    let mut s = CommitStore::new();
    commit(&mut s, "tok", Some(Ok(())), &commit_req("c1", &[(".env", "A=1"), (".env.local", "B=1")]));
    commit(&mut s, "tok", Some(Ok(())), &commit_req("c1", &[(".env.production", "C=1")]));
    let f = fetch(&s, "tok", Some(Ok(())), &fetch_req("c1"));
    assert_eq!(f.env_files, Some(vec![(".env.production".to_string(), "C=1".to_string())]));
}

#[test]
fn commit_with_invalid_url_fails() {
    let mut s = CommitStore::new();
    let mut req = commit_req("c1", &[]);
    req.repo_url = "https://example.com/a/b".to_string();
    let r = commit(&mut s, "tok", Some(Ok(())), &req);
    assert!(!r.success);
    assert_eq!(r.error, Some("Failed to parse repo URL: https://example.com/a/b".to_string()));
}

#[test]
fn commit_with_no_files_succeeds() {
    let mut s = CommitStore::new();
    let r = commit(&mut s, "tok", Some(Ok(())), &commit_req("c9", &[]));
    assert!(r.success);
    assert_eq!(s.commits.len(), 1);
    assert_eq!(s.commits[0].1.branch, "main");
}
