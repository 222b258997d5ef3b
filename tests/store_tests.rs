use enva::error::EnvaError;
use enva::store::{make_commit_key, read, save, save_with_handles, CommitStore};

fn files(v: &[(&str, &str)]) -> Vec<(String, String)> {
    v.iter().map(|(a, b)| (a.to_string(), b.to_string())).collect()
}

const URL: &str = "https://github.com/acme/widgets";

#[test]
fn commit_key_is_slash_joined() {
    assert_eq!(make_commit_key("acme", "widgets", "abc123"), "acme/widgets/abc123");
}

#[test]
fn save_then_read_round_trip() {
    let mut s = CommitStore::new();
    assert_eq!(save(&mut s, URL, "main", "abc123", &files(&[(".env", "KEY=1")])), Ok(()));
    assert_eq!(read(&s, URL, "abc123"), Ok(files(&[(".env", "KEY=1")])));
}

#[test]
fn ssh_and_https_share_records() {
    let mut s = CommitStore::new();
    save(&mut s, "git@github.com:acme/widgets.git", "main", "c1", &files(&[(".env", "A=1")])).unwrap();
    assert_eq!(read(&s, URL, "c1"), Ok(files(&[(".env", "A=1")])));
}

#[test]
fn unknown_commit_is_not_found() {
    let s = CommitStore::new();
    let r = read(&s, URL, "nope");
    assert_eq!(r, Err(EnvaError::CommitNotFound("acme/widgets/nope".to_string())));
    assert_eq!(r.unwrap_err().message(), "Commit acme/widgets/nope not found");
}

#[test]
fn resave_replaces_record() {
    let mut s = CommitStore::new();
    save(&mut s, URL, "main", "c1", &files(&[(".env", "OLD=1"), (".env.old", "X=1")])).unwrap();
    save(&mut s, URL, "dev", "c1", &files(&[(".env.production", "NEW=2")])).unwrap();
    assert_eq!(read(&s, URL, "c1"), Ok(files(&[(".env.production", "NEW=2")])));
    assert_eq!(s.blobs.len(), 3);
}

#[test]
fn commits_are_kept_apart() {
    let mut s = CommitStore::new();
    save(&mut s, URL, "main", "c1", &files(&[(".env", "A=1")])).unwrap();
    save(&mut s, URL, "main", "c2", &files(&[(".env", "A=2")])).unwrap();
    save(&mut s, "https://github.com/acme/other", "main", "c1", &files(&[(".env", "B=1")])).unwrap();
    assert_eq!(read(&s, URL, "c1"), Ok(files(&[(".env", "A=1")])));
    assert_eq!(read(&s, URL, "c2"), Ok(files(&[(".env", "A=2")])));
}

#[test]
fn empty_file_set_round_trips() {
    let mut s = CommitStore::new();
    save(&mut s, URL, "main", "c1", &files(&[])).unwrap();
    assert_eq!(read(&s, URL, "c1"), Ok(vec![]));
}

#[test]
fn save_rejects_invalid_url() {
    let mut s = CommitStore::new();
    assert_eq!(save(&mut s, "https://example.com/a/b", "main", "c1", &files(&[(".env", "A")])), Err(EnvaError::InvalidRepoUrl("https://example.com/a/b".to_string())));
    assert!(s.commits.is_empty() && s.blobs.is_empty());
    assert_eq!(read(&s, "nonsense", "c1"), Err(EnvaError::InvalidRepoUrl("nonsense".to_string())));
}

#[test]
fn reused_handles_are_refused() {
    let mut s = CommitStore::new();
    let f = files(&[(".env", "A"), (".env.b", "B")]);
    let r = save_with_handles(&mut s, URL, "main", "c1", &f, vec!["h".to_string(), "h".to_string()]);
    assert!(matches!(r, Err(EnvaError::StoreCorruption(_))));
    save_with_handles(&mut s, URL, "main", "c1", &f, vec!["h1".to_string(), "h2".to_string()]).unwrap();
    let r = save_with_handles(&mut s, URL, "main", "c2", &f, vec!["h1".to_string(), "h3".to_string()]);
    assert!(matches!(r, Err(EnvaError::StoreCorruption(_))));
    assert_eq!(s.commits.len(), 1);
}

#[test]
fn missing_blob_is_corruption() {
    let mut s = CommitStore::new();
    save_with_handles(&mut s, URL, "main", "c1", &files(&[(".env", "A")]), vec!["h1".to_string()]).unwrap();
    s.blobs.clear();
    let r = read(&s, URL, "c1");
    assert_eq!(r, Err(EnvaError::StoreCorruption("h1".to_string())));
}

#[test]
fn save_records_branch_and_keeps_old_blobs() {
    let mut s = CommitStore::new();
    save(&mut s, URL, "main", "c1", &files(&[(".env", "OLD=1")])).unwrap();
    let old_handle = s.commits[0].1.files[0].1.clone();
    save(&mut s, URL, "dev", "c1", &files(&[(".env", "NEW=1")])).unwrap();
    let (key, rec) = s.commits.last().unwrap();
    assert_eq!(key, "acme/widgets/c1");
    assert_eq!(rec.branch, "dev");
    assert_ne!(rec.files[0].1, old_handle);
    assert!(s.blobs.iter().any(|(h, c)| *h == old_handle && c == "OLD=1"));
}
