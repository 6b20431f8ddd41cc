use lostcontrol::branch_config::BranchConfig;
use lostcontrol::commit::Commit;
use lostcontrol::error::RepoError;

fn strings(v: &[&str]) -> Vec<String> {
    v.iter().map(|s| s.to_string()).collect()
}

fn commit(id: usize, msg: &str, files: &[&str]) -> Commit {
    Commit::new(id, msg.to_string(), strings(files)).unwrap()
}

fn ids(b: &BranchConfig) -> Vec<usize> {
    b.get_commits().iter().map(|c| c.id).collect()
}

#[test]
fn new_ledger_is_empty() {
    let b = BranchConfig::new("master".to_string(), ".lostcontrol");
    assert_eq!(b.name, "master");
    assert_eq!(b.current_commit, 0);
    assert_eq!(b.commit_count(), 0);
    assert_eq!(b.config_path(), ".lostcontrol/master/master.conf");
    assert!(b.get_commits().is_empty());
    assert!(!b.is_closed());
}

#[test]
fn push_makes_commit_current() {
    let mut b = BranchConfig::new("dev".to_string(), "/r/.lostcontrol");
    assert_eq!(b.push_commit(commit(1, "one", &["a.txt"])), Ok(()));
    assert_eq!(b.push_commit(commit(2, "two", &["b.txt", "c.txt"])), Ok(()));
    assert_eq!(b.current_commit, 2);
    assert_eq!(b.commit_count(), 2);
    assert_eq!(ids(&b), vec![1, 2]);
    let c = b.get_commit(2).unwrap();
    assert_eq!(c.message, "two");
    assert_eq!(c.modified_files, strings(&["b.txt", "c.txt"]));
    assert!(b.get_commit(3).is_none());
}

#[test]
fn remove_then_absent() {
    let mut b = BranchConfig::new("master".to_string(), "");
    assert_eq!(b.push_commit(commit(1, "one", &["a"])), Ok(()));
    assert_eq!(b.push_commit(commit(2, "two", &["b"])), Ok(()));
    assert_eq!(b.push_commit(commit(3, "three", &["c"])), Ok(()));
    assert_eq!(b.remove_commit(3), Ok(()));
    assert!(b.get_commit(3).is_none());
    assert_eq!(b.commit_count(), 2);
    assert_eq!(b.current_commit, 2);
    assert_eq!(b.remove_commit(1), Ok(()));
    assert_eq!(b.current_commit, 2);
    assert_eq!(b.remove_commit(2), Ok(()));
    assert_eq!(b.current_commit, 0);
    assert_eq!(b.commit_count(), 0);
}

#[test]
fn remove_from_empty_or_missing() {
    let mut b = BranchConfig::new("master".to_string(), "");
    assert_eq!(b.remove_commit(1), Err(RepoError::NotFound));
    assert_eq!(b.push_commit(commit(1, "one", &["a"])), Ok(()));
    assert_eq!(b.remove_commit(5), Err(RepoError::NotFound));
    assert_eq!(b.commit_count(), 1);
    assert_eq!(b.current_commit, 1);
}

#[test]
fn ids_are_reused_after_removal() {
    let mut b = BranchConfig::new("master".to_string(), "");
    assert_eq!(b.push_commit(commit(b.commit_count() + 1, "one", &["a"])), Ok(()));
    assert_eq!(b.push_commit(commit(b.commit_count() + 1, "two", &["b"])), Ok(()));
    assert_eq!(b.remove_commit(1), Ok(()));
    let next = b.commit_count() + 1;
    assert_eq!(next, 2);
    assert_eq!(b.push_commit(commit(next, "three", &["c"])), Ok(()));
    assert_eq!(ids(&b), vec![2, 2]);
    assert_eq!(b.get_commit(2).unwrap().message, "two");
    assert_eq!(b.remove_commit(2), Ok(()));
    assert_eq!(ids(&b), vec![2]);
    assert_eq!(b.get_commit(2).unwrap().message, "three");
}

#[test]
fn ledger_close_writes_once() {
    let mut b = BranchConfig::new("master".to_string(), "");
    assert!(b.close());
    assert!(b.is_closed());
    assert!(!b.close());
    assert_eq!(b.push_commit(commit(1, "late", &["a"])), Err(RepoError::Finalized));
    assert_eq!(b.commit_count(), 0);
    assert_eq!(b.remove_commit(1), Err(RepoError::Finalized));
}

#[test]
fn saved_ledger_reloads() {
    let commits = vec![commit(1, "one", &["a"]), commit(2, "two", &["b"])];
    let mut b = BranchConfig::from_saved("master".to_string(), 2, commits, "x/master.conf".to_string()).unwrap();
    assert_eq!(b.name, "master");
    assert_eq!(b.current_commit, 2);
    assert_eq!(ids(&b), vec![1, 2]);
    assert_eq!(b.config_path(), "x/master.conf");
    assert!(!b.close());
    assert!(!b.is_closed());
}

#[test]
fn saved_ledger_inconsistent() {
    let commits = vec![commit(1, "one", &["a"])];
    let r = BranchConfig::from_saved("master".to_string(), 3, commits, "p".to_string());
    assert_eq!(r.err(), Some(RepoError::Load));
    let r = BranchConfig::from_saved("master".to_string(), 1, vec![], "p".to_string());
    assert_eq!(r.err(), Some(RepoError::Load));
}

#[test]
fn commit_keeps_fields() {
    let c = commit(4, "msg", &["a", "b/c"]);
    assert_eq!(c.id, 4);
    assert_eq!(c.message, "msg");
    assert_eq!(c.modified_files, strings(&["a", "b/c"]));
    assert!(c.get_time_formatted().is_some());
    let d = c.clone();
    assert_eq!(d.id, c.id);
    assert_eq!(d.creation_datetime, c.creation_datetime);
    assert_eq!(d.modified_files, c.modified_files);
}

#[test]
fn commit_render_text() {
    let c = commit(12, "first", &["a.txt", "dir/b.txt"]);
    assert_eq!(
        c.render_with_time("2024-01-02 03:04:05"),
        "ID: 12\nMessage: first\nCreated at: 2024-01-02 03:04:05\nModified Files:\n  a.txt\n  dir/b.txt\n"
    );
    let shown = c.render().unwrap();
    assert!(shown.starts_with("ID: 12\nMessage: first\nCreated at: "));
    assert!(shown.ends_with("\nModified Files:\n  a.txt\n  dir/b.txt\n"));
}

#[test]
fn commit_bad_timestamp() {
    let mut c = commit(1, "m", &[]);
    c.creation_datetime = "yesterday".to_string();
    assert!(c.get_time_formatted().is_none());
    assert!(c.render().is_none());
}
