use lostcontrol::repo::{metafile_path_in, repos_dir_in};
use lostcontrol::{BranchConfig, Repo, RepoError};

fn strings(v: &[&str]) -> Vec<String> {
    v.iter().map(|s| s.to_string()).collect()
}

fn demo() -> Repo {
    Repo::new(&"demo".to_string(), "", false, false).unwrap()
}

fn copies(v: &[lostcontrol::repo::FileCopy]) -> Vec<(String, String)> {
    v.iter().map(|c| (c.source.clone(), c.target.clone())).collect()
}

#[test]
fn init_seeds_master() {
    let repo = demo();
    assert_eq!(repo.name, "demo");
    assert_eq!(repo.current_branch, "master");
    assert_eq!(repo.branches, strings(&["master"]));
    assert_eq!(repo.ignored_files, strings(&["./.lostcontrol.conf"]));
    assert_eq!(repo.ignored_dirs, strings(&["./.lostcontrol"]));
    assert!(repo.staged_files.is_empty());
    assert_eq!(repo.metafile_path(), ".lostcontrol.conf");
    assert_eq!(repo.repos_dir(), ".lostcontrol");
}

#[test]
fn init_under_root() {
    let repo = Repo::new(&"demo".to_string(), "/w", false, false).unwrap();
    assert_eq!(repo.metafile_path(), "/w/.lostcontrol.conf");
    assert_eq!(repo.ignored_dirs, strings(&[".//w/.lostcontrol"]));
    assert_eq!(metafile_path_in("/w/"), "/w/.lostcontrol.conf");
    assert_eq!(repos_dir_in("w"), "w/.lostcontrol");
}

#[test]
fn init_over_existing() {
    assert_eq!(Repo::new(&"d".to_string(), "", true, false).err(), Some(RepoError::AlreadyExists));
    assert_eq!(Repo::new(&"d".to_string(), "", false, true).err(), Some(RepoError::AlreadyExists));
    assert_eq!(Repo::new(&"d".to_string(), "", true, true).err(), Some(RepoError::AlreadyExists));
}

#[test]
fn stage_dedups_and_skips_ignored() {
    let mut repo = demo();
    assert_eq!(repo.stage_files(&strings(&["a", "b", "a", "./.lostcontrol.conf"])), Ok(()));
    assert_eq!(repo.staged_files, strings(&["a", "b"]));
    assert_eq!(repo.stage_files(&strings(&["c", "b"])), Ok(()));
    assert_eq!(repo.staged_files, strings(&["a", "b", "c"]));
    assert_eq!(repo.unstage_files(&strings(&["b", "zzz"])), Ok(()));
    assert_eq!(repo.staged_files, strings(&["a", "c"]));
    assert_eq!(repo.stage_files(&strings(&["b"])), Ok(()));
    assert_eq!(repo.staged_files, strings(&["a", "c", "b"]));
    assert_eq!(repo.unstage_all(), Ok(()));
    assert!(repo.staged_files.is_empty());
}

#[test]
fn scenario_init_stage_commit() {
    let mut repo = demo();
    assert_eq!(repo.branches, strings(&["master"]));
    assert_eq!(repo.current_branch, "master");
    assert_eq!(repo.stage_files(&strings(&["a.txt"])), Ok(()));
    assert_eq!(repo.staged_files, strings(&["a.txt"]));
    let mut branch = BranchConfig::new("master".to_string(), repo.repos_dir());
    let plan = repo.commit_plan(&branch).unwrap();
    assert_eq!(plan.id, 1);
    assert_eq!(plan.snapshot_dir, ".lostcontrol/master/master-commit-1");
    assert_eq!(
        copies(&plan.copies),
        vec![("a.txt".to_string(), ".lostcontrol/master/master-commit-1/a.txt".to_string())]
    );
    assert_eq!(repo.commit(&mut branch, "first".to_string()), Ok(1));
    assert_eq!(branch.commit_count(), 1);
    let c = branch.get_commit(1).unwrap();
    assert_eq!(c.id, 1);
    assert_eq!(c.message, "first");
    assert_eq!(c.modified_files, strings(&["a.txt"]));
    assert_eq!(branch.current_commit, 1);
    assert!(repo.staged_files.is_empty());
}

#[test]
fn scenario_remove_commit() {
    let mut repo = demo();
    assert_eq!(repo.stage_files(&strings(&["a.txt"])), Ok(()));
    let mut branch = BranchConfig::new("master".to_string(), repo.repos_dir());
    assert_eq!(repo.commit(&mut branch, "first".to_string()), Ok(1));
    assert_eq!(repo.snapshot_dir(&branch, 1), Ok(".lostcontrol/master/master-commit-1".to_string()));
    assert_eq!(repo.remove_commit(&mut branch, 1), Ok(()));
    assert_eq!(branch.commit_count(), 0);
    assert_eq!(branch.current_commit, 0);
    assert!(branch.get_commit(1).is_none());
    assert_eq!(repo.remove_commit(&mut branch, 1), Err(RepoError::NotFound));
}

#[test]
fn commit_needs_staged_files() {
    let mut repo = demo();
    let mut branch = BranchConfig::new("master".to_string(), repo.repos_dir());
    assert_eq!(repo.commit_plan(&branch).err(), Some(RepoError::NoStagedFiles));
    assert_eq!(repo.commit(&mut branch, "m".to_string()), Err(RepoError::NoStagedFiles));
    assert_eq!(branch.commit_count(), 0);
}

#[test]
fn commit_ids_follow_count() {
    let mut repo = demo();
    let mut branch = BranchConfig::new("master".to_string(), repo.repos_dir());
    for (msg, file) in [("one", "a"), ("two", "b"), ("three", "c")] {
        assert_eq!(repo.stage_files(&strings(&[file])), Ok(()));
        repo.commit(&mut branch, msg.to_string()).unwrap();
    }
    assert_eq!(repo.remove_commit(&mut branch, 1), Ok(()));
    assert_eq!(repo.stage_files(&strings(&["d"])), Ok(()));
    assert_eq!(repo.commit_plan(&branch).unwrap().id, 3);
    assert_eq!(repo.commit(&mut branch, "four".to_string()), Ok(1));
    let ids: Vec<usize> = branch.get_commits().iter().map(|c| c.id).collect();
    assert_eq!(ids, vec![2, 3, 3]);
    assert_eq!(branch.current_commit, 3);
}

#[test]
fn finalized_repo_ignores_changes() {
    let mut repo = demo();
    assert_eq!(repo.stage_files(&strings(&["a"])), Ok(()));
    assert!(repo.close());
    assert!(!repo.close());
    assert_eq!(repo.stage_files(&strings(&["b"])), Err(RepoError::Finalized));
    assert_eq!(repo.unstage_files(&strings(&["a"])), Err(RepoError::Finalized));
    assert_eq!(repo.unstage_all(), Err(RepoError::Finalized));
    assert_eq!(repo.staged_files, strings(&["a"]));
    let mut branch = BranchConfig::new("master".to_string(), repo.repos_dir());
    assert_eq!(repo.commit(&mut branch, "m".to_string()), Err(RepoError::Finalized));
    assert_eq!(repo.commit_plan(&branch).err(), Some(RepoError::Finalized));
    assert_eq!(repo.remove_commit(&mut branch, 1), Err(RepoError::Finalized));
    assert_eq!(repo.get_branch("master"), Err(RepoError::Finalized));
    assert_eq!(repo.get_branches(), Err(RepoError::Finalized));
    assert_eq!(repo.snapshot_dir(&branch, 1), Err(RepoError::Finalized));
}

#[test]
fn commit_into_finalized_ledger() {
    let mut repo = demo();
    assert_eq!(repo.stage_files(&strings(&["a"])), Ok(()));
    let mut branch = BranchConfig::new("master".to_string(), repo.repos_dir());
    assert!(branch.close());
    assert_eq!(repo.commit(&mut branch, "m".to_string()), Err(RepoError::Finalized));
    assert_eq!(repo.staged_files, strings(&["a"]));
}

#[test]
fn branch_paths() {
    let mut repo = Repo::new(&"demo".to_string(), "/w", false, false).unwrap();
    assert_eq!(repo.get_branch("master"), Ok("/w/.lostcontrol/master/master.conf".to_string()));
    repo.branches.push("dev".to_string());
    assert_eq!(
        repo.get_branches(),
        Ok(strings(&["/w/.lostcontrol/master/master.conf", "/w/.lostcontrol/dev/dev.conf"]))
    );
}

#[test]
fn restore_maps_snapshot_files() {
    let repo = Repo::new(&"demo".to_string(), "/r", false, false).unwrap();
    let branch = BranchConfig::new("master".to_string(), repo.repos_dir());
    let files = strings(&[
        "/r/.lostcontrol/master/master-commit-1/a.txt",
        "/r/.lostcontrol/master/master-commit-1/sub/b.txt",
    ]);
    let plan = repo.restore_plan(&branch, 1, &files, "/w").unwrap();
    assert_eq!(
        copies(&plan),
        vec![
            (files[0].clone(), "/w/a.txt".to_string()),
            (files[1].clone(), "/w/sub/b.txt".to_string()),
        ]
    );
    assert_eq!(repo.restore_plan(&branch, 1, &vec![], "/w").unwrap().len(), 0);
}

#[test]
fn restore_rejects_unrelated_path() {
    let repo = Repo::new(&"demo".to_string(), "/r", false, false).unwrap();
    let branch = BranchConfig::new("master".to_string(), repo.repos_dir());
    let files = strings(&["relative/a.txt"]);
    assert_eq!(repo.restore_plan(&branch, 1, &files, "/w").err(), Some(RepoError::BadPath));
}

#[test]
fn saved_repo_reloads() {
    let repo = Repo::from_saved(
        "demo".to_string(),
        "master".to_string(),
        strings(&["master"]),
        vec![],
        vec![],
        strings(&["a", "b"]),
        "/w",
    )
    .unwrap();
    assert_eq!(repo.staged_files, strings(&["a", "b"]));
    assert_eq!(repo.metafile_path(), "/w/.lostcontrol.conf");
    let mut repo = repo;
    assert!(!repo.close());
}

#[test]
fn saved_repo_with_repeated_staged_path() {
    let r = Repo::from_saved(
        "demo".to_string(),
        "master".to_string(),
        strings(&["master"]),
        vec![],
        vec![],
        strings(&["a", "b", "a"]),
        "/w",
    );
    assert_eq!(r.err(), Some(RepoError::Load));
}

#[test]
fn commit_at_keeps_timestamp() {
    let mut repo = demo();
    assert_eq!(repo.stage_files(&strings(&["a", "b"])), Ok(()));
    let mut branch = BranchConfig::new("master".to_string(), repo.repos_dir());
    let stamp = "2024-05-06T07:08:09+00:00".to_string();
    assert_eq!(repo.commit_at(&mut branch, "m".to_string(), stamp.clone()), Ok(2));
    let c = branch.get_commit(1).unwrap();
    assert_eq!(c.creation_datetime, stamp);
    assert_eq!(c.modified_files, strings(&["a", "b"]));
    assert_eq!(c.message, "m");
    assert!(repo.staged_files.is_empty());
    assert_eq!(repo.commit_at(&mut branch, "n".to_string(), stamp), Err(RepoError::NoStagedFiles));
}

#[test]
fn commit_stamp_parses() {
    let mut repo = demo();
    assert_eq!(repo.stage_files(&strings(&["a"])), Ok(()));
    let mut branch = BranchConfig::new("master".to_string(), repo.repos_dir());
    assert_eq!(repo.commit(&mut branch, "m".to_string()), Ok(1));
    assert!(branch.get_commit(1).unwrap().get_time_formatted().is_some());
}
