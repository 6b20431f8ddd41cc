//! The repository descriptor: staging, and the commit / remove / restore
//! rules that it applies to the ledger of its current branch.
use vstd::prelude::*;
use vstd::string::*;
use crate::branch_config::{BranchConfig, LedgerView, has_id, ledger_after_push, ledger_after_remove, ledger_path, ledger_path_in};
use crate::commit::{Commit, CommitView, now_rfc3339};
use crate::error::RepoError;
use crate::paths::{contains_text, texts, decimal, decimal_string, join, join_path, path_diff, relative_path};

verus! {

/// What a repository descriptor holds.
pub struct RepoView {
    pub closed: bool,
    pub modified: bool,
    pub metafile_path: Seq<char>,
    pub repos_dir: Seq<char>,
    pub name: Seq<char>,
    pub current_branch: Seq<char>,
    pub branches: Seq<Seq<char>>,
    pub ignored_files: Seq<Seq<char>>,
    pub ignored_dirs: Seq<Seq<char>>,
    pub staged_files: Seq<Seq<char>>,
}

/// Where the descriptor of a repository rooted at `root` is stored.
pub open spec fn metafile_at(root: Seq<char>) -> Seq<char> {
    join(root, ".lostcontrol.conf"@)
}

/// Where the branch data of a repository rooted at `root` lies.
pub open spec fn repos_dir_at(root: Seq<char>) -> Seq<char> {
    join(root, ".lostcontrol"@)
}

/// The staged set after staging `files` in order: a file joins at the end
/// unless it is staged already or on the ignore list.
pub open spec fn stage_all(staged: Seq<Seq<char>>, files: Seq<Seq<char>>, ignored: Seq<Seq<char>>) -> Seq<Seq<char>>
    decreases files.len(),
{
    if files.len() == 0 {
        staged
    } else {
        let prev = stage_all(staged, files.drop_last(), ignored);
        let f = files.last();
        if prev.contains(f) || ignored.contains(f) {
            prev
        } else {
            prev.push(f)
        }
    }
}

/// The staged set without the paths in `files`, the rest in its order.
pub open spec fn unstage_all_of(staged: Seq<Seq<char>>, files: Seq<Seq<char>>) -> Seq<Seq<char>>
    decreases staged.len(),
{
    if staged.len() == 0 {
        staged
    } else {
        let prev = unstage_all_of(staged.drop_last(), files);
        if files.contains(staged.last()) {
            prev
        } else {
            prev.push(staged.last())
        }
    }
}

/// A finalization is due: the descriptor changed and was not written yet.
pub open spec fn repo_write_due(v: RepoView) -> bool {
    !v.closed && v.modified
}

/// The descriptor after `close`.
pub open spec fn repo_after_close(v: RepoView) -> RepoView {
    if repo_write_due(v) {
        RepoView { closed: true, ..v }
    } else {
        v
    }
}

/// The descriptor after staging `files`: unchanged once finalized.
pub open spec fn repo_after_stage(v: RepoView, files: Seq<Seq<char>>) -> RepoView {
    if v.closed {
        v
    } else {
        RepoView { modified: true, staged_files: stage_all(v.staged_files, files, v.ignored_files), ..v }
    }
}

/// The descriptor after unstaging `files`: unchanged once finalized.
pub open spec fn repo_after_unstage(v: RepoView, files: Seq<Seq<char>>) -> RepoView {
    if v.closed {
        v
    } else {
        RepoView { modified: true, staged_files: unstage_all_of(v.staged_files, files), ..v }
    }
}

/// The name of the snapshot directory of commit `id` of branch `branch`.
pub open spec fn snapshot_name(branch: Seq<char>, id: usize) -> Seq<char> {
    branch + "-commit-"@ + decimal(id as nat)
}

/// Where the snapshot of commit `id` of branch `branch` lies.
pub open spec fn snapshot_path(v: RepoView, branch: Seq<char>, id: usize) -> Seq<char> {
    join(join(v.repos_dir, v.current_branch), snapshot_name(branch, id))
}

/// One file to copy, from `source` to `target`.
#[derive(Debug)]
pub struct FileCopy {
    pub source: String,
    pub target: String,
}

/// The copies of a plan, as pairs of paths.
pub open spec fn copy_texts(v: Seq<FileCopy>) -> Seq<(Seq<char>, Seq<char>)> {
    v.map_values(|c: FileCopy| (c.source@, c.target@))
}

/// Each file of `files` copied to the same relative path under `dir`.
pub open spec fn copies_into(files: Seq<Seq<char>>, dir: Seq<char>) -> Seq<(Seq<char>, Seq<char>)> {
    files.map_values(|f: Seq<char>| (f, join(dir, f)))
}

/// Each snapshot file of `files` copied to its path relative to the
/// snapshot directory `dir`, placed under `root`.
pub open spec fn copies_back(files: Seq<Seq<char>>, dir: Seq<char>, root: Seq<char>) -> Seq<(Seq<char>, Seq<char>)> {
    files.map_values(|f: Seq<char>| (f, join(root, path_diff(f, dir)->0)))
}

/// What a commit takes: its id, its snapshot directory, and one copy per
/// staged file into that directory.
#[derive(Debug)]
pub struct CommitPlan {
    pub id: usize,
    pub snapshot_dir: String,
    pub copies: Vec<FileCopy>,
}

/// The top-level metadata of a repository: its branches, ignore lists and
/// staged files, and where its descriptor and branch data lie. The fields
/// are open to read; the methods below are the way to change them.
#[derive(Debug)]
pub struct Repo {
    pub metafile_path: String,
    pub repos_dir: String,
    pub closed: bool,
    pub modified: bool,
    pub name: String,
    pub current_branch: String,
    pub branches: Vec<String>,
    pub ignored_files: Vec<String>,
    pub ignored_dirs: Vec<String>,
    pub staged_files: Vec<String>,
}

impl View for Repo {
    type V = RepoView;

    open spec fn view(&self) -> RepoView {
        RepoView {
            closed: self.closed,
            modified: self.modified,
            metafile_path: self.metafile_path@,
            repos_dir: self.repos_dir@,
            name: self.name@,
            current_branch: self.current_branch@,
            branches: texts(self.branches@),
            ignored_files: texts(self.ignored_files@),
            ignored_dirs: texts(self.ignored_dirs@),
            staged_files: texts(self.staged_files@),
        }
    }
}

/// Where the descriptor of a repository rooted at `root` is stored.
pub fn metafile_path_in(root: &str) -> (r: String)
    ensures
        r@ == metafile_at(root@),
{
    join_path(root, ".lostcontrol.conf")
}

/// Where the branch data of a repository rooted at `root` lies.
pub fn repos_dir_in(root: &str) -> (r: String)
    ensures
        r@ == repos_dir_at(root@),
{
    join_path(root, ".lostcontrol")
}

impl Repo {
    /// The staged set holds each path once.
    pub open spec fn wf(&self) -> bool {
        self@.staged_files.no_duplicates()
    }

    /// A new repository `name` rooted at `root_path`, with the single branch
    /// `master` and its own descriptor and branch data on the ignore lists;
    /// it is due to be written. `AlreadyExists` where a descriptor
    /// (`metafile_exists`) or branch data (`repos_dir_exists`) is already
    /// there.
    pub fn new(name: &String, root_path: &str, metafile_exists: bool, repos_dir_exists: bool) -> (r: Result<Repo, RepoError>)
        ensures
            r is Err <==> metafile_exists || repos_dir_exists,
            r is Err ==> r == Err::<Repo, RepoError>(RepoError::AlreadyExists),
            r matches Ok(repo) ==> repo.wf(),
            r matches Ok(repo) ==> repo@ == (RepoView {
                closed: false,
                modified: true,
                metafile_path: metafile_at(root_path@),
                repos_dir: repos_dir_at(root_path@),
                name: name@,
                current_branch: "master"@,
                branches: seq!["master"@],
                ignored_files: seq!["./"@ + metafile_at(root_path@)],
                ignored_dirs: seq!["./"@ + repos_dir_at(root_path@)],
                staged_files: Seq::empty(),
            }),
    {
        if metafile_exists || repos_dir_exists {
            return Err(RepoError::AlreadyExists);
        }
        let mf_path = metafile_path_in(root_path);
        let mf_repos_dir = repos_dir_in(root_path);
        let ignored_file = String::from_str("./").concat(mf_path.as_str());
        let ignored_dir = String::from_str("./").concat(mf_repos_dir.as_str());
        let repo = Repo {
            metafile_path: mf_path,
            repos_dir: mf_repos_dir,
            closed: false,
            modified: true,
            name: name.clone(),
            current_branch: String::from_str("master"),
            branches: vec![String::from_str("master")],
            ignored_files: vec![ignored_file],
            ignored_dirs: vec![ignored_dir],
            staged_files: Vec::new(),
        };
        assert(repo@.branches =~= seq!["master"@]);
        assert(repo@.ignored_files =~= seq!["./"@ + metafile_at(root_path@)]);
        assert(repo@.ignored_dirs =~= seq!["./"@ + repos_dir_at(root_path@)]);
        assert(repo@.staged_files =~= Seq::<Seq<char>>::empty());
        Ok(repo)
    }

    /// A descriptor read back from the repository rooted at `base`, unchanged
    /// since it was written; `Load` where its staged set repeats a path.
    pub fn from_saved(
        name: String,
        current_branch: String,
        branches: Vec<String>,
        ignored_files: Vec<String>,
        ignored_dirs: Vec<String>,
        staged_files: Vec<String>,
        base: &str,
    ) -> (r: Result<Repo, RepoError>)
        ensures
            r is Ok <==> texts(staged_files@).no_duplicates(),
            r is Err ==> r == Err::<Repo, RepoError>(RepoError::Load),
            r matches Ok(repo) ==> repo.wf(),
            r matches Ok(repo) ==> repo@ == (RepoView {
                closed: false,
                modified: false,
                metafile_path: metafile_at(base@),
                repos_dir: repos_dir_at(base@),
                name: name@,
                current_branch: current_branch@,
                branches: texts(branches@),
                ignored_files: texts(ignored_files@),
                ignored_dirs: texts(ignored_dirs@),
                staged_files: texts(staged_files@),
            }),
    {
        let mut i: usize = 0;
        while i < staged_files.len()
            invariant
                i <= staged_files@.len(),
                texts(staged_files@).subrange(0, i as int).no_duplicates(),
            decreases staged_files@.len() - i,
        {
            let mut j: usize = 0;
            while j < i
                invariant
                    i < staged_files@.len(),
                    j <= i,
                    forall|k: int| 0 <= k < j ==> staged_files@[k]@ != staged_files@[i as int]@,
                decreases i - j,
            {
                if staged_files[j] == staged_files[i] {
                    proof {
                        let t = texts(staged_files@);
                        assert(t[j as int] == t[i as int]);
                    }
                    return Err(RepoError::Load);
                }
                j = j + 1;
            }
            i = i + 1;
        }
        assert(texts(staged_files@).subrange(0, i as int) =~= texts(staged_files@));
        Ok(Repo {
            metafile_path: metafile_path_in(base),
            repos_dir: repos_dir_in(base),
            closed: false,
            modified: false,
            name,
            current_branch,
            branches,
            ignored_files,
            ignored_dirs,
            staged_files,
        })
    }

    /// Where the descriptor is stored.
    pub fn metafile_path(&self) -> (r: &str)
        ensures
            r@ == self@.metafile_path,
    {
        self.metafile_path.as_str()
    }

    /// Where the branch data lies.
    pub fn repos_dir(&self) -> (r: &str)
        ensures
            r@ == self@.repos_dir,
    {
        self.repos_dir.as_str()
    }

    /// Stages `files`, the expansion of the paths asked for: each one joins
    /// the staged set at its end unless it is staged already or on the
    /// ignore list. `Finalized`, with nothing changed, once the descriptor is
    /// finalized.
    pub fn stage_files(&mut self, files: &Vec<String>) -> (r: Result<(), RepoError>)
        ensures
            r is Err <==> old(self)@.closed,
            r is Err ==> r == Err::<(), RepoError>(RepoError::Finalized),
            final(self)@ == repo_after_stage(old(self)@, texts(files@)),
            old(self).wf() ==> final(self).wf(),
    {
        if self.closed {
            return Err(RepoError::Finalized);
        }
        let ghost ign = old(self)@.ignored_files;
        let ghost fs = texts(files@);
        let mut i: usize = 0;
        assert(fs.subrange(0, 0) =~= Seq::<Seq<char>>::empty());
        while i < files.len()
            invariant
                i <= files@.len(),
                fs == texts(files@),
                ign == old(self)@.ignored_files,
                self@ == (RepoView { staged_files: stage_all(old(self)@.staged_files, fs.subrange(0, i as int), ign), ..old(self)@ }),
            decreases files@.len() - i,
        {
            let f = &files[i];
            assert(fs.subrange(0, i + 1).drop_last() =~= fs.subrange(0, i as int));
            assert(fs.subrange(0, i + 1).last() == f@);
            assert(self@.ignored_files == ign);
            if !contains_text(&self.staged_files, f) && !contains_text(&self.ignored_files, f) {
                let ghost before = self.staged_files@;
                self.staged_files.push(f.clone());
                assert(texts(self.staged_files@) =~= texts(before).push(f@));
            }
            i = i + 1;
        }
        assert(fs.subrange(0, i as int) =~= fs);
        proof {
            lemma_stage_extends(old(self)@.staged_files, fs, ign);
        }
        self.modified = true;
        Ok(())
    }

    /// Takes the paths of `files`, the expansion of the paths asked for, out
    /// of the staged set; the rest keeps its order. `Finalized`, with nothing
    /// changed, once the descriptor is finalized.
    pub fn unstage_files(&mut self, files: &Vec<String>) -> (r: Result<(), RepoError>)
        ensures
            r is Err <==> old(self)@.closed,
            r is Err ==> r == Err::<(), RepoError>(RepoError::Finalized),
            final(self)@ == repo_after_unstage(old(self)@, texts(files@)),
            old(self).wf() ==> final(self).wf(),
    {
        if self.closed {
            return Err(RepoError::Finalized);
        }
        let ghost st = texts(old(self).staged_files@);
        let mut kept: Vec<String> = Vec::new();
        let mut i: usize = 0;
        assert(st.subrange(0, 0) =~= Seq::<Seq<char>>::empty());
        assert(texts(kept@) =~= Seq::<Seq<char>>::empty());
        while i < self.staged_files.len()
            invariant
                i <= self.staged_files@.len(),
                self@ == old(self)@,
                st == texts(self.staged_files@),
                texts(kept@) == unstage_all_of(st.subrange(0, i as int), texts(files@)),
            decreases self.staged_files@.len() - i,
        {
            let f = &self.staged_files[i];
            assert(st.subrange(0, i + 1).drop_last() =~= st.subrange(0, i as int));
            if !contains_text(files, f) {
                let ghost before = kept@;
                kept.push(f.clone());
                assert(texts(kept@) =~= texts(before).push(f@));
            }
            i = i + 1;
        }
        assert(st.subrange(0, i as int) =~= st);
        proof {
            lemma_unstage_within(st, texts(files@));
        }
        self.staged_files = kept;
        self.modified = true;
        Ok(())
    }

    /// Empties the staged set. `Finalized`, with nothing changed, once the
    /// descriptor is finalized.
    pub fn unstage_all(&mut self) -> (r: Result<(), RepoError>)
        ensures
            r is Err <==> old(self)@.closed,
            r is Err ==> r == Err::<(), RepoError>(RepoError::Finalized),
            old(self)@.closed ==> final(self)@ == old(self)@,
            !old(self)@.closed ==> final(self)@ == (RepoView { modified: true, staged_files: Seq::empty(), ..old(self)@ }),
    {
        if self.closed {
            return Err(RepoError::Finalized);
        }
        self.staged_files.clear();
        assert(texts(self.staged_files@) =~= Seq::<Seq<char>>::empty());
        self.modified = true;
        Ok(())
    }

    /// The name of the snapshot directory of commit `id` of `branch`.
    fn format_branch_dir(&self, branch: &BranchConfig, id: usize) -> (r: String)
        ensures
            r@ == snapshot_name(branch@.name, id),
    {
        let digits = decimal_string(id);
        branch.branch_name().to_owned().concat("-commit-").concat(digits.as_str())
    }

    /// Where the snapshot of commit `commit_id` of `branch`, the current
    /// branch, lies. `Finalized` once the descriptor is finalized.
    pub fn snapshot_dir(&self, branch: &BranchConfig, commit_id: usize) -> (r: Result<String, RepoError>)
        ensures
            r is Err <==> self@.closed,
            r is Err ==> r == Err::<String, RepoError>(RepoError::Finalized),
            r matches Ok(d) ==> d@ == snapshot_path(self@, branch@.name, commit_id),
    {
        if self.closed {
            return Err(RepoError::Finalized);
        }
        let branch_path = join_path(self.repos_dir.as_str(), self.current_branch.as_str());
        let name = self.format_branch_dir(branch, commit_id);
        Ok(join_path(branch_path.as_str(), name.as_str()))
    }

    /// What committing the staged set into `branch`, the current branch,
    /// takes: the next id (one more than the number of commits), the
    /// snapshot directory, and one copy per staged file to the same relative
    /// path in it, in staging order. `Finalized` once the descriptor is
    /// finalized, else `NoStagedFiles` while nothing is staged.
    pub fn commit_plan(&self, branch: &BranchConfig) -> (r: Result<CommitPlan, RepoError>)
        requires
            branch@.commits.len() < usize::MAX,
        ensures
            r is Ok <==> !self@.closed && self@.staged_files.len() > 0,
            self@.closed ==> r == Err::<CommitPlan, RepoError>(RepoError::Finalized),
            !self@.closed && self@.staged_files.len() == 0 ==> r == Err::<CommitPlan, RepoError>(RepoError::NoStagedFiles),
            r matches Ok(p) ==> {
                &&& p.id == branch@.commits.len() + 1
                &&& p.snapshot_dir@ == snapshot_path(self@, branch@.name, p.id)
                &&& copy_texts(p.copies@) == copies_into(self@.staged_files, p.snapshot_dir@)
            },
    {
        if self.closed {
            return Err(RepoError::Finalized);
        }
        if self.staged_files.len() == 0 {
            return Err(RepoError::NoStagedFiles);
        }
        let id = branch.commit_count() + 1;
        let dir = match self.snapshot_dir(branch, id) {
            Ok(d) => d,
            Err(e) => return Err(e),
        };
        let ghost st = self@.staged_files;
        let mut copies: Vec<FileCopy> = Vec::new();
        let mut i: usize = 0;
        while i < self.staged_files.len()
            invariant
                i <= self.staged_files@.len(),
                st == texts(self.staged_files@),
                copy_texts(copies@) == copies_into(st, dir@).subrange(0, i as int),
            decreases self.staged_files@.len() - i,
        {
            let f = &self.staged_files[i];
            let target = join_path(dir.as_str(), f.as_str());
            let ghost before = copies@;
            let item = FileCopy { source: f.clone(), target };
            assert(st[i as int] == f@);
            assert((item.source@, item.target@) == copies_into(st, dir@)[i as int]);
            copies.push(item);
            assert(copy_texts(copies@) =~= copy_texts(before).push((item.source@, item.target@)));
            assert(copy_texts(copies@) =~= copies_into(st, dir@).subrange(0, i + 1));
            i = i + 1;
        }
        assert(copies_into(st, dir@).subrange(0, i as int) =~= copies_into(st, dir@));
        Ok(CommitPlan { id, snapshot_dir: dir, copies })
    }

    /// Records the staged set as a new commit of `branch`, the current
    /// branch, made at `creation_datetime`, once its files were copied into
    /// the snapshot directory: the commit gets one more than the number of
    /// commits as id, the message and the staged files; the staged set
    /// becomes empty. Gives the number of files committed. `Finalized` where
    /// the descriptor or the ledger is finalized, else `NoStagedFiles` while
    /// nothing is staged; on an error nothing changes.
    pub fn commit_at(&mut self, branch: &mut BranchConfig, commit_msg: String, creation_datetime: String) -> (r: Result<usize, RepoError>)
        requires
            old(branch)@.commits.len() < usize::MAX,
        ensures
            r is Ok <==> !old(self)@.closed && !old(branch)@.closed && old(self)@.staged_files.len() > 0,
            old(self)@.closed || old(branch)@.closed ==> r == Err::<usize, RepoError>(RepoError::Finalized),
            !old(self)@.closed && !old(branch)@.closed && old(self)@.staged_files.len() == 0
                ==> r == Err::<usize, RepoError>(RepoError::NoStagedFiles),
            r is Err ==> final(self)@ == old(self)@ && final(branch)@ == old(branch)@,
            r matches Ok(n) ==> {
                &&& n == old(self)@.staged_files.len()
                &&& final(self)@ == (RepoView { modified: true, staged_files: Seq::empty(), ..old(self)@ })
                &&& final(branch)@ == ledger_after_push(old(branch)@, CommitView {
                    id: (old(branch)@.commits.len() + 1) as usize,
                    message: commit_msg@,
                    creation_datetime: creation_datetime@,
                    modified_files: old(self)@.staged_files,
                })
            },
            old(branch).wf() ==> final(branch).wf(),
    {
        if self.closed || branch.is_closed() {
            return Err(RepoError::Finalized);
        }
        let n = self.staged_files.len();
        if n == 0 {
            return Err(RepoError::NoStagedFiles);
        }
        let files = self.staged_files.clone();
        assert(files@ =~= self.staged_files@);
        let commit = Commit { id: branch.commit_count() + 1, message: commit_msg, creation_datetime, modified_files: files };
        let _ = branch.push_commit(commit);
        self.staged_files.clear();
        assert(texts(self.staged_files@) =~= Seq::<Seq<char>>::empty());
        self.modified = true;
        Ok(n)
    }

    /// Records the staged set as a new commit of `branch`, as `commit_at`
    /// does, stamped with the present moment. `Finalized` and
    /// `NoStagedFiles` as for `commit_at`; otherwise `Clock` where the system
    /// clock cannot be read as a date. On an error nothing changes.
    pub fn commit(&mut self, branch: &mut BranchConfig, commit_msg: String) -> (r: Result<usize, RepoError>)
        requires
            old(branch)@.commits.len() < usize::MAX,
        ensures
            old(self)@.closed || old(branch)@.closed ==> r == Err::<usize, RepoError>(RepoError::Finalized),
            !old(self)@.closed && !old(branch)@.closed && old(self)@.staged_files.len() == 0
                ==> r == Err::<usize, RepoError>(RepoError::NoStagedFiles),
            !old(self)@.closed && !old(branch)@.closed && old(self)@.staged_files.len() > 0
                ==> r is Ok || r == Err::<usize, RepoError>(RepoError::Clock),
            r is Err ==> final(self)@ == old(self)@ && final(branch)@ == old(branch)@,
            r matches Ok(n) ==> {
                &&& n == old(self)@.staged_files.len()
                &&& final(self)@ == (RepoView { modified: true, staged_files: Seq::empty(), ..old(self)@ })
                &&& exists|c: CommitView| #![trigger ledger_after_push(old(branch)@, c)] {
                    &&& c.id == old(branch)@.commits.len() + 1
                    &&& c.message == commit_msg@
                    &&& c.modified_files == old(self)@.staged_files
                    &&& final(branch)@ == ledger_after_push(old(branch)@, c)
                }
            },
            old(branch).wf() ==> final(branch).wf(),
    {
        if self.closed || branch.is_closed() {
            return Err(RepoError::Finalized);
        }
        if self.staged_files.len() == 0 {
            return Err(RepoError::NoStagedFiles);
        }
        match now_rfc3339() {
            Some(t) => self.commit_at(branch, commit_msg, t),
            None => Err(RepoError::Clock),
        }
    }

    /// Removes commit `commit_id` from `branch`, the current branch, once its
    /// snapshot directory is gone, as `BranchConfig::remove_commit` does.
    /// `Finalized` once the descriptor is finalized; on an error nothing
    /// changes.
    pub fn remove_commit(&mut self, branch: &mut BranchConfig, commit_id: usize) -> (r: Result<(), RepoError>)
        ensures
            old(self)@.closed ==> r == Err::<(), RepoError>(RepoError::Finalized),
            !old(self)@.closed ==> r == (if old(branch)@.closed {
                Err::<(), RepoError>(RepoError::Finalized)
            } else if has_id(old(branch)@.commits, commit_id) {
                Ok::<(), RepoError>(())
            } else {
                Err::<(), RepoError>(RepoError::NotFound)
            }),
            r is Err ==> final(self)@ == old(self)@ && final(branch)@ == old(branch)@,
            r is Ok ==> final(self)@ == (RepoView { modified: true, ..old(self)@ }),
            r is Ok ==> final(branch)@ == ledger_after_remove(old(branch)@, commit_id) && final(branch).wf(),
            r is Ok ==> final(branch)@.commits.len() == old(branch)@.commits.len() - 1,
    {
        if self.closed {
            return Err(RepoError::Finalized);
        }
        match branch.remove_commit(commit_id) {
            Ok(()) => {
                self.modified = true;
                Ok(())
            },
            Err(e) => Err(e),
        }
    }

    /// The copies that restore commit `commit_id` of `branch`, the current
    /// branch: each file of `snapshot_files`, the files under its snapshot
    /// directory, goes to its path relative to that directory under
    /// `restore_root`. Nothing else under `restore_root` is touched.
    /// `Finalized` once the descriptor is finalized; `BadPath` where a file
    /// has no path relative to the snapshot directory.
    pub fn restore_plan(&self, branch: &BranchConfig, commit_id: usize, snapshot_files: &Vec<String>, restore_root: &str) -> (r: Result<Vec<FileCopy>, RepoError>)
        ensures
            self@.closed ==> r == Err::<Vec<FileCopy>, RepoError>(RepoError::Finalized),
            !self@.closed ==> (r is Ok <==> forall|i: int| 0 <= i < snapshot_files@.len()
                ==> (#[trigger] path_diff(snapshot_files@[i]@, snapshot_path(self@, branch@.name, commit_id))) is Some),
            !self@.closed && r is Err ==> r == Err::<Vec<FileCopy>, RepoError>(RepoError::BadPath),
            r matches Ok(v) ==> copy_texts(v@) == copies_back(texts(snapshot_files@), snapshot_path(self@, branch@.name, commit_id), restore_root@),
    {
        let dir = match self.snapshot_dir(branch, commit_id) {
            Ok(d) => d,
            Err(e) => return Err(e),
        };
        let ghost fs = texts(snapshot_files@);
        let mut copies: Vec<FileCopy> = Vec::new();
        let mut i: usize = 0;
        while i < snapshot_files.len()
            invariant
                i <= snapshot_files@.len(),
                fs == texts(snapshot_files@),
                !self@.closed,
                dir@ == snapshot_path(self@, branch@.name, commit_id),
                forall|j: int| 0 <= j < i ==> (#[trigger] path_diff(snapshot_files@[j]@, dir@)) is Some,
                copy_texts(copies@) == copies_back(fs, dir@, restore_root@).subrange(0, i as int),
            decreases snapshot_files@.len() - i,
        {
            let f = &snapshot_files[i];
            let rel = match relative_path(f.as_str(), dir.as_str()) {
                Some(p) => p,
                None => {
                    assert(path_diff(snapshot_files@[i as int]@, dir@) is None);
                    return Err(RepoError::BadPath);
                },
            };
            let target = join_path(restore_root, rel.as_str());
            let ghost before = copies@;
            let item = FileCopy { source: f.clone(), target };
            assert(fs[i as int] == f@);
            assert((item.source@, item.target@) == copies_back(fs, dir@, restore_root@)[i as int]);
            copies.push(item);
            assert(copy_texts(copies@) =~= copy_texts(before).push((item.source@, item.target@)));
            assert(copy_texts(copies@) =~= copies_back(fs, dir@, restore_root@).subrange(0, i + 1));
            i = i + 1;
        }
        assert(copies_back(fs, dir@, restore_root@).subrange(0, i as int) =~= copies_back(fs, dir@, restore_root@));
        Ok(copies)
    }

    /// Where the ledger of `branch` is stored. `Finalized` once the
    /// descriptor is finalized.
    pub fn get_branch(&self, branch: &str) -> (r: Result<String, RepoError>)
        ensures
            r is Err <==> self@.closed,
            r is Err ==> r == Err::<String, RepoError>(RepoError::Finalized),
            r matches Ok(p) ==> p@ == ledger_path(self@.repos_dir, branch@),
    {
        if self.closed {
            return Err(RepoError::Finalized);
        }
        Ok(ledger_path_in(self.repos_dir.as_str(), branch))
    }

    /// Where the ledger of each branch is stored, in the order of the
    /// branches. `Finalized` once the descriptor is finalized.
    pub fn get_branches(&self) -> (r: Result<Vec<String>, RepoError>)
        ensures
            r is Err <==> self@.closed,
            r is Err ==> r == Err::<Vec<String>, RepoError>(RepoError::Finalized),
            r matches Ok(v) ==> texts(v@) == self@.branches.map_values(|b: Seq<char>| ledger_path(self@.repos_dir, b)),
    {
        if self.closed {
            return Err(RepoError::Finalized);
        }
        let ghost want = self@.branches.map_values(|b: Seq<char>| ledger_path(self@.repos_dir, b));
        let mut paths: Vec<String> = Vec::new();
        let mut i: usize = 0;
        while i < self.branches.len()
            invariant
                i <= self.branches@.len(),
                want == self@.branches.map_values(|b: Seq<char>| ledger_path(self@.repos_dir, b)),
                texts(paths@) == want.subrange(0, i as int),
            decreases self.branches@.len() - i,
        {
            let p = ledger_path_in(self.repos_dir.as_str(), self.branches[i].as_str());
            let ghost before = paths@;
            assert(self@.branches[i as int] == self.branches@[i as int]@);
            assert(p@ == want[i as int]);
            paths.push(p);
            assert(texts(paths@) =~= texts(before).push(p@));
            assert(texts(paths@) =~= want.subrange(0, i + 1));
            i = i + 1;
        }
        assert(want.subrange(0, i as int) =~= want);
        Ok(paths)
    }

    /// Finalizes the descriptor: `true` when its text is due to be written
    /// now, that is when it changed and was not finalized before. Only a
    /// descriptor that is written becomes finalized.
    pub fn close(&mut self) -> (r: bool)
        ensures
            r == repo_write_due(old(self)@),
            final(self)@ == repo_after_close(old(self)@),
    {
        if self.closed || !self.modified {
            return false;
        }
        self.closed = true;
        true
    }
}

/// Committing staged set `staged` into an open ledger appends exactly one
/// record, last, whose files are `staged` in staging order and whose id is
/// one more than the number of earlier commits; that id becomes current.
pub proof fn lemma_commit_appends_record(v: LedgerView, staged: Seq<Seq<char>>, message: Seq<char>, stamp: Seq<char>)
    requires
        !v.closed,
        v.commits.len() < usize::MAX,
    ensures
        ({
            let c = CommitView { id: (v.commits.len() + 1) as usize, message, creation_datetime: stamp, modified_files: staged };
            let w = ledger_after_push(v, c);
            &&& w.commits.len() == v.commits.len() + 1
            &&& w.commits.subrange(0, v.commits.len() as int) == v.commits
            &&& w.commits.last().modified_files == staged
            &&& w.commits.last().id == v.commits.len() + 1
            &&& w.current_commit == v.commits.len() + 1
        }),
{
    let c = CommitView { id: (v.commits.len() + 1) as usize, message, creation_datetime: stamp, modified_files: staged };
    assert(ledger_after_push(v, c).commits.subrange(0, v.commits.len() as int) =~= v.commits);
}

/// Finalizing a descriptor twice writes it at most once, and a finalized
/// descriptor ignores further staging and unstaging.
pub proof fn lemma_repo_finalize_once(v: RepoView, files: Seq<Seq<char>>)
    ensures
        !repo_write_due(repo_after_close(v)),
        repo_after_close(repo_after_close(v)) == repo_after_close(v),
        repo_write_due(v) ==> repo_after_stage(repo_after_close(v), files) == repo_after_close(v),
        repo_write_due(v) ==> repo_after_unstage(repo_after_close(v), files) == repo_after_close(v),
{
}

proof fn lemma_push_no_duplicates(s: Seq<Seq<char>>, x: Seq<char>)
    requires
        s.no_duplicates(),
        !s.contains(x),
    ensures
        s.push(x).no_duplicates(),
{
    let t = s.push(x);
    assert forall|i: int, j: int| 0 <= i < t.len() && 0 <= j < t.len() && i != j implies t[i] != t[j] by {
        if i == s.len() {
            assert(t[j] == s[j]);
        } else if j == s.len() {
            assert(t[i] == s[i]);
        }
    }
}

proof fn lemma_unstage_within(staged: Seq<Seq<char>>, files: Seq<Seq<char>>)
    ensures
        forall|x: Seq<char>| unstage_all_of(staged, files).contains(x) ==> staged.contains(x),
        staged.no_duplicates() ==> unstage_all_of(staged, files).no_duplicates(),
    decreases staged.len(),
{
    if staged.len() > 0 {
        let d = staged.drop_last();
        let l = staged.last();
        lemma_unstage_within(d, files);
        let prev = unstage_all_of(d, files);
        assert forall|x: Seq<char>| unstage_all_of(staged, files).contains(x) implies staged.contains(x) by {
            if prev.contains(x) {
                assert(d.contains(x));
                let k = choose|k: int| 0 <= k < d.len() && d[k] == x;
                assert(staged[k] == x);
            } else {
                assert(!files.contains(l));
                let r = prev.push(l);
                let k = choose|k: int| 0 <= k < r.len() && r[k] == x;
                if k < prev.len() {
                    assert(prev[k] == x);
                }
                assert(staged[staged.len() - 1] == x);
            }
        }
        if staged.no_duplicates() {
            assert(d.no_duplicates());
            if !files.contains(l) {
                if prev.contains(l) {
                    assert(d.contains(l));
                    let k = choose|k: int| 0 <= k < d.len() && d[k] == l;
                    assert(staged[k] == staged[staged.len() - 1]);
                }
                lemma_push_no_duplicates(prev, l);
            }
        }
    }
}

proof fn lemma_stage_extends(staged: Seq<Seq<char>>, files: Seq<Seq<char>>, ignored: Seq<Seq<char>>)
    ensures
        staged.is_prefix_of(stage_all(staged, files, ignored)),
        staged.no_duplicates() ==> stage_all(staged, files, ignored).no_duplicates(),
    decreases files.len(),
{
    if files.len() > 0 {
        lemma_stage_extends(staged, files.drop_last(), ignored);
        let prev = stage_all(staged, files.drop_last(), ignored);
        let f = files.last();
        if !(prev.contains(f) || ignored.contains(f)) {
            if staged.no_duplicates() {
                lemma_push_no_duplicates(prev, f);
            }
        }
    }
}

/// Staging keeps every staged path where it was and adds at the end;
/// unstaging keeps the rest in order; neither ever repeats a path.
pub proof fn lemma_staging_keeps_set(staged: Seq<Seq<char>>, files: Seq<Seq<char>>, ignored: Seq<Seq<char>>)
    requires
        staged.no_duplicates(),
    ensures
        stage_all(staged, files, ignored).no_duplicates(),
        staged.is_prefix_of(stage_all(staged, files, ignored)),
        unstage_all_of(staged, files).no_duplicates(),
        unstage_all_of(staged, files) == staged.filter(|p: Seq<char>| !files.contains(p)),
{
    lemma_stage_extends(staged, files, ignored);
    lemma_unstage_within(staged, files);
    lemma_unstage_is_filter(staged, files);
}

proof fn lemma_unstage_is_filter(staged: Seq<Seq<char>>, files: Seq<Seq<char>>)
    ensures
        unstage_all_of(staged, files) == staged.filter(|p: Seq<char>| !files.contains(p)),
    decreases staged.len(),
{
    reveal(Seq::filter);
    if staged.len() > 0 {
        lemma_unstage_is_filter(staged.drop_last(), files);
    }
}

} // verus!
