//! The commit ledger of one branch.
use vstd::prelude::*;
use vstd::string::*;
use crate::commit::{Commit, CommitView};
use crate::error::RepoError;
use crate::paths::{join, join_path};

verus! {

/// What a ledger holds.
pub struct LedgerView {
    pub closed: bool,
    pub modified: bool,
    pub config_path: Seq<char>,
    pub name: Seq<char>,
    pub current_commit: usize,
    pub commits: Seq<CommitView>,
}

/// The id of the last commit, or 0 for an empty history.
pub open spec fn last_id(cs: Seq<CommitView>) -> usize {
    if cs.len() == 0 {
        0
    } else {
        cs.last().id
    }
}

/// Some commit of `cs` carries `id`.
pub open spec fn has_id(cs: Seq<CommitView>, id: usize) -> bool {
    exists|i: int| 0 <= i < cs.len() && cs[i].id == id
}

/// `k` is the position of the first commit of `cs` that carries `id`.
pub open spec fn is_first_with(cs: Seq<CommitView>, id: usize, k: int) -> bool {
    &&& 0 <= k < cs.len()
    &&& cs[k].id == id
    &&& forall|j: int| 0 <= j < k ==> cs[j].id != id
}

/// At most one commit of `cs` carries `id`.
pub open spec fn id_unique(cs: Seq<CommitView>, id: usize) -> bool {
    forall|i: int, j: int|
        0 <= i < cs.len() && 0 <= j < cs.len() && cs[i].id == id && cs[j].id == id ==> i == j
}

/// The ledger after `remove_commit(id)` succeeded: the first commit that
/// carries `id` is gone and the new last commit is current.
pub open spec fn ledger_after_remove(v: LedgerView, id: usize) -> LedgerView {
    let k = choose|k: int| is_first_with(v.commits, id, k);
    let cs = v.commits.remove(k);
    LedgerView { modified: true, current_commit: last_id(cs), commits: cs, ..v }
}

/// Where the ledger of branch `name` is stored under `root`.
pub open spec fn ledger_path(root: Seq<char>, name: Seq<char>) -> Seq<char> {
    join(join(root, name), name + ".conf"@)
}

/// A finalization is due: the ledger changed and was not written yet.
pub open spec fn ledger_write_due(v: LedgerView) -> bool {
    !v.closed && v.modified
}

/// The ledger after `close`.
pub open spec fn ledger_after_close(v: LedgerView) -> LedgerView {
    if ledger_write_due(v) {
        LedgerView { closed: true, ..v }
    } else {
        v
    }
}

/// The ledger after `push_commit(c)`: unchanged once finalized.
pub open spec fn ledger_after_push(v: LedgerView, c: CommitView) -> LedgerView {
    if v.closed {
        v
    } else {
        LedgerView { modified: true, current_commit: c.id, commits: v.commits.push(c), ..v }
    }
}

/// Where the ledger of branch `name` is stored under `root`.
pub fn ledger_path_in(root: &str, name: &str) -> (r: String)
    ensures
        r@ == ledger_path(root@, name@),
{
    let dir = join_path(root, name);
    let file = name.to_owned().concat(".conf");
    join_path(dir.as_str(), file.as_str())
}

/// The ordered history of the commits of one branch, and where it is stored.
/// The fields are open to read; `wf` holds of every ledger that is built and
/// changed through the methods below.
#[derive(Debug)]
pub struct BranchConfig {
    pub closed: bool,
    pub modified: bool,
    pub config_path: String,
    pub name: String,
    pub current_commit: usize,
    pub commits: Vec<Commit>,
}

impl View for BranchConfig {
    type V = LedgerView;

    open spec fn view(&self) -> LedgerView {
        LedgerView {
            closed: self.closed,
            modified: self.modified,
            config_path: self.config_path@,
            name: self.name@,
            current_commit: self.current_commit,
            commits: self.commits@.map_values(|c: Commit| c@),
        }
    }
}

impl BranchConfig {
    /// `current_commit` names the last commit, or is 0 for an empty history.
    pub open spec fn wf(&self) -> bool {
        self@.current_commit == last_id(self@.commits)
    }

    /// An empty ledger for branch `name` of the repository whose branch data
    /// lies under `repo_root_path`; it is due to be written.
    pub fn new(name: String, repo_root_path: &str) -> (r: BranchConfig)
        ensures
            r.wf(),
            r@.name == name@,
            r@.config_path == ledger_path(repo_root_path@, name@),
            r@.commits.len() == 0,
            r@.current_commit == 0,
            !r@.closed,
            r@.modified,
    {
        let config_path = ledger_path_in(repo_root_path, name.as_str());
        let r = BranchConfig {
            closed: false,
            modified: true,
            config_path,
            name,
            current_commit: 0,
            commits: Vec::new(),
        };
        assert(r@.commits =~= Seq::<CommitView>::empty());
        r
    }

    /// A ledger read back from `config_path`, unchanged since it was written;
    /// `Load` where `current_commit` does not name the last of `commits`.
    pub fn from_saved(name: String, current_commit: usize, commits: Vec<Commit>, config_path: String) -> (r: Result<BranchConfig, RepoError>)
        ensures
            r is Ok <==> current_commit == last_id(commits@.map_values(|c: Commit| c@)),
            r is Err ==> r == Err::<BranchConfig, RepoError>(RepoError::Load),
            r matches Ok(b) ==> b.wf() && b@ == (LedgerView {
                closed: false,
                modified: false,
                config_path: config_path@,
                name: name@,
                current_commit,
                commits: commits@.map_values(|c: Commit| c@),
            }),
    {
        let n = commits.len();
        let last = if n == 0 {
            0
        } else {
            commits[n - 1].id
        };
        if last != current_commit {
            return Err(RepoError::Load);
        }
        Ok(BranchConfig { closed: false, modified: false, config_path, name, current_commit, commits })
    }

    /// The name of the branch.
    pub fn branch_name(&self) -> (r: &str)
        ensures
            r@ == self@.name,
    {
        self.name.as_str()
    }

    /// Whether the ledger is finalized.
    pub fn is_closed(&self) -> (r: bool)
        ensures
            r == self@.closed,
    {
        self.closed
    }

    /// Where this ledger is stored.
    pub fn config_path(&self) -> (r: &str)
        ensures
            r@ == self@.config_path,
    {
        self.config_path.as_str()
    }

    /// Appends `commit` to the history and makes it the current commit.
    /// `Finalized`, with nothing changed, once the ledger is finalized.
    pub fn push_commit(&mut self, commit: Commit) -> (r: Result<(), RepoError>)
        ensures
            r is Err <==> old(self)@.closed,
            r is Err ==> r == Err::<(), RepoError>(RepoError::Finalized),
            final(self)@ == ledger_after_push(old(self)@, commit@),
            !old(self)@.closed ==> final(self).wf(),
            old(self)@.closed && old(self).wf() ==> final(self).wf(),
    {
        if self.closed {
            return Err(RepoError::Finalized);
        }
        let ghost c = commit@;
        self.current_commit = commit.id;
        self.commits.push(commit);
        self.modified = true;
        assert(self@.commits =~= old(self)@.commits.push(c));
        Ok(())
    }

    fn position_of(&self, commit_id: usize) -> (r: Option<usize>)
        ensures
            r is None <==> !has_id(self@.commits, commit_id),
            r matches Some(k) ==> is_first_with(self@.commits, commit_id, k as int),
    {
        let mut i: usize = 0;
        while i < self.commits.len()
            invariant
                i <= self.commits@.len(),
                forall|j: int| 0 <= j < i ==> self@.commits[j].id != commit_id,
            decreases self.commits@.len() - i,
        {
            if self.commits[i].id == commit_id {
                assert(self@.commits[i as int].id == commit_id);
                return Some(i);
            }
            i = i + 1;
        }
        None
    }

    /// Removes the first commit that carries `commit_id` and makes the new
    /// last commit current (0 once the history is empty). `NotFound` where no
    /// commit carries it; `Finalized` once the ledger is finalized. On an
    /// error nothing changes.
    pub fn remove_commit(&mut self, commit_id: usize) -> (r: Result<(), RepoError>)
        ensures
            r is Ok <==> !old(self)@.closed && has_id(old(self)@.commits, commit_id),
            old(self)@.closed ==> r == Err::<(), RepoError>(RepoError::Finalized),
            !old(self)@.closed && !has_id(old(self)@.commits, commit_id) ==> r == Err::<(), RepoError>(RepoError::NotFound),
            r is Err ==> final(self)@ == old(self)@,
            r is Ok ==> final(self)@ == ledger_after_remove(old(self)@, commit_id),
            r is Ok ==> final(self)@.commits.len() == old(self)@.commits.len() - 1,
            r is Ok ==> final(self).wf(),
    {
        if self.closed {
            return Err(RepoError::Finalized);
        }
        match self.position_of(commit_id) {
            None => Err(RepoError::NotFound),
            Some(k) => {
                let ghost before = self@.commits;
                proof {
                    let c = choose|c: int| is_first_with(before, commit_id, c);
                    assert(c == k as int);
                }
                self.commits.remove(k);
                assert(self@.commits =~= before.remove(k as int));
                let n = self.commits.len();
                self.current_commit = if n > 0 {
                    self.commits[n - 1].id
                } else {
                    0
                };
                self.modified = true;
                Ok(())
            }
        }
    }

    /// The first commit that carries `commit_id`, if any.
    pub fn get_commit(&self, commit_id: usize) -> (r: Option<&Commit>)
        ensures
            r is None <==> !has_id(self@.commits, commit_id),
            r matches Some(c) ==> exists|k: int| #![trigger self@.commits[k]]
                is_first_with(self@.commits, commit_id, k) && c@ == self@.commits[k],
    {
        match self.position_of(commit_id) {
            None => None,
            Some(k) => Some(&self.commits[k]),
        }
    }

    /// A copy of the whole history, oldest first.
    pub fn get_commits(&self) -> (r: Vec<Commit>)
        ensures
            r@.map_values(|c: Commit| c@) == self@.commits,
    {
        let r = self.commits.clone();
        assert(r@.map_values(|c: Commit| c@) =~= self@.commits);
        r
    }

    /// The number of commits in the history.
    pub fn commit_count(&self) -> (r: usize)
        ensures
            r == self@.commits.len(),
    {
        self.commits.len()
    }

    /// Finalizes the ledger: `true` when its text is due to be written now,
    /// that is when it changed and was not finalized before. Only a ledger
    /// that is written becomes finalized.
    pub fn close(&mut self) -> (r: bool)
        ensures
            r == ledger_write_due(old(self)@),
            final(self)@ == ledger_after_close(old(self)@),
            old(self).wf() ==> final(self).wf(),
    {
        if self.closed || !self.modified {
            return false;
        }
        self.closed = true;
        true
    }
}

/// Finalizing a ledger twice writes it at most once, and a finalized ledger
/// ignores further commits.
pub proof fn lemma_ledger_finalize_once(v: LedgerView, c: CommitView)
    ensures
        !ledger_write_due(ledger_after_close(v)),
        ledger_after_close(ledger_after_close(v)) == ledger_after_close(v),
        ledger_write_due(v) ==> ledger_after_push(ledger_after_close(v), c) == ledger_after_close(v),
        v.closed ==> ledger_after_push(v, c) == v,
{
}

/// Removing a commit whose id no other commit carries leaves no commit with
/// that id, one commit fewer, and the new last commit (or 0) current.
pub proof fn lemma_remove_then_absent(v: LedgerView, id: usize)
    requires
        has_id(v.commits, id),
        id_unique(v.commits, id),
    ensures
        !has_id(ledger_after_remove(v, id).commits, id),
        ledger_after_remove(v, id).commits.len() == v.commits.len() - 1,
        ledger_after_remove(v, id).current_commit == last_id(ledger_after_remove(v, id).commits),
{
    let i = choose|i: int| 0 <= i < v.commits.len() && v.commits[i].id == id;
    lemma_first_exists(v.commits, id, i);
    let k = choose|k: int| is_first_with(v.commits, id, k);
    let cs = v.commits.remove(k);
    if has_id(cs, id) {
        let j = choose|j: int| 0 <= j < cs.len() && cs[j].id == id;
        if j < k {
            assert(cs[j] == v.commits[j]);
        } else {
            assert(cs[j] == v.commits[j + 1]);
        }
    }
}

proof fn lemma_first_exists(cs: Seq<CommitView>, id: usize, i: int)
    requires
        0 <= i < cs.len(),
        cs[i].id == id,
    ensures
        exists|k: int| is_first_with(cs, id, k),
    decreases i,
{
    if exists|j: int| 0 <= j < i && cs[j].id == id {
        let j = choose|j: int| 0 <= j < i && cs[j].id == id;
        lemma_first_exists(cs, id, j);
    } else {
        assert(is_first_with(cs, id, i));
    }
}

/// Ids follow the count, not a counter: the commit made right after a
/// removal gets the id that the count had before it, which an earlier
/// commit may still carry.
pub proof fn lemma_id_after_remove(v: LedgerView, id: usize, c: CommitView)
    requires
        !v.closed,
        has_id(v.commits, id),
        c.id == ledger_after_remove(v, id).commits.len() + 1,
    ensures
        c.id == v.commits.len(),
        ledger_after_push(ledger_after_remove(v, id), c).commits.len() == v.commits.len(),
{
    let i = choose|i: int| 0 <= i < v.commits.len() && v.commits[i].id == id;
    lemma_first_exists(v.commits, id, i);
}

} // verus!
