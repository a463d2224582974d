//! The typed domain model: repositories, commits, pull requests and issues,
//! continuously refreshed by idempotent upserts keyed on stable natural
//! identifiers.
//!
//! Each table assigns surrogate ids in insertion order from 1. An upsert
//! keyed on a natural key updates the mutable columns of the existing row
//! (preserving its id and creation time) or appends a new row. Timestamps
//! are carried as milliseconds since the Unix epoch.

use vstd::prelude::*;

use crate::find::find_first;
use crate::find::lemma_find_first_hit;
use crate::find::lemma_find_first_miss;

verus! {

/// The view of an optional string column.
pub open spec fn view_opt_string(o: Option<String>) -> Option<Seq<char>> {
    match o {
        Some(s) => Some(s@),
        None => None,
    }
}

/// A mirrored source-platform repository.
pub struct Repository {
    pub id: i64,
    pub github_id: i64,
    pub name: String,
    pub full_name: String,
    pub owner: String,
    pub description: Option<String>,
    pub url: String,
    pub is_private: bool,
    pub created_at: i64,
    pub updated_at: i64,
}

/// The caller-supplied columns of a repository upsert.
#[derive(Debug)]
pub struct CreateRepository {
    pub github_id: i64,
    pub name: String,
    pub full_name: String,
    pub owner: String,
    pub description: Option<String>,
    pub url: String,
    pub is_private: bool,
}

/// Mathematical view of a repository row.
pub struct RepositoryView {
    pub id: int,
    pub github_id: int,
    pub name: Seq<char>,
    pub full_name: Seq<char>,
    pub owner: Seq<char>,
    pub description: Option<Seq<char>>,
    pub url: Seq<char>,
    pub is_private: bool,
    pub created_at: int,
    pub updated_at: int,
}

/// Mathematical view of a repository upsert's columns.
pub struct CreateRepositoryView {
    pub github_id: int,
    pub name: Seq<char>,
    pub full_name: Seq<char>,
    pub owner: Seq<char>,
    pub description: Option<Seq<char>>,
    pub url: Seq<char>,
    pub is_private: bool,
}

impl View for Repository {
    type V = RepositoryView;

    open spec fn view(&self) -> RepositoryView {
        RepositoryView {
            id: self.id as int,
            github_id: self.github_id as int,
            name: self.name@,
            full_name: self.full_name@,
            owner: self.owner@,
            description: view_opt_string(self.description),
            url: self.url@,
            is_private: self.is_private,
            created_at: self.created_at as int,
            updated_at: self.updated_at as int,
        }
    }
}

impl View for CreateRepository {
    type V = CreateRepositoryView;

    open spec fn view(&self) -> CreateRepositoryView {
        CreateRepositoryView {
            github_id: self.github_id as int,
            name: self.name@,
            full_name: self.full_name@,
            owner: self.owner@,
            description: view_opt_string(self.description),
            url: self.url@,
            is_private: self.is_private,
        }
    }
}

/// A commit sighted in a push delivery.
pub struct Commit {
    pub id: i64,
    pub repository_id: i64,
    pub webhook_event_id: i64,
    pub sha: String,
    pub message: String,
    pub author_name: String,
    pub author_email: String,
    pub committer_name: String,
    pub committer_email: String,
    pub committed_at: i64,
    pub url: String,
    pub created_at: i64,
}

/// The caller-supplied columns of a commit upsert.
pub struct CreateCommit {
    pub repository_id: i64,
    pub webhook_event_id: i64,
    pub sha: String,
    pub message: String,
    pub author_name: String,
    pub author_email: String,
    pub committer_name: String,
    pub committer_email: String,
    pub committed_at: i64,
    pub url: String,
}

/// Mathematical view of a commit row.
pub struct CommitView {
    pub id: int,
    pub repository_id: int,
    pub webhook_event_id: int,
    pub sha: Seq<char>,
    pub message: Seq<char>,
    pub author_name: Seq<char>,
    pub author_email: Seq<char>,
    pub committer_name: Seq<char>,
    pub committer_email: Seq<char>,
    pub committed_at: int,
    pub url: Seq<char>,
    pub created_at: int,
}

/// Mathematical view of a commit upsert's columns.
pub struct CreateCommitView {
    pub repository_id: int,
    pub webhook_event_id: int,
    pub sha: Seq<char>,
    pub message: Seq<char>,
    pub author_name: Seq<char>,
    pub author_email: Seq<char>,
    pub committer_name: Seq<char>,
    pub committer_email: Seq<char>,
    pub committed_at: int,
    pub url: Seq<char>,
}

impl View for Commit {
    type V = CommitView;

    open spec fn view(&self) -> CommitView {
        CommitView {
            id: self.id as int,
            repository_id: self.repository_id as int,
            webhook_event_id: self.webhook_event_id as int,
            sha: self.sha@,
            message: self.message@,
            author_name: self.author_name@,
            author_email: self.author_email@,
            committer_name: self.committer_name@,
            committer_email: self.committer_email@,
            committed_at: self.committed_at as int,
            url: self.url@,
            created_at: self.created_at as int,
        }
    }
}

impl View for CreateCommit {
    type V = CreateCommitView;

    open spec fn view(&self) -> CreateCommitView {
        CreateCommitView {
            repository_id: self.repository_id as int,
            webhook_event_id: self.webhook_event_id as int,
            sha: self.sha@,
            message: self.message@,
            author_name: self.author_name@,
            author_email: self.author_email@,
            committer_name: self.committer_name@,
            committer_email: self.committer_email@,
            committed_at: self.committed_at as int,
            url: self.url@,
        }
    }
}

/// A mirrored pull request.
pub struct PullRequest {
    pub id: i64,
    pub repository_id: i64,
    pub webhook_event_id: i64,
    pub github_id: i64,
    pub number: i32,
    pub title: String,
    pub state: String,
    pub author: String,
    pub base_branch: String,
    pub head_branch: String,
    pub url: String,
    pub opened_at: i64,
    pub closed_at: Option<i64>,
    pub merged_at: Option<i64>,
    pub created_at: i64,
    pub updated_at: i64,
}

/// The caller-supplied columns of a pull-request upsert.
pub struct CreatePullRequest {
    pub repository_id: i64,
    pub webhook_event_id: i64,
    pub github_id: i64,
    pub number: i32,
    pub title: String,
    pub state: String,
    pub author: String,
    pub base_branch: String,
    pub head_branch: String,
    pub url: String,
    pub opened_at: i64,
    pub closed_at: Option<i64>,
    pub merged_at: Option<i64>,
}

/// Mathematical view of a pull-request row.
pub struct PullRequestView {
    pub id: int,
    pub repository_id: int,
    pub webhook_event_id: int,
    pub github_id: int,
    pub number: int,
    pub title: Seq<char>,
    pub state: Seq<char>,
    pub author: Seq<char>,
    pub base_branch: Seq<char>,
    pub head_branch: Seq<char>,
    pub url: Seq<char>,
    pub opened_at: int,
    pub closed_at: Option<i64>,
    pub merged_at: Option<i64>,
    pub created_at: int,
    pub updated_at: int,
}

/// Mathematical view of a pull-request upsert's columns.
pub struct CreatePullRequestView {
    pub repository_id: int,
    pub webhook_event_id: int,
    pub github_id: int,
    pub number: int,
    pub title: Seq<char>,
    pub state: Seq<char>,
    pub author: Seq<char>,
    pub base_branch: Seq<char>,
    pub head_branch: Seq<char>,
    pub url: Seq<char>,
    pub opened_at: int,
    pub closed_at: Option<i64>,
    pub merged_at: Option<i64>,
}

impl View for PullRequest {
    type V = PullRequestView;

    open spec fn view(&self) -> PullRequestView {
        PullRequestView {
            id: self.id as int,
            repository_id: self.repository_id as int,
            webhook_event_id: self.webhook_event_id as int,
            github_id: self.github_id as int,
            number: self.number as int,
            title: self.title@,
            state: self.state@,
            author: self.author@,
            base_branch: self.base_branch@,
            head_branch: self.head_branch@,
            url: self.url@,
            opened_at: self.opened_at as int,
            closed_at: self.closed_at,
            merged_at: self.merged_at,
            created_at: self.created_at as int,
            updated_at: self.updated_at as int,
        }
    }
}

impl View for CreatePullRequest {
    type V = CreatePullRequestView;

    open spec fn view(&self) -> CreatePullRequestView {
        CreatePullRequestView {
            repository_id: self.repository_id as int,
            webhook_event_id: self.webhook_event_id as int,
            github_id: self.github_id as int,
            number: self.number as int,
            title: self.title@,
            state: self.state@,
            author: self.author@,
            base_branch: self.base_branch@,
            head_branch: self.head_branch@,
            url: self.url@,
            opened_at: self.opened_at as int,
            closed_at: self.closed_at,
            merged_at: self.merged_at,
        }
    }
}

/// A mirrored issue.
pub struct Issue {
    pub id: i64,
    pub repository_id: i64,
    pub webhook_event_id: i64,
    pub github_id: i64,
    pub number: i32,
    pub title: String,
    pub state: String,
    pub author: String,
    pub labels: Vec<String>,
    pub url: String,
    pub opened_at: i64,
    pub closed_at: Option<i64>,
    pub created_at: i64,
    pub updated_at: i64,
}

/// The caller-supplied columns of an issue upsert.
pub struct CreateIssue {
    pub repository_id: i64,
    pub webhook_event_id: i64,
    pub github_id: i64,
    pub number: i32,
    pub title: String,
    pub state: String,
    pub author: String,
    pub labels: Vec<String>,
    pub url: String,
    pub opened_at: i64,
    pub closed_at: Option<i64>,
}

/// Mathematical view of an issue row.
pub struct IssueView {
    pub id: int,
    pub repository_id: int,
    pub webhook_event_id: int,
    pub github_id: int,
    pub number: int,
    pub title: Seq<char>,
    pub state: Seq<char>,
    pub author: Seq<char>,
    pub labels: Seq<Seq<char>>,
    pub url: Seq<char>,
    pub opened_at: int,
    pub closed_at: Option<i64>,
    pub created_at: int,
    pub updated_at: int,
}

/// Mathematical view of an issue upsert's columns.
pub struct CreateIssueView {
    pub repository_id: int,
    pub webhook_event_id: int,
    pub github_id: int,
    pub number: int,
    pub title: Seq<char>,
    pub state: Seq<char>,
    pub author: Seq<char>,
    pub labels: Seq<Seq<char>>,
    pub url: Seq<char>,
    pub opened_at: int,
    pub closed_at: Option<i64>,
}

/// The views of a label list.
pub open spec fn labels_view(labels: Vec<String>) -> Seq<Seq<char>> {
    labels@.map_values(|s: String| s@)
}

impl View for Issue {
    type V = IssueView;

    open spec fn view(&self) -> IssueView {
        IssueView {
            id: self.id as int,
            repository_id: self.repository_id as int,
            webhook_event_id: self.webhook_event_id as int,
            github_id: self.github_id as int,
            number: self.number as int,
            title: self.title@,
            state: self.state@,
            author: self.author@,
            labels: labels_view(self.labels),
            url: self.url@,
            opened_at: self.opened_at as int,
            closed_at: self.closed_at,
            created_at: self.created_at as int,
            updated_at: self.updated_at as int,
        }
    }
}

impl View for CreateIssue {
    type V = CreateIssueView;

    open spec fn view(&self) -> CreateIssueView {
        CreateIssueView {
            repository_id: self.repository_id as int,
            webhook_event_id: self.webhook_event_id as int,
            github_id: self.github_id as int,
            number: self.number as int,
            title: self.title@,
            state: self.state@,
            author: self.author@,
            labels: labels_view(self.labels),
            url: self.url@,
            opened_at: self.opened_at as int,
            closed_at: self.closed_at,
        }
    }
}

/// The four domain tables behind one handle.
pub struct DomainStore {
    pub repositories: Vec<Repository>,
    pub commits: Vec<Commit>,
    pub pull_requests: Vec<PullRequest>,
    pub issues: Vec<Issue>,
}

/// The full-name lookup predicate of the repository table.
pub open spec fn repo_name_pred(full_name: Seq<char>) -> spec_fn(RepositoryView) -> bool {
    |r: RepositoryView| r.full_name == full_name
}

/// The natural-key predicate of the repository table.
pub open spec fn repo_key(github_id: int) -> spec_fn(RepositoryView) -> bool {
    |r: RepositoryView| r.github_id == github_id
}

/// The natural-key predicate of the commit table.
pub open spec fn commit_key(sha: Seq<char>, repository_id: int) -> spec_fn(CommitView) -> bool {
    |c: CommitView| c.sha == sha && c.repository_id == repository_id
}

/// The natural-key predicate of the pull-request table.
pub open spec fn pr_key(github_id: int) -> spec_fn(PullRequestView) -> bool {
    |p: PullRequestView| p.github_id == github_id
}

/// The natural-key predicate of the issue table.
pub open spec fn issue_key(github_id: int) -> spec_fn(IssueView) -> bool {
    |i: IssueView| i.github_id == github_id
}

impl DomainStore {
    /// The repository rows, as views.
    pub open spec fn repo_rows(self) -> Seq<RepositoryView> {
        self.repositories@.map_values(|r: Repository| r@)
    }

    /// The commit rows, as views.
    pub open spec fn commit_rows(self) -> Seq<CommitView> {
        self.commits@.map_values(|c: Commit| c@)
    }

    /// The pull-request rows, as views.
    pub open spec fn pr_rows(self) -> Seq<PullRequestView> {
        self.pull_requests@.map_values(|p: PullRequest| p@)
    }

    /// The issue rows, as views.
    pub open spec fn issue_rows(self) -> Seq<IssueView> {
        self.issues@.map_values(|i: Issue| i@)
    }

    /// Surrogate ids follow insertion order and natural keys are unique.
    pub open spec fn well_formed(self) -> bool {
        &&& forall|i: int|
            0 <= i < self.repo_rows().len() ==> (#[trigger] self.repo_rows()[i]).id == i + 1
        &&& forall|i: int|
            0 <= i < self.commit_rows().len() ==> (#[trigger] self.commit_rows()[i]).id == i + 1
        &&& forall|i: int|
            0 <= i < self.pr_rows().len() ==> (#[trigger] self.pr_rows()[i]).id == i + 1
        &&& forall|i: int|
            0 <= i < self.issue_rows().len() ==> (#[trigger] self.issue_rows()[i]).id == i + 1
        &&& forall|i: int, j: int|
            0 <= i < j < self.repo_rows().len() ==> (#[trigger] self.repo_rows()[i]).github_id != (
            #[trigger] self.repo_rows()[j]).github_id
        &&& forall|i: int, j: int|
            0 <= i < j < self.commit_rows().len() ==> !((#[trigger] self.commit_rows()[i]).sha == (
            #[trigger] self.commit_rows()[j]).sha && self.commit_rows()[i].repository_id
                == self.commit_rows()[j].repository_id)
        &&& forall|i: int, j: int|
            0 <= i < j < self.pr_rows().len() ==> (#[trigger] self.pr_rows()[i]).github_id != (
            #[trigger] self.pr_rows()[j]).github_id
        &&& forall|i: int, j: int|
            0 <= i < j < self.issue_rows().len() ==> (#[trigger] self.issue_rows()[i]).github_id
                != (#[trigger] self.issue_rows()[j]).github_id
    }

    pub fn new() -> (s: DomainStore)
        ensures
            s.well_formed(),
            s.repo_rows().len() == 0,
            s.commit_rows().len() == 0,
            s.pr_rows().len() == 0,
            s.issue_rows().len() == 0,
    {
        DomainStore {
            repositories: Vec::new(),
            commits: Vec::new(),
            pull_requests: Vec::new(),
            issues: Vec::new(),
        }
    }
}

/// The repository table after an upsert: the row under the natural key is
/// refreshed in place, or a new row is appended with the next id.
pub open spec fn upsert_repo(
    s: Seq<RepositoryView>,
    d: CreateRepositoryView,
    now: int,
) -> Seq<RepositoryView> {
    match find_first(s, repo_key(d.github_id)) {
        Some(j) => s.update(
            j,
            (RepositoryView {
                name: d.name,
                full_name: d.full_name,
                owner: d.owner,
                description: d.description,
                url: d.url,
                is_private: d.is_private,
                updated_at: now,
                ..s[j]
            }),
        ),
        None => s.push(
            (RepositoryView {
                id: s.len() as int + 1,
                github_id: d.github_id,
                name: d.name,
                full_name: d.full_name,
                owner: d.owner,
                description: d.description,
                url: d.url,
                is_private: d.is_private,
                created_at: now,
                updated_at: now,
            }),
        ),
    }
}

/// The surrogate id an upsert under this key yields.
pub open spec fn upserted_repo_id(s: Seq<RepositoryView>, github_id: int) -> int {
    match find_first(s, repo_key(github_id)) {
        Some(j) => s[j].id,
        None => s.len() as int + 1,
    }
}

fn find_repo_index(repos: &Vec<Repository>, github_id: i64) -> (r: Option<usize>)
    ensures
        match r {
            Some(i) => {
                &&& i < repos@.len()
                &&& find_first(
                    repos@.map_values(|x: Repository| x@),
                    repo_key(github_id as int),
                ) == Some(i as int)
                &&& repos@[i as int].github_id == github_id
            },
            None => {
                &&& find_first(
                    repos@.map_values(|x: Repository| x@),
                    repo_key(github_id as int),
                ) is None
                &&& forall|k: int|
                    0 <= k < repos@.len() ==> (#[trigger] repos@[k]).github_id != github_id
            },
        },
{
    let ghost rows = repos@.map_values(|x: Repository| x@);
    let n = repos.len();
    for i in 0..n
        invariant
            n == repos@.len(),
            rows == repos@.map_values(|x: Repository| x@),
            forall|k: int| 0 <= k < i ==> !(#[trigger] repo_key(github_id as int)(rows[k])),
    {
        if repos[i].github_id == github_id {
            proof {
                lemma_find_first_hit(rows, repo_key(github_id as int), i as int);
            }
            return Some(i);
        }
    }
    proof {
        lemma_find_first_miss(rows, repo_key(github_id as int));
        assert forall|k: int| 0 <= k < repos@.len() implies (#[trigger] repos@[k]).github_id
            != github_id by {
            assert(!(repo_key(github_id as int)(rows[k])));
        }
    }
    None
}

impl Repository {
    /// Upserts a repository keyed on its platform id: refreshes the mutable
    /// columns of the existing row or appends a new one. Returns the row's
    /// surrogate id.
    pub fn create(store: &mut DomainStore, data: CreateRepository, now: i64) -> (id: i64)
        requires
            old(store).well_formed(),
            old(store).repositories@.len() < i64::MAX,
        ensures
            final(store).well_formed(),
            final(store).repo_rows() == upsert_repo(old(store).repo_rows(), data@, now as int),
            id as int == upserted_repo_id(old(store).repo_rows(), data@.github_id),
            final(store).commits@ == old(store).commits@,
            final(store).pull_requests@ == old(store).pull_requests@,
            final(store).issues@ == old(store).issues@,
    {
        match find_repo_index(&store.repositories, data.github_id) {
            Some(i) => {
                let id = store.repositories[i].id;
                store.repositories[i].name = data.name;
                store.repositories[i].full_name = data.full_name;
                store.repositories[i].owner = data.owner;
                store.repositories[i].description = data.description;
                store.repositories[i].url = data.url;
                store.repositories[i].is_private = data.is_private;
                store.repositories[i].updated_at = now;
                proof {
                    assert(final(store).repo_rows() =~= upsert_repo(
                        old(store).repo_rows(),
                        data@,
                        now as int,
                    ));
                    assert(final(store).commit_rows() =~= old(store).commit_rows());
                    assert(final(store).pr_rows() =~= old(store).pr_rows());
                    assert(final(store).issue_rows() =~= old(store).issue_rows());
                    let f = final(store).repo_rows();
                    let o = old(store).repo_rows();
                    assert forall|a: int| 0 <= a < f.len() implies (#[trigger] f[a]).id == a + 1 by {
                        assert(f[a].id == o[a].id);
                    }
                    assert forall|a: int, b: int| 0 <= a < b < f.len() implies (
                    #[trigger] f[a]).github_id != (#[trigger] f[b]).github_id by {
                        assert(f[a].github_id == o[a].github_id);
                        assert(f[b].github_id == o[b].github_id);
                    }
                }
                id
            },
            None => {
                let n = store.repositories.len();
                proof {
                    if n > 0 {
                        assert(store.repo_rows()[n - 1].id == n as int);
                    }
                }
                let id: i64 = n as i64 + 1;
                let row = Repository {
                    id,
                    github_id: data.github_id,
                    name: data.name,
                    full_name: data.full_name,
                    owner: data.owner,
                    description: data.description,
                    url: data.url,
                    is_private: data.is_private,
                    created_at: now,
                    updated_at: now,
                };
                store.repositories.push(row);
                proof {
                    assert(final(store).repo_rows() =~= upsert_repo(
                        old(store).repo_rows(),
                        data@,
                        now as int,
                    ));
                    assert(final(store).commit_rows() =~= old(store).commit_rows());
                    assert(final(store).pr_rows() =~= old(store).pr_rows());
                    assert(final(store).issue_rows() =~= old(store).issue_rows());
                    let f = final(store).repo_rows();
                    let o = old(store).repo_rows();
                    assert forall|a: int| 0 <= a < f.len() implies (#[trigger] f[a]).id == a + 1 by {
                        if a < o.len() {
                            assert(f[a].id == o[a].id);
                        }
                    }
                    assert forall|a: int, b: int| 0 <= a < b < f.len() implies (
                    #[trigger] f[a]).github_id != (#[trigger] f[b]).github_id by {
                        if b < o.len() {
                            assert(f[a].github_id == o[a].github_id);
                            assert(f[b].github_id == o[b].github_id);
                        } else {
                            assert(f[a].github_id == o[a].github_id);
                            assert(old(store).repositories@[a].github_id != data.github_id);
                        }
                    }
                }
                id
            },
        }
    }

    /// Looks a repository up by surrogate id.
    pub fn find_by_id<'a>(store: &'a DomainStore, id: i64) -> (r: Option<&'a Repository>)
        requires
            store.well_formed(),
        ensures
            match r {
                Some(e) => 1 <= id <= store.repo_rows().len() && *e == store.repositories@[id - 1],
                None => !(1 <= id <= store.repo_rows().len()),
            },
    {
        proof {
            if store.repositories@.len() > 0 {
                assert(store.repo_rows()[store.repo_rows().len() - 1].id
                    == store.repo_rows().len() as int);
            }
        }
        if id >= 1 && id <= store.repositories.len() as i64 {
            Some(&store.repositories[(id - 1) as usize])
        } else {
            None
        }
    }

    /// Looks a repository up by its full name, first match.
    pub fn find_by_full_name<'a>(store: &'a DomainStore, full_name: &str) -> (r: Option<
        &'a Repository,
    >)
        ensures
            match r {
                Some(e) => find_first(store.repo_rows(), repo_name_pred(full_name@)) matches Some(
                    j,
                ) && *e == store.repositories@[j],
                None => find_first(store.repo_rows(), repo_name_pred(full_name@)) is None,
            },
    {
        let ghost rows = store.repo_rows();
        let n = store.repositories.len();
        for i in 0..n
            invariant
                n == store.repositories@.len(),
                rows == store.repo_rows(),
                forall|k: int|
                    0 <= k < i ==> !(#[trigger] repo_name_pred(full_name@)(rows[k])),
        {
            if crate::strutil::str_eq(store.repositories[i].full_name.as_str(), full_name) {
                proof {
                    lemma_find_first_hit(rows, repo_name_pred(full_name@), i as int);
                }
                return Some(&store.repositories[i]);
            }
        }
        proof {
            lemma_find_first_miss(rows, repo_name_pred(full_name@));
        }
        None
    }

    /// Number of repository rows.
    pub fn count(store: &DomainStore) -> (r: i64)
        requires
            store.well_formed(),
        ensures
            r == store.repo_rows().len(),
    {
        proof {
            if store.repositories@.len() > 0 {
                assert(store.repo_rows()[store.repo_rows().len() - 1].id
                    == store.repo_rows().len() as int);
            }
        }
        store.repositories.len() as i64
    }
}


/// The commit table after an upsert keyed on `(sha, repository_id)`:
/// provenance (`webhook_event_id`) and creation time stay with the first
/// sighting.
pub open spec fn upsert_commit(s: Seq<CommitView>, d: CreateCommitView, now: int) -> Seq<
    CommitView,
> {
    match find_first(s, commit_key(d.sha, d.repository_id)) {
        Some(j) => s.update(
            j,
            (CommitView {
                message: d.message,
                author_name: d.author_name,
                author_email: d.author_email,
                committer_name: d.committer_name,
                committer_email: d.committer_email,
                committed_at: d.committed_at,
                url: d.url,
                ..s[j]
            }),
        ),
        None => s.push(
            (CommitView {
                id: s.len() as int + 1,
                repository_id: d.repository_id,
                webhook_event_id: d.webhook_event_id,
                sha: d.sha,
                message: d.message,
                author_name: d.author_name,
                author_email: d.author_email,
                committer_name: d.committer_name,
                committer_email: d.committer_email,
                committed_at: d.committed_at,
                url: d.url,
                created_at: now,
            }),
        ),
    }
}

fn find_commit_index(commits: &Vec<Commit>, sha: &str, repository_id: i64) -> (r: Option<usize>)
    ensures
        match r {
            Some(i) => {
                &&& i < commits@.len()
                &&& find_first(
                    commits@.map_values(|x: Commit| x@),
                    commit_key(sha@, repository_id as int),
                ) == Some(i as int)
            },
            None => {
                &&& find_first(
                    commits@.map_values(|x: Commit| x@),
                    commit_key(sha@, repository_id as int),
                ) is None
                &&& forall|k: int|
                    0 <= k < commits@.len() ==> !((#[trigger] commits@[k]).sha@ == sha@
                        && commits@[k].repository_id == repository_id)
            },
        },
{
    let ghost rows = commits@.map_values(|x: Commit| x@);
    let n = commits.len();
    for i in 0..n
        invariant
            n == commits@.len(),
            rows == commits@.map_values(|x: Commit| x@),
            forall|k: int|
                0 <= k < i ==> !(#[trigger] commit_key(sha@, repository_id as int)(rows[k])),
    {
        if commits[i].repository_id == repository_id && crate::strutil::str_eq(
            commits[i].sha.as_str(),
            sha,
        ) {
            proof {
                lemma_find_first_hit(rows, commit_key(sha@, repository_id as int), i as int);
            }
            return Some(i);
        }
    }
    proof {
        lemma_find_first_miss(rows, commit_key(sha@, repository_id as int));
        assert forall|k: int| 0 <= k < commits@.len() implies !((#[trigger] commits@[k]).sha@
            == sha@ && commits@[k].repository_id == repository_id) by {
            assert(!(commit_key(sha@, repository_id as int)(rows[k])));
        }
    }
    None
}

impl Commit {
    /// Upserts a commit keyed on `(sha, repository_id)`: refreshes the
    /// mutable columns of the existing row (keeping its provenance) or
    /// appends a new one. Returns the row's surrogate id.
    pub fn create(store: &mut DomainStore, data: CreateCommit, now: i64) -> (id: i64)
        requires
            old(store).well_formed(),
            old(store).commits@.len() < i64::MAX,
        ensures
            final(store).well_formed(),
            final(store).commit_rows() == upsert_commit(
                old(store).commit_rows(),
                data@,
                now as int,
            ),
            final(store).repositories@ == old(store).repositories@,
            final(store).pull_requests@ == old(store).pull_requests@,
            final(store).issues@ == old(store).issues@,
    {
        match find_commit_index(&store.commits, data.sha.as_str(), data.repository_id) {
            Some(i) => {
                let id = store.commits[i].id;
                store.commits[i].message = data.message;
                store.commits[i].author_name = data.author_name;
                store.commits[i].author_email = data.author_email;
                store.commits[i].committer_name = data.committer_name;
                store.commits[i].committer_email = data.committer_email;
                store.commits[i].committed_at = data.committed_at;
                store.commits[i].url = data.url;
                proof {
                    assert(final(store).commit_rows() =~= upsert_commit(
                        old(store).commit_rows(),
                        data@,
                        now as int,
                    ));
                    assert(final(store).repo_rows() =~= old(store).repo_rows());
                    assert(final(store).pr_rows() =~= old(store).pr_rows());
                    assert(final(store).issue_rows() =~= old(store).issue_rows());
                    let f = final(store).commit_rows();
                    let o = old(store).commit_rows();
                    assert forall|a: int| 0 <= a < f.len() implies (#[trigger] f[a]).id == a + 1 by {
                        assert(f[a].id == o[a].id);
                    }
                    assert forall|a: int, b: int| 0 <= a < b < f.len() implies !((
                    #[trigger] f[a]).sha == (#[trigger] f[b]).sha && f[a].repository_id
                        == f[b].repository_id) by {
                        assert(f[a].sha == o[a].sha && f[a].repository_id == o[a].repository_id);
                        assert(f[b].sha == o[b].sha && f[b].repository_id == o[b].repository_id);
                    }
                }
                id
            },
            None => {
                let n = store.commits.len();
                proof {
                    if n > 0 {
                        assert(store.commit_rows()[n - 1].id == n as int);
                    }
                }
                let id: i64 = n as i64 + 1;
                let ghost dv = data@;
                let row = Commit {
                    id,
                    repository_id: data.repository_id,
                    webhook_event_id: data.webhook_event_id,
                    sha: data.sha,
                    message: data.message,
                    author_name: data.author_name,
                    author_email: data.author_email,
                    committer_name: data.committer_name,
                    committer_email: data.committer_email,
                    committed_at: data.committed_at,
                    url: data.url,
                    created_at: now,
                };
                store.commits.push(row);
                proof {
                    assert(final(store).commit_rows() =~= upsert_commit(
                        old(store).commit_rows(),
                        dv,
                        now as int,
                    ));
                    assert(final(store).repo_rows() =~= old(store).repo_rows());
                    assert(final(store).pr_rows() =~= old(store).pr_rows());
                    assert(final(store).issue_rows() =~= old(store).issue_rows());
                    let f = final(store).commit_rows();
                    let o = old(store).commit_rows();
                    assert forall|a: int| 0 <= a < f.len() implies (#[trigger] f[a]).id == a + 1 by {
                        if a < o.len() {
                            assert(f[a].id == o[a].id);
                        }
                    }
                    assert forall|a: int, b: int| 0 <= a < b < f.len() implies !((
                    #[trigger] f[a]).sha == (#[trigger] f[b]).sha && f[a].repository_id
                        == f[b].repository_id) by {
                        if b < o.len() {
                            assert(f[a].sha == o[a].sha && f[a].repository_id
                                == o[a].repository_id);
                            assert(f[b].sha == o[b].sha && f[b].repository_id
                                == o[b].repository_id);
                        } else {
                            assert(f[a].sha == o[a].sha && f[a].repository_id
                                == o[a].repository_id);
                            assert(!(old(store).commits@[a].sha@ == dv.sha
                                && old(store).commits@[a].repository_id == dv.repository_id));
                        }
                    }
                }
                id
            },
        }
    }

    /// Number of commit rows.
    pub fn count(store: &DomainStore) -> (r: i64)
        requires
            store.well_formed(),
        ensures
            r == store.commit_rows().len(),
    {
        proof {
            if store.commits@.len() > 0 {
                assert(store.commit_rows()[store.commit_rows().len() - 1].id
                    == store.commit_rows().len() as int);
            }
        }
        store.commits.len() as i64
    }

    /// Number of commit rows of one repository.
    pub fn count_by_repository(store: &DomainStore, repository_id: i64) -> (r: i64)
        requires
            store.well_formed(),
        ensures
            r == store.commit_rows().filter(commit_repo_pred(repository_id as int)).len(),
    {
        proof {
            if store.commits@.len() > 0 {
                assert(store.commit_rows()[store.commit_rows().len() - 1].id
                    == store.commit_rows().len() as int);
            }
        }
        let n = store.commits.len();
        let mut cnt: usize = 0;
        assert(store.commit_rows().take(0) =~= Seq::<CommitView>::empty());
        for i in 0..n
            invariant
                n == store.commits@.len(),
                cnt <= i,
                cnt == store.commit_rows().take(i as int).filter(
                    commit_repo_pred(repository_id as int),
                ).len(),
        {
            proof {
                assert(store.commit_rows().take(i + 1).drop_last() =~= store.commit_rows().take(
                    i as int,
                ));
                assert(store.commit_rows().take(i + 1).last() == store.commit_rows()[i as int]);
                reveal_with_fuel(Seq::filter, 2);
            }
            if store.commits[i].repository_id == repository_id {
                cnt = cnt + 1;
            }
        }
        assert(store.commit_rows().take(n as int) =~= store.commit_rows());
        cnt as i64
    }
}

/// The membership predicate of a repository's commits.
pub open spec fn commit_repo_pred(repository_id: int) -> spec_fn(CommitView) -> bool {
    |c: CommitView| c.repository_id == repository_id
}


/// The pull-request table after an upsert keyed on the platform id.
pub open spec fn upsert_pr(s: Seq<PullRequestView>, d: CreatePullRequestView, now: int) -> Seq<
    PullRequestView,
> {
    match find_first(s, pr_key(d.github_id)) {
        Some(j) => s.update(
            j,
            (PullRequestView {
                title: d.title,
                state: d.state,
                author: d.author,
                base_branch: d.base_branch,
                head_branch: d.head_branch,
                url: d.url,
                closed_at: d.closed_at,
                merged_at: d.merged_at,
                updated_at: now,
                ..s[j]
            }),
        ),
        None => s.push(
            (PullRequestView {
                id: s.len() as int + 1,
                repository_id: d.repository_id,
                webhook_event_id: d.webhook_event_id,
                github_id: d.github_id,
                number: d.number,
                title: d.title,
                state: d.state,
                author: d.author,
                base_branch: d.base_branch,
                head_branch: d.head_branch,
                url: d.url,
                opened_at: d.opened_at,
                closed_at: d.closed_at,
                merged_at: d.merged_at,
                created_at: now,
                updated_at: now,
            }),
        ),
    }
}

fn find_pr_index(prs: &Vec<PullRequest>, github_id: i64) -> (r: Option<usize>)
    ensures
        match r {
            Some(i) => {
                &&& i < prs@.len()
                &&& find_first(
                    prs@.map_values(|x: PullRequest| x@),
                    pr_key(github_id as int),
                ) == Some(i as int)
            },
            None => {
                &&& find_first(
                    prs@.map_values(|x: PullRequest| x@),
                    pr_key(github_id as int),
                ) is None
                &&& forall|k: int|
                    0 <= k < prs@.len() ==> (#[trigger] prs@[k]).github_id != github_id
            },
        },
{
    let ghost rows = prs@.map_values(|x: PullRequest| x@);
    let n = prs.len();
    for i in 0..n
        invariant
            n == prs@.len(),
            rows == prs@.map_values(|x: PullRequest| x@),
            forall|k: int| 0 <= k < i ==> !(#[trigger] pr_key(github_id as int)(rows[k])),
    {
        if prs[i].github_id == github_id {
            proof {
                lemma_find_first_hit(rows, pr_key(github_id as int), i as int);
            }
            return Some(i);
        }
    }
    proof {
        lemma_find_first_miss(rows, pr_key(github_id as int));
        assert forall|k: int| 0 <= k < prs@.len() implies (#[trigger] prs@[k]).github_id
            != github_id by {
            assert(!(pr_key(github_id as int)(rows[k])));
        }
    }
    None
}

impl PullRequest {
    /// Upserts a pull request keyed on its platform id: refreshes the
    /// mutable columns of the existing row (keeping its number, opening
    /// time and provenance) or appends a new one. Returns the row's
    /// surrogate id.
    pub fn create(store: &mut DomainStore, data: CreatePullRequest, now: i64) -> (id: i64)
        requires
            old(store).well_formed(),
            old(store).pull_requests@.len() < i64::MAX,
        ensures
            final(store).well_formed(),
            final(store).pr_rows() == upsert_pr(old(store).pr_rows(), data@, now as int),
            final(store).repositories@ == old(store).repositories@,
            final(store).commits@ == old(store).commits@,
            final(store).issues@ == old(store).issues@,
    {
        match find_pr_index(&store.pull_requests, data.github_id) {
            Some(i) => {
                let id = store.pull_requests[i].id;
                store.pull_requests[i].title = data.title;
                store.pull_requests[i].state = data.state;
                store.pull_requests[i].author = data.author;
                store.pull_requests[i].base_branch = data.base_branch;
                store.pull_requests[i].head_branch = data.head_branch;
                store.pull_requests[i].url = data.url;
                store.pull_requests[i].closed_at = data.closed_at;
                store.pull_requests[i].merged_at = data.merged_at;
                store.pull_requests[i].updated_at = now;
                proof {
                    assert(final(store).pr_rows() =~= upsert_pr(
                        old(store).pr_rows(),
                        data@,
                        now as int,
                    ));
                    assert(final(store).repo_rows() =~= old(store).repo_rows());
                    assert(final(store).commit_rows() =~= old(store).commit_rows());
                    assert(final(store).issue_rows() =~= old(store).issue_rows());
                    let f = final(store).pr_rows();
                    let o = old(store).pr_rows();
                    assert forall|a: int| 0 <= a < f.len() implies (#[trigger] f[a]).id == a + 1 by {
                        assert(f[a].id == o[a].id);
                    }
                    assert forall|a: int, b: int| 0 <= a < b < f.len() implies (
                    #[trigger] f[a]).github_id != (#[trigger] f[b]).github_id by {
                        assert(f[a].github_id == o[a].github_id);
                        assert(f[b].github_id == o[b].github_id);
                    }
                }
                id
            },
            None => {
                let n = store.pull_requests.len();
                proof {
                    if n > 0 {
                        assert(store.pr_rows()[n - 1].id == n as int);
                    }
                }
                let id: i64 = n as i64 + 1;
                let ghost dv = data@;
                let row = PullRequest {
                    id,
                    repository_id: data.repository_id,
                    webhook_event_id: data.webhook_event_id,
                    github_id: data.github_id,
                    number: data.number,
                    title: data.title,
                    state: data.state,
                    author: data.author,
                    base_branch: data.base_branch,
                    head_branch: data.head_branch,
                    url: data.url,
                    opened_at: data.opened_at,
                    closed_at: data.closed_at,
                    merged_at: data.merged_at,
                    created_at: now,
                    updated_at: now,
                };
                store.pull_requests.push(row);
                proof {
                    assert(final(store).pr_rows() =~= upsert_pr(
                        old(store).pr_rows(),
                        dv,
                        now as int,
                    ));
                    assert(final(store).repo_rows() =~= old(store).repo_rows());
                    assert(final(store).commit_rows() =~= old(store).commit_rows());
                    assert(final(store).issue_rows() =~= old(store).issue_rows());
                    let f = final(store).pr_rows();
                    let o = old(store).pr_rows();
                    assert forall|a: int| 0 <= a < f.len() implies (#[trigger] f[a]).id == a + 1 by {
                        if a < o.len() {
                            assert(f[a].id == o[a].id);
                        }
                    }
                    assert forall|a: int, b: int| 0 <= a < b < f.len() implies (
                    #[trigger] f[a]).github_id != (#[trigger] f[b]).github_id by {
                        if b < o.len() {
                            assert(f[a].github_id == o[a].github_id);
                            assert(f[b].github_id == o[b].github_id);
                        } else {
                            assert(f[a].github_id == o[a].github_id);
                            assert(old(store).pull_requests@[a].github_id != dv.github_id);
                        }
                    }
                }
                id
            },
        }
    }

    /// Number of pull-request rows.
    pub fn count(store: &DomainStore) -> (r: i64)
        requires
            store.well_formed(),
        ensures
            r == store.pr_rows().len(),
    {
        proof {
            if store.pull_requests@.len() > 0 {
                assert(store.pr_rows()[store.pr_rows().len() - 1].id
                    == store.pr_rows().len() as int);
            }
        }
        store.pull_requests.len() as i64
    }

    /// Number of pull-request rows in one state.
    pub fn count_by_state(store: &DomainStore, state: &str) -> (r: i64)
        requires
            store.well_formed(),
        ensures
            r == store.pr_rows().filter(pr_state_pred(state@)).len(),
    {
        proof {
            if store.pull_requests@.len() > 0 {
                assert(store.pr_rows()[store.pr_rows().len() - 1].id
                    == store.pr_rows().len() as int);
            }
        }
        let n = store.pull_requests.len();
        let mut cnt: usize = 0;
        assert(store.pr_rows().take(0) =~= Seq::<PullRequestView>::empty());
        for i in 0..n
            invariant
                n == store.pull_requests@.len(),
                cnt <= i,
                cnt == store.pr_rows().take(i as int).filter(pr_state_pred(state@)).len(),
        {
            proof {
                assert(store.pr_rows().take(i + 1).drop_last() =~= store.pr_rows().take(i as int));
                assert(store.pr_rows().take(i + 1).last() == store.pr_rows()[i as int]);
                reveal_with_fuel(Seq::filter, 2);
            }
            if crate::strutil::str_eq(store.pull_requests[i].state.as_str(), state) {
                cnt = cnt + 1;
            }
        }
        assert(store.pr_rows().take(n as int) =~= store.pr_rows());
        cnt as i64
    }
}

/// The membership predicate of pull requests in one state.
pub open spec fn pr_state_pred(state: Seq<char>) -> spec_fn(PullRequestView) -> bool {
    |p: PullRequestView| p.state == state
}

/// The issue table after an upsert keyed on the platform id.
pub open spec fn upsert_issue(s: Seq<IssueView>, d: CreateIssueView, now: int) -> Seq<IssueView> {
    match find_first(s, issue_key(d.github_id)) {
        Some(j) => s.update(
            j,
            (IssueView {
                title: d.title,
                state: d.state,
                author: d.author,
                labels: d.labels,
                url: d.url,
                closed_at: d.closed_at,
                updated_at: now,
                ..s[j]
            }),
        ),
        None => s.push(
            (IssueView {
                id: s.len() as int + 1,
                repository_id: d.repository_id,
                webhook_event_id: d.webhook_event_id,
                github_id: d.github_id,
                number: d.number,
                title: d.title,
                state: d.state,
                author: d.author,
                labels: d.labels,
                url: d.url,
                opened_at: d.opened_at,
                closed_at: d.closed_at,
                created_at: now,
                updated_at: now,
            }),
        ),
    }
}

fn find_issue_index(issues: &Vec<Issue>, github_id: i64) -> (r: Option<usize>)
    ensures
        match r {
            Some(i) => {
                &&& i < issues@.len()
                &&& find_first(
                    issues@.map_values(|x: Issue| x@),
                    issue_key(github_id as int),
                ) == Some(i as int)
            },
            None => {
                &&& find_first(
                    issues@.map_values(|x: Issue| x@),
                    issue_key(github_id as int),
                ) is None
                &&& forall|k: int|
                    0 <= k < issues@.len() ==> (#[trigger] issues@[k]).github_id != github_id
            },
        },
{
    let ghost rows = issues@.map_values(|x: Issue| x@);
    let n = issues.len();
    for i in 0..n
        invariant
            n == issues@.len(),
            rows == issues@.map_values(|x: Issue| x@),
            forall|k: int| 0 <= k < i ==> !(#[trigger] issue_key(github_id as int)(rows[k])),
    {
        if issues[i].github_id == github_id {
            proof {
                lemma_find_first_hit(rows, issue_key(github_id as int), i as int);
            }
            return Some(i);
        }
    }
    proof {
        lemma_find_first_miss(rows, issue_key(github_id as int));
        assert forall|k: int| 0 <= k < issues@.len() implies (#[trigger] issues@[k]).github_id
            != github_id by {
            assert(!(issue_key(github_id as int)(rows[k])));
        }
    }
    None
}

impl Issue {
    /// Upserts an issue keyed on its platform id: refreshes the mutable
    /// columns of the existing row (keeping its number, opening time and
    /// provenance) or appends a new one. Returns the row's surrogate id.
    pub fn create(store: &mut DomainStore, data: CreateIssue, now: i64) -> (id: i64)
        requires
            old(store).well_formed(),
            old(store).issues@.len() < i64::MAX,
        ensures
            final(store).well_formed(),
            final(store).issue_rows() == upsert_issue(old(store).issue_rows(), data@, now as int),
            final(store).repositories@ == old(store).repositories@,
            final(store).commits@ == old(store).commits@,
            final(store).pull_requests@ == old(store).pull_requests@,
    {
        match find_issue_index(&store.issues, data.github_id) {
            Some(i) => {
                let id = store.issues[i].id;
                store.issues[i].title = data.title;
                store.issues[i].state = data.state;
                store.issues[i].author = data.author;
                store.issues[i].labels = data.labels;
                store.issues[i].url = data.url;
                store.issues[i].closed_at = data.closed_at;
                store.issues[i].updated_at = now;
                proof {
                    assert(final(store).issue_rows() =~= upsert_issue(
                        old(store).issue_rows(),
                        data@,
                        now as int,
                    ));
                    assert(final(store).repo_rows() =~= old(store).repo_rows());
                    assert(final(store).commit_rows() =~= old(store).commit_rows());
                    assert(final(store).pr_rows() =~= old(store).pr_rows());
                    let f = final(store).issue_rows();
                    let o = old(store).issue_rows();
                    assert forall|a: int| 0 <= a < f.len() implies (#[trigger] f[a]).id == a + 1 by {
                        assert(f[a].id == o[a].id);
                    }
                    assert forall|a: int, b: int| 0 <= a < b < f.len() implies (
                    #[trigger] f[a]).github_id != (#[trigger] f[b]).github_id by {
                        assert(f[a].github_id == o[a].github_id);
                        assert(f[b].github_id == o[b].github_id);
                    }
                }
                id
            },
            None => {
                let n = store.issues.len();
                proof {
                    if n > 0 {
                        assert(store.issue_rows()[n - 1].id == n as int);
                    }
                }
                let id: i64 = n as i64 + 1;
                let ghost dv = data@;
                let row = Issue {
                    id,
                    repository_id: data.repository_id,
                    webhook_event_id: data.webhook_event_id,
                    github_id: data.github_id,
                    number: data.number,
                    title: data.title,
                    state: data.state,
                    author: data.author,
                    labels: data.labels,
                    url: data.url,
                    opened_at: data.opened_at,
                    closed_at: data.closed_at,
                    created_at: now,
                    updated_at: now,
                };
                store.issues.push(row);
                proof {
                    assert(final(store).issue_rows() =~= upsert_issue(
                        old(store).issue_rows(),
                        dv,
                        now as int,
                    ));
                    assert(final(store).repo_rows() =~= old(store).repo_rows());
                    assert(final(store).commit_rows() =~= old(store).commit_rows());
                    assert(final(store).pr_rows() =~= old(store).pr_rows());
                    let f = final(store).issue_rows();
                    let o = old(store).issue_rows();
                    assert forall|a: int| 0 <= a < f.len() implies (#[trigger] f[a]).id == a + 1 by {
                        if a < o.len() {
                            assert(f[a].id == o[a].id);
                        }
                    }
                    assert forall|a: int, b: int| 0 <= a < b < f.len() implies (
                    #[trigger] f[a]).github_id != (#[trigger] f[b]).github_id by {
                        if b < o.len() {
                            assert(f[a].github_id == o[a].github_id);
                            assert(f[b].github_id == o[b].github_id);
                        } else {
                            assert(f[a].github_id == o[a].github_id);
                            assert(old(store).issues@[a].github_id != dv.github_id);
                        }
                    }
                }
                id
            },
        }
    }

    /// Number of issue rows.
    pub fn count(store: &DomainStore) -> (r: i64)
        requires
            store.well_formed(),
        ensures
            r == store.issue_rows().len(),
    {
        proof {
            if store.issues@.len() > 0 {
                assert(store.issue_rows()[store.issue_rows().len() - 1].id
                    == store.issue_rows().len() as int);
            }
        }
        store.issues.len() as i64
    }

    /// Number of issue rows in one state.
    pub fn count_by_state(store: &DomainStore, state: &str) -> (r: i64)
        requires
            store.well_formed(),
        ensures
            r == store.issue_rows().filter(issue_state_pred(state@)).len(),
    {
        proof {
            if store.issues@.len() > 0 {
                assert(store.issue_rows()[store.issue_rows().len() - 1].id
                    == store.issue_rows().len() as int);
            }
        }
        let n = store.issues.len();
        let mut cnt: usize = 0;
        assert(store.issue_rows().take(0) =~= Seq::<IssueView>::empty());
        for i in 0..n
            invariant
                n == store.issues@.len(),
                cnt <= i,
                cnt == store.issue_rows().take(i as int).filter(issue_state_pred(state@)).len(),
        {
            proof {
                assert(store.issue_rows().take(i + 1).drop_last() =~= store.issue_rows().take(
                    i as int,
                ));
                assert(store.issue_rows().take(i + 1).last() == store.issue_rows()[i as int]);
                reveal_with_fuel(Seq::filter, 2);
            }
            if crate::strutil::str_eq(store.issues[i].state.as_str(), state) {
                cnt = cnt + 1;
            }
        }
        assert(store.issue_rows().take(n as int) =~= store.issue_rows());
        cnt as i64
    }
}

/// The membership predicate of issues in one state.
pub open spec fn issue_state_pred(state: Seq<char>) -> spec_fn(IssueView) -> bool {
    |i: IssueView| i.state == state
}

} // verus!
