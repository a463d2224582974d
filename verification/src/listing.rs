//! Ordered listings of the domain tables.
//!
//! Each listing filters its table in insertion order, then orders the
//! matching rows by the entity's own timestamp, newest first; rows with
//! equal timestamps keep their insertion order. The order is defined by a
//! stable insertion sort in the specification, and each function returns
//! exactly the requested page of it.

use vstd::prelude::*;

use crate::domain::Commit;
use crate::domain::CommitView;
use crate::domain::DomainStore;
use crate::domain::commit_repo_pred;
use crate::domain::PullRequest;
use crate::domain::PullRequestView;
use crate::domain::pr_state_pred;
use crate::domain::Issue;
use crate::domain::IssueView;
use crate::domain::issue_state_pred;
use crate::domain::Repository;
use crate::domain::RepositoryView;
use crate::find::find_first;
use crate::find::lemma_find_first_hit;
use crate::find::lemma_find_first_miss;
use crate::find::lemma_find_first_props;
use crate::find::lemma_find_first_none_props;

verus! {

/// The sequence of `&Commit` results, as views.
pub open spec fn commit_ref_views(s: Seq<&Commit>) -> Seq<CommitView> {
    s.map_values(|c: &Commit| c@)
}

/// Strictly older than this commit timestamp.
pub open spec fn commit_older(committed_at: int) -> spec_fn(CommitView) -> bool {
    |c: CommitView| c.committed_at < committed_at
}

/// A row inserted into a newest-first list: before the first strictly older
/// row, after every row at least as new (stable for ties).
pub open spec fn insert_commit_desc(sorted: Seq<CommitView>, x: CommitView) -> Seq<CommitView> {
    match find_first(sorted, commit_older(x.committed_at)) {
        Some(j) => sorted.insert(j, x),
        None => sorted.push(x),
    }
}

/// The rows ordered newest first by committed-at, stable for ties.
pub open spec fn sort_commits_desc(s: Seq<CommitView>) -> Seq<CommitView>
    decreases s.len(),
{
    if s.len() == 0 {
        Seq::empty()
    } else {
        insert_commit_desc(sort_commits_desc(s.drop_last()), s.last())
    }
}

/// The page of a commit listing selected by `offset` and `limit`.
pub open spec fn commit_slice_page(s: Seq<CommitView>, offset: int, limit: int) -> Seq<CommitView>
    recommends
        offset >= 0,
        limit >= 0,
{
    if offset >= s.len() {
        Seq::empty()
    } else if offset + limit <= s.len() {
        s.subrange(offset, offset + limit)
    } else {
        s.subrange(offset, s.len() as int)
    }
}

/// Rows are non-increasing in committed-at.
pub open spec fn commits_sorted_desc(s: Seq<CommitView>) -> bool {
    forall|i: int, j: int|
        0 <= i < j < s.len() ==> (#[trigger] s[i]).committed_at >= (#[trigger] s[j]).committed_at
}

proof fn lemma_insert_commit_desc_sorted(sorted: Seq<CommitView>, x: CommitView)
    requires
        commits_sorted_desc(sorted),
    ensures
        commits_sorted_desc(insert_commit_desc(sorted, x)),
{
    let p = commit_older(x.committed_at);
    let t = insert_commit_desc(sorted, x);
    match find_first(sorted, p) {
        Some(j) => {
            lemma_find_first_props(sorted, p, j);
            assert forall|a: int, b: int| 0 <= a < b < t.len() implies (
            #[trigger] t[a]).committed_at >= (#[trigger] t[b]).committed_at by {
                assert(forall|k: int|
                    0 <= k < t.len() ==> #[trigger] t[k] == (if k < j {
                        sorted[k]
                    } else if k == j {
                        x
                    } else {
                        sorted[k - 1]
                    }));
            }
        },
        None => {
            lemma_find_first_none_props(sorted, p);
            assert forall|a: int, b: int| 0 <= a < b < t.len() implies (
            #[trigger] t[a]).committed_at >= (#[trigger] t[b]).committed_at by {
                if b < sorted.len() {
                } else {
                    assert(t[b] == x);
                    assert(!p(sorted[a]));
                }
            }
        },
    }
}

/// The newest-first commit order is indeed non-increasing in committed-at.
pub proof fn lemma_sort_commits_desc_sorted(s: Seq<CommitView>)
    ensures
        commits_sorted_desc(sort_commits_desc(s)),
    decreases s.len(),
{
    if s.len() > 0 {
        lemma_sort_commits_desc_sorted(s.drop_last());
        lemma_insert_commit_desc_sorted(sort_commits_desc(s.drop_last()), s.last());
    }
}

fn insert_commit_ref<'a>(out: &mut Vec<&'a Commit>, c: &'a Commit)
    ensures
        commit_ref_views(final(out)@) == insert_commit_desc(commit_ref_views(old(out)@), c@),
        final(out)@.len() == old(out)@.len() + 1,
{
    let ghost rows = commit_ref_views(out@);
    let ghost p = commit_older(c@.committed_at);
    let n = out.len();
    for i in 0..n
        invariant
            n == out@.len(),
            *out == *old(out),
            rows == commit_ref_views(out@),
            forall|k: int| 0 <= k < i ==> !(#[trigger] p(rows[k])),
            p == commit_older(c@.committed_at),
    {
        if out[i].committed_at < c.committed_at {
            proof {
                lemma_find_first_hit(rows, p, i as int);
            }
            out.insert(i, c);
            proof {
                assert(commit_ref_views(out@) =~= rows.insert(i as int, c@));
            }
            return;
        }
    }
    proof {
        lemma_find_first_miss(rows, p);
    }
    out.push(c);
    proof {
        assert(commit_ref_views(out@) =~= rows.push(c@));
    }
}

fn page_commit_refs<'a>(full: Vec<&'a Commit>, limit: i64, offset: i64) -> (r: Vec<&'a Commit>)
    requires
        limit >= 0,
        offset >= 0,
        full@.len() <= i64::MAX,
    ensures
        commit_ref_views(r@) == commit_slice_page(
            commit_ref_views(full@),
            offset as int,
            limit as int,
        ),
{
    let len = full.len();
    let mut r: Vec<&Commit> = Vec::new();
    if offset >= len as i64 {
        assert(commit_ref_views(r@) =~= commit_slice_page(
            commit_ref_views(full@),
            offset as int,
            limit as int,
        ));
        return r;
    }
    let start: usize = offset as usize;
    let end: usize = if limit > len as i64 - offset {
        len
    } else {
        (offset + limit) as usize
    };
    for i in start..end
        invariant
            start <= end <= len,
            len == full@.len(),
            commit_ref_views(r@) =~= commit_ref_views(full@).subrange(start as int, i as int),
        decreases end - i,
    {
        r.push(full[i]);
        proof {
            assert(commit_ref_views(r@) =~= commit_ref_views(r@.drop_last()).push(full@[i as int]@));
            assert(commit_ref_views(full@).subrange(start as int, i + 1) =~= commit_ref_views(
                full@,
            ).subrange(start as int, i as int).push(commit_ref_views(full@)[i as int]));
        }
    }
    assert(commit_ref_views(r@) =~= commit_slice_page(
        commit_ref_views(full@),
        offset as int,
        limit as int,
    ));
    r
}

/// Orders matching rows newest first and pages the result.
fn sorted_commit_page<'a>(
    matched: Vec<&'a Commit>,
    limit: i64,
    offset: i64,
) -> (r: Vec<&'a Commit>)
    requires
        limit >= 0,
        offset >= 0,
        matched@.len() <= i64::MAX,
    ensures
        commit_ref_views(r@) == commit_slice_page(
            sort_commits_desc(commit_ref_views(matched@)),
            offset as int,
            limit as int,
        ),
{
    let n = matched.len();
    let mut sorted: Vec<&Commit> = Vec::new();
    assert(commit_ref_views(matched@).take(0) =~= Seq::<CommitView>::empty());
    assert(commit_ref_views(sorted@) =~= sort_commits_desc(commit_ref_views(matched@).take(0)));
    for i in 0..n
        invariant
            n == matched@.len(),
            sorted@.len() == i,
            commit_ref_views(sorted@) == sort_commits_desc(
                commit_ref_views(matched@).take(i as int),
            ),
    {
        proof {
            assert(commit_ref_views(matched@).take(i + 1).drop_last() =~= commit_ref_views(
                matched@,
            ).take(i as int));
            assert(commit_ref_views(matched@).take(i + 1).last() == matched@[i as int]@);
        }
        insert_commit_ref(&mut sorted, matched[i]);
    }
    assert(commit_ref_views(matched@).take(n as int) =~= commit_ref_views(matched@));
    assert(sorted@.len() == n);
    page_commit_refs(sorted, limit, offset)
}

impl Commit {
    /// Commits of one repository, newest first by committed-at, with limit
    /// and offset.
    pub fn list_by_repository<'a>(
        store: &'a DomainStore,
        repository_id: i64,
        limit: i64,
        offset: i64,
    ) -> (r: Vec<&'a Commit>)
        requires
            store.well_formed(),
            limit >= 0,
            offset >= 0,
        ensures
            commit_ref_views(r@) == commit_slice_page(
                sort_commits_desc(
                    store.commit_rows().filter(commit_repo_pred(repository_id as int)),
                ),
                offset as int,
                limit as int,
            ),
    {
        proof {
            if store.commits@.len() > 0 {
                assert(store.commit_rows()[store.commit_rows().len() - 1].id
                    == store.commit_rows().len() as int);
            }
        }
        let n = store.commits.len();
        let mut matched: Vec<&Commit> = Vec::new();
        assert(store.commit_rows().take(0) =~= Seq::<CommitView>::empty());
        for i in 0..n
            invariant
                n == store.commits@.len(),
                matched@.len() <= i,
                commit_ref_views(matched@) == store.commit_rows().take(i as int).filter(
                    commit_repo_pred(repository_id as int),
                ),
        {
            proof {
                assert(store.commit_rows().take(i + 1).drop_last() =~= store.commit_rows().take(
                    i as int,
                ));
                assert(store.commit_rows().take(i + 1).last() == store.commit_rows()[i as int]);
                reveal_with_fuel(Seq::filter, 2);
            }
            if store.commits[i].repository_id == repository_id {
                matched.push(&store.commits[i]);
                proof {
                    assert(commit_ref_views(matched@) =~= commit_ref_views(
                        matched@.drop_last(),
                    ).push(store.commits@[i as int]@));
                }
            }
        }
        assert(store.commit_rows().take(n as int) =~= store.commit_rows());
        sorted_commit_page(matched, limit, offset)
    }

    /// All commits, newest first by committed-at, with limit and offset.
    pub fn list_all<'a>(store: &'a DomainStore, limit: i64, offset: i64) -> (r: Vec<&'a Commit>)
        requires
            store.well_formed(),
            limit >= 0,
            offset >= 0,
        ensures
            commit_ref_views(r@) == commit_slice_page(
                sort_commits_desc(store.commit_rows()),
                offset as int,
                limit as int,
            ),
    {
        proof {
            if store.commits@.len() > 0 {
                assert(store.commit_rows()[store.commit_rows().len() - 1].id
                    == store.commit_rows().len() as int);
            }
        }
        let n = store.commits.len();
        let mut matched: Vec<&Commit> = Vec::new();
        for i in 0..n
            invariant
                n == store.commits@.len(),
                matched@.len() == i,
                commit_ref_views(matched@) == store.commit_rows().take(i as int),
        {
            matched.push(&store.commits[i]);
            proof {
                assert(commit_ref_views(matched@) =~= commit_ref_views(matched@.drop_last()).push(
                    store.commits@[i as int]@,
                ));
                assert(store.commit_rows().take(i + 1) =~= store.commit_rows().take(i as int).push(
                    store.commit_rows()[i as int],
                ));
            }
        }
        assert(store.commit_rows().take(n as int) =~= store.commit_rows());
        sorted_commit_page(matched, limit, offset)
    }

    /// Commits of one author (by email), newest first by committed-at, with
    /// limit and offset.
    pub fn list_by_author<'a>(
        store: &'a DomainStore,
        author_email: &str,
        limit: i64,
        offset: i64,
    ) -> (r: Vec<&'a Commit>)
        requires
            store.well_formed(),
            limit >= 0,
            offset >= 0,
        ensures
            commit_ref_views(r@) == commit_slice_page(
                sort_commits_desc(store.commit_rows().filter(commit_author_pred(author_email@))),
                offset as int,
                limit as int,
            ),
    {
        proof {
            if store.commits@.len() > 0 {
                assert(store.commit_rows()[store.commit_rows().len() - 1].id
                    == store.commit_rows().len() as int);
            }
        }
        let n = store.commits.len();
        let mut matched: Vec<&Commit> = Vec::new();
        assert(store.commit_rows().take(0) =~= Seq::<CommitView>::empty());
        for i in 0..n
            invariant
                n == store.commits@.len(),
                matched@.len() <= i,
                commit_ref_views(matched@) == store.commit_rows().take(i as int).filter(
                    commit_author_pred(author_email@),
                ),
        {
            proof {
                assert(store.commit_rows().take(i + 1).drop_last() =~= store.commit_rows().take(
                    i as int,
                ));
                assert(store.commit_rows().take(i + 1).last() == store.commit_rows()[i as int]);
                reveal_with_fuel(Seq::filter, 2);
            }
            if crate::strutil::str_eq(store.commits[i].author_email.as_str(), author_email) {
                matched.push(&store.commits[i]);
                proof {
                    assert(commit_ref_views(matched@) =~= commit_ref_views(
                        matched@.drop_last(),
                    ).push(store.commits@[i as int]@));
                }
            }
        }
        assert(store.commit_rows().take(n as int) =~= store.commit_rows());
        sorted_commit_page(matched, limit, offset)
    }
}

/// The membership predicate of one author's commits, by email.
pub open spec fn commit_author_pred(author_email: Seq<char>) -> spec_fn(CommitView) -> bool {
    |c: CommitView| c.author_email == author_email
}


/// The sequence of `&PullRequest` results, as views.
pub open spec fn pr_ref_views(s: Seq<&PullRequest>) -> Seq<PullRequestView> {
    s.map_values(|x: &PullRequest| x@)
}

/// Strictly older than this opened-at.
pub open spec fn pr_older(opened_at: int) -> spec_fn(PullRequestView) -> bool {
    |x: PullRequestView| x.opened_at < opened_at
}

/// A row inserted into a newest-first list: before the first strictly older
/// row, after every row at least as new (stable for ties).
pub open spec fn insert_pr_desc(sorted: Seq<PullRequestView>, x: PullRequestView) -> Seq<PullRequestView> {
    match find_first(sorted, pr_older(x.opened_at)) {
        Some(j) => sorted.insert(j, x),
        None => sorted.push(x),
    }
}

/// The rows ordered newest first by opened-at, stable for ties.
pub open spec fn sort_prs_desc(s: Seq<PullRequestView>) -> Seq<PullRequestView>
    decreases s.len(),
{
    if s.len() == 0 {
        Seq::empty()
    } else {
        insert_pr_desc(sort_prs_desc(s.drop_last()), s.last())
    }
}

/// The page of a pr listing selected by `offset` and `limit`.
pub open spec fn pr_slice_page(s: Seq<PullRequestView>, offset: int, limit: int) -> Seq<PullRequestView>
    recommends
        offset >= 0,
        limit >= 0,
{
    if offset >= s.len() {
        Seq::empty()
    } else if offset + limit <= s.len() {
        s.subrange(offset, offset + limit)
    } else {
        s.subrange(offset, s.len() as int)
    }
}

/// Rows are non-increasing in opened-at.
pub open spec fn prs_sorted_desc(s: Seq<PullRequestView>) -> bool {
    forall|i: int, j: int|
        0 <= i < j < s.len() ==> (#[trigger] s[i]).opened_at >= (#[trigger] s[j]).opened_at
}

proof fn lemma_insert_pr_desc_sorted(sorted: Seq<PullRequestView>, x: PullRequestView)
    requires
        prs_sorted_desc(sorted),
    ensures
        prs_sorted_desc(insert_pr_desc(sorted, x)),
{
    let p = pr_older(x.opened_at);
    let t = insert_pr_desc(sorted, x);
    match find_first(sorted, p) {
        Some(j) => {
            lemma_find_first_props(sorted, p, j);
            assert forall|a: int, b: int| 0 <= a < b < t.len() implies (
            #[trigger] t[a]).opened_at >= (#[trigger] t[b]).opened_at by {
                assert(forall|k: int|
                    0 <= k < t.len() ==> #[trigger] t[k] == (if k < j {
                        sorted[k]
                    } else if k == j {
                        x
                    } else {
                        sorted[k - 1]
                    }));
            }
        },
        None => {
            lemma_find_first_none_props(sorted, p);
            assert forall|a: int, b: int| 0 <= a < b < t.len() implies (
            #[trigger] t[a]).opened_at >= (#[trigger] t[b]).opened_at by {
                if b < sorted.len() {
                } else {
                    assert(t[b] == x);
                    assert(!p(sorted[a]));
                }
            }
        },
    }
}

/// The newest-first pr order is indeed non-increasing in opened-at.
pub proof fn lemma_sort_prs_desc_sorted(s: Seq<PullRequestView>)
    ensures
        prs_sorted_desc(sort_prs_desc(s)),
    decreases s.len(),
{
    if s.len() > 0 {
        lemma_sort_prs_desc_sorted(s.drop_last());
        lemma_insert_pr_desc_sorted(sort_prs_desc(s.drop_last()), s.last());
    }
}

fn insert_pr_ref<'a>(out: &mut Vec<&'a PullRequest>, c: &'a PullRequest)
    ensures
        pr_ref_views(final(out)@) == insert_pr_desc(pr_ref_views(old(out)@), c@),
        final(out)@.len() == old(out)@.len() + 1,
{
    let ghost rows = pr_ref_views(out@);
    let ghost p = pr_older(c@.opened_at);
    let n = out.len();
    for i in 0..n
        invariant
            n == out@.len(),
            *out == *old(out),
            rows == pr_ref_views(out@),
            forall|k: int| 0 <= k < i ==> !(#[trigger] p(rows[k])),
            p == pr_older(c@.opened_at),
    {
        if out[i].opened_at < c.opened_at {
            proof {
                lemma_find_first_hit(rows, p, i as int);
            }
            out.insert(i, c);
            proof {
                assert(pr_ref_views(out@) =~= rows.insert(i as int, c@));
            }
            return;
        }
    }
    proof {
        lemma_find_first_miss(rows, p);
    }
    out.push(c);
    proof {
        assert(pr_ref_views(out@) =~= rows.push(c@));
    }
}

fn page_pr_refs<'a>(full: Vec<&'a PullRequest>, limit: i64, offset: i64) -> (r: Vec<&'a PullRequest>)
    requires
        limit >= 0,
        offset >= 0,
        full@.len() <= i64::MAX,
    ensures
        pr_ref_views(r@) == pr_slice_page(
            pr_ref_views(full@),
            offset as int,
            limit as int,
        ),
{
    let len = full.len();
    let mut r: Vec<&PullRequest> = Vec::new();
    if offset >= len as i64 {
        assert(pr_ref_views(r@) =~= pr_slice_page(
            pr_ref_views(full@),
            offset as int,
            limit as int,
        ));
        return r;
    }
    let start: usize = offset as usize;
    let end: usize = if limit > len as i64 - offset {
        len
    } else {
        (offset + limit) as usize
    };
    for i in start..end
        invariant
            start <= end <= len,
            len == full@.len(),
            pr_ref_views(r@) =~= pr_ref_views(full@).subrange(start as int, i as int),
        decreases end - i,
    {
        r.push(full[i]);
        proof {
            assert(pr_ref_views(r@) =~= pr_ref_views(r@.drop_last()).push(full@[i as int]@));
            assert(pr_ref_views(full@).subrange(start as int, i + 1) =~= pr_ref_views(
                full@,
            ).subrange(start as int, i as int).push(pr_ref_views(full@)[i as int]));
        }
    }
    assert(pr_ref_views(r@) =~= pr_slice_page(
        pr_ref_views(full@),
        offset as int,
        limit as int,
    ));
    r
}

/// Orders matching rows newest first and pages the result.
fn sorted_pr_page<'a>(
    matched: Vec<&'a PullRequest>,
    limit: i64,
    offset: i64,
) -> (r: Vec<&'a PullRequest>)
    requires
        limit >= 0,
        offset >= 0,
        matched@.len() <= i64::MAX,
    ensures
        pr_ref_views(r@) == pr_slice_page(
            sort_prs_desc(pr_ref_views(matched@)),
            offset as int,
            limit as int,
        ),
{
    let n = matched.len();
    let mut sorted: Vec<&PullRequest> = Vec::new();
    assert(pr_ref_views(matched@).take(0) =~= Seq::<PullRequestView>::empty());
    assert(pr_ref_views(sorted@) =~= sort_prs_desc(pr_ref_views(matched@).take(0)));
    for i in 0..n
        invariant
            n == matched@.len(),
            sorted@.len() == i,
            pr_ref_views(sorted@) == sort_prs_desc(
                pr_ref_views(matched@).take(i as int),
            ),
    {
        proof {
            assert(pr_ref_views(matched@).take(i + 1).drop_last() =~= pr_ref_views(
                matched@,
            ).take(i as int));
            assert(pr_ref_views(matched@).take(i + 1).last() == matched@[i as int]@);
        }
        insert_pr_ref(&mut sorted, matched[i]);
    }
    assert(pr_ref_views(matched@).take(n as int) =~= pr_ref_views(matched@));
    assert(sorted@.len() == n);
    page_pr_refs(sorted, limit, offset)
}

/// The sequence of `&Issue` results, as views.
pub open spec fn issue_ref_views(s: Seq<&Issue>) -> Seq<IssueView> {
    s.map_values(|x: &Issue| x@)
}

/// Strictly older than this opened-at.
pub open spec fn issue_older(opened_at: int) -> spec_fn(IssueView) -> bool {
    |x: IssueView| x.opened_at < opened_at
}

/// A row inserted into a newest-first list: before the first strictly older
/// row, after every row at least as new (stable for ties).
pub open spec fn insert_issue_desc(sorted: Seq<IssueView>, x: IssueView) -> Seq<IssueView> {
    match find_first(sorted, issue_older(x.opened_at)) {
        Some(j) => sorted.insert(j, x),
        None => sorted.push(x),
    }
}

/// The rows ordered newest first by opened-at, stable for ties.
pub open spec fn sort_issues_desc(s: Seq<IssueView>) -> Seq<IssueView>
    decreases s.len(),
{
    if s.len() == 0 {
        Seq::empty()
    } else {
        insert_issue_desc(sort_issues_desc(s.drop_last()), s.last())
    }
}

/// The page of a issue listing selected by `offset` and `limit`.
pub open spec fn issue_slice_page(s: Seq<IssueView>, offset: int, limit: int) -> Seq<IssueView>
    recommends
        offset >= 0,
        limit >= 0,
{
    if offset >= s.len() {
        Seq::empty()
    } else if offset + limit <= s.len() {
        s.subrange(offset, offset + limit)
    } else {
        s.subrange(offset, s.len() as int)
    }
}

/// Rows are non-increasing in opened-at.
pub open spec fn issues_sorted_desc(s: Seq<IssueView>) -> bool {
    forall|i: int, j: int|
        0 <= i < j < s.len() ==> (#[trigger] s[i]).opened_at >= (#[trigger] s[j]).opened_at
}

proof fn lemma_insert_issue_desc_sorted(sorted: Seq<IssueView>, x: IssueView)
    requires
        issues_sorted_desc(sorted),
    ensures
        issues_sorted_desc(insert_issue_desc(sorted, x)),
{
    let p = issue_older(x.opened_at);
    let t = insert_issue_desc(sorted, x);
    match find_first(sorted, p) {
        Some(j) => {
            lemma_find_first_props(sorted, p, j);
            assert forall|a: int, b: int| 0 <= a < b < t.len() implies (
            #[trigger] t[a]).opened_at >= (#[trigger] t[b]).opened_at by {
                assert(forall|k: int|
                    0 <= k < t.len() ==> #[trigger] t[k] == (if k < j {
                        sorted[k]
                    } else if k == j {
                        x
                    } else {
                        sorted[k - 1]
                    }));
            }
        },
        None => {
            lemma_find_first_none_props(sorted, p);
            assert forall|a: int, b: int| 0 <= a < b < t.len() implies (
            #[trigger] t[a]).opened_at >= (#[trigger] t[b]).opened_at by {
                if b < sorted.len() {
                } else {
                    assert(t[b] == x);
                    assert(!p(sorted[a]));
                }
            }
        },
    }
}

/// The newest-first issue order is indeed non-increasing in opened-at.
pub proof fn lemma_sort_issues_desc_sorted(s: Seq<IssueView>)
    ensures
        issues_sorted_desc(sort_issues_desc(s)),
    decreases s.len(),
{
    if s.len() > 0 {
        lemma_sort_issues_desc_sorted(s.drop_last());
        lemma_insert_issue_desc_sorted(sort_issues_desc(s.drop_last()), s.last());
    }
}

fn insert_issue_ref<'a>(out: &mut Vec<&'a Issue>, c: &'a Issue)
    ensures
        issue_ref_views(final(out)@) == insert_issue_desc(issue_ref_views(old(out)@), c@),
        final(out)@.len() == old(out)@.len() + 1,
{
    let ghost rows = issue_ref_views(out@);
    let ghost p = issue_older(c@.opened_at);
    let n = out.len();
    for i in 0..n
        invariant
            n == out@.len(),
            *out == *old(out),
            rows == issue_ref_views(out@),
            forall|k: int| 0 <= k < i ==> !(#[trigger] p(rows[k])),
            p == issue_older(c@.opened_at),
    {
        if out[i].opened_at < c.opened_at {
            proof {
                lemma_find_first_hit(rows, p, i as int);
            }
            out.insert(i, c);
            proof {
                assert(issue_ref_views(out@) =~= rows.insert(i as int, c@));
            }
            return;
        }
    }
    proof {
        lemma_find_first_miss(rows, p);
    }
    out.push(c);
    proof {
        assert(issue_ref_views(out@) =~= rows.push(c@));
    }
}

fn page_issue_refs<'a>(full: Vec<&'a Issue>, limit: i64, offset: i64) -> (r: Vec<&'a Issue>)
    requires
        limit >= 0,
        offset >= 0,
        full@.len() <= i64::MAX,
    ensures
        issue_ref_views(r@) == issue_slice_page(
            issue_ref_views(full@),
            offset as int,
            limit as int,
        ),
{
    let len = full.len();
    let mut r: Vec<&Issue> = Vec::new();
    if offset >= len as i64 {
        assert(issue_ref_views(r@) =~= issue_slice_page(
            issue_ref_views(full@),
            offset as int,
            limit as int,
        ));
        return r;
    }
    let start: usize = offset as usize;
    let end: usize = if limit > len as i64 - offset {
        len
    } else {
        (offset + limit) as usize
    };
    for i in start..end
        invariant
            start <= end <= len,
            len == full@.len(),
            issue_ref_views(r@) =~= issue_ref_views(full@).subrange(start as int, i as int),
        decreases end - i,
    {
        r.push(full[i]);
        proof {
            assert(issue_ref_views(r@) =~= issue_ref_views(r@.drop_last()).push(full@[i as int]@));
            assert(issue_ref_views(full@).subrange(start as int, i + 1) =~= issue_ref_views(
                full@,
            ).subrange(start as int, i as int).push(issue_ref_views(full@)[i as int]));
        }
    }
    assert(issue_ref_views(r@) =~= issue_slice_page(
        issue_ref_views(full@),
        offset as int,
        limit as int,
    ));
    r
}

/// Orders matching rows newest first and pages the result.
fn sorted_issue_page<'a>(
    matched: Vec<&'a Issue>,
    limit: i64,
    offset: i64,
) -> (r: Vec<&'a Issue>)
    requires
        limit >= 0,
        offset >= 0,
        matched@.len() <= i64::MAX,
    ensures
        issue_ref_views(r@) == issue_slice_page(
            sort_issues_desc(issue_ref_views(matched@)),
            offset as int,
            limit as int,
        ),
{
    let n = matched.len();
    let mut sorted: Vec<&Issue> = Vec::new();
    assert(issue_ref_views(matched@).take(0) =~= Seq::<IssueView>::empty());
    assert(issue_ref_views(sorted@) =~= sort_issues_desc(issue_ref_views(matched@).take(0)));
    for i in 0..n
        invariant
            n == matched@.len(),
            sorted@.len() == i,
            issue_ref_views(sorted@) == sort_issues_desc(
                issue_ref_views(matched@).take(i as int),
            ),
    {
        proof {
            assert(issue_ref_views(matched@).take(i + 1).drop_last() =~= issue_ref_views(
                matched@,
            ).take(i as int));
            assert(issue_ref_views(matched@).take(i + 1).last() == matched@[i as int]@);
        }
        insert_issue_ref(&mut sorted, matched[i]);
    }
    assert(issue_ref_views(matched@).take(n as int) =~= issue_ref_views(matched@));
    assert(sorted@.len() == n);
    page_issue_refs(sorted, limit, offset)
}

/// The sequence of `&Repository` results, as views.
pub open spec fn repo_ref_views(s: Seq<&Repository>) -> Seq<RepositoryView> {
    s.map_values(|x: &Repository| x@)
}

/// Strictly older than this updated-at.
pub open spec fn repo_older(updated_at: int) -> spec_fn(RepositoryView) -> bool {
    |x: RepositoryView| x.updated_at < updated_at
}

/// A row inserted into a newest-first list: before the first strictly older
/// row, after every row at least as new (stable for ties).
pub open spec fn insert_repo_desc(sorted: Seq<RepositoryView>, x: RepositoryView) -> Seq<RepositoryView> {
    match find_first(sorted, repo_older(x.updated_at)) {
        Some(j) => sorted.insert(j, x),
        None => sorted.push(x),
    }
}

/// The rows ordered newest first by updated-at, stable for ties.
pub open spec fn sort_repos_desc(s: Seq<RepositoryView>) -> Seq<RepositoryView>
    decreases s.len(),
{
    if s.len() == 0 {
        Seq::empty()
    } else {
        insert_repo_desc(sort_repos_desc(s.drop_last()), s.last())
    }
}

/// The page of a repo listing selected by `offset` and `limit`.
pub open spec fn repo_slice_page(s: Seq<RepositoryView>, offset: int, limit: int) -> Seq<RepositoryView>
    recommends
        offset >= 0,
        limit >= 0,
{
    if offset >= s.len() {
        Seq::empty()
    } else if offset + limit <= s.len() {
        s.subrange(offset, offset + limit)
    } else {
        s.subrange(offset, s.len() as int)
    }
}

/// Rows are non-increasing in updated-at.
pub open spec fn repos_sorted_desc(s: Seq<RepositoryView>) -> bool {
    forall|i: int, j: int|
        0 <= i < j < s.len() ==> (#[trigger] s[i]).updated_at >= (#[trigger] s[j]).updated_at
}

proof fn lemma_insert_repo_desc_sorted(sorted: Seq<RepositoryView>, x: RepositoryView)
    requires
        repos_sorted_desc(sorted),
    ensures
        repos_sorted_desc(insert_repo_desc(sorted, x)),
{
    let p = repo_older(x.updated_at);
    let t = insert_repo_desc(sorted, x);
    match find_first(sorted, p) {
        Some(j) => {
            lemma_find_first_props(sorted, p, j);
            assert forall|a: int, b: int| 0 <= a < b < t.len() implies (
            #[trigger] t[a]).updated_at >= (#[trigger] t[b]).updated_at by {
                assert(forall|k: int|
                    0 <= k < t.len() ==> #[trigger] t[k] == (if k < j {
                        sorted[k]
                    } else if k == j {
                        x
                    } else {
                        sorted[k - 1]
                    }));
            }
        },
        None => {
            lemma_find_first_none_props(sorted, p);
            assert forall|a: int, b: int| 0 <= a < b < t.len() implies (
            #[trigger] t[a]).updated_at >= (#[trigger] t[b]).updated_at by {
                if b < sorted.len() {
                } else {
                    assert(t[b] == x);
                    assert(!p(sorted[a]));
                }
            }
        },
    }
}

/// The newest-first repo order is indeed non-increasing in updated-at.
pub proof fn lemma_sort_repos_desc_sorted(s: Seq<RepositoryView>)
    ensures
        repos_sorted_desc(sort_repos_desc(s)),
    decreases s.len(),
{
    if s.len() > 0 {
        lemma_sort_repos_desc_sorted(s.drop_last());
        lemma_insert_repo_desc_sorted(sort_repos_desc(s.drop_last()), s.last());
    }
}

fn insert_repo_ref<'a>(out: &mut Vec<&'a Repository>, c: &'a Repository)
    ensures
        repo_ref_views(final(out)@) == insert_repo_desc(repo_ref_views(old(out)@), c@),
        final(out)@.len() == old(out)@.len() + 1,
{
    let ghost rows = repo_ref_views(out@);
    let ghost p = repo_older(c@.updated_at);
    let n = out.len();
    for i in 0..n
        invariant
            n == out@.len(),
            *out == *old(out),
            rows == repo_ref_views(out@),
            forall|k: int| 0 <= k < i ==> !(#[trigger] p(rows[k])),
            p == repo_older(c@.updated_at),
    {
        if out[i].updated_at < c.updated_at {
            proof {
                lemma_find_first_hit(rows, p, i as int);
            }
            out.insert(i, c);
            proof {
                assert(repo_ref_views(out@) =~= rows.insert(i as int, c@));
            }
            return;
        }
    }
    proof {
        lemma_find_first_miss(rows, p);
    }
    out.push(c);
    proof {
        assert(repo_ref_views(out@) =~= rows.push(c@));
    }
}

fn page_repo_refs<'a>(full: Vec<&'a Repository>, limit: i64, offset: i64) -> (r: Vec<&'a Repository>)
    requires
        limit >= 0,
        offset >= 0,
        full@.len() <= i64::MAX,
    ensures
        repo_ref_views(r@) == repo_slice_page(
            repo_ref_views(full@),
            offset as int,
            limit as int,
        ),
{
    let len = full.len();
    let mut r: Vec<&Repository> = Vec::new();
    if offset >= len as i64 {
        assert(repo_ref_views(r@) =~= repo_slice_page(
            repo_ref_views(full@),
            offset as int,
            limit as int,
        ));
        return r;
    }
    let start: usize = offset as usize;
    let end: usize = if limit > len as i64 - offset {
        len
    } else {
        (offset + limit) as usize
    };
    for i in start..end
        invariant
            start <= end <= len,
            len == full@.len(),
            repo_ref_views(r@) =~= repo_ref_views(full@).subrange(start as int, i as int),
        decreases end - i,
    {
        r.push(full[i]);
        proof {
            assert(repo_ref_views(r@) =~= repo_ref_views(r@.drop_last()).push(full@[i as int]@));
            assert(repo_ref_views(full@).subrange(start as int, i + 1) =~= repo_ref_views(
                full@,
            ).subrange(start as int, i as int).push(repo_ref_views(full@)[i as int]));
        }
    }
    assert(repo_ref_views(r@) =~= repo_slice_page(
        repo_ref_views(full@),
        offset as int,
        limit as int,
    ));
    r
}

/// Orders matching rows newest first and pages the result.
fn sorted_repo_page<'a>(
    matched: Vec<&'a Repository>,
    limit: i64,
    offset: i64,
) -> (r: Vec<&'a Repository>)
    requires
        limit >= 0,
        offset >= 0,
        matched@.len() <= i64::MAX,
    ensures
        repo_ref_views(r@) == repo_slice_page(
            sort_repos_desc(repo_ref_views(matched@)),
            offset as int,
            limit as int,
        ),
{
    let n = matched.len();
    let mut sorted: Vec<&Repository> = Vec::new();
    assert(repo_ref_views(matched@).take(0) =~= Seq::<RepositoryView>::empty());
    assert(repo_ref_views(sorted@) =~= sort_repos_desc(repo_ref_views(matched@).take(0)));
    for i in 0..n
        invariant
            n == matched@.len(),
            sorted@.len() == i,
            repo_ref_views(sorted@) == sort_repos_desc(
                repo_ref_views(matched@).take(i as int),
            ),
    {
        proof {
            assert(repo_ref_views(matched@).take(i + 1).drop_last() =~= repo_ref_views(
                matched@,
            ).take(i as int));
            assert(repo_ref_views(matched@).take(i + 1).last() == matched@[i as int]@);
        }
        insert_repo_ref(&mut sorted, matched[i]);
    }
    assert(repo_ref_views(matched@).take(n as int) =~= repo_ref_views(matched@));
    assert(sorted@.len() == n);
    page_repo_refs(sorted, limit, offset)
}

/// The membership predicate of one repository's pull requests.
pub open spec fn pr_repo_pred(repository_id: int) -> spec_fn(PullRequestView) -> bool {
    |p: PullRequestView| p.repository_id == repository_id
}

/// The membership predicate of one repository's issues.
pub open spec fn issue_repo_pred(repository_id: int) -> spec_fn(IssueView) -> bool {
    |i: IssueView| i.repository_id == repository_id
}

impl PullRequest {
    /// Pull requests of one repository, newest first by opened-at, with
    /// limit and offset.
    pub fn list_by_repository<'a>(
        store: &'a DomainStore,
        repository_id: i64,
        limit: i64,
        offset: i64,
    ) -> (r: Vec<&'a PullRequest>)
        requires
            store.well_formed(),
            limit >= 0,
            offset >= 0,
        ensures
            pr_ref_views(r@) == pr_slice_page(
                sort_prs_desc(store.pr_rows().filter(pr_repo_pred(repository_id as int))),
                offset as int,
                limit as int,
            ),
    {
        proof {
            if store.pull_requests@.len() > 0 {
                assert(store.pr_rows()[store.pr_rows().len() - 1].id
                    == store.pr_rows().len() as int);
            }
        }
        let n = store.pull_requests.len();
        let mut matched: Vec<&PullRequest> = Vec::new();
        assert(store.pr_rows().take(0) =~= Seq::<PullRequestView>::empty());
        for i in 0..n
            invariant
                n == store.pull_requests@.len(),
                matched@.len() <= i,
                pr_ref_views(matched@) == store.pr_rows().take(i as int).filter(
                    pr_repo_pred(repository_id as int),
                ),
        {
            proof {
                assert(store.pr_rows().take(i + 1).drop_last() =~= store.pr_rows().take(i as int));
                assert(store.pr_rows().take(i + 1).last() == store.pr_rows()[i as int]);
                reveal_with_fuel(Seq::filter, 2);
            }
            if store.pull_requests[i].repository_id == repository_id {
                matched.push(&store.pull_requests[i]);
                proof {
                    assert(pr_ref_views(matched@) =~= pr_ref_views(matched@.drop_last()).push(
                        store.pull_requests@[i as int]@,
                    ));
                }
            }
        }
        assert(store.pr_rows().take(n as int) =~= store.pr_rows());
        sorted_pr_page(matched, limit, offset)
    }

    /// All pull requests, newest first by opened-at, with limit and offset.
    pub fn list_all<'a>(store: &'a DomainStore, limit: i64, offset: i64) -> (r: Vec<
        &'a PullRequest,
    >)
        requires
            store.well_formed(),
            limit >= 0,
            offset >= 0,
        ensures
            pr_ref_views(r@) == pr_slice_page(
                sort_prs_desc(store.pr_rows()),
                offset as int,
                limit as int,
            ),
    {
        proof {
            if store.pull_requests@.len() > 0 {
                assert(store.pr_rows()[store.pr_rows().len() - 1].id
                    == store.pr_rows().len() as int);
            }
        }
        let n = store.pull_requests.len();
        let mut matched: Vec<&PullRequest> = Vec::new();
        for i in 0..n
            invariant
                n == store.pull_requests@.len(),
                matched@.len() == i,
                pr_ref_views(matched@) == store.pr_rows().take(i as int),
        {
            matched.push(&store.pull_requests[i]);
            proof {
                assert(pr_ref_views(matched@) =~= pr_ref_views(matched@.drop_last()).push(
                    store.pull_requests@[i as int]@,
                ));
                assert(store.pr_rows().take(i + 1) =~= store.pr_rows().take(i as int).push(
                    store.pr_rows()[i as int],
                ));
            }
        }
        assert(store.pr_rows().take(n as int) =~= store.pr_rows());
        sorted_pr_page(matched, limit, offset)
    }

    /// Pull requests in one state, newest first by opened-at, with limit
    /// and offset.
    pub fn list_by_state<'a>(
        store: &'a DomainStore,
        state: &str,
        limit: i64,
        offset: i64,
    ) -> (r: Vec<&'a PullRequest>)
        requires
            store.well_formed(),
            limit >= 0,
            offset >= 0,
        ensures
            pr_ref_views(r@) == pr_slice_page(
                sort_prs_desc(store.pr_rows().filter(pr_state_pred(state@))),
                offset as int,
                limit as int,
            ),
    {
        proof {
            if store.pull_requests@.len() > 0 {
                assert(store.pr_rows()[store.pr_rows().len() - 1].id
                    == store.pr_rows().len() as int);
            }
        }
        let n = store.pull_requests.len();
        let mut matched: Vec<&PullRequest> = Vec::new();
        assert(store.pr_rows().take(0) =~= Seq::<PullRequestView>::empty());
        for i in 0..n
            invariant
                n == store.pull_requests@.len(),
                matched@.len() <= i,
                pr_ref_views(matched@) == store.pr_rows().take(i as int).filter(
                    pr_state_pred(state@),
                ),
        {
            proof {
                assert(store.pr_rows().take(i + 1).drop_last() =~= store.pr_rows().take(i as int));
                assert(store.pr_rows().take(i + 1).last() == store.pr_rows()[i as int]);
                reveal_with_fuel(Seq::filter, 2);
            }
            if crate::strutil::str_eq(store.pull_requests[i].state.as_str(), state) {
                matched.push(&store.pull_requests[i]);
                proof {
                    assert(pr_ref_views(matched@) =~= pr_ref_views(matched@.drop_last()).push(
                        store.pull_requests@[i as int]@,
                    ));
                }
            }
        }
        assert(store.pr_rows().take(n as int) =~= store.pr_rows());
        sorted_pr_page(matched, limit, offset)
    }
}

impl Issue {
    /// Issues of one repository, newest first by opened-at, with limit and
    /// offset.
    pub fn list_by_repository<'a>(
        store: &'a DomainStore,
        repository_id: i64,
        limit: i64,
        offset: i64,
    ) -> (r: Vec<&'a Issue>)
        requires
            store.well_formed(),
            limit >= 0,
            offset >= 0,
        ensures
            issue_ref_views(r@) == issue_slice_page(
                sort_issues_desc(store.issue_rows().filter(issue_repo_pred(repository_id as int))),
                offset as int,
                limit as int,
            ),
    {
        proof {
            if store.issues@.len() > 0 {
                assert(store.issue_rows()[store.issue_rows().len() - 1].id
                    == store.issue_rows().len() as int);
            }
        }
        let n = store.issues.len();
        let mut matched: Vec<&Issue> = Vec::new();
        assert(store.issue_rows().take(0) =~= Seq::<IssueView>::empty());
        for i in 0..n
            invariant
                n == store.issues@.len(),
                matched@.len() <= i,
                issue_ref_views(matched@) == store.issue_rows().take(i as int).filter(
                    issue_repo_pred(repository_id as int),
                ),
        {
            proof {
                assert(store.issue_rows().take(i + 1).drop_last() =~= store.issue_rows().take(
                    i as int,
                ));
                assert(store.issue_rows().take(i + 1).last() == store.issue_rows()[i as int]);
                reveal_with_fuel(Seq::filter, 2);
            }
            if store.issues[i].repository_id == repository_id {
                matched.push(&store.issues[i]);
                proof {
                    assert(issue_ref_views(matched@) =~= issue_ref_views(
                        matched@.drop_last(),
                    ).push(store.issues@[i as int]@));
                }
            }
        }
        assert(store.issue_rows().take(n as int) =~= store.issue_rows());
        sorted_issue_page(matched, limit, offset)
    }

    /// All issues, newest first by opened-at, with limit and offset.
    pub fn list_all<'a>(store: &'a DomainStore, limit: i64, offset: i64) -> (r: Vec<&'a Issue>)
        requires
            store.well_formed(),
            limit >= 0,
            offset >= 0,
        ensures
            issue_ref_views(r@) == issue_slice_page(
                sort_issues_desc(store.issue_rows()),
                offset as int,
                limit as int,
            ),
    {
        proof {
            if store.issues@.len() > 0 {
                assert(store.issue_rows()[store.issue_rows().len() - 1].id
                    == store.issue_rows().len() as int);
            }
        }
        let n = store.issues.len();
        let mut matched: Vec<&Issue> = Vec::new();
        for i in 0..n
            invariant
                n == store.issues@.len(),
                matched@.len() == i,
                issue_ref_views(matched@) == store.issue_rows().take(i as int),
        {
            matched.push(&store.issues[i]);
            proof {
                assert(issue_ref_views(matched@) =~= issue_ref_views(matched@.drop_last()).push(
                    store.issues@[i as int]@,
                ));
                assert(store.issue_rows().take(i + 1) =~= store.issue_rows().take(i as int).push(
                    store.issue_rows()[i as int],
                ));
            }
        }
        assert(store.issue_rows().take(n as int) =~= store.issue_rows());
        sorted_issue_page(matched, limit, offset)
    }

    /// Issues in one state, newest first by opened-at, with limit and
    /// offset.
    pub fn list_by_state<'a>(
        store: &'a DomainStore,
        state: &str,
        limit: i64,
        offset: i64,
    ) -> (r: Vec<&'a Issue>)
        requires
            store.well_formed(),
            limit >= 0,
            offset >= 0,
        ensures
            issue_ref_views(r@) == issue_slice_page(
                sort_issues_desc(store.issue_rows().filter(issue_state_pred(state@))),
                offset as int,
                limit as int,
            ),
    {
        proof {
            if store.issues@.len() > 0 {
                assert(store.issue_rows()[store.issue_rows().len() - 1].id
                    == store.issue_rows().len() as int);
            }
        }
        let n = store.issues.len();
        let mut matched: Vec<&Issue> = Vec::new();
        assert(store.issue_rows().take(0) =~= Seq::<IssueView>::empty());
        for i in 0..n
            invariant
                n == store.issues@.len(),
                matched@.len() <= i,
                issue_ref_views(matched@) == store.issue_rows().take(i as int).filter(
                    issue_state_pred(state@),
                ),
        {
            proof {
                assert(store.issue_rows().take(i + 1).drop_last() =~= store.issue_rows().take(
                    i as int,
                ));
                assert(store.issue_rows().take(i + 1).last() == store.issue_rows()[i as int]);
                reveal_with_fuel(Seq::filter, 2);
            }
            if crate::strutil::str_eq(store.issues[i].state.as_str(), state) {
                matched.push(&store.issues[i]);
                proof {
                    assert(issue_ref_views(matched@) =~= issue_ref_views(
                        matched@.drop_last(),
                    ).push(store.issues@[i as int]@));
                }
            }
        }
        assert(store.issue_rows().take(n as int) =~= store.issue_rows());
        sorted_issue_page(matched, limit, offset)
    }
}

impl Repository {
    /// All repositories, most recently updated first, with limit and
    /// offset.
    pub fn list_all<'a>(store: &'a DomainStore, limit: i64, offset: i64) -> (r: Vec<
        &'a Repository,
    >)
        requires
            store.well_formed(),
            limit >= 0,
            offset >= 0,
        ensures
            repo_ref_views(r@) == repo_slice_page(
                sort_repos_desc(store.repo_rows()),
                offset as int,
                limit as int,
            ),
    {
        proof {
            if store.repositories@.len() > 0 {
                assert(store.repo_rows()[store.repo_rows().len() - 1].id
                    == store.repo_rows().len() as int);
            }
        }
        let n = store.repositories.len();
        let mut matched: Vec<&Repository> = Vec::new();
        for i in 0..n
            invariant
                n == store.repositories@.len(),
                matched@.len() == i,
                repo_ref_views(matched@) == store.repo_rows().take(i as int),
        {
            matched.push(&store.repositories[i]);
            proof {
                assert(repo_ref_views(matched@) =~= repo_ref_views(matched@.drop_last()).push(
                    store.repositories@[i as int]@,
                ));
                assert(store.repo_rows().take(i + 1) =~= store.repo_rows().take(i as int).push(
                    store.repo_rows()[i as int],
                ));
            }
        }
        assert(store.repo_rows().take(n as int) =~= store.repo_rows());
        sorted_repo_page(matched, limit, offset)
    }
}

} // verus!
