//! Projection of stored events into the domain model.
//!
//! Each recognized event type names required payload fields; extraction is
//! all-or-nothing, and the error carries the message of the first missing or
//! malformed field, in the order the fields are read. Only after the whole
//! payload extracts cleanly does any upsert run, so a failed projection
//! leaves every table untouched.

use vstd::prelude::*;

use crate::json::JsonValue;
use crate::json::spec_get;
use crate::json::spec_as_str;
use crate::json::spec_as_i64;
use crate::domain::CreateCommit;
use crate::domain::CreateCommitView;
use crate::domain::CreateIssue;
use crate::domain::CreateIssueView;
use crate::domain::CreatePullRequest;
use crate::domain::CreatePullRequestView;
use crate::domain::CommitView;
use crate::domain::DomainStore;
use crate::domain::Repository;
use crate::domain::Commit;
use crate::domain::PullRequest;
use crate::domain::Issue;
use crate::domain::upsert_repo;
use crate::domain::upsert_commit;
use crate::domain::upsert_pr;
use crate::domain::upsert_issue;
use crate::domain::upserted_repo_id;
use crate::domain::commit_key;
use crate::domain::view_opt_string;
use crate::event::Event;
use crate::event::CreateEvent;
use crate::event::EventStore;
use crate::find::find_first;
use crate::find::lemma_find_first_props;
use crate::find::lemma_find_first_none_props;
use crate::strutil::spec_dec_i64;
use crate::strutil::i64_to_string;
use crate::strutil::str_eq;

verus! {

/// A string member of an object value.
pub open spec fn str_at(v: JsonValue, k: Seq<char>) -> Option<Seq<char>> {
    match spec_get(v, k) {
        Some(m) => spec_as_str(m),
        None => None,
    }
}

/// A string member two levels down.
pub open spec fn str_at2(v: JsonValue, k1: Seq<char>, k2: Seq<char>) -> Option<Seq<char>> {
    match spec_get(v, k1) {
        Some(m) => str_at(m, k2),
        None => None,
    }
}

/// A string member three levels down.
pub open spec fn str_at3(v: JsonValue, k1: Seq<char>, k2: Seq<char>, k3: Seq<char>) -> Option<
    Seq<char>,
> {
    match spec_get(v, k1) {
        Some(m) => str_at2(m, k2, k3),
        None => None,
    }
}

/// An integer member of an object value.
pub open spec fn i64_at(v: JsonValue, k: Seq<char>) -> Option<i64> {
    match spec_get(v, k) {
        Some(m) => spec_as_i64(m),
        None => None,
    }
}

/// An integer member two levels down.
pub open spec fn i64_at2(v: JsonValue, k1: Seq<char>, k2: Seq<char>) -> Option<i64> {
    match spec_get(v, k1) {
        Some(m) => i64_at(m, k2),
        None => None,
    }
}

/// A boolean member two levels down.
pub open spec fn bool_at2(v: JsonValue, k1: Seq<char>, k2: Seq<char>) -> Option<bool> {
    match spec_get(v, k1) {
        Some(m) => match spec_get(m, k2) {
            Some(JsonValue::Bool(b)) => Some(b),
            _ => None,
        },
        None => None,
    }
}

/// An array member of an object value, as its elements.
pub open spec fn arr_at(v: JsonValue, k: Seq<char>) -> Option<Seq<JsonValue>> {
    match spec_get(v, k) {
        Some(JsonValue::Arr(items)) => Some(items@),
        _ => None,
    }
}

/// What `chrono` parses an ISO-8601 timestamp string to, in milliseconds
/// since the Unix epoch: a function of the string alone.
pub uninterp spec fn datetime_parse_of(s: Seq<char>) -> Option<i64>;

/// Relies on chrono's `DateTime<Utc>` string parsing: accepts ISO-8601 /
/// RFC 3339 timestamps, rejects everything else, and depends only on the
/// input string.
#[verifier::external_body]
fn parse_timestamp(s: &str) -> (r: Option<i64>)
    ensures
        r == datetime_parse_of(s@),
{
    s.parse::<chrono::DateTime<chrono::Utc>>().ok().map(|d| d.timestamp_millis())
}

/// An optional timestamp member two levels down: present only if the member
/// is a string that parses.
pub open spec fn opt_ts_at2(v: JsonValue, k1: Seq<char>, k2: Seq<char>) -> Option<i64> {
    match str_at2(v, k1, k2) {
        Some(s) => datetime_parse_of(s),
        None => None,
    }
}

/// Why a projection failed: a required payload field was missing or
/// malformed.
#[derive(Debug)]
pub enum ProcessingError {
    InvalidPayload(String),
}

impl ProcessingError {
    /// The error's message.
    pub fn message<'a>(&'a self) -> (r: &'a str)
        ensures
            *self matches ProcessingError::InvalidPayload(m) && r@ == m@,
    {
        match self {
            ProcessingError::InvalidPayload(m) => m.as_str(),
        }
    }
}

pub(crate) fn get_str_at<'a>(v: &'a JsonValue, k: &str) -> (r: Option<&'a str>)
    ensures
        match r {
            Some(s) => str_at(*v, k@) == Some(s@),
            None => str_at(*v, k@) is None,
        },
{
    match v.get(k) {
        Some(m) => m.as_str(),
        None => None,
    }
}

pub(crate) fn get_str_at2<'a>(v: &'a JsonValue, k1: &str, k2: &str) -> (r: Option<&'a str>)
    ensures
        match r {
            Some(s) => str_at2(*v, k1@, k2@) == Some(s@),
            None => str_at2(*v, k1@, k2@) is None,
        },
{
    match v.get(k1) {
        Some(m) => get_str_at(m, k2),
        None => None,
    }
}

pub(crate) fn get_str_at3<'a>(v: &'a JsonValue, k1: &str, k2: &str, k3: &str) -> (r: Option<&'a str>)
    ensures
        match r {
            Some(s) => str_at3(*v, k1@, k2@, k3@) == Some(s@),
            None => str_at3(*v, k1@, k2@, k3@) is None,
        },
{
    match v.get(k1) {
        Some(m) => get_str_at2(m, k2, k3),
        None => None,
    }
}

pub(crate) fn get_i64_at(v: &JsonValue, k: &str) -> (r: Option<i64>)
    ensures
        r == i64_at(*v, k@),
{
    match v.get(k) {
        Some(m) => m.as_i64(),
        None => None,
    }
}

pub(crate) fn get_i64_at2(v: &JsonValue, k1: &str, k2: &str) -> (r: Option<i64>)
    ensures
        r == i64_at2(*v, k1@, k2@),
{
    match v.get(k1) {
        Some(m) => get_i64_at(m, k2),
        None => None,
    }
}

pub(crate) fn get_bool_at2(v: &JsonValue, k1: &str, k2: &str) -> (r: Option<bool>)
    ensures
        r == bool_at2(*v, k1@, k2@),
{
    match v.get(k1) {
        Some(m) => match m.get(k2) {
            Some(b) => b.as_bool(),
            None => None,
        },
        None => None,
    }
}

pub(crate) fn get_arr_at<'a>(v: &'a JsonValue, k: &str) -> (r: Option<&'a Vec<JsonValue>>)
    ensures
        match r {
            Some(a) => arr_at(*v, k@) == Some(a@),
            None => arr_at(*v, k@) is None,
        },
{
    match v.get(k) {
        Some(m) => m.as_array(),
        None => None,
    }
}

pub(crate) fn get_opt_ts_at2(v: &JsonValue, k1: &str, k2: &str) -> (r: Option<i64>)
    ensures
        r == opt_ts_at2(*v, k1@, k2@),
{
    match get_str_at2(v, k1, k2) {
        Some(s) => parse_timestamp(s),
        None => None,
    }
}

/// The message of the first missing repository field, if any.
pub open spec fn repo_error(p: JsonValue) -> Option<Seq<char>> {
    if i64_at2(p, "repository"@, "id"@) is None {
        Some("Missing repository id"@)
    } else if str_at2(p, "repository"@, "name"@) is None {
        Some("Missing repository name"@)
    } else if str_at2(p, "repository"@, "full_name"@) is None {
        Some("Missing repository full_name"@)
    } else if str_at3(p, "repository"@, "owner"@, "login"@) is None {
        Some("Missing repository owner"@)
    } else if str_at2(p, "repository"@, "html_url"@) is None {
        Some("Missing repository url"@)
    } else {
        None
    }
}

/// The repository columns a payload carries.
pub open spec fn repo_fields(p: JsonValue) -> crate::domain::CreateRepositoryView
    recommends
        repo_error(p) is None,
{
    crate::domain::CreateRepositoryView {
        github_id: i64_at2(p, "repository"@, "id"@)->0 as int,
        name: str_at2(p, "repository"@, "name"@)->0,
        full_name: str_at2(p, "repository"@, "full_name"@)->0,
        owner: str_at3(p, "repository"@, "owner"@, "login"@)->0,
        description: str_at2(p, "repository"@, "description"@),
        url: str_at2(p, "repository"@, "html_url"@)->0,
        is_private: match bool_at2(p, "repository"@, "private"@) {
            Some(b) => b,
            None => false,
        },
    }
}

/// Extracts the repository columns from a payload, or the first missing
/// field's error.
pub fn extract_repository(payload: &JsonValue) -> (r: Result<
    crate::domain::CreateRepository,
    ProcessingError,
>)
    ensures
        match r {
            Ok(cr) => repo_error(*payload) is None && cr@ == repo_fields(*payload),
            Err(e) => repo_error(*payload) == Some(e->0@),
        },
{
    let github_id = match get_i64_at2(payload, "repository", "id") {
        Some(x) => x,
        None => {
            return Err(ProcessingError::InvalidPayload("Missing repository id".to_owned()));
        },
    };
    let name = match get_str_at2(payload, "repository", "name") {
        Some(x) => x,
        None => {
            return Err(ProcessingError::InvalidPayload("Missing repository name".to_owned()));
        },
    };
    let full_name = match get_str_at2(payload, "repository", "full_name") {
        Some(x) => x,
        None => {
            return Err(
                ProcessingError::InvalidPayload("Missing repository full_name".to_owned()),
            );
        },
    };
    let owner = match get_str_at3(payload, "repository", "owner", "login") {
        Some(x) => x,
        None => {
            return Err(ProcessingError::InvalidPayload("Missing repository owner".to_owned()));
        },
    };
    let url = match get_str_at2(payload, "repository", "html_url") {
        Some(x) => x,
        None => {
            return Err(ProcessingError::InvalidPayload("Missing repository url".to_owned()));
        },
    };
    let description = match get_str_at2(payload, "repository", "description") {
        Some(x) => Some(x.to_owned()),
        None => None,
    };
    let is_private = match get_bool_at2(payload, "repository", "private") {
        Some(b) => b,
        None => false,
    };
    Ok(
        crate::domain::CreateRepository {
            github_id,
            name: name.to_owned(),
            full_name: full_name.to_owned(),
            owner: owner.to_owned(),
            description,
            url: url.to_owned(),
            is_private,
        },
    )
}


/// The message of the first missing or malformed field of one commit entry,
/// if any.
pub open spec fn commit_error(c: JsonValue) -> Option<Seq<char>> {
    if str_at(c, "id"@) is None {
        Some("Missing commit sha"@)
    } else if str_at(c, "message"@) is None {
        Some("Missing commit message"@)
    } else if str_at2(c, "author"@, "name"@) is None {
        Some("Missing author name"@)
    } else if str_at2(c, "author"@, "email"@) is None {
        Some("Missing author email"@)
    } else if str_at2(c, "committer"@, "name"@) is None {
        Some("Missing committer name"@)
    } else if str_at2(c, "committer"@, "email"@) is None {
        Some("Missing committer email"@)
    } else if str_at(c, "timestamp"@) is None {
        Some("Missing commit timestamp"@)
    } else if datetime_parse_of(str_at(c, "timestamp"@)->0) is None {
        Some("Invalid timestamp format"@)
    } else if str_at(c, "url"@) is None {
        Some("Missing commit url"@)
    } else {
        None
    }
}

/// The commit columns one entry carries, paired with the owning repository
/// and the delivering event.
pub open spec fn commit_create_view(c: JsonValue, repository_id: int, webhook_event_id: int) -> crate::domain::CreateCommitView
    recommends
        commit_error(c) is None,
{
    crate::domain::CreateCommitView {
        repository_id,
        webhook_event_id,
        sha: str_at(c, "id"@)->0,
        message: str_at(c, "message"@)->0,
        author_name: str_at2(c, "author"@, "name"@)->0,
        author_email: str_at2(c, "author"@, "email"@)->0,
        committer_name: str_at2(c, "committer"@, "name"@)->0,
        committer_email: str_at2(c, "committer"@, "email"@)->0,
        committed_at: datetime_parse_of(str_at(c, "timestamp"@)->0)->0 as int,
        url: str_at(c, "url"@)->0,
    }
}

/// The extracted columns of one commit entry, before the repository and
/// event ids are known.
pub struct CommitInfo {
    pub sha: String,
    pub message: String,
    pub author_name: String,
    pub author_email: String,
    pub committer_name: String,
    pub committer_email: String,
    pub committed_at: i64,
    pub url: String,
}

impl CommitInfo {
    /// The entry's columns agree with what the payload carries.
    pub open spec fn extracted_from(self, c: JsonValue) -> bool {
        &&& Some(self.sha@) == str_at(c, "id"@)
        &&& Some(self.message@) == str_at(c, "message"@)
        &&& Some(self.author_name@) == str_at2(c, "author"@, "name"@)
        &&& Some(self.author_email@) == str_at2(c, "author"@, "email"@)
        &&& Some(self.committer_name@) == str_at2(c, "committer"@, "name"@)
        &&& Some(self.committer_email@) == str_at2(c, "committer"@, "email"@)
        &&& Some(self.committed_at) == datetime_parse_of(str_at(c, "timestamp"@)->0)
        &&& Some(self.url@) == str_at(c, "url"@)
    }
}

fn extract_commit(c: &JsonValue) -> (r: Result<CommitInfo, ProcessingError>)
    ensures
        match r {
            Ok(info) => commit_error(*c) is None && info.extracted_from(*c),
            Err(e) => commit_error(*c) == Some(e->0@),
        },
{
    let sha = match get_str_at(c, "id") {
        Some(x) => x,
        None => {
            return Err(ProcessingError::InvalidPayload("Missing commit sha".to_owned()));
        },
    };
    let message = match get_str_at(c, "message") {
        Some(x) => x,
        None => {
            return Err(ProcessingError::InvalidPayload("Missing commit message".to_owned()));
        },
    };
    let author_name = match get_str_at2(c, "author", "name") {
        Some(x) => x,
        None => {
            return Err(ProcessingError::InvalidPayload("Missing author name".to_owned()));
        },
    };
    let author_email = match get_str_at2(c, "author", "email") {
        Some(x) => x,
        None => {
            return Err(ProcessingError::InvalidPayload("Missing author email".to_owned()));
        },
    };
    let committer_name = match get_str_at2(c, "committer", "name") {
        Some(x) => x,
        None => {
            return Err(ProcessingError::InvalidPayload("Missing committer name".to_owned()));
        },
    };
    let committer_email = match get_str_at2(c, "committer", "email") {
        Some(x) => x,
        None => {
            return Err(ProcessingError::InvalidPayload("Missing committer email".to_owned()));
        },
    };
    let timestamp_str = match get_str_at(c, "timestamp") {
        Some(x) => x,
        None => {
            return Err(ProcessingError::InvalidPayload("Missing commit timestamp".to_owned()));
        },
    };
    let committed_at = match parse_timestamp(timestamp_str) {
        Some(t) => t,
        None => {
            return Err(ProcessingError::InvalidPayload("Invalid timestamp format".to_owned()));
        },
    };
    let url = match get_str_at(c, "url") {
        Some(x) => x,
        None => {
            return Err(ProcessingError::InvalidPayload("Missing commit url".to_owned()));
        },
    };
    Ok(
        CommitInfo {
            sha: sha.to_owned(),
            message: message.to_owned(),
            author_name: author_name.to_owned(),
            author_email: author_email.to_owned(),
            committer_name: committer_name.to_owned(),
            committer_email: committer_email.to_owned(),
            committed_at,
            url: url.to_owned(),
        },
    )
}

/// The message of the first failing entry of a commits array, if any.
pub open spec fn first_commit_error(items: Seq<JsonValue>) -> Option<Seq<char>>
    decreases items.len(),
{
    if items.len() == 0 {
        None
    } else if commit_error(items[0]) is Some {
        commit_error(items[0])
    } else {
        first_commit_error(items.skip(1))
    }
}

proof fn lemma_first_commit_error_hit(items: Seq<JsonValue>, i: int)
    requires
        0 <= i < items.len(),
        commit_error(items[i]) is Some,
        forall|k: int| 0 <= k < i ==> commit_error(#[trigger] items[k]) is None,
    ensures
        first_commit_error(items) == commit_error(items[i]),
    decreases i,
{
    if i > 0 {
        assert(commit_error(items[0]) is None);
        assert(items.skip(1)[i - 1] == items[i]);
        assert forall|k: int| 0 <= k < i - 1 implies commit_error(#[trigger] items.skip(1)[k])
            is None by {
            assert(items.skip(1)[k] == items[k + 1]);
        }
        lemma_first_commit_error_hit(items.skip(1), i - 1);
    }
}

proof fn lemma_first_commit_error_miss(items: Seq<JsonValue>)
    requires
        forall|k: int| 0 <= k < items.len() ==> commit_error(#[trigger] items[k]) is None,
    ensures
        first_commit_error(items) is None,
    decreases items.len(),
{
    if items.len() > 0 {
        assert forall|k: int| 0 <= k < items.skip(1).len() implies commit_error(
            #[trigger] items.skip(1)[k],
        ) is None by {
            assert(items.skip(1)[k] == items[k + 1]);
        }
        lemma_first_commit_error_miss(items.skip(1));
    }
}

fn extract_commits(items: &Vec<JsonValue>) -> (r: Result<Vec<CommitInfo>, ProcessingError>)
    ensures
        match r {
            Ok(infos) => {
                &&& first_commit_error(items@) is None
                &&& infos@.len() == items@.len()
                &&& forall|k: int|
                    0 <= k < items@.len() ==> (#[trigger] infos@[k]).extracted_from(items@[k])
            },
            Err(e) => first_commit_error(items@) == Some(e->0@),
        },
{
    let n = items.len();
    let mut infos: Vec<CommitInfo> = Vec::new();
    for i in 0..n
        invariant
            n == items@.len(),
            infos@.len() == i,
            forall|k: int| 0 <= k < i ==> commit_error(#[trigger] items@[k]) is None,
            forall|k: int| 0 <= k < i ==> (#[trigger] infos@[k]).extracted_from(items@[k]),
    {
        match extract_commit(&items[i]) {
            Ok(info) => {
                infos.push(info);
            },
            Err(e) => {
                proof {
                    lemma_first_commit_error_hit(items@, i as int);
                }
                return Err(e);
            },
        }
    }
    proof {
        lemma_first_commit_error_miss(items@);
    }
    Ok(infos)
}

/// The message of the first missing push-payload field, if any: the
/// repository is read first, then the commits array, then each entry.
pub open spec fn push_error(p: JsonValue) -> Option<Seq<char>> {
    if repo_error(p) is Some {
        repo_error(p)
    } else if arr_at(p, "commits"@) is None {
        Some("Missing commits array in push event"@)
    } else {
        first_commit_error(arr_at(p, "commits"@)->0)
    }
}

/// The message of the first missing pull-request field, if any.
pub open spec fn pr_error(p: JsonValue) -> Option<Seq<char>> {
    if repo_error(p) is Some {
        repo_error(p)
    } else if i64_at2(p, "pull_request"@, "id"@) is None {
        Some("Missing PR id"@)
    } else if i64_at2(p, "pull_request"@, "number"@) is None {
        Some("Missing PR number"@)
    } else if str_at2(p, "pull_request"@, "title"@) is None {
        Some("Missing PR title"@)
    } else if str_at2(p, "pull_request"@, "state"@) is None {
        Some("Missing PR state"@)
    } else if str_at3(p, "pull_request"@, "user"@, "login"@) is None {
        Some("Missing PR author"@)
    } else if str_at3(p, "pull_request"@, "base"@, "ref"@) is None {
        Some("Missing base branch"@)
    } else if str_at3(p, "pull_request"@, "head"@, "ref"@) is None {
        Some("Missing head branch"@)
    } else if str_at2(p, "pull_request"@, "html_url"@) is None {
        Some("Missing PR url"@)
    } else if str_at2(p, "pull_request"@, "created_at"@) is None {
        Some("Missing PR created_at"@)
    } else if datetime_parse_of(str_at2(p, "pull_request"@, "created_at"@)->0) is None {
        Some("Invalid timestamp format"@)
    } else {
        None
    }
}

/// The extracted columns of a pull-request payload, before the repository
/// and event ids are known.
pub struct PrInfo {
    pub github_id: i64,
    pub number: i32,
    pub title: String,
    pub state: String,
    pub author: String,
    pub base_branch: String,
    pub head_branch: String,
    pub url: String,
    pub opened_at: i64,
    pub closed_at: Option<i64>,
    pub merged_at: Option<i64>,
}

impl PrInfo {
    /// The columns agree with what the payload carries.
    pub open spec fn extracted_from(self, p: JsonValue) -> bool {
        &&& Some(self.github_id) == i64_at2(p, "pull_request"@, "id"@)
        &&& self.number == i64_at2(p, "pull_request"@, "number"@)->0 as i32
        &&& Some(self.title@) == str_at2(p, "pull_request"@, "title"@)
        &&& Some(self.state@) == str_at2(p, "pull_request"@, "state"@)
        &&& Some(self.author@) == str_at3(p, "pull_request"@, "user"@, "login"@)
        &&& Some(self.base_branch@) == str_at3(p, "pull_request"@, "base"@, "ref"@)
        &&& Some(self.head_branch@) == str_at3(p, "pull_request"@, "head"@, "ref"@)
        &&& Some(self.url@) == str_at2(p, "pull_request"@, "html_url"@)
        &&& Some(self.opened_at) == datetime_parse_of(
            str_at2(p, "pull_request"@, "created_at"@)->0,
        )
        &&& self.closed_at == opt_ts_at2(p, "pull_request"@, "closed_at"@)
        &&& self.merged_at == opt_ts_at2(p, "pull_request"@, "merged_at"@)
    }
}

fn extract_pull_request(payload: &JsonValue) -> (r: Result<PrInfo, ProcessingError>)
    ensures
        match r {
            Ok(info) => pr_error(*payload) is None && repo_error(*payload) is None
                && info.extracted_from(*payload),
            Err(e) => pr_error(*payload) == Some(e->0@),
        },
{
    match extract_repository(payload) {
        Ok(_) => {},
        Err(e) => {
            return Err(e);
        },
    }
    let github_id = match get_i64_at2(payload, "pull_request", "id") {
        Some(x) => x,
        None => {
            return Err(ProcessingError::InvalidPayload("Missing PR id".to_owned()));
        },
    };
    let number_i64 = match get_i64_at2(payload, "pull_request", "number") {
        Some(x) => x,
        None => {
            return Err(ProcessingError::InvalidPayload("Missing PR number".to_owned()));
        },
    };
    #[verifier::truncate]
    let number = number_i64 as i32;
    let title = match get_str_at2(payload, "pull_request", "title") {
        Some(x) => x,
        None => {
            return Err(ProcessingError::InvalidPayload("Missing PR title".to_owned()));
        },
    };
    let state = match get_str_at2(payload, "pull_request", "state") {
        Some(x) => x,
        None => {
            return Err(ProcessingError::InvalidPayload("Missing PR state".to_owned()));
        },
    };
    let author = match get_str_at3(payload, "pull_request", "user", "login") {
        Some(x) => x,
        None => {
            return Err(ProcessingError::InvalidPayload("Missing PR author".to_owned()));
        },
    };
    let base_branch = match get_str_at3(payload, "pull_request", "base", "ref") {
        Some(x) => x,
        None => {
            return Err(ProcessingError::InvalidPayload("Missing base branch".to_owned()));
        },
    };
    let head_branch = match get_str_at3(payload, "pull_request", "head", "ref") {
        Some(x) => x,
        None => {
            return Err(ProcessingError::InvalidPayload("Missing head branch".to_owned()));
        },
    };
    let url = match get_str_at2(payload, "pull_request", "html_url") {
        Some(x) => x,
        None => {
            return Err(ProcessingError::InvalidPayload("Missing PR url".to_owned()));
        },
    };
    let opened_at_str = match get_str_at2(payload, "pull_request", "created_at") {
        Some(x) => x,
        None => {
            return Err(ProcessingError::InvalidPayload("Missing PR created_at".to_owned()));
        },
    };
    let opened_at = match parse_timestamp(opened_at_str) {
        Some(t) => t,
        None => {
            return Err(ProcessingError::InvalidPayload("Invalid timestamp format".to_owned()));
        },
    };
    let closed_at = get_opt_ts_at2(payload, "pull_request", "closed_at");
    let merged_at = get_opt_ts_at2(payload, "pull_request", "merged_at");
    Ok(
        PrInfo {
            github_id,
            number,
            title: title.to_owned(),
            state: state.to_owned(),
            author: author.to_owned(),
            base_branch: base_branch.to_owned(),
            head_branch: head_branch.to_owned(),
            url: url.to_owned(),
            opened_at,
            closed_at,
            merged_at,
        },
    )
}

/// The message of the first missing issue field, if any.
pub open spec fn issue_error(p: JsonValue) -> Option<Seq<char>> {
    if repo_error(p) is Some {
        repo_error(p)
    } else if i64_at2(p, "issue"@, "id"@) is None {
        Some("Missing issue id"@)
    } else if i64_at2(p, "issue"@, "number"@) is None {
        Some("Missing issue number"@)
    } else if str_at2(p, "issue"@, "title"@) is None {
        Some("Missing issue title"@)
    } else if str_at2(p, "issue"@, "state"@) is None {
        Some("Missing issue state"@)
    } else if str_at3(p, "issue"@, "user"@, "login"@) is None {
        Some("Missing issue author"@)
    } else if str_at2(p, "issue"@, "html_url"@) is None {
        Some("Missing issue url"@)
    } else if str_at2(p, "issue"@, "created_at"@) is None {
        Some("Missing issue created_at"@)
    } else if datetime_parse_of(str_at2(p, "issue"@, "created_at"@)->0) is None {
        Some("Invalid timestamp format"@)
    } else {
        None
    }
}

/// The label names an issue payload carries: the string `name` members of
/// the label entries, in order; entries without one are skipped, and a
/// missing or non-array `labels` member yields no labels.
pub open spec fn label_names(items: Seq<JsonValue>) -> Seq<Seq<char>>
    decreases items.len(),
{
    if items.len() == 0 {
        Seq::empty()
    } else {
        match str_at(items[0], "name"@) {
            Some(nm) => seq![nm] + label_names(items.skip(1)),
            None => label_names(items.skip(1)),
        }
    }
}

/// The labels of an issue payload.
pub open spec fn issue_labels(p: JsonValue) -> Seq<Seq<char>> {
    match arr_at(p, "issue"@) {
        Some(_) => Seq::empty(),
        None => match spec_get(p, "issue"@) {
            Some(iss) => match arr_at(iss, "labels"@) {
                Some(items) => label_names(items),
                None => Seq::empty(),
            },
            None => Seq::empty(),
        },
    }
}

/// The extracted columns of an issue payload, before the repository and
/// event ids are known.
pub struct IssueInfo {
    pub github_id: i64,
    pub number: i32,
    pub title: String,
    pub state: String,
    pub author: String,
    pub labels: Vec<String>,
    pub url: String,
    pub opened_at: i64,
    pub closed_at: Option<i64>,
}

impl IssueInfo {
    /// The columns agree with what the payload carries.
    pub open spec fn extracted_from(self, p: JsonValue) -> bool {
        &&& Some(self.github_id) == i64_at2(p, "issue"@, "id"@)
        &&& self.number == i64_at2(p, "issue"@, "number"@)->0 as i32
        &&& Some(self.title@) == str_at2(p, "issue"@, "title"@)
        &&& Some(self.state@) == str_at2(p, "issue"@, "state"@)
        &&& Some(self.author@) == str_at3(p, "issue"@, "user"@, "login"@)
        &&& crate::domain::labels_view(self.labels) == issue_labels(p)
        &&& Some(self.url@) == str_at2(p, "issue"@, "html_url"@)
        &&& Some(self.opened_at) == datetime_parse_of(str_at2(p, "issue"@, "created_at"@)->0)
        &&& self.closed_at == opt_ts_at2(p, "issue"@, "closed_at"@)
    }
}

fn extract_labels(p: &JsonValue) -> (r: Vec<String>)
    ensures
        crate::domain::labels_view(r) == issue_labels(*p),
{
    let mut labels: Vec<String> = Vec::new();
    match p.get("issue") {
        Some(iss) => {
            match iss.as_array() {
                Some(_) => {
                    assert(crate::domain::labels_view(labels) =~= issue_labels(*p));
                    labels
                },
                None => {
                    match get_arr_at(iss, "labels") {
                        Some(items) => {
                            let n = items.len();
                            assert(items@.skip(0) =~= items@);
                            for i in 0..n
                                invariant
                                    n == items@.len(),
                                    label_names(items@) =~= crate::domain::labels_view(labels)
                                        + label_names(items@.skip(i as int)),
                            {
                                proof {
                                    assert(items@.skip(i as int)[0] == items@[i as int]);
                                    assert(items@.skip(i as int).skip(1) =~= items@.skip(i + 1));
                                }
                                match get_str_at(&items[i], "name") {
                                    Some(nm) => {
                                        labels.push(nm.to_owned());
                                        proof {
                                            assert(crate::domain::labels_view(labels)
                                                =~= crate::domain::labels_view(labels).subrange(
                                                0,
                                                labels@.len() - 1,
                                            ) + seq![labels@[labels@.len() - 1]@]);
                                        }
                                    },
                                    None => {},
                                }
                            }
                            assert(label_names(items@.skip(n as int)) =~= Seq::<Seq<char>>::empty());
                            assert(crate::domain::labels_view(labels) =~= label_names(items@));
                            labels
                        },
                        None => {
                            assert(crate::domain::labels_view(labels) =~= issue_labels(*p));
                            labels
                        },
                    }
                },
            }
        },
        None => {
            assert(crate::domain::labels_view(labels) =~= issue_labels(*p));
            labels
        },
    }
}

fn extract_issue(payload: &JsonValue) -> (r: Result<IssueInfo, ProcessingError>)
    ensures
        match r {
            Ok(info) => issue_error(*payload) is None && repo_error(*payload) is None
                && info.extracted_from(*payload),
            Err(e) => issue_error(*payload) == Some(e->0@),
        },
{
    match extract_repository(payload) {
        Ok(_) => {},
        Err(e) => {
            return Err(e);
        },
    }
    let github_id = match get_i64_at2(payload, "issue", "id") {
        Some(x) => x,
        None => {
            return Err(ProcessingError::InvalidPayload("Missing issue id".to_owned()));
        },
    };
    let number_i64 = match get_i64_at2(payload, "issue", "number") {
        Some(x) => x,
        None => {
            return Err(ProcessingError::InvalidPayload("Missing issue number".to_owned()));
        },
    };
    #[verifier::truncate]
    let number = number_i64 as i32;
    let title = match get_str_at2(payload, "issue", "title") {
        Some(x) => x,
        None => {
            return Err(ProcessingError::InvalidPayload("Missing issue title".to_owned()));
        },
    };
    let state = match get_str_at2(payload, "issue", "state") {
        Some(x) => x,
        None => {
            return Err(ProcessingError::InvalidPayload("Missing issue state".to_owned()));
        },
    };
    let author = match get_str_at3(payload, "issue", "user", "login") {
        Some(x) => x,
        None => {
            return Err(ProcessingError::InvalidPayload("Missing issue author".to_owned()));
        },
    };
    let labels = extract_labels(payload);
    let url = match get_str_at2(payload, "issue", "html_url") {
        Some(x) => x,
        None => {
            return Err(ProcessingError::InvalidPayload("Missing issue url".to_owned()));
        },
    };
    let opened_at_str = match get_str_at2(payload, "issue", "created_at") {
        Some(x) => x,
        None => {
            return Err(ProcessingError::InvalidPayload("Missing issue created_at".to_owned()));
        },
    };
    let opened_at = match parse_timestamp(opened_at_str) {
        Some(t) => t,
        None => {
            return Err(ProcessingError::InvalidPayload("Invalid timestamp format".to_owned()));
        },
    };
    let closed_at = get_opt_ts_at2(payload, "issue", "closed_at");
    Ok(
        IssueInfo {
            github_id,
            number,
            title: title.to_owned(),
            state: state.to_owned(),
            author: author.to_owned(),
            labels,
            url: url.to_owned(),
            opened_at,
            closed_at,
        },
    )
}


/// The commit table after upserting every entry of a push's commits array,
/// in order.
pub open spec fn apply_commits(
    s: Seq<CommitView>,
    items: Seq<JsonValue>,
    rid: int,
    eid: int,
    now: int,
) -> Seq<CommitView>
    decreases items.len(),
{
    if items.len() == 0 {
        s
    } else {
        apply_commits(
            upsert_commit(s, commit_create_view(items[0], rid, eid), now),
            items.skip(1),
            rid,
            eid,
            now,
        )
    }
}

/// How many entries a push payload's commits array holds.
pub open spec fn push_commits_len(p: JsonValue) -> int {
    match arr_at(p, "commits"@) {
        Some(items) => items.len() as int,
        None => 0,
    }
}

/// The domain stores after a push projection: the repository refreshed and
/// every commit of the array upserted under it; other tables untouched.
pub open spec fn push_applied(
    old_d: DomainStore,
    new_d: DomainStore,
    p: JsonValue,
    eid: int,
    now: int,
) -> bool {
    &&& new_d.repo_rows() == upsert_repo(old_d.repo_rows(), repo_fields(p), now)
    &&& new_d.commit_rows() == apply_commits(
        old_d.commit_rows(),
        arr_at(p, "commits"@)->0,
        upserted_repo_id(old_d.repo_rows(), repo_fields(p).github_id),
        eid,
        now,
    )
    &&& new_d.pull_requests@ == old_d.pull_requests@
    &&& new_d.issues@ == old_d.issues@
}

/// Projects a push payload: upserts the repository, then one commit per
/// entry of the commits array. Nothing is written unless the whole payload
/// extracts cleanly.
pub fn process_push_event(domain: &mut DomainStore, event: &Event, now: i64) -> (r: Result<
    (),
    ProcessingError,
>)
    requires
        old(domain).well_formed(),
        old(domain).repositories@.len() < i64::MAX,
        old(domain).commits@.len() + push_commits_len(event.raw_event) < i64::MAX,
    ensures
        match r {
            Ok(_) => {
                &&& push_error(event.raw_event) is None
                &&& push_applied(
                    *old(domain),
                    *final(domain),
                    event.raw_event,
                    event.id as int,
                    now as int,
                )
                &&& final(domain).well_formed()
            },
            Err(e) => *final(domain) == *old(domain) && push_error(event.raw_event) == Some(
                e->0@,
            ),
        },
{
    let repo_data = match extract_repository(&event.raw_event) {
        Ok(d) => d,
        Err(e) => {
            return Err(e);
        },
    };
    let items: &Vec<JsonValue> = match get_arr_at(&event.raw_event, "commits") {
        Some(a) => a,
        None => {
            return Err(
                ProcessingError::InvalidPayload("Missing commits array in push event".to_owned()),
            );
        },
    };
    let infos = match extract_commits(items) {
        Ok(v) => v,
        Err(e) => {
            return Err(e);
        },
    };
    let ghost repo_fields_g = repo_fields(event.raw_event);
    let ghost items_seq = items@;
    let repository_id = Repository::create(domain, repo_data, now);
    let ghost rid = repository_id as int;
    let ghost eid = event.id as int;
    let n = infos.len();
    assert(items_seq.skip(0) =~= items_seq);
    for k in 0..n
        invariant
            n == infos@.len(),
            n == items_seq.len(),
            rid == repository_id as int,
            eid == event.id as int,
            domain.well_formed(),
            domain.repo_rows() == upsert_repo(old(domain).repo_rows(), repo_fields_g, now as int),
            domain.pull_requests@ == old(domain).pull_requests@,
            domain.issues@ == old(domain).issues@,
            domain.commits@.len() <= old(domain).commits@.len() + k,
            old(domain).commits@.len() + n < i64::MAX,
            forall|k2: int|
                0 <= k2 < n ==> (#[trigger] infos@[k2]).extracted_from(items_seq[k2]),
            apply_commits(old(domain).commit_rows(), items_seq, rid, eid, now as int)
                == apply_commits(domain.commit_rows(), items_seq.skip(k as int), rid, eid, now as int),
    {
        proof {
            assert(items_seq.skip(k as int)[0] == items_seq[k as int]);
            assert(items_seq.skip(k as int).skip(1) =~= items_seq.skip(k + 1));
        }
        let info = &infos[k];
        let data = CreateCommit {
            repository_id,
            webhook_event_id: event.id,
            sha: info.sha.clone(),
            message: info.message.clone(),
            author_name: info.author_name.clone(),
            author_email: info.author_email.clone(),
            committer_name: info.committer_name.clone(),
            committer_email: info.committer_email.clone(),
            committed_at: info.committed_at,
            url: info.url.clone(),
        };
        proof {
            assert(data@ == commit_create_view(items_seq[k as int], rid, eid));
        }
        let ghost pre_rows = domain.commit_rows();
        let _ = Commit::create(domain, data, now);
        proof {
            assert(domain.commit_rows() == upsert_commit(pre_rows, data@, now as int));
            assert(domain.commit_rows().len() <= pre_rows.len() + 1) by {
                let key = commit_key(data@.sha, data@.repository_id);
                match find_first(pre_rows, key) {
                    Some(j) => {
                        lemma_find_first_props(pre_rows, key, j);
                        assert(upsert_commit(pre_rows, data@, now as int).len()
                            == pre_rows.len());
                    },
                    None => {
                        assert(upsert_commit(pre_rows, data@, now as int).len() == pre_rows.len()
                            + 1);
                    },
                }
            };
            assert(domain.commits@.len() == domain.commit_rows().len());
            assert(old(domain).commits@.len() == old(domain).commit_rows().len());
        }
    }
    assert(items_seq.skip(n as int) =~= Seq::<JsonValue>::empty());
    Ok(())
}

/// The pull-request columns a payload carries, paired with the owning
/// repository and the delivering event.
pub open spec fn pr_create_view(p: JsonValue, rid: int, eid: int) -> CreatePullRequestView
    recommends
        pr_error(p) is None,
{
    CreatePullRequestView {
        repository_id: rid,
        webhook_event_id: eid,
        github_id: i64_at2(p, "pull_request"@, "id"@)->0 as int,
        number: i64_at2(p, "pull_request"@, "number"@)->0 as i32 as int,
        title: str_at2(p, "pull_request"@, "title"@)->0,
        state: str_at2(p, "pull_request"@, "state"@)->0,
        author: str_at3(p, "pull_request"@, "user"@, "login"@)->0,
        base_branch: str_at3(p, "pull_request"@, "base"@, "ref"@)->0,
        head_branch: str_at3(p, "pull_request"@, "head"@, "ref"@)->0,
        url: str_at2(p, "pull_request"@, "html_url"@)->0,
        opened_at: datetime_parse_of(str_at2(p, "pull_request"@, "created_at"@)->0)->0 as int,
        closed_at: opt_ts_at2(p, "pull_request"@, "closed_at"@),
        merged_at: opt_ts_at2(p, "pull_request"@, "merged_at"@),
    }
}

/// The domain stores after a pull-request projection.
pub open spec fn pr_applied(
    old_d: DomainStore,
    new_d: DomainStore,
    p: JsonValue,
    eid: int,
    now: int,
) -> bool {
    &&& new_d.repo_rows() == upsert_repo(old_d.repo_rows(), repo_fields(p), now)
    &&& new_d.pr_rows() == upsert_pr(
        old_d.pr_rows(),
        pr_create_view(p, upserted_repo_id(old_d.repo_rows(), repo_fields(p).github_id), eid),
        now,
    )
    &&& new_d.commits@ == old_d.commits@
    &&& new_d.issues@ == old_d.issues@
}

/// Projects a pull-request payload: upserts the repository, then the one
/// pull request. Nothing is written unless the whole payload extracts
/// cleanly.
pub fn process_pull_request_event(domain: &mut DomainStore, event: &Event, now: i64) -> (r: Result<
    (),
    ProcessingError,
>)
    requires
        old(domain).well_formed(),
        old(domain).repositories@.len() < i64::MAX,
        old(domain).pull_requests@.len() < i64::MAX,
    ensures
        match r {
            Ok(_) => {
                &&& pr_error(event.raw_event) is None
                &&& pr_applied(
                    *old(domain),
                    *final(domain),
                    event.raw_event,
                    event.id as int,
                    now as int,
                )
                &&& final(domain).well_formed()
            },
            Err(e) => *final(domain) == *old(domain) && pr_error(event.raw_event) == Some(e->0@),
        },
{
    let info = match extract_pull_request(&event.raw_event) {
        Ok(i) => i,
        Err(e) => {
            return Err(e);
        },
    };
    let repo_data = match extract_repository(&event.raw_event) {
        Ok(d) => d,
        Err(e) => {
            return Err(e);
        },
    };
    let repository_id = Repository::create(domain, repo_data, now);
    let data = CreatePullRequest {
        repository_id,
        webhook_event_id: event.id,
        github_id: info.github_id,
        number: info.number,
        title: info.title,
        state: info.state,
        author: info.author,
        base_branch: info.base_branch,
        head_branch: info.head_branch,
        url: info.url,
        opened_at: info.opened_at,
        closed_at: info.closed_at,
        merged_at: info.merged_at,
    };
    proof {
        assert(data@ == pr_create_view(
            event.raw_event,
            upserted_repo_id(old(domain).repo_rows(), repo_fields(event.raw_event).github_id),
            event.id as int,
        ));
    }
    let _ = PullRequest::create(domain, data, now);
    Ok(())
}

/// The issue columns a payload carries, paired with the owning repository
/// and the delivering event.
pub open spec fn issue_create_view(p: JsonValue, rid: int, eid: int) -> CreateIssueView
    recommends
        issue_error(p) is None,
{
    CreateIssueView {
        repository_id: rid,
        webhook_event_id: eid,
        github_id: i64_at2(p, "issue"@, "id"@)->0 as int,
        number: i64_at2(p, "issue"@, "number"@)->0 as i32 as int,
        title: str_at2(p, "issue"@, "title"@)->0,
        state: str_at2(p, "issue"@, "state"@)->0,
        author: str_at3(p, "issue"@, "user"@, "login"@)->0,
        labels: issue_labels(p),
        url: str_at2(p, "issue"@, "html_url"@)->0,
        opened_at: datetime_parse_of(str_at2(p, "issue"@, "created_at"@)->0)->0 as int,
        closed_at: opt_ts_at2(p, "issue"@, "closed_at"@),
    }
}

/// The domain stores after an issue projection.
pub open spec fn issue_applied(
    old_d: DomainStore,
    new_d: DomainStore,
    p: JsonValue,
    eid: int,
    now: int,
) -> bool {
    &&& new_d.repo_rows() == upsert_repo(old_d.repo_rows(), repo_fields(p), now)
    &&& new_d.issue_rows() == upsert_issue(
        old_d.issue_rows(),
        issue_create_view(p, upserted_repo_id(old_d.repo_rows(), repo_fields(p).github_id), eid),
        now,
    )
    &&& new_d.commits@ == old_d.commits@
    &&& new_d.pull_requests@ == old_d.pull_requests@
}

/// Projects an issues payload: upserts the repository, then the one issue.
/// Nothing is written unless the whole payload extracts cleanly.
pub fn process_issues_event(domain: &mut DomainStore, event: &Event, now: i64) -> (r: Result<
    (),
    ProcessingError,
>)
    requires
        old(domain).well_formed(),
        old(domain).repositories@.len() < i64::MAX,
        old(domain).issues@.len() < i64::MAX,
    ensures
        match r {
            Ok(_) => {
                &&& issue_error(event.raw_event) is None
                &&& issue_applied(
                    *old(domain),
                    *final(domain),
                    event.raw_event,
                    event.id as int,
                    now as int,
                )
                &&& final(domain).well_formed()
            },
            Err(e) => *final(domain) == *old(domain) && issue_error(event.raw_event) == Some(
                e->0@,
            ),
        },
{
    let info = match extract_issue(&event.raw_event) {
        Ok(i) => i,
        Err(e) => {
            return Err(e);
        },
    };
    let repo_data = match extract_repository(&event.raw_event) {
        Ok(d) => d,
        Err(e) => {
            return Err(e);
        },
    };
    let repository_id = Repository::create(domain, repo_data, now);
    let data = CreateIssue {
        repository_id,
        webhook_event_id: event.id,
        github_id: info.github_id,
        number: info.number,
        title: info.title,
        state: info.state,
        author: info.author,
        labels: info.labels,
        url: info.url,
        opened_at: info.opened_at,
        closed_at: info.closed_at,
    };
    proof {
        assert(data@ == issue_create_view(
            event.raw_event,
            upserted_repo_id(old(domain).repo_rows(), repo_fields(event.raw_event).github_id),
            event.id as int,
        ));
    }
    let _ = Issue::create(domain, data, now);
    Ok(())
}


/// What a completed GitHub projection did: on success the event row is
/// marked processed and the domain tables reflect the payload's event type
/// (unrecognized types change nothing); on failure every store is exactly
/// as before, so the event stays unprocessed.
pub open spec fn github_projection_outcome(
    oe: EventStore,
    ne: EventStore,
    od: DomainStore,
    nd: DomainStore,
    event_id: i64,
    now: i64,
    r: Result<(), ProcessingError>,
) -> bool {
    let ev = oe.events@[event_id - 1];
    match r {
        Ok(_) => {
            &&& ne.events@ == oe.events@.update(
                event_id - 1,
                (Event { processed: true, processed_at: Some(now), ..ev }),
            )
            &&& (ev.event_type@ == "push"@ ==> push_error(ev.raw_event) is None && push_applied(
                od,
                nd,
                ev.raw_event,
                ev.id as int,
                now as int,
            ))
            &&& (ev.event_type@ == "pull_request"@ ==> pr_error(ev.raw_event) is None
                && pr_applied(od, nd, ev.raw_event, ev.id as int, now as int))
            &&& (ev.event_type@ == "issues"@ ==> issue_error(ev.raw_event) is None
                && issue_applied(od, nd, ev.raw_event, ev.id as int, now as int))
            &&& (ev.event_type@ != "push"@ && ev.event_type@ != "pull_request"@
                && ev.event_type@ != "issues"@ ==> nd == od)
        },
        Err(e) => {
            &&& ne == oe
            &&& nd == od
            &&& (ev.event_type@ == "push"@ ==> push_error(ev.raw_event) == Some(e->0@))
            &&& (ev.event_type@ == "pull_request"@ ==> pr_error(ev.raw_event) == Some(e->0@))
            &&& (ev.event_type@ == "issues"@ ==> issue_error(ev.raw_event) == Some(e->0@))
            &&& (ev.event_type@ == "push"@ || ev.event_type@ == "pull_request"@
                || ev.event_type@ == "issues"@)
        },
    }
}

/// Projects one stored GitHub event by its type and, on success, marks it
/// processed. A failed projection writes nothing anywhere.
pub fn process_github_event(
    events: &mut EventStore,
    domain: &mut DomainStore,
    event_id: i64,
    now: i64,
) -> (r: Result<(), ProcessingError>)
    requires
        old(events).well_formed(),
        1 <= event_id <= old(events).events@.len(),
        old(domain).well_formed(),
        old(domain).repositories@.len() < i64::MAX,
        old(domain).pull_requests@.len() < i64::MAX,
        old(domain).issues@.len() < i64::MAX,
        old(domain).commits@.len() + push_commits_len(
            old(events).events@[event_id - 1].raw_event,
        ) < i64::MAX,
    ensures
        final(events).well_formed(),
        final(domain).well_formed(),
        github_projection_outcome(
            *old(events),
            *final(events),
            *old(domain),
            *final(domain),
            event_id,
            now,
            r,
        ),
{
    proof {
        reveal_strlit("push");
        reveal_strlit("pull_request");
        reveal_strlit("issues");
    }
    let ev = match Event::find_by_id(events, event_id) {
        Some(ev) => ev,
        None => {
            return Ok(());
        },
    };
    proof {
        assert("push"@.len() == 4);
        assert("pull_request"@.len() == 12);
        assert("issues"@.len() == 6);
    }
    if str_eq(ev.event_type.as_str(), "push") {
        match process_push_event(domain, ev, now) {
            Ok(_) => {},
            Err(e) => {
                assert(ev.event_type@ != "pull_request"@);
                assert(ev.event_type@ != "issues"@);
                return Err(e);
            },
        }
    } else if str_eq(ev.event_type.as_str(), "pull_request") {
        match process_pull_request_event(domain, ev, now) {
            Ok(_) => {},
            Err(e) => {
                assert(ev.event_type@ != "push"@);
                assert(ev.event_type@ != "issues"@);
                return Err(e);
            },
        }
    } else if str_eq(ev.event_type.as_str(), "issues") {
        match process_issues_event(domain, ev, now) {
            Ok(_) => {},
            Err(e) => {
                assert(ev.event_type@ != "push"@);
                assert(ev.event_type@ != "pull_request"@);
                return Err(e);
            },
        }
    }
    Event::mark_processed(events, event_id, now);
    proof {
        assert(final(events).events@ =~= old(events).events@.update(
            event_id - 1,
            (Event {
                processed: true,
                processed_at: Some(now),
                ..old(events).events@[event_id - 1]
            }),
        ));
    }
    Ok(())
}

/// Routes one stored event to its source's projector: GitHub events are
/// projected; every other source is only marked processed.
pub fn process_event_by_source(
    events: &mut EventStore,
    domain: &mut DomainStore,
    event_id: i64,
    source: &str,
    now: i64,
) -> (r: Result<(), ProcessingError>)
    requires
        old(events).well_formed(),
        1 <= event_id <= old(events).events@.len(),
        old(domain).well_formed(),
        old(domain).repositories@.len() < i64::MAX,
        old(domain).pull_requests@.len() < i64::MAX,
        old(domain).issues@.len() < i64::MAX,
        old(domain).commits@.len() + push_commits_len(
            old(events).events@[event_id - 1].raw_event,
        ) < i64::MAX,
    ensures
        final(events).well_formed(),
        final(domain).well_formed(),
        source@ == "github"@ ==> github_projection_outcome(
            *old(events),
            *final(events),
            *old(domain),
            *final(domain),
            event_id,
            now,
            r,
        ),
        source@ != "github"@ ==> r is Ok && *final(domain) == *old(domain)
            && final(events).events@ == old(events).events@.update(
            event_id - 1,
            (Event {
                processed: true,
                processed_at: Some(now),
                ..old(events).events@[event_id - 1]
            }),
        ),
{
    if str_eq(source, "github") {
        process_github_event(events, domain, event_id, now)
    } else {
        Event::mark_processed(events, event_id, now);
        proof {
            assert(final(events).events@ =~= old(events).events@.update(
                event_id - 1,
                (Event {
                    processed: true,
                    processed_at: Some(now),
                    ..old(events).events@[event_id - 1]
                }),
            ));
        }
        Ok(())
    }
}

/// The `author` member of the first commits-array entry, if any.
pub open spec fn commit0_author_field(p: JsonValue, field: Seq<char>) -> Option<Seq<char>> {
    match arr_at(p, "commits"@) {
        Some(items) => if items.len() > 0 {
            str_at2(items[0], "author"@, field)
        } else {
            None
        },
        None => None,
    }
}

/// The actor name a GitHub payload carries: the sender's login, else the
/// pusher's name, else the first commit author's name.
pub open spec fn gh_actor_name(p: JsonValue) -> Option<Seq<char>> {
    if str_at2(p, "sender"@, "login"@) is Some {
        str_at2(p, "sender"@, "login"@)
    } else if str_at2(p, "pusher"@, "name"@) is Some {
        str_at2(p, "pusher"@, "name"@)
    } else {
        commit0_author_field(p, "name"@)
    }
}

/// The actor email a GitHub payload carries, by the same preference order.
pub open spec fn gh_actor_email(p: JsonValue) -> Option<Seq<char>> {
    if str_at2(p, "sender"@, "email"@) is Some {
        str_at2(p, "sender"@, "email"@)
    } else if str_at2(p, "pusher"@, "email"@) is Some {
        str_at2(p, "pusher"@, "email"@)
    } else {
        commit0_author_field(p, "email"@)
    }
}

/// The actor identifier a GitHub payload carries: the sender's login, else
/// the sender's numeric id rendered in decimal, else the pusher's name.
pub open spec fn gh_actor_id(p: JsonValue) -> Option<Seq<char>> {
    if str_at2(p, "sender"@, "login"@) is Some {
        str_at2(p, "sender"@, "login"@)
    } else if i64_at2(p, "sender"@, "id"@) is Some {
        Some(spec_dec_i64(i64_at2(p, "sender"@, "id"@)->0 as int))
    } else {
        str_at2(p, "pusher"@, "name"@)
    }
}

fn get_commit0_author<'a>(payload: &'a JsonValue, field: &str) -> (r: Option<&'a str>)
    ensures
        match r {
            Some(s) => commit0_author_field(*payload, field@) == Some(s@),
            None => commit0_author_field(*payload, field@) is None,
        },
{
    match get_arr_at(payload, "commits") {
        Some(arr) => if arr.len() > 0 {
            get_str_at2(&arr[0], "author", field)
        } else {
            None
        },
        None => None,
    }
}

/// Extracts the best-effort actor identity (name, email, id) from a GitHub
/// payload.
pub fn extract_actor_info(payload: &JsonValue) -> (r: (
    Option<String>,
    Option<String>,
    Option<String>,
))
    ensures
        view_opt_string(r.0) == gh_actor_name(*payload),
        view_opt_string(r.1) == gh_actor_email(*payload),
        view_opt_string(r.2) == gh_actor_id(*payload),
{
    let name = match get_str_at2(payload, "sender", "login") {
        Some(s) => Some(s.to_owned()),
        None => match get_str_at2(payload, "pusher", "name") {
            Some(s) => Some(s.to_owned()),
            None => match get_commit0_author(payload, "name") {
                Some(s) => Some(s.to_owned()),
                None => None,
            },
        },
    };
    let email = match get_str_at2(payload, "sender", "email") {
        Some(s) => Some(s.to_owned()),
        None => match get_str_at2(payload, "pusher", "email") {
            Some(s) => Some(s.to_owned()),
            None => match get_commit0_author(payload, "email") {
                Some(s) => Some(s.to_owned()),
                None => None,
            },
        },
    };
    let id = match get_str_at2(payload, "sender", "login") {
        Some(s) => Some(s.to_owned()),
        None => match get_i64_at2(payload, "sender", "id") {
            Some(v) => Some(i64_to_string(v)),
            None => match get_str_at2(payload, "pusher", "name") {
                Some(s) => Some(s.to_owned()),
                None => None,
            },
        },
    };
    (name, email, id)
}

/// Builds the normalized event envelope of a GitHub delivery.
pub fn convert_github_webhook_to_event(
    event_type: String,
    event_action: Option<String>,
    payload: JsonValue,
    delivery_id: String,
    signature: Option<String>,
    repository_id: Option<i64>,
) -> (r: CreateEvent)
    ensures
        r.source@ == "github"@,
        r.event_type == event_type,
        r.action == event_action,
        view_opt_string(r.actor_name) == gh_actor_name(payload),
        view_opt_string(r.actor_email) == gh_actor_email(payload),
        view_opt_string(r.actor_id) == gh_actor_id(payload),
        r.raw_event == payload,
        r.delivery_id == delivery_id,
        r.signature == signature,
        r.repository_id == repository_id,
{
    let (actor_name, actor_email, actor_id) = extract_actor_info(&payload);
    CreateEvent {
        source: "github".to_owned(),
        event_type,
        action: event_action,
        actor_name,
        actor_email,
        actor_id,
        raw_event: payload,
        delivery_id,
        signature,
        repository_id,
    }
}

/// A commit row under this natural key exists.
pub open spec fn has_commit_key(s: Seq<CommitView>, sha: Seq<char>, repository_id: int) -> bool {
    exists|j: int|
        0 <= j < s.len() && (#[trigger] s[j]).sha == sha && s[j].repository_id == repository_id
}

proof fn lemma_upsert_commit_effects(s: Seq<CommitView>, d: CreateCommitView, now: int)
    ensures
        upsert_commit(s, d, now).len() == if has_commit_key(s, d.sha, d.repository_id) {
            s.len() as int
        } else {
            s.len() + 1 as int
        },
        forall|sha: Seq<char>, rid: int|
            #[trigger] has_commit_key(upsert_commit(s, d, now), sha, rid) <==> has_commit_key(
                s,
                sha,
                rid,
            ) || (sha == d.sha && rid == d.repository_id),
{
    let key = commit_key(d.sha, d.repository_id);
    let t = upsert_commit(s, d, now);
    match find_first(s, key) {
        Some(j) => {
            lemma_find_first_props(s, key, j);
            assert(has_commit_key(s, d.sha, d.repository_id));
            assert forall|sha: Seq<char>, rid: int|
                #[trigger] has_commit_key(t, sha, rid) <==> has_commit_key(s, sha, rid) || (sha
                    == d.sha && rid == d.repository_id) by {
                assert(forall|i: int|
                    0 <= i < s.len() ==> (#[trigger] t[i]).sha == s[i].sha && t[i].repository_id
                        == s[i].repository_id);
                if has_commit_key(t, sha, rid) {
                    let w = choose|w: int|
                        0 <= w < t.len() && (#[trigger] t[w]).sha == sha && t[w].repository_id
                            == rid;
                    assert(s[w].sha == sha && s[w].repository_id == rid);
                    assert(has_commit_key(s, sha, rid));
                }
                if has_commit_key(s, sha, rid) {
                    let w = choose|w: int|
                        0 <= w < s.len() && (#[trigger] s[w]).sha == sha && s[w].repository_id
                            == rid;
                    assert(t[w].sha == sha && t[w].repository_id == rid);
                    assert(has_commit_key(t, sha, rid));
                }
                if sha == d.sha && rid == d.repository_id {
                    assert(t[j].sha == sha && t[j].repository_id == rid);
                    assert(has_commit_key(t, sha, rid));
                }
            }
        },
        None => {
            lemma_find_first_none_props(s, key);
            assert(!has_commit_key(s, d.sha, d.repository_id)) by {
                if has_commit_key(s, d.sha, d.repository_id) {
                    let w = choose|w: int|
                        0 <= w < s.len() && (#[trigger] s[w]).sha == d.sha && s[w].repository_id
                            == d.repository_id;
                    assert(key(s[w]));
                }
            }
            assert forall|sha: Seq<char>, rid: int|
                #[trigger] has_commit_key(t, sha, rid) <==> has_commit_key(s, sha, rid) || (sha
                    == d.sha && rid == d.repository_id) by {
                if has_commit_key(t, sha, rid) {
                    let w = choose|w: int|
                        0 <= w < t.len() && (#[trigger] t[w]).sha == sha && t[w].repository_id
                            == rid;
                    if w < s.len() {
                        assert(s[w].sha == sha && s[w].repository_id == rid);
                        assert(has_commit_key(s, sha, rid));
                    } else {
                        assert(t[w] == t[s.len() as int]);
                    }
                }
                if has_commit_key(s, sha, rid) {
                    let w = choose|w: int|
                        0 <= w < s.len() && (#[trigger] s[w]).sha == sha && s[w].repository_id
                            == rid;
                    assert(t[w].sha == sha && t[w].repository_id == rid);
                    assert(has_commit_key(t, sha, rid));
                }
                if sha == d.sha && rid == d.repository_id {
                    assert(t[s.len() as int].sha == sha && t[s.len() as int].repository_id == rid);
                    assert(has_commit_key(t, sha, rid));
                }
            }
        },
    }
}

proof fn lemma_apply_commits_keys(
    s: Seq<CommitView>,
    items: Seq<JsonValue>,
    rid: int,
    eid: int,
    now: int,
)
    ensures
        forall|k: int|
            0 <= k < items.len() ==> has_commit_key(
                apply_commits(s, items, rid, eid, now),
                str_at(#[trigger] items[k], "id"@)->0,
                rid,
            ),
        forall|sha: Seq<char>, rid2: int|
            has_commit_key(s, sha, rid2) ==> #[trigger] has_commit_key(
                apply_commits(s, items, rid, eid, now),
                sha,
                rid2,
            ),
    decreases items.len(),
{
    if items.len() > 0 {
        let d = commit_create_view(items[0], rid, eid);
        let s1 = upsert_commit(s, d, now);
        let t = apply_commits(s, items, rid, eid, now);
        lemma_upsert_commit_effects(s, d, now);
        lemma_apply_commits_keys(s1, items.skip(1), rid, eid, now);
        assert(t == apply_commits(s1, items.skip(1), rid, eid, now));
        assert forall|k: int| 0 <= k < items.len() implies has_commit_key(
            apply_commits(s, items, rid, eid, now),
            str_at(#[trigger] items[k], "id"@)->0,
            rid,
        ) by {
            if k == 0 {
                assert(has_commit_key(s1, d.sha, d.repository_id));
                assert(has_commit_key(
                    apply_commits(s1, items.skip(1), rid, eid, now),
                    d.sha,
                    d.repository_id,
                ));
            } else {
                assert(items.skip(1)[k - 1] == items[k]);
                assert(has_commit_key(
                    apply_commits(s1, items.skip(1), rid, eid, now),
                    str_at(items.skip(1)[k - 1], "id"@)->0,
                    rid,
                ));
            }
        }
        assert forall|sha: Seq<char>, rid2: int|
            has_commit_key(s, sha, rid2) implies #[trigger] has_commit_key(t, sha, rid2) by {
            assert(has_commit_key(s1, sha, rid2));
            assert(has_commit_key(apply_commits(s1, items.skip(1), rid, eid, now), sha, rid2));
        }
    }
}

proof fn lemma_apply_commits_len_when_present(
    s: Seq<CommitView>,
    items: Seq<JsonValue>,
    rid: int,
    eid: int,
    now: int,
)
    requires
        forall|k: int|
            0 <= k < items.len() ==> has_commit_key(s, str_at(#[trigger] items[k], "id"@)->0, rid),
    ensures
        apply_commits(s, items, rid, eid, now).len() == s.len(),
    decreases items.len(),
{
    if items.len() > 0 {
        let d = commit_create_view(items[0], rid, eid);
        let s1 = upsert_commit(s, d, now);
        lemma_upsert_commit_effects(s, d, now);
        assert(has_commit_key(s, d.sha, d.repository_id));
        assert forall|k: int| 0 <= k < items.skip(1).len() implies has_commit_key(
            s1,
            str_at(#[trigger] items.skip(1)[k], "id"@)->0,
            rid,
        ) by {
            assert(items.skip(1)[k] == items[k + 1]);
            assert(has_commit_key(s, str_at(items[k + 1], "id"@)->0, rid));
        }
        lemma_apply_commits_len_when_present(s1, items.skip(1), rid, eid, now);
    }
}

/// Redelivering a push is idempotent on the commit table: projecting the
/// same commits array a second time (whatever event id or time delivers it)
/// only refreshes existing rows, so the table's length does not change and
/// no duplicate rows for the same sha appear.
pub proof fn lemma_push_redelivery_idempotent(
    s: Seq<CommitView>,
    items: Seq<JsonValue>,
    rid: int,
    eid1: int,
    eid2: int,
    now1: int,
    now2: int,
)
    ensures
        apply_commits(apply_commits(s, items, rid, eid1, now1), items, rid, eid2, now2).len()
            == apply_commits(s, items, rid, eid1, now1).len(),
{
    let s1 = apply_commits(s, items, rid, eid1, now1);
    lemma_apply_commits_keys(s, items, rid, eid1, now1);
    lemma_apply_commits_len_when_present(s1, items, rid, eid2, now2);
}

/// A pull-request payload without `pull_request.base.ref` always fails
/// extraction, so by the projector's contract nothing is written and the
/// event stays unprocessed.
pub proof fn lemma_pr_missing_base_ref_aborts(p: JsonValue)
    requires
        str_at3(p, "pull_request"@, "base"@, "ref"@) is None,
    ensures
        pr_error(p) is Some,
{
}

} // verus!
