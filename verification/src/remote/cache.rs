//! Cache module for storing and retrieving remote data.
//!
//! This module provides caching functionality for GitHub commits and pull requests
//! to avoid fetching all data on every changelog generation.

use crate::remote::clock::{
    format_rfc3339, has_rfc3339_text, is_clock_reading, is_instant,
    law_clock_readings_come_from_the_clock, now_utc, rfc3339_text,
};
use crate::remote::github::{
    commit_views, pull_request_views, CommitView, GitHubCommit, GitHubCommitAuthor,
    GitHubCommitDetails, GitHubCommitDetailsAuthor, GitHubPullRequest, PullRequestLabel,
    PullRequestView,
};
use crate::remote::listing::{
    enumerates, lemma_list_of_mapped_values, lemma_values_of_list, lemma_written_list_restores,
    lists_entries, lists_values, written,
};
use crate::remote::paths::{components, is_component, join, owned_components};
use crate::remote::text::{as_optional_str, optional_str, optional_text, text_list};
use crate::remote::text_map::{text_entries, TextMap};
use std::collections::HashMap;
use std::path::{Path, PathBuf};
use vstd::prelude::*;

verus! {

broadcast use vstd::std_specs::hash::group_hash_axioms;

/// Name of the directory that holds the cache file, inside the git directory.
pub const CACHE_DIRECTORY: &'static str = "git-cliff-core";

/// Name of the cache file for GitHub data.
pub const GITHUB_CACHE_FILE: &'static str = "github_cache.json";

/// Cached commit data.
#[derive(Debug)]
pub struct CachedCommit {
    /// Commit SHA.
    pub sha: String,
    /// Author username (login).
    pub author_login: Option<String>,
    /// Commit date (RFC3339 format).
    pub date: Option<String>,
}

/// What the cache keeps of a commit.
pub struct CachedCommitView {
    pub sha: Seq<char>,
    pub author_login: Option<Seq<char>>,
    pub date: Option<Seq<char>>,
}

impl View for CachedCommit {
    type V = CachedCommitView;

    open spec fn view(&self) -> CachedCommitView {
        CachedCommitView {
            sha: self.sha@,
            author_login: optional_text(self.author_login),
            date: optional_text(self.date),
        }
    }
}

impl Clone for CachedCommit {
    fn clone(&self) -> (copy: CachedCommit)
        ensures
            copy@ == self@,
    {
        CachedCommit {
            sha: self.sha.clone(),
            author_login: self.author_login.clone(),
            date: self.date.clone(),
        }
    }
}

/// What the cache keeps of a commit: its SHA, its author's login and its date.
pub open spec fn cached_commit(commit: CommitView) -> CachedCommitView {
    CachedCommitView {
        sha: commit.sha,
        author_login: commit.username(),
        date: commit.date,
    }
}

/// The commit that a cached commit stands for: its author is one with a login, or none.
pub open spec fn remote_commit(cached: CachedCommitView) -> CommitView {
    CommitView {
        sha: cached.sha,
        author: match cached.author_login {
            Some(login) => Some(Some(login)),
            None => None,
        },
        date: cached.date,
    }
}

impl CachedCommit {
    /// What is kept of a commit.
    pub fn from_commit(commit: &GitHubCommit) -> (cached: CachedCommit)
        ensures
            cached@ == cached_commit(commit@),
            cached.sha == commit.sha,
            cached.author_login == (match commit.author {
                Some(author) => author.login,
                None => None,
            }),
            cached.date == (match commit.commit {
                Some(details) => Some(details.author.date),
                None => None,
            }),
    {
        CachedCommit {
            sha: commit.sha.clone(),
            author_login: commit.username(),
            date: match &commit.commit {
                Some(details) => Some(details.author.date.clone()),
                None => None,
            },
        }
    }

    /// The commit that this stands for.
    pub fn to_commit(&self) -> (commit: GitHubCommit)
        ensures
            commit@ == remote_commit(self@),
            commit.sha == self.sha,
            commit.author == (match self.author_login {
                Some(login) => Some(GitHubCommitAuthor { login: Some(login) }),
                None => None,
            }),
            commit.commit == (match self.date {
                Some(date) => Some(
                    GitHubCommitDetails { author: GitHubCommitDetailsAuthor { date } },
                ),
                None => None,
            }),
    {
        GitHubCommit {
            sha: self.sha.clone(),
            author: match &self.author_login {
                Some(login) => Some(GitHubCommitAuthor { login: Some(login.clone()) }),
                None => None,
            },
            commit: match &self.date {
                Some(date) => Some(
                    GitHubCommitDetails {
                        author: GitHubCommitDetailsAuthor { date: date.clone() },
                    },
                ),
                None => None,
            },
        }
    }
}

/// Cached pull request data.
#[derive(Debug)]
pub struct CachedPullRequest {
    /// PR number.
    pub number: i64,
    /// PR title.
    pub title: Option<String>,
    /// Merge commit SHA.
    pub merge_commit_sha: Option<String>,
    /// Labels.
    pub labels: Vec<String>,
    /// Last updated timestamp (RFC3339 format).
    pub updated_at: Option<String>,
}

impl View for CachedPullRequest {
    type V = PullRequestView;

    open spec fn view(&self) -> PullRequestView {
        PullRequestView {
            number: self.number,
            title: optional_text(self.title),
            merge_commit_sha: optional_text(self.merge_commit_sha),
            labels: text_list(self.labels@),
            updated_at: optional_text(self.updated_at),
        }
    }
}

impl Clone for CachedPullRequest {
    fn clone(&self) -> (copy: CachedPullRequest)
        ensures
            copy@ == self@,
    {
        let mut labels: Vec<String> = Vec::new();
        for i in 0..self.labels.len()
            invariant
                labels@ == self.labels@.take(i as int),
        {
            labels.push(self.labels[i].clone());
        }
        let copy = CachedPullRequest {
            number: self.number,
            title: self.title.clone(),
            merge_commit_sha: self.merge_commit_sha.clone(),
            labels,
            updated_at: self.updated_at.clone(),
        };
        assert(copy@ =~= self@);
        copy
    }
}

impl CachedPullRequest {
    /// What is kept of a pull request: all that it says.
    pub fn from_pull_request(pull_request: &GitHubPullRequest) -> (cached: CachedPullRequest)
        ensures
            cached@ == pull_request@,
            cached.number == pull_request.number,
            cached.title == pull_request.title,
            cached.merge_commit_sha == pull_request.merge_commit_sha,
            cached.updated_at == pull_request.updated_at,
            cached.labels@.len() == pull_request.labels@.len(),
            forall|i: int|
                0 <= i < cached.labels@.len() ==> (#[trigger] cached.labels@[i])@
                    == pull_request.labels@[i].name@,
    {
        CachedPullRequest {
            number: pull_request.number,
            title: pull_request.title.clone(),
            merge_commit_sha: pull_request.merge_commit_sha.clone(),
            labels: pull_request.labels(),
            updated_at: pull_request.updated_at.clone(),
        }
    }

    /// The pull request that this stands for.
    pub fn to_pull_request(&self) -> (pull_request: GitHubPullRequest)
        ensures
            pull_request@ == self@,
            pull_request.number == self.number,
            pull_request.title == self.title,
            pull_request.merge_commit_sha == self.merge_commit_sha,
            pull_request.updated_at == self.updated_at,
            pull_request.labels@.len() == self.labels@.len(),
            forall|i: int|
                0 <= i < self.labels@.len() ==> (#[trigger] pull_request.labels@[i]).name@
                    == self.labels@[i]@,
    {
        let mut labels: Vec<PullRequestLabel> = Vec::new();
        for i in 0..self.labels.len()
            invariant
                labels@.len() == i,
                forall|j: int| 0 <= j < i ==> #[trigger] labels@[j].name@ == self.labels@[j]@,
        {
            labels.push(PullRequestLabel { name: self.labels[i].clone() });
        }
        let pull_request = GitHubPullRequest {
            number: self.number,
            title: self.title.clone(),
            merge_commit_sha: self.merge_commit_sha.clone(),
            labels,
            updated_at: self.updated_at.clone(),
        };
        assert(pull_request@ =~= self@);
        pull_request
    }
}

/// Cache data structure for GitHub.
pub struct GitHubCache {
    /// Timestamp of when the cache was last updated (RFC3339 format).
    pub last_updated: Option<String>,
    /// Cached commits indexed by SHA.
    pub commits: TextMap<CachedCommit>,
    /// Cached pull requests indexed by PR number.
    pub pull_requests: HashMap<i64, CachedPullRequest>,
}

/// What a cache holds.
#[verifier::ext_equal]
pub struct CacheView {
    pub last_updated: Option<Seq<char>>,
    pub commits: Map<Seq<char>, CachedCommitView>,
    pub pull_requests: Map<i64, PullRequestView>,
}

impl View for GitHubCache {
    type V = CacheView;

    open spec fn view(&self) -> CacheView {
        CacheView {
            last_updated: optional_text(self.last_updated),
            commits: self.commits@.map_values(|commit: CachedCommit| commit@),
            pull_requests: self.pull_requests@.map_values(
                |pull_request: CachedPullRequest| pull_request@,
            ),
        }
    }
}

/// The cache of a first run.
pub open spec fn empty_cache() -> CacheView {
    CacheView { last_updated: None, commits: Map::empty(), pull_requests: Map::empty() }
}

/// The content of a cache as lists, in which it is written to and read from a file.
#[derive(Debug)]
pub struct CacheRecord {
    /// Timestamp of when the cache was last updated.
    pub last_updated: Option<String>,
    /// Commits with the SHAs that index them.
    pub commits: Vec<(String, CachedCommit)>,
    /// Pull requests with the numbers that index them.
    pub pull_requests: Vec<(i64, CachedPullRequest)>,
}

/// What a record holds.
pub struct CacheRecordView {
    pub last_updated: Option<Seq<char>>,
    pub commits: Seq<(Seq<char>, CachedCommitView)>,
    pub pull_requests: Seq<(i64, PullRequestView)>,
}

impl View for CacheRecord {
    type V = CacheRecordView;

    open spec fn view(&self) -> CacheRecordView {
        CacheRecordView {
            last_updated: optional_text(self.last_updated),
            commits: Seq::new(
                self.commits@.len(),
                |i: int| (self.commits@[i].0@, self.commits@[i].1@),
            ),
            pull_requests: Seq::new(
                self.pull_requests@.len(),
                |i: int| (self.pull_requests@[i].0, self.pull_requests@[i].1@),
            ),
        }
    }
}

/// `record` lists what `cache` holds.
pub open spec fn records(record: CacheRecordView, cache: CacheView) -> bool {
    &&& record.last_updated == cache.last_updated
    &&& lists_entries(record.commits, cache.commits)
    &&& lists_entries(record.pull_requests, cache.pull_requests)
}

/// The cache that holds what `record` lists; of several entries with one key, the last.
pub open spec fn restored(record: CacheRecordView) -> CacheView {
    CacheView {
        last_updated: record.last_updated,
        commits: written(Map::empty(), record.commits),
        pull_requests: written(Map::empty(), record.pull_requests),
    }
}

/// What came of looking for the cache file and reading it.
#[derive(Debug)]
pub enum CacheFile {
    /// There is no such file.
    Missing,
    /// The file could not be opened.
    Unopenable,
    /// The content of the file could not be read as text.
    Unreadable,
    /// The text is not that of a cache.
    Unparsable,
    /// The file holds a cache.
    Parsed(CacheRecord),
}

/// The cache that is loaded from what was found in place of the cache file.
pub open spec fn loaded(file: CacheFile) -> CacheView {
    match file {
        CacheFile::Parsed(record) => restored(record@),
        _ => empty_cache(),
    }
}

/// The text that records an update at an instant: its RFC 3339 text, or none where
/// the instant has none.
pub open spec fn update_text(unix_nanos: int) -> Seq<char> {
    if has_rfc3339_text(unix_nanos) {
        rfc3339_text(unix_nanos)
    } else {
        Seq::empty()
    }
}

/// The cache entries of commits: each under its SHA.
pub open spec fn commit_entries(commits: Seq<CommitView>) -> Seq<(Seq<char>, CachedCommitView)> {
    Seq::new(commits.len(), |i: int| (commits[i].sha, cached_commit(commits[i])))
}

/// The cache entries of pull requests: each under its number.
pub open spec fn pull_request_entries(pull_requests: Seq<PullRequestView>) -> Seq<
    (i64, PullRequestView),
> {
    Seq::new(pull_requests.len(), |i: int| (pull_requests[i].number, pull_requests[i]))
}

impl CacheView {
    /// The cache with commits written to it.
    pub open spec fn with_commits(self, commits: Seq<CommitView>) -> CacheView {
        CacheView { commits: written(self.commits, commit_entries(commits)), ..self }
    }

    /// The cache with pull requests written to it.
    pub open spec fn with_pull_requests(self, pull_requests: Seq<PullRequestView>) -> CacheView {
        CacheView {
            pull_requests: written(self.pull_requests, pull_request_entries(pull_requests)),
            ..self
        }
    }

    /// The cache with another timestamp.
    pub open spec fn with_timestamp(self, timestamp: Seq<char>) -> CacheView {
        CacheView { last_updated: Some(timestamp), ..self }
    }
}

proof fn lemma_cache_names()
    ensures
        is_component(CACHE_DIRECTORY@),
        is_component(GITHUB_CACHE_FILE@),
{
    reveal_strlit("git-cliff-core");
    reveal_strlit("github_cache.json");
    assert(CACHE_DIRECTORY@ =~= seq!['g', 'i', 't', '-', 'c', 'l', 'i', 'f', 'f', '-', 'c', 'o', 'r', 'e']);
    assert(GITHUB_CACHE_FILE@ =~= seq!['g', 'i', 't', 'h', 'u', 'b', '_', 'c', 'a', 'c', 'h', 'e', '.', 'j', 's', 'o', 'n']);
}

/// The numbers that index pull requests, each once, in some order.
fn numbers_of(pull_requests: &HashMap<i64, CachedPullRequest>) -> (numbers: Vec<i64>)
    ensures
        enumerates(numbers@, pull_requests@.dom()),
{
    let mut numbers: Vec<i64> = Vec::new();
    for number in keys: pull_requests.keys()
        invariant
            numbers@ == keys.seq().unref().take(keys.index() as int),
            keys.index() == keys.seq().len() ==> numbers@ == keys.seq().unref(),
            enumerates(keys.seq().unref(), pull_requests@.dom()),
    {
        numbers.push(*number);
    }
    numbers
}

impl Default for GitHubCache {
    fn default() -> (cache: GitHubCache)
        ensures
            cache@ == empty_cache(),
            cache.last_updated is None,
            cache.commits@ == Map::<Seq<char>, CachedCommit>::empty(),
            cache.pull_requests@ == Map::<i64, CachedPullRequest>::empty(),
    {
        let cache = GitHubCache {
            last_updated: None,
            commits: TextMap::new(),
            pull_requests: HashMap::new(),
        };
        assert(cache@ =~= empty_cache());
        cache
    }
}

impl Clone for GitHubCache {
    fn clone(&self) -> (copy: GitHubCache)
        ensures
            copy@ == self@,
    {
        let record = self.to_record();
        proof {
            law_record_round_trip(self@, record@);
        }
        GitHubCache::from_record(record)
    }
}

impl GitHubCache {
    /// Returns the cache file path for a given git directory.
    pub fn cache_path(git_dir: &Path) -> (path: PathBuf)
        ensures
            owned_components(&path) == components(git_dir).push(CACHE_DIRECTORY@).push(
                GITHUB_CACHE_FILE@,
            ),
            owned_components(&path) == components(git_dir).push("git-cliff-core"@).push(
                "github_cache.json"@,
            ),
    {
        proof {
            lemma_cache_names();
        }
        join(join(git_dir, CACHE_DIRECTORY).as_path(), GITHUB_CACHE_FILE)
    }

    /// Loads the cache from what was found in place of the cache file.
    ///
    /// Returns an empty cache if the file doesn't exist or can't be parsed.
    pub fn load(file: CacheFile) -> (cache: GitHubCache)
        ensures
            cache@ == loaded(file),
    {
        match file {
            CacheFile::Parsed(record) => GitHubCache::from_record(record),
            _ => GitHubCache::default(),
        }
    }

    /// The content of the cache as lists.
    pub fn to_record(&self) -> (record: CacheRecord)
        ensures
            records(record@, self@),
    {
        let entries = self.commits.entries();
        let mut commits: Vec<(String, CachedCommit)> = Vec::new();
        for i in 0..entries.len()
            invariant
                commits@.len() == i,
                forall|j: int|
                    0 <= j < i ==> (#[trigger] commits@[j]).0@ == entries@[j].0@ && commits@[j].1@
                        == entries@[j].1@,
        {
            commits.push((entries[i].0.clone(), entries[i].1.clone()));
        }
        let numbers = numbers_of(&self.pull_requests);
        let mut pull_requests: Vec<(i64, CachedPullRequest)> = Vec::new();
        for i in 0..numbers.len()
            invariant
                enumerates(numbers@, self.pull_requests@.dom()),
                pull_requests@.len() == i,
                forall|j: int|
                    0 <= j < i ==> (#[trigger] pull_requests@[j]).0 == numbers@[j]
                        && pull_requests@[j].1@ == self.pull_requests@[numbers@[j]]@,
        {
            let number: i64 = numbers[i];
            assert(numbers@.to_set().contains(numbers@[i as int]));
            if let Some(pull_request) = self.pull_requests.get(&number) {
                pull_requests.push((number, pull_request.clone()));
            }
        }
        let record = CacheRecord { last_updated: self.last_updated.clone(), commits, pull_requests };
        proof {
            let to_view = |commit: CachedCommit| commit@;
            lemma_list_of_mapped_values(text_entries(entries@), self.commits@, to_view);
            assert(record@.commits =~= Seq::new(
                entries@.len(),
                |i: int| (text_entries(entries@)[i].0, to_view(text_entries(entries@)[i].1)),
            ));
            assert(self@.pull_requests.dom() =~= self.pull_requests@.dom());
            assert(enumerates(numbers@, self@.pull_requests.dom()));
            assert forall|i: int| 0 <= i < numbers@.len() implies self.pull_requests@.contains_key(
                #[trigger] numbers@[i],
            ) by {
                assert(numbers@.to_set().contains(numbers@[i]));
            }
            assert(record@.pull_requests =~= numbers@.map_values(
                |number: i64| (number, self@.pull_requests[number]),
            ));
        }
        record
    }

    /// The cache that holds what the record lists.
    pub fn from_record(record: CacheRecord) -> (cache: GitHubCache)
        ensures
            cache@ == restored(record@),
    {
        let ghost listed = record@;
        let mut cache = GitHubCache::default();
        for i in 0..record.commits.len()
            invariant
                listed == record@,
                cache@ == (CacheView {
                    commits: written(Map::empty(), listed.commits.take(i as int)),
                    ..empty_cache()
                }),
        {
            let ghost before = cache@;
            cache.commits.insert(record.commits[i].0.clone(), record.commits[i].1.clone());
            assert(listed.commits.take(i + 1).drop_last() =~= listed.commits.take(i as int));
            assert(cache@.commits =~= before.commits.insert(
                listed.commits[i as int].0,
                listed.commits[i as int].1,
            ));
        }
        assert(listed.commits.take(listed.commits.len() as int) =~= listed.commits);
        for i in 0..record.pull_requests.len()
            invariant
                listed == record@,
                cache@ == (CacheView {
                    commits: written(Map::empty(), listed.commits),
                    pull_requests: written(Map::empty(), listed.pull_requests.take(i as int)),
                    ..empty_cache()
                }),
        {
            let ghost before = cache@;
            cache.pull_requests.insert(
                record.pull_requests[i].0,
                record.pull_requests[i].1.clone(),
            );
            assert(listed.pull_requests.take(i + 1).drop_last() =~= listed.pull_requests.take(
                i as int,
            ));
            assert(cache@.pull_requests =~= before.pull_requests.insert(
                listed.pull_requests[i as int].0,
                listed.pull_requests[i as int].1,
            ));
        }
        assert(listed.pull_requests.take(listed.pull_requests.len() as int)
            =~= listed.pull_requests);
        cache.last_updated = record.last_updated;
        cache
    }

    /// Updates the last_updated timestamp to now: to a reading of the clock.
    pub fn update_timestamp(&mut self)
        ensures
            exists|unix_nanos: int| #[trigger]
                is_instant(unix_nanos) && final(self)@ == old(self)@.with_timestamp(
                    update_text(unix_nanos),
                ),
            exists|unix_nanos: i128| #[trigger]
                is_clock_reading(unix_nanos) && is_instant(unix_nanos as int)
                    && final(self)@.last_updated == Some(
                    if has_rfc3339_text(unix_nanos as int) {
                        rfc3339_text(unix_nanos as int)
                    } else {
                        Seq::empty()
                    },
                ),
            final(self)@.commits == old(self)@.commits,
            final(self)@.pull_requests == old(self)@.pull_requests,
    {
        let unix_nanos: i128 = now_utc();
        self.update_timestamp_at(unix_nanos);
        assert(is_instant(unix_nanos as int));
        proof {
            law_clock_readings_come_from_the_clock(unix_nanos);
        }
    }

    /// Updates the last_updated timestamp to an instant, counted in nanoseconds from
    /// the Unix epoch.
    pub fn update_timestamp_at(&mut self, unix_nanos: i128)
        requires
            is_instant(unix_nanos as int),
        ensures
            final(self)@ == old(self)@.with_timestamp(update_text(unix_nanos as int)),
            final(self)@.last_updated == Some(
                if has_rfc3339_text(unix_nanos as int) {
                    rfc3339_text(unix_nanos as int)
                } else {
                    Seq::empty()
                },
            ),
            final(self)@.commits == old(self)@.commits,
            final(self)@.pull_requests == old(self)@.pull_requests,
    {
        match format_rfc3339(unix_nanos) {
            Ok(text) => self.set_timestamp(Some(text)),
            Err(_) => self.set_timestamp(None),
        }
    }

    /// Records an update at the time that `text` gives; where no text could be made
    /// of the time, the recorded text is empty.
    pub fn set_timestamp(&mut self, text: Option<String>)
        ensures
            final(self)@ == old(self)@.with_timestamp(
                match text {
                    Some(text) => text@,
                    None => Seq::empty(),
                },
            ),
            final(self).commits == old(self).commits,
            final(self).pull_requests == old(self).pull_requests,
            final(self).last_updated is Some,
            text is Some ==> final(self).last_updated == text,
            text is None ==> final(self).last_updated->0@.len() == 0,
    {
        self.last_updated = Some(text.unwrap_or_default());
    }

    /// Returns the last_updated timestamp as a string suitable for API queries.
    /// Returns None if no previous update exists.
    pub fn get_since_timestamp(&self) -> (since: Option<&str>)
        ensures
            optional_str(since) == self@.last_updated,
            since is Some <==> self.last_updated is Some,
            since is Some ==> since->0@ == self.last_updated->0@,
    {
        as_optional_str(&self.last_updated)
    }

    /// Checks if the cache is empty (first run).
    pub fn is_empty(&self) -> (empty: bool)
        ensures
            empty <==> self@.commits.is_empty() && self@.pull_requests.is_empty(),
            empty <==> self.commits@.is_empty() && self.pull_requests@.is_empty(),
    {
        assert(self@.commits.dom() =~= self.commits@.dom());
        assert(self@.pull_requests.dom() =~= self.pull_requests@.dom());
        self.commits.is_empty() && self.pull_requests.is_empty()
    }

    /// Returns statistics about the cache.
    pub fn stats(&self) -> (counts: (usize, usize))
        ensures
            counts.0 == self@.commits.len(),
            counts.1 == self@.pull_requests.len(),
            counts.0 == self.commits@.len(),
            counts.1 == self.pull_requests@.len(),
    {
        assert(self@.commits.dom() =~= self.commits@.dom());
        assert(self@.pull_requests.dom() =~= self.pull_requests@.dom());
        (self.commits.len(), self.pull_requests.len())
    }

    /// Writes new commits to the cache, each in place of what was there under its SHA.
    pub fn merge_commits(&mut self, commits: &Vec<GitHubCommit>)
        ensures
            final(self)@ == old(self)@.with_commits(commit_views(commits@)),
            final(self).pull_requests == old(self).pull_requests,
            final(self).last_updated == old(self).last_updated,
    {
        let ghost start = self@;
        let ghost entries = commit_entries(commit_views(commits@));
        for i in 0..commits.len()
            invariant
                entries == commit_entries(commit_views(commits@)),
                self.pull_requests == old(self).pull_requests,
                self.last_updated == old(self).last_updated,
                self@ == (CacheView {
                    commits: written(start.commits, entries.take(i as int)),
                    ..start
                }),
        {
            let ghost before = self@;
            let cached = CachedCommit::from_commit(&commits[i]);
            self.commits.insert(commits[i].sha.clone(), cached);
            assert(entries.take(i + 1).drop_last() =~= entries.take(i as int));
            assert(self@.commits =~= before.commits.insert(
                entries[i as int].0,
                entries[i as int].1,
            ));
        }
        assert(entries.take(entries.len() as int) =~= entries);
    }

    /// Writes new or updated pull requests to the cache, each in place of what was
    /// there under its number.
    pub fn merge_pull_requests(&mut self, pull_requests: &Vec<GitHubPullRequest>)
        ensures
            final(self)@ == old(self)@.with_pull_requests(pull_request_views(pull_requests@)),
            final(self).commits == old(self).commits,
            final(self).last_updated == old(self).last_updated,
    {
        let ghost start = self@;
        let ghost entries = pull_request_entries(pull_request_views(pull_requests@));
        for i in 0..pull_requests.len()
            invariant
                entries == pull_request_entries(pull_request_views(pull_requests@)),
                self.commits == old(self).commits,
                self.last_updated == old(self).last_updated,
                self@ == (CacheView {
                    pull_requests: written(start.pull_requests, entries.take(i as int)),
                    ..start
                }),
        {
            let ghost before = self@;
            let cached = CachedPullRequest::from_pull_request(&pull_requests[i]);
            self.pull_requests.insert(pull_requests[i].number, cached);
            assert(entries.take(i + 1).drop_last() =~= entries.take(i as int));
            assert(self@.pull_requests =~= before.pull_requests.insert(
                entries[i as int].0,
                entries[i as int].1,
            ));
        }
        assert(entries.take(entries.len() as int) =~= entries);
    }

    /// The commits that the cache stands for, in some order.
    pub fn remote_commits(&self) -> (commits: Vec<GitHubCommit>)
        ensures
            lists_values(
                commit_views(commits@),
                self@.commits,
                |cached: CachedCommitView| remote_commit(cached),
            ),
    {
        let record = self.to_record();
        let mut commits: Vec<GitHubCommit> = Vec::new();
        for i in 0..record.commits.len()
            invariant
                commits@.len() == i,
                forall|j: int|
                    0 <= j < i ==> (#[trigger] commits@[j])@ == remote_commit(
                        record.commits@[j].1@,
                    ),
        {
            commits.push(record.commits[i].1.to_commit());
        }
        proof {
            let to_remote = |cached: CachedCommitView| remote_commit(cached);
            lemma_values_of_list(record@.commits, self@.commits, to_remote);
            assert(commit_views(commits@) =~= Seq::new(
                record@.commits.len(),
                |i: int| to_remote(record@.commits[i].1),
            ));
        }
        commits
    }

    /// The pull requests that the cache stands for, in some order.
    pub fn remote_pull_requests(&self) -> (pull_requests: Vec<GitHubPullRequest>)
        ensures
            lists_values(
                pull_request_views(pull_requests@),
                self@.pull_requests,
                |cached: PullRequestView| cached,
            ),
    {
        let record = self.to_record();
        let mut pull_requests: Vec<GitHubPullRequest> = Vec::new();
        for i in 0..record.pull_requests.len()
            invariant
                pull_requests@.len() == i,
                forall|j: int|
                    0 <= j < i ==> (#[trigger] pull_requests@[j])@ == record.pull_requests@[j].1@,
        {
            pull_requests.push(record.pull_requests[i].1.to_pull_request());
        }
        proof {
            let same = |cached: PullRequestView| cached;
            lemma_values_of_list(record@.pull_requests, self@.pull_requests, same);
            assert(pull_request_views(pull_requests@) =~= Seq::new(
                record@.pull_requests.len(),
                |i: int| same(record@.pull_requests[i].1),
            ));
        }
        pull_requests
    }
}

/// What is read back from a record of a cache is the cache.
pub proof fn law_record_round_trip(cache: CacheView, record: CacheRecordView)
    requires
        records(record, cache),
    ensures
        restored(record) == cache,
{
    lemma_written_list_restores(record.commits, cache.commits);
    lemma_written_list_restores(record.pull_requests, cache.pull_requests);
}

/// A cache file that holds a record of a cache loads as that cache.
pub proof fn law_load_gives_back_what_was_saved(cache: CacheView, record: CacheRecord)
    requires
        records(record@, cache),
    ensures
        loaded(CacheFile::Parsed(record)) == cache,
{
    law_record_round_trip(cache, record@);
}

} // verus!
