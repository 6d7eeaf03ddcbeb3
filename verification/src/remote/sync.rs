//! Bringing a cache up to date: fetch the commits and then the pull requests since the
//! last update, write both to the cache, and record the update.

use crate::remote::cache::{
    remote_commit, update_text, CacheView, CachedCommitView, GitHubCache,
};
use crate::remote::clock::{has_rfc3339_text, is_clock_reading, is_instant, rfc3339_text};
use crate::remote::fetch::{
    CommitFetch, CommitFetchView, FetchStatus, PullRequestFetch, PullRequestFetchView,
};
use crate::remote::github::{
    commit_views, commits_url_text, pull_request_views, pull_requests_url_sorted_text,
    CommitView, GitHubClient, GitHubCommit, GitHubPullRequest, PullRequestView,
};
use crate::remote::listing::lists_values;
use crate::remote::text::optional_text;
use vstd::prelude::*;

verus! {

/// What an update of the cache waits for.
#[derive(Debug, Clone, Copy, PartialEq, Eq)]
pub enum SyncStage {
    /// A page of commits.
    Commits,
    /// A page of pull requests.
    PullRequests,
    /// Nothing: all that was fetched is in the cache.
    Merged,
}

enum Progress {
    Commits(CommitFetch),
    PullRequests(PullRequestFetch),
    Merged,
}

/// An update of a cache.
pub struct CacheSync {
    cache: GitHubCache,
    since: Option<String>,
    progress: Progress,
}

/// How far an update of a cache has come.
pub enum ProgressView {
    /// The commits are being fetched.
    Commits(CommitFetchView),
    /// The commits are in the cache, and the pull requests are being fetched.
    PullRequests(PullRequestFetchView),
    /// The commits and the pull requests are in the cache.
    Merged,
}

/// Where an update of a cache stands.
pub struct SyncView {
    pub cache: CacheView,
    pub since: Option<Seq<char>>,
    pub progress: ProgressView,
}

impl SyncView {
    /// An update that has not got a reply yet: it asks for what is new since the
    /// cache was last updated.
    pub open spec fn start(cache: CacheView, ref_name: Option<Seq<char>>) -> SyncView {
        SyncView {
            cache,
            since: cache.last_updated,
            progress: ProgressView::Commits(CommitFetchView::start(ref_name, cache.last_updated)),
        }
    }

    /// The stage of an update.
    pub open spec fn stage(self) -> SyncStage {
        match self.progress {
            ProgressView::Commits(_) => SyncStage::Commits,
            ProgressView::PullRequests(_) => SyncStage::PullRequests,
            ProgressView::Merged => SyncStage::Merged,
        }
    }

    /// The page that is asked for next.
    pub open spec fn page(self) -> int {
        match self.progress {
            ProgressView::Commits(fetch) => fetch.page,
            ProgressView::PullRequests(fetch) => fetch.page,
            ProgressView::Merged => 0,
        }
    }

    /// The update after a page of commits. Behind the last page the commits are
    /// written to the cache, and the pull requests come next.
    pub open spec fn after_commits(self, page: Seq<CommitView>) -> SyncView {
        let fetch = self.progress->Commits_0.after(page);
        if page.len() == 0 {
            SyncView {
                cache: self.cache.with_commits(fetch.commits),
                progress: ProgressView::PullRequests(PullRequestFetchView::start(self.since)),
                ..self
            }
        } else {
            SyncView { progress: ProgressView::Commits(fetch), ..self }
        }
    }

    /// The update after a page of pull requests. Behind the last page the pull
    /// requests are written to the cache.
    pub open spec fn after_pull_requests(self, page: Seq<PullRequestView>) -> SyncView {
        let fetch = self.progress->PullRequests_0.after(page);
        if self.progress->PullRequests_0.ends_with(page) {
            SyncView {
                cache: self.cache.with_pull_requests(fetch.pull_requests),
                progress: ProgressView::Merged,
                ..self
            }
        } else {
            SyncView { progress: ProgressView::PullRequests(fetch), ..self }
        }
    }
}

impl View for CacheSync {
    type V = SyncView;

    closed spec fn view(&self) -> SyncView {
        SyncView {
            cache: self.cache@,
            since: optional_text(self.since),
            progress: match self.progress {
                Progress::Commits(fetch) => ProgressView::Commits(fetch@),
                Progress::PullRequests(fetch) => ProgressView::PullRequests(fetch@),
                Progress::Merged => ProgressView::Merged,
            },
        }
    }
}

/// A cache that was brought up to date, and all that it stands for.
pub struct SyncedCache {
    /// The cache, to be saved.
    pub cache: GitHubCache,
    /// All commits.
    pub commits: Vec<GitHubCommit>,
    /// All pull requests.
    pub pull_requests: Vec<GitHubPullRequest>,
}

impl SyncedCache {
    /// The commits and the pull requests are those that the cache stands for.
    pub open spec fn lists_cache(self) -> bool {
        &&& lists_values(
            commit_views(self.commits@),
            self.cache@.commits,
            |cached: CachedCommitView| remote_commit(cached),
        )
        &&& lists_values(
            pull_request_views(self.pull_requests@),
            self.cache@.pull_requests,
            |cached: PullRequestView| cached,
        )
    }
}

impl SyncedCache {
    /// A cache with all that it stands for.
    pub fn of(cache: GitHubCache) -> (synced: SyncedCache)
        ensures
            synced.cache == cache,
            synced.lists_cache(),
            lists_values(
                commit_views(synced.commits@),
                cache@.commits,
                |cached: CachedCommitView| remote_commit(cached),
            ),
            lists_values(
                pull_request_views(synced.pull_requests@),
                cache@.pull_requests,
                |cached: PullRequestView| cached,
            ),
    {
        let commits = cache.remote_commits();
        let pull_requests = cache.remote_pull_requests();
        SyncedCache { cache, commits, pull_requests }
    }
}

impl CacheSync {
    /// An update of a cache that starts with the first page of commits.
    pub fn new(cache: GitHubCache, ref_name: Option<String>) -> (sync: CacheSync)
        ensures
            sync@ == SyncView::start(cache@, optional_text(ref_name)),
            sync@.cache == cache@,
            sync@.since == optional_text(cache.last_updated),
            sync@.progress matches ProgressView::Commits(fetch) && fetch.ref_name
                == optional_text(ref_name) && fetch.since == optional_text(cache.last_updated)
                && fetch.page == 0 && fetch.commits.len() == 0,
    {
        let since = cache.last_updated.clone();
        let fetch = CommitFetch::new(ref_name, since.clone());
        CacheSync { cache, since, progress: Progress::Commits(fetch) }
    }

    /// What the update waits for.
    pub fn stage(&self) -> (stage: SyncStage)
        ensures
            stage == self@.stage(),
    {
        match &self.progress {
            Progress::Commits(_) => SyncStage::Commits,
            Progress::PullRequests(_) => SyncStage::PullRequests,
            Progress::Merged => SyncStage::Merged,
        }
    }

    /// The page that is asked for next.
    pub fn page(&self) -> (page: i32)
        ensures
            page == self@.page(),
    {
        match &self.progress {
            Progress::Commits(fetch) => fetch.page(),
            Progress::PullRequests(fetch) => fetch.page(),
            Progress::Merged => 0,
        }
    }

    /// The URL of the page that is asked for next, where one is.
    pub fn url(&self, client: &GitHubClient) -> (url: Option<String>)
        ensures
            optional_text(url) == (match self@.progress {
                ProgressView::Commits(fetch) => Some(
                    commits_url_text(
                        client.api_url@,
                        client.remote,
                        fetch.ref_name,
                        fetch.page,
                        fetch.since,
                    ),
                ),
                ProgressView::PullRequests(fetch) => Some(
                    pull_requests_url_sorted_text(
                        client.api_url@,
                        client.remote,
                        fetch.page,
                        None,
                    ),
                ),
                ProgressView::Merged => None,
            }),
    {
        match &self.progress {
            Progress::Commits(fetch) => Some(fetch.url(client)),
            Progress::PullRequests(fetch) => Some(fetch.url(client)),
            Progress::Merged => None,
        }
    }

    /// Takes the reply to the request for a page of commits.
    pub fn accept_commits<E>(self, reply: Result<Vec<GitHubCommit>, E>) -> (sync: Result<
        CacheSync,
        E,
    >)
        requires
            self@.stage() == SyncStage::Commits,
            reply is Ok && reply->Ok_0@.len() > 0 ==> self@.page() < i32::MAX,
        ensures
            match reply {
                Err(error) => sync == Err::<CacheSync, E>(error),
                Ok(page) => {
                    &&& sync is Ok
                    &&& sync->Ok_0@ == self@.after_commits(commit_views(page@))
                },
            },
    {
        let CacheSync { cache, since, progress } = self;
        let mut cache = cache;
        match progress {
            Progress::Commits(fetch) => {
                let mut fetch = fetch;
                match fetch.accept(reply) {
                    Err(error) => Err(error),
                    Ok(FetchStatus::More) => Ok(
                        CacheSync { cache, since, progress: Progress::Commits(fetch) },
                    ),
                    Ok(FetchStatus::Complete) => {
                        cache.merge_commits(&fetch.into_commits());
                        let fetch = PullRequestFetch::new(since.clone());
                        Ok(CacheSync { cache, since, progress: Progress::PullRequests(fetch) })
                    },
                }
            },
            progress => Ok(CacheSync { cache, since, progress }),
        }
    }

    /// Takes the reply to the request for a page of pull requests.
    pub fn accept_pull_requests<E>(self, reply: Result<Vec<GitHubPullRequest>, E>) -> (sync:
        Result<CacheSync, E>)
        requires
            self@.stage() == SyncStage::PullRequests,
            reply is Ok && !self@.progress->PullRequests_0.ends_with(
                pull_request_views(reply->Ok_0@),
            ) ==> self@.page() < i32::MAX,
        ensures
            match reply {
                Err(error) => sync == Err::<CacheSync, E>(error),
                Ok(page) => {
                    &&& sync is Ok
                    &&& sync->Ok_0@ == self@.after_pull_requests(pull_request_views(page@))
                },
            },
    {
        let CacheSync { cache, since, progress } = self;
        let mut cache = cache;
        match progress {
            Progress::PullRequests(fetch) => {
                let mut fetch = fetch;
                match fetch.accept(reply) {
                    Err(error) => Err(error),
                    Ok(FetchStatus::More) => Ok(
                        CacheSync { cache, since, progress: Progress::PullRequests(fetch) },
                    ),
                    Ok(FetchStatus::Complete) => {
                        cache.merge_pull_requests(&fetch.into_pull_requests());
                        Ok(CacheSync { cache, since, progress: Progress::Merged })
                    },
                }
            },
            progress => Ok(CacheSync { cache, since, progress }),
        }
    }

    /// Takes the reply to the request for a page of pull requests, where the page behind
    /// it, if it is asked for, still has a number; gives `None` where it has none.
    pub fn checked_accept_pull_requests<E>(
        self,
        reply: Result<Vec<GitHubPullRequest>, E>,
    ) -> (sync: Option<Result<CacheSync, E>>)
        requires
            self@.stage() == SyncStage::PullRequests,
        ensures
            match reply {
                Err(error) => sync == Some(Err::<CacheSync, E>(error)),
                Ok(page) => {
                    let last = self@.progress->PullRequests_0.ends_with(
                        pull_request_views(page@),
                    );
                    if !last && self@.page() == i32::MAX {
                        sync is None
                    } else {
                        &&& sync is Some
                        &&& sync->0 is Ok
                        &&& sync->0->Ok_0@ == self@.after_pull_requests(pull_request_views(page@))
                    }
                },
            },
    {
        if let Progress::PullRequests(fetch) = &self.progress {
            if let Ok(page) = &reply {
                if fetch.page() == i32::MAX && !fetch.is_last(page) {
                    return None;
                }
            }
        }
        Some(self.accept_pull_requests(reply))
    }

    /// Records in the cache that it was updated now, and gives all that it stands for.
    pub fn finish(self) -> (synced: SyncedCache)
        requires
            self@.stage() == SyncStage::Merged,
        ensures
            exists|unix_nanos: int| #[trigger]
                is_instant(unix_nanos) && synced.cache@ == self@.cache.with_timestamp(
                    update_text(unix_nanos),
                ),
            exists|unix_nanos: i128| #[trigger]
                is_clock_reading(unix_nanos) && is_instant(unix_nanos as int)
                    && synced.cache@.last_updated == Some(
                    if has_rfc3339_text(unix_nanos as int) {
                        rfc3339_text(unix_nanos as int)
                    } else {
                        Seq::empty()
                    },
                ),
            synced.cache@.commits == self@.cache.commits,
            synced.cache@.pull_requests == self@.cache.pull_requests,
            synced.lists_cache(),
    {
        let mut cache = self.cache;
        cache.update_timestamp();
        SyncedCache::of(cache)
    }

    /// Records in the cache that it was updated at an instant, counted in nanoseconds
    /// from the Unix epoch, and gives all that it stands for.
    pub fn finish_at(self, unix_nanos: i128) -> (synced: SyncedCache)
        requires
            self@.stage() == SyncStage::Merged,
            is_instant(unix_nanos as int),
        ensures
            synced.cache@ == self@.cache.with_timestamp(update_text(unix_nanos as int)),
            synced.cache@.last_updated == Some(
                if has_rfc3339_text(unix_nanos as int) {
                    rfc3339_text(unix_nanos as int)
                } else {
                    Seq::empty()
                },
            ),
            synced.cache@.commits == self@.cache.commits,
            synced.cache@.pull_requests == self@.cache.pull_requests,
            synced.lists_cache(),
    {
        let mut cache = self.cache;
        cache.update_timestamp_at(unix_nanos);
        SyncedCache::of(cache)
    }
}

} // verus!
