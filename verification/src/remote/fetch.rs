//! Fetching page after page: what is asked for next, what is kept of a reply, and
//! when there is nothing more to ask for.

use crate::remote::clock::{is_time_before, rfc3339_nanos, time_before, unix_nanos};
use crate::remote::github::{
    commit_views, commits_url_text, pull_request_views, pull_requests_url_sorted_text,
    pull_requests_url_text, CommitView, GitHubClient, GitHubCommit, GitHubPullRequest,
    PullRequestView,
};
use crate::remote::text::{as_optional_str, optional_text};
use vstd::prelude::*;

verus! {

/// Whether a fetch asks for another page.
#[derive(Debug, Clone, Copy, PartialEq, Eq)]
pub enum FetchStatus {
    /// There may be more pages.
    More,
    /// All that was to be fetched has been fetched.
    Complete,
}

/// A fetch of the commits since a timestamp, or of all commits.
pub struct CommitFetch {
    ref_name: Option<String>,
    since: Option<String>,
    page: i32,
    commits: Vec<GitHubCommit>,
}

/// Where a fetch of commits stands: what it is for, the page that it asks for next,
/// and what it has got so far.
#[verifier::ext_equal]
pub struct CommitFetchView {
    pub ref_name: Option<Seq<char>>,
    pub since: Option<Seq<char>>,
    pub page: int,
    pub commits: Seq<CommitView>,
}

impl CommitFetchView {
    /// A fetch that has not got a reply yet.
    pub open spec fn start(ref_name: Option<Seq<char>>, since: Option<Seq<char>>) -> CommitFetchView {
        CommitFetchView { ref_name, since, page: 0, commits: Seq::empty() }
    }

    /// The fetch after a page: an empty page ends it, any other is kept.
    pub open spec fn after(self, page: Seq<CommitView>) -> CommitFetchView {
        if page.len() == 0 {
            self
        } else {
            CommitFetchView { page: self.page + 1, commits: self.commits + page, ..self }
        }
    }
}

impl View for CommitFetch {
    type V = CommitFetchView;

    closed spec fn view(&self) -> CommitFetchView {
        CommitFetchView {
            ref_name: optional_text(self.ref_name),
            since: optional_text(self.since),
            page: self.page as int,
            commits: commit_views(self.commits@),
        }
    }
}

impl CommitFetch {
    /// A fetch that starts with the first page.
    pub fn new(ref_name: Option<String>, since: Option<String>) -> (fetch: CommitFetch)
        ensures
            fetch@ == CommitFetchView::start(optional_text(ref_name), optional_text(since)),
            fetch@.ref_name == optional_text(ref_name),
            fetch@.since == optional_text(since),
            fetch@.page == 0,
            fetch@.commits.len() == 0,
    {
        let fetch = CommitFetch { ref_name, since, page: 0, commits: Vec::new() };
        assert(fetch@.commits =~= Seq::<CommitView>::empty());
        fetch
    }

    /// The page that is asked for next.
    pub fn page(&self) -> (page: i32)
        ensures
            page == self@.page,
    {
        self.page
    }

    /// The URL of the page that is asked for next.
    pub fn url(&self, client: &GitHubClient) -> (url: String)
        ensures
            url@ == commits_url_text(
                client.api_url@,
                client.remote,
                self@.ref_name,
                self@.page,
                self@.since,
            ),
    {
        GitHubClient::commits_url_since(
            client.api_url.as_str(),
            &client.remote,
            as_optional_str(&self.ref_name),
            self.page,
            as_optional_str(&self.since),
        )
    }

    /// Takes the reply to the request for the next page.
    pub fn accept<E>(&mut self, reply: Result<Vec<GitHubCommit>, E>) -> (status: Result<
        FetchStatus,
        E,
    >)
        requires
            reply is Ok && reply->Ok_0@.len() > 0 ==> old(self)@.page < i32::MAX,
        ensures
            match reply {
                Err(error) => status == Err::<FetchStatus, E>(error) && final(self)@ == old(self)@,
                Ok(commits) => {
                    &&& status == Ok::<FetchStatus, E>(
                        if commits@.len() == 0 {
                            FetchStatus::Complete
                        } else {
                            FetchStatus::More
                        },
                    )
                    &&& final(self)@ == old(self)@.after(commit_views(commits@))
                },
            },
    {
        let mut commits = reply?;
        if commits.is_empty() {
            return Ok(FetchStatus::Complete);
        }
        let ghost page = commit_views(commits@);
        self.commits.append(&mut commits);
        self.page = self.page + 1;
        assert(self@ =~= old(self)@.after(page));
        Ok(FetchStatus::More)
    }

    /// All that was fetched.
    pub fn into_commits(self) -> (commits: Vec<GitHubCommit>)
        ensures
            commit_views(commits@) == self@.commits,
            commits@.len() == self@.commits.len(),
            forall|i: int|
                0 <= i < commits@.len() ==> (#[trigger] commits@[i])@ == self@.commits[i],
    {
        self.commits
    }
}

/// Whether a pull request was last updated before `since`, as far as it says so.
pub open spec fn is_outdated(pull_request: PullRequestView, since: Option<Seq<char>>) -> bool {
    match (pull_request.updated_at, since) {
        (Some(updated_at), Some(since)) => time_before(
            updated_at,
            since,
            rfc3339_nanos(updated_at),
            rfc3339_nanos(since),
        ),
        _ => false,
    }
}

/// How many pull requests stand before the first outdated one.
pub open spec fn fresh_count(
    pull_requests: Seq<PullRequestView>,
    since: Option<Seq<char>>,
) -> nat
    decreases pull_requests.len(),
{
    if pull_requests.len() == 0 || is_outdated(pull_requests[0], since) {
        0
    } else {
        1 + fresh_count(pull_requests.drop_first(), since)
    }
}

/// The number of pull requests before the first outdated one is the one position
/// before which none is outdated and at which one is, or which is the end.
pub proof fn lemma_fresh_count(
    pull_requests: Seq<PullRequestView>,
    since: Option<Seq<char>>,
    count: int,
)
    requires
        0 <= count <= pull_requests.len(),
        forall|i: int| 0 <= i < count ==> !is_outdated(#[trigger] pull_requests[i], since),
        count < pull_requests.len() ==> is_outdated(pull_requests[count], since),
    ensures
        fresh_count(pull_requests, since) == count,
    decreases pull_requests.len(),
{
    if count > 0 {
        assert(!is_outdated(pull_requests[0], since));
        lemma_fresh_count(pull_requests.drop_first(), since, count - 1);
    }
}

/// No pull request before the first outdated one is outdated, and the one at that
/// position is.
pub proof fn lemma_fresh_prefix(pull_requests: Seq<PullRequestView>, since: Option<Seq<char>>)
    ensures
        fresh_count(pull_requests, since) <= pull_requests.len(),
        forall|i: int|
            0 <= i < fresh_count(pull_requests, since) ==> !is_outdated(
                #[trigger] pull_requests[i],
                since,
            ),
        fresh_count(pull_requests, since) < pull_requests.len() ==> is_outdated(
            pull_requests[fresh_count(pull_requests, since) as int],
            since,
        ),
    decreases pull_requests.len(),
{
    if pull_requests.len() > 0 && !is_outdated(pull_requests[0], since) {
        let rest = pull_requests.drop_first();
        lemma_fresh_prefix(rest, since);
        assert forall|i: int| 0 <= i < fresh_count(pull_requests, since) implies !is_outdated(
            #[trigger] pull_requests[i],
            since,
        ) by {
            if i > 0 {
                assert(rest[i - 1] == pull_requests[i]);
            }
        }
    }
}

/// A fetch of the pull requests updated since a timestamp, or of all pull requests.
pub struct PullRequestFetch {
    since: Option<String>,
    page: i32,
    pull_requests: Vec<GitHubPullRequest>,
}

/// Where a fetch of pull requests stands.
#[verifier::ext_equal]
pub struct PullRequestFetchView {
    pub since: Option<Seq<char>>,
    pub page: int,
    pub pull_requests: Seq<PullRequestView>,
}

impl PullRequestFetchView {
    /// A fetch that has not got a reply yet.
    pub open spec fn start(since: Option<Seq<char>>) -> PullRequestFetchView {
        PullRequestFetchView { since, page: 0, pull_requests: Seq::empty() }
    }

    /// Whether a page is the last one that is asked for: it is empty, or some pull
    /// request on it is outdated.
    pub open spec fn ends_with(self, page: Seq<PullRequestView>) -> bool {
        page.len() == 0 || fresh_count(page, self.since) < page.len()
    }

    /// The fetch after a page, of which the pull requests before the first outdated
    /// one are kept.
    pub open spec fn after(self, page: Seq<PullRequestView>) -> PullRequestFetchView {
        PullRequestFetchView {
            page: if self.ends_with(page) {
                self.page
            } else {
                self.page + 1
            },
            pull_requests: self.pull_requests + page.take(fresh_count(page, self.since) as int),
            ..self
        }
    }
}

impl View for PullRequestFetch {
    type V = PullRequestFetchView;

    closed spec fn view(&self) -> PullRequestFetchView {
        PullRequestFetchView {
            since: optional_text(self.since),
            page: self.page as int,
            pull_requests: pull_request_views(self.pull_requests@),
        }
    }
}

/// How many pull requests stand before the first outdated one.
fn count_fresh(pull_requests: &Vec<GitHubPullRequest>, since: &Option<String>) -> (count: usize)
    ensures
        count == fresh_count(pull_request_views(pull_requests@), optional_text(*since)),
{
    let ghost views = pull_request_views(pull_requests@);
    let ghost bound = optional_text(*since);
    let since_nanos: Option<i128> = match since {
        Some(since) => unix_nanos(since.as_str()),
        None => None,
    };
    for i in 0..pull_requests.len()
        invariant
            views == pull_request_views(pull_requests@),
            bound == optional_text(*since),
            bound is Some ==> since_nanos == rfc3339_nanos(bound->0),
            forall|j: int| 0 <= j < i ==> !is_outdated(#[trigger] views[j], bound),
    {
        if let Some(since) = since {
            if let Some(updated_at) = &pull_requests[i].updated_at {
                let nanos: Option<i128> = unix_nanos(updated_at.as_str());
                if is_time_before(
                    updated_at.as_str(),
                    since.as_str(),
                    nanos,
                    since_nanos,
                ) {
                    proof {
                        lemma_fresh_count(views, bound, i as int);
                    }
                    return i;
                }
            }
        }
    }
    proof {
        lemma_fresh_count(views, bound, views.len() as int);
    }
    pull_requests.len()
}

impl PullRequestFetch {
    /// A fetch that starts with the first page.
    pub fn new(since: Option<String>) -> (fetch: PullRequestFetch)
        ensures
            fetch@ == PullRequestFetchView::start(optional_text(since)),
            fetch@.since == optional_text(since),
            fetch@.page == 0,
            fetch@.pull_requests.len() == 0,
    {
        let fetch = PullRequestFetch { since, page: 0, pull_requests: Vec::new() };
        assert(fetch@.pull_requests =~= Seq::<PullRequestView>::empty());
        fetch
    }

    /// The page that is asked for next.
    pub fn page(&self) -> (page: i32)
        ensures
            page == self@.page,
    {
        self.page
    }

    /// The URL of the page that is asked for next. The pull requests come sorted by
    /// their last update; the API takes no timestamp for them.
    pub fn url(&self, client: &GitHubClient) -> (url: String)
        ensures
            url@ == pull_requests_url_sorted_text(
                client.api_url@,
                client.remote,
                self@.page,
                None,
            ),
    {
        GitHubClient::pull_requests_url_sorted(
            client.api_url.as_str(),
            &client.remote,
            self.page,
            None,
        )
    }

    /// Whether a page is the last one that is asked for.
    pub fn is_last(&self, page: &Vec<GitHubPullRequest>) -> (last: bool)
        ensures
            last == self@.ends_with(pull_request_views(page@)),
    {
        page.is_empty() || count_fresh(page, &self.since) < page.len()
    }

    /// Takes the reply to the request for the next page.
    pub fn accept<E>(&mut self, reply: Result<Vec<GitHubPullRequest>, E>) -> (status: Result<
        FetchStatus,
        E,
    >)
        requires
            reply is Ok && !old(self)@.ends_with(pull_request_views(reply->Ok_0@))
                ==> old(self)@.page < i32::MAX,
        ensures
            match reply {
                Err(error) => status == Err::<FetchStatus, E>(error) && final(self)@ == old(self)@,
                Ok(pull_requests) => {
                    &&& status == Ok::<FetchStatus, E>(
                        if old(self)@.ends_with(pull_request_views(pull_requests@)) {
                            FetchStatus::Complete
                        } else {
                            FetchStatus::More
                        },
                    )
                    &&& final(self)@ == old(self)@.after(pull_request_views(pull_requests@))
                },
            },
    {
        let mut pull_requests = reply?;
        let ghost page = pull_request_views(pull_requests@);
        proof {
            lemma_fresh_prefix(page, self@.since);
        }
        if pull_requests.is_empty() {
            assert(self@ =~= old(self)@.after(page));
            return Ok(FetchStatus::Complete);
        }
        let count: usize = count_fresh(&pull_requests, &self.since);
        let found_outdated = count < pull_requests.len();
        pull_requests.truncate(count);
        self.pull_requests.append(&mut pull_requests);
        if found_outdated {
            assert(self@ =~= old(self)@.after(page));
            return Ok(FetchStatus::Complete);
        }
        self.page = self.page + 1;
        assert(self@ =~= old(self)@.after(page));
        Ok(FetchStatus::More)
    }

    /// All that was fetched.
    pub fn into_pull_requests(self) -> (pull_requests: Vec<GitHubPullRequest>)
        ensures
            pull_request_views(pull_requests@) == self@.pull_requests,
            pull_requests@.len() == self@.pull_requests.len(),
            forall|i: int|
                0 <= i < pull_requests@.len() ==> (#[trigger] pull_requests@[i])@
                    == self@.pull_requests[i],
    {
        self.pull_requests
    }
}

/// What a stream of pages lists.
#[derive(Debug)]
pub enum Listing {
    /// The commits of a branch, a tag or another reference, or of the default branch.
    Commits(Option<String>),
    /// The closed pull requests.
    PullRequests,
}

/// A stream of the entries of all pages, which ends with an empty page or with an error.
#[derive(Debug)]
pub struct PageStream {
    /// What is listed.
    pub listing: Listing,
    /// Whether the stream has ended.
    pub finished: bool,
}

/// The results that a page gives a stream.
pub open spec fn page_results<T, E>(page: Seq<T>) -> Seq<Result<T, E>> {
    page.map_values(|item: T| Ok::<T, E>(item))
}

/// Whether a stream has ended after a page.
pub open spec fn finished_after<T, E>(finished: bool, page: Result<Seq<T>, E>) -> bool {
    finished || match page {
        Ok(page) => page.len() == 0,
        Err(_) => true,
    }
}

/// What a stream yields because of a page.
pub open spec fn results_of<T, E>(finished: bool, page: Result<Seq<T>, E>) -> Seq<Result<T, E>> {
    if finished {
        Seq::empty()
    } else {
        match page {
            Ok(page) => page_results::<T, E>(page),
            Err(error) => seq![Err(error)],
        }
    }
}

/// A page as a sequence.
pub open spec fn page_view<T, E>(page: Result<Vec<T>, E>) -> Result<Seq<T>, E> {
    match page {
        Ok(page) => Ok(page@),
        Err(error) => Err(error),
    }
}

impl PageStream {
    /// A stream that has not got a page yet.
    pub fn new(listing: Listing) -> (stream: PageStream)
        ensures
            stream == (PageStream { listing, finished: false }),
    {
        PageStream { listing, finished: false }
    }

    /// The URL of a page.
    pub fn url(&self, client: &GitHubClient, page: i32) -> (url: String)
        ensures
            url@ == (match self.listing {
                Listing::Commits(ref_name) => commits_url_text(
                    client.api_url@,
                    client.remote,
                    optional_text(ref_name),
                    page as int,
                    None,
                ),
                Listing::PullRequests => pull_requests_url_text(
                    client.api_url@,
                    client.remote,
                    page as int,
                ),
            }),
    {
        match &self.listing {
            Listing::Commits(ref_name) => GitHubClient::commits_url(
                client.api_url.as_str(),
                &client.remote,
                as_optional_str(ref_name),
                page,
            ),
            Listing::PullRequests => GitHubClient::pull_requests_url(
                client.api_url.as_str(),
                &client.remote,
                page,
            ),
        }
    }

    /// Takes the next page, and gives what the stream yields because of it.
    pub fn accept<T, E>(&mut self, page: Result<Vec<T>, E>) -> (results: Vec<Result<T, E>>)
        ensures
            results@ == results_of(old(self).finished, page_view(page)),
            final(self).finished == finished_after(old(self).finished, page_view(page)),
            final(self).listing == old(self).listing,
    {
        let mut results: Vec<Result<T, E>> = Vec::new();
        if self.finished {
            return results;
        }
        match page {
            Ok(items) => {
                if items.is_empty() {
                    self.finished = true;
                }
                let ghost all = items@;
                for item in rest: items
                    invariant
                        rest.seq() == all,
                        results@ == page_results::<T, E>(all.take(rest.index() as int)),
                        rest.index() == rest.seq().len() ==> results@ == page_results::<T, E>(all),
                {
                    results.push(Ok(item));
                    assert(all.take(rest.index() + 1) =~= all.take(rest.index() as int).push(item));
                }
            },
            Err(error) => {
                self.finished = true;
                results.push(Err(error));
            },
        }
        results
    }
}

} // verus!
