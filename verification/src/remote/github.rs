//! GitHub's commits and pull requests, and the URLs of the REST API that lists them.

use crate::remote::clock::{parse_rfc3339, rfc3339_seconds};
use crate::remote::text::{
    decimal, integer_text, optional_str, optional_text, percent_encoded, push_decimal,
    push_integer, text_list, url_encode,
};
use vstd::prelude::*;
use vstd::utf8::encode_utf8;

verus! {

/// Log message to show while fetching data from GitHub.
pub const START_FETCHING_MSG: &'static str = "Retrieving data from GitHub...";

/// Log message to show when done fetching from GitHub.
pub const FINISHED_FETCHING_MSG: &'static str = "Done fetching GitHub data.";

/// Template variables related to this remote.
pub const TEMPLATE_VARIABLES: [&'static str; 3] = ["github", "commit.github", "commit.remote"];

/// URL of the public API.
pub const API_URL: &'static str = "https://api.github.com";

/// Name of the environment variable that gives the URL of another API.
pub const API_URL_ENV: &'static str = "GITHUB_API_URL";

/// How many entries one page of an API reply holds at most.
pub const MAX_PAGE_SIZE: usize = 100;

/// Representation of a single commit.
#[derive(Default, Debug, Clone, PartialEq)]
pub struct GitHubCommit {
    /// SHA.
    pub sha: String,
    /// Author of the commit.
    pub author: Option<GitHubCommitAuthor>,
    /// Details of the commit
    pub commit: Option<GitHubCommitDetails>,
}

/// Representation of subset of commit details
#[derive(Default, Debug, Clone, PartialEq)]
pub struct GitHubCommitDetails {
    /// Author of the commit
    pub author: GitHubCommitDetailsAuthor,
}

/// Representation of subset of commit author details
#[derive(Default, Debug, Clone, PartialEq)]
pub struct GitHubCommitDetailsAuthor {
    /// Date of the commit
    pub date: String,
}

/// Author of the commit.
#[derive(Default, Debug, Clone, PartialEq)]
pub struct GitHubCommitAuthor {
    /// Username.
    pub login: Option<String>,
}

/// What a commit says: its SHA, its author where it names one (with the login
/// where the author has one), and its date where it has details.
pub struct CommitView {
    pub sha: Seq<char>,
    pub author: Option<Option<Seq<char>>>,
    pub date: Option<Seq<char>>,
}

impl CommitView {
    /// The login of the author, where there is an author with a login.
    pub open spec fn username(self) -> Option<Seq<char>> {
        match self.author {
            Some(login) => login,
            None => None,
        }
    }
}

impl View for GitHubCommit {
    type V = CommitView;

    open spec fn view(&self) -> CommitView {
        CommitView {
            sha: self.sha@,
            author: match self.author {
                Some(author) => Some(optional_text(author.login)),
                None => None,
            },
            date: match self.commit {
                Some(details) => Some(details.author.date@),
                None => None,
            },
        }
    }
}

/// A commit date that is no RFC 3339 date and time.
#[derive(Debug, Clone, Copy, PartialEq, Eq)]
pub struct InvalidDate;

impl GitHubCommit {
    /// Commit SHA.
    pub fn id(&self) -> (id: String)
        ensures
            id@ == self@.sha,
            id@ == self.sha@,
    {
        self.sha.clone()
    }

    /// Commit author.
    pub fn username(&self) -> (username: Option<String>)
        ensures
            optional_text(username) == self@.username(),
            username == (match self.author {
                Some(author) => author.login,
                None => None,
            }),
    {
        match &self.author {
            Some(author) => author.login.clone(),
            None => None,
        }
    }

    /// The Unix timestamp of an RFC 3339 date.
    pub fn convert_to_unix_timestamp(&self, date: &str) -> (seconds: i64)
        requires
            rfc3339_seconds(date@) is Some,
        ensures
            Some(seconds) == rfc3339_seconds(date@),
    {
        parse_rfc3339(date).unwrap()
    }

    /// Timestamp: the date of the commit as a Unix timestamp, where it has one.
    pub fn timestamp(&self) -> (timestamp: Option<i64>)
        requires
            self@.date is Some ==> rfc3339_seconds(self@.date->0) is Some,
        ensures
            timestamp == (match self@.date {
                Some(date) => rfc3339_seconds(date),
                None => None,
            }),
    {
        match &self.commit {
            Some(details) => Some(self.convert_to_unix_timestamp(details.author.date.as_str())),
            None => None,
        }
    }

    /// The timestamp, or an error where the commit has a date that cannot be read.
    pub fn checked_timestamp(&self) -> (timestamp: Result<Option<i64>, InvalidDate>)
        ensures
            timestamp == (match self@.date {
                None => Ok::<Option<i64>, InvalidDate>(None),
                Some(date) => match rfc3339_seconds(date) {
                    Some(seconds) => Ok(Some(seconds)),
                    None => Err(InvalidDate),
                },
            }),
    {
        if let Some(details) = &self.commit {
            if parse_rfc3339(details.author.date.as_str()).is_err() {
                return Err(InvalidDate);
            }
        }
        Ok(self.timestamp())
    }
}

/// Label of the pull request.
#[derive(Default, Debug, Clone, PartialEq)]
pub struct PullRequestLabel {
    /// Name of the label.
    pub name: String,
}

/// Representation of a single pull request.
#[derive(Default, Debug, Clone, PartialEq)]
pub struct GitHubPullRequest {
    /// Pull request number.
    pub number: i64,
    /// Pull request title.
    pub title: Option<String>,
    /// SHA of the merge commit.
    pub merge_commit_sha: Option<String>,
    /// Labels of the pull request.
    pub labels: Vec<PullRequestLabel>,
    /// Last updated timestamp (RFC3339 format).
    pub updated_at: Option<String>,
}

/// What a pull request says.
#[verifier::ext_equal]
pub struct PullRequestView {
    pub number: i64,
    pub title: Option<Seq<char>>,
    pub merge_commit_sha: Option<Seq<char>>,
    pub labels: Seq<Seq<char>>,
    pub updated_at: Option<Seq<char>>,
}

impl View for GitHubPullRequest {
    type V = PullRequestView;

    open spec fn view(&self) -> PullRequestView {
        PullRequestView {
            number: self.number,
            title: optional_text(self.title),
            merge_commit_sha: optional_text(self.merge_commit_sha),
            labels: Seq::new(self.labels@.len(), |i: int| self.labels@[i].name@),
            updated_at: optional_text(self.updated_at),
        }
    }
}

impl GitHubPullRequest {
    /// Number.
    pub fn number(&self) -> (number: i64)
        ensures
            number == self@.number,
            number == self.number,
    {
        self.number
    }

    /// Title.
    pub fn title(&self) -> (title: Option<String>)
        ensures
            optional_text(title) == self@.title,
            title == self.title,
    {
        self.title.clone()
    }

    /// Labels of the pull request.
    pub fn labels(&self) -> (labels: Vec<String>)
        ensures
            text_list(labels@) == self@.labels,
            labels@.len() == self.labels@.len(),
            forall|i: int|
                0 <= i < labels@.len() ==> (#[trigger] labels@[i])@ == self.labels@[i].name@,
    {
        let mut labels: Vec<String> = Vec::new();
        for i in 0..self.labels.len()
            invariant
                labels@.len() == i,
                forall|j: int| 0 <= j < i ==> #[trigger] labels@[j]@ == self.labels@[j].name@,
        {
            labels.push(self.labels[i].name.clone());
        }
        labels
    }

    /// Merge commit SHA.
    pub fn merge_commit(&self) -> (sha: Option<String>)
        ensures
            optional_text(sha) == self@.merge_commit_sha,
            sha == self.merge_commit_sha,
    {
        self.merge_commit_sha.clone()
    }
}

/// What commits say.
pub open spec fn commit_views(commits: Seq<GitHubCommit>) -> Seq<CommitView> {
    Seq::new(commits.len(), |i: int| commits[i]@)
}

/// What pull requests say.
pub open spec fn pull_request_views(pull_requests: Seq<GitHubPullRequest>) -> Seq<PullRequestView> {
    Seq::new(pull_requests.len(), |i: int| pull_requests[i]@)
}

/// A repository on GitHub.
#[derive(Debug, Clone, PartialEq, Eq)]
pub struct Remote {
    /// Owner of the repository.
    pub owner: String,
    /// Name of the repository.
    pub repo: String,
}

/// The part of a listing's URL that says which page of which repository's entries is asked for.
pub open spec fn page_url_text(
    api_url: Seq<char>,
    remote: Remote,
    listing: Seq<char>,
    page: int,
) -> Seq<char> {
    api_url + "/repos/"@ + remote.owner@ + "/"@ + remote.repo@ + "/"@ + listing + "?per_page="@
        + decimal(MAX_PAGE_SIZE as nat) + "&page="@ + integer_text(page)
}

/// A query parameter where it has a value, and nothing where it has none.
pub open spec fn parameter_text(name: Seq<char>, value: Option<Seq<char>>) -> Seq<char> {
    match value {
        Some(value) => "&"@ + name + "="@ + value,
        None => Seq::empty(),
    }
}

/// An optional text, percent-encoded.
pub open spec fn encoded_text(text: Option<Seq<char>>) -> Option<Seq<char>> {
    match text {
        Some(text) => Some(percent_encoded(encode_utf8(text))),
        None => None,
    }
}

/// The URL of a page of commits.
pub open spec fn commits_url_text(
    api_url: Seq<char>,
    remote: Remote,
    ref_name: Option<Seq<char>>,
    page: int,
    since: Option<Seq<char>>,
) -> Seq<char> {
    page_url_text(api_url, remote, "commits"@, page) + parameter_text("sha"@, ref_name)
        + parameter_text("since"@, encoded_text(since))
}

/// The URL of a page of closed pull requests.
pub open spec fn pull_requests_url_text(api_url: Seq<char>, remote: Remote, page: int) -> Seq<char> {
    page_url_text(api_url, remote, "pulls"@, page) + "&state=closed"@
}

/// The URL of a page of closed pull requests, the last updated first.
pub open spec fn pull_requests_url_sorted_text(
    api_url: Seq<char>,
    remote: Remote,
    page: int,
    since: Option<Seq<char>>,
) -> Seq<char> {
    pull_requests_url_text(api_url, remote, page) + "&sort=updated&direction=desc"@
        + parameter_text("since"@, encoded_text(since))
}

fn page_url(api_url: &str, remote: &Remote, listing: &str, page: i32) -> (url: String)
    ensures
        url@ == page_url_text(api_url@, *remote, listing@, page as int),
{
    let mut url: String = api_url.to_string();
    url.append("/repos/");
    url.append(remote.owner.as_str());
    url.append("/");
    url.append(remote.repo.as_str());
    url.append("/");
    url.append(listing);
    url.append("?per_page=");
    push_decimal(&mut url, MAX_PAGE_SIZE as u64);
    url.append("&page=");
    push_integer(&mut url, page);
    url
}

fn push_parameter(url: &mut String, name: &str, value: Option<&str>)
    ensures
        final(url)@ == old(url)@ + parameter_text(name@, optional_str(value)),
{
    match value {
        Some(value) => {
            url.append("&");
            url.append(name);
            url.append("=");
            url.append(value);
            assert(url@ =~= old(url)@ + ("&"@ + name@ + "="@ + value@));
        },
        None => {
            assert(url@ =~= old(url)@ + Seq::<char>::empty());
        },
    }
}

fn push_since(url: &mut String, since: Option<&str>)
    ensures
        final(url)@ == old(url)@ + parameter_text("since"@, encoded_text(optional_str(since))),
{
    match since {
        Some(since) => {
            let encoded = url_encode(since);
            push_parameter(url, "since", Some(encoded.as_str()));
        },
        None => push_parameter(url, "since", None),
    }
}

/// What is asked of GitHub's REST API for one repository.
#[derive(Debug, Clone, PartialEq, Eq)]
pub struct GitHubClient {
    /// Base URL of the API.
    pub api_url: String,
    /// Remote.
    pub remote: Remote,
}

impl GitHubClient {
    /// A client for a repository. `api_url` takes the place of the public API where it
    /// is given.
    pub fn new(remote: Remote, api_url: Option<String>) -> (client: GitHubClient)
        ensures
            client.remote == remote,
            client.api_url@ == (match api_url {
                Some(api_url) => api_url@,
                None => API_URL@,
            }),
            api_url is None ==> client.api_url@ == "https://api.github.com"@,
    {
        let api_url = match api_url {
            Some(api_url) => api_url,
            None => API_URL.to_string(),
        };
        GitHubClient { api_url, remote }
    }

    /// The repository that the client is for.
    pub fn remote(&self) -> (remote: Remote)
        ensures
            remote == self.remote,
    {
        Remote { owner: self.remote.owner.clone(), repo: self.remote.repo.clone() }
    }

    /// Constructs the URL for GitHub commits API.
    pub fn commits_url(api_url: &str, remote: &Remote, ref_name: Option<&str>, page: i32) -> (url:
        String)
        ensures
            url@ == commits_url_text(api_url@, *remote, optional_str(ref_name), page as int, None),
    {
        let mut url: String = page_url(api_url, remote, "commits", page);
        push_parameter(&mut url, "sha", ref_name);
        assert(url@ + parameter_text("since"@, None) =~= url@);
        url
    }

    /// Constructs the URL for GitHub pull requests API.
    pub fn pull_requests_url(api_url: &str, remote: &Remote, page: i32) -> (url: String)
        ensures
            url@ == pull_requests_url_text(api_url@, *remote, page as int),
    {
        let mut url: String = page_url(api_url, remote, "pulls", page);
        url.append("&state=closed");
        url
    }

    /// Constructs the URL for GitHub pull requests API with sorting by updated_at.
    /// This is used for incremental fetching.
    pub fn pull_requests_url_sorted(
        api_url: &str,
        remote: &Remote,
        page: i32,
        since: Option<&str>,
    ) -> (url: String)
        ensures
            url@ == pull_requests_url_sorted_text(
                api_url@,
                *remote,
                page as int,
                optional_str(since),
            ),
    {
        let mut url: String = Self::pull_requests_url(api_url, remote, page);
        url.append("&sort=updated&direction=desc");
        push_since(&mut url, since);
        url
    }

    /// Constructs the URL for GitHub commits API with since parameter.
    pub fn commits_url_since(
        api_url: &str,
        remote: &Remote,
        ref_name: Option<&str>,
        page: i32,
        since: Option<&str>,
    ) -> (url: String)
        ensures
            url@ == commits_url_text(
                api_url@,
                *remote,
                optional_str(ref_name),
                page as int,
                optional_str(since),
            ),
    {
        let mut url: String = page_url(api_url, remote, "commits", page);
        push_parameter(&mut url, "sha", ref_name);
        push_since(&mut url, since);
        url
    }
}

} // verus!
