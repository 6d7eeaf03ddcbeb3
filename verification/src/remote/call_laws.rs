//! What holds of calls and their results: of the URLs that are asked for, of what is
//! taken of a reply, and of what goes into a cache and comes out of it.

use crate::remote::cache::{
    law_record_round_trip, remote_commit, CacheFile, CacheRecord, CachedCommit,
    CachedCommitView, CachedPullRequest, GitHubCache,
};
use crate::remote::cache_laws::{
    law_commits_are_written_one_by_one, law_pull_requests_are_written_one_by_one,
    law_synced_cache_is_listed,
};
use crate::remote::clock::{
    has_rfc3339_text, is_clock_reading, is_time_before, rfc3339_seconds, rfc3339_text,
};
use crate::remote::fetch::{
    is_outdated, CommitFetch, FetchStatus, Listing, PageStream, PullRequestFetch,
};
use crate::remote::github::{
    commit_views, commits_url_text, pull_request_views, GitHubClient, GitHubCommit, GitHubPullRequest, InvalidDate,
    PullRequestView, Remote,
};
use crate::remote::laws::{
    law_cache_holds_old_and_new, law_last_commit_wins, law_last_pull_request_wins,
    law_listed_counts, law_merging_commits_keeps_the_rest,
    law_merging_pull_requests_keeps_the_rest,
};
use crate::remote::listing::lists_values;
use crate::remote::paths::{components, owned_components};
use crate::remote::save::{SaveEvent, SaveStep};
use crate::remote::step_laws::{
    law_last_page_is_empty_or_has_an_outdated_one, law_pull_request_fetch_takes_a_page,
    law_update_takes_a_page_of_pull_requests,
};
use crate::remote::sync::{CacheSync, ProgressView, SyncStage, SyncedCache};
use crate::remote::text::{integer_text, is_before, percent_encoded, text_before};
use crate::remote::url_laws::{
    law_url_of_a_page_of_commits, law_url_of_a_page_of_pull_requests, law_url_with_a_reference,
    law_url_with_a_timestamp,
};
use std::path::{Path, PathBuf};
use vstd::prelude::*;
use vstd::utf8::encode_utf8;

verus! {

/// A client asks the API that it is given, or else the public one, for its repository.
pub proof fn law_client_asks_its_api(
    remote: Remote,
    api_url: Option<String>,
    client: GitHubClient,
)
    requires
        call_ensures(GitHubClient::new, (remote, api_url), client),
    ensures
        client.remote == remote,
        api_url is Some ==> client.api_url@ == api_url->0@,
        api_url is None ==> client.api_url@ == "https://api.github.com"@,
{
}

/// The URL of a page of commits, character by character: with the reference behind
/// `&sha=`, where there is one.
pub proof fn law_commits_url_says_what_is_asked(
    api_url: &str,
    remote: &Remote,
    ref_name: Option<&str>,
    page: i32,
    url: String,
)
    requires
        call_ensures(GitHubClient::commits_url, (api_url, remote, ref_name, page), url),
    ensures
        url@ == api_url@ + "/repos/"@ + remote.owner@ + "/"@ + remote.repo@
            + "/commits?per_page=100&page="@ + integer_text(page as int) + (match ref_name {
            Some(ref_name) => "&sha="@ + ref_name@,
            None => Seq::empty(),
        }),
{
    law_url_of_a_page_of_commits(api_url@, *remote, page as int);
    let bare = api_url@ + "/repos/"@ + remote.owner@ + "/"@ + remote.repo@
        + "/commits?per_page=100&page="@ + integer_text(page as int);
    match ref_name {
        Some(ref_name) => {
            law_url_with_a_reference(api_url@, *remote, ref_name@, page as int);
            assert(url@ =~= bare + ("&sha="@ + ref_name@));
        },
        None => {
            assert(url@ =~= bare + Seq::<char>::empty());
        },
    }
}

/// The URL of a page of commits, character by character: with the reference behind
/// `&sha=` and the percent-encoded timestamp behind `&since=`, where there are any.
pub proof fn law_commits_url_since_says_what_is_asked(
    api_url: &str,
    remote: &Remote,
    ref_name: Option<&str>,
    page: i32,
    since: Option<&str>,
    url: String,
)
    requires
        call_ensures(
            GitHubClient::commits_url_since,
            (api_url, remote, ref_name, page, since),
            url,
        ),
    ensures
        url@ == api_url@ + "/repos/"@ + remote.owner@ + "/"@ + remote.repo@
            + "/commits?per_page=100&page="@ + integer_text(page as int) + (match ref_name {
            Some(ref_name) => "&sha="@ + ref_name@,
            None => Seq::empty(),
        }) + (match since {
            Some(since) => "&since="@ + percent_encoded(encode_utf8(since@)),
            None => Seq::empty(),
        }),
{
    law_url_of_a_page_of_commits(api_url@, *remote, page as int);
    let bare = api_url@ + "/repos/"@ + remote.owner@ + "/"@ + remote.repo@
        + "/commits?per_page=100&page="@ + integer_text(page as int);
    let none = Seq::<char>::empty();
    let reference = match ref_name {
        Some(ref_name) => "&sha="@ + ref_name@,
        None => none,
    };
    let name = match ref_name {
        Some(ref_name) => Some(ref_name@),
        None => None,
    };
    let timestamp = match since {
        Some(since) => "&since="@ + percent_encoded(encode_utf8(since@)),
        None => none,
    };
    if let Some(ref_name) = ref_name {
        law_url_with_a_reference(api_url@, *remote, ref_name@, page as int);
    }
    if let Some(since) = since {
        law_url_with_a_timestamp(api_url@, *remote, name, page as int, since@);
    }
    assert(url@ =~= bare + reference + timestamp);
}

/// The URLs of a page of pull requests, character by character: those of the closed
/// ones, and of the closed ones with the last updated first, with the percent-encoded
/// timestamp behind `&since=` where there is one.
pub proof fn law_pull_requests_urls_say_what_is_asked(
    api_url: &str,
    remote: &Remote,
    page: i32,
    since: Option<&str>,
    url: String,
    sorted: String,
)
    requires
        call_ensures(GitHubClient::pull_requests_url, (api_url, remote, page), url),
        call_ensures(
            GitHubClient::pull_requests_url_sorted,
            (api_url, remote, page, since),
            sorted,
        ),
    ensures
        url@ == api_url@ + "/repos/"@ + remote.owner@ + "/"@ + remote.repo@
            + "/pulls?per_page=100&page="@ + integer_text(page as int) + "&state=closed"@,
        sorted@ == api_url@ + "/repos/"@ + remote.owner@ + "/"@ + remote.repo@
            + "/pulls?per_page=100&page="@ + integer_text(page as int)
            + "&state=closed&sort=updated&direction=desc"@ + (match since {
            Some(since) => "&since="@ + percent_encoded(encode_utf8(since@)),
            None => Seq::empty(),
        }),
{
    let text = match since {
        Some(since) => since@,
        None => Seq::empty(),
    };
    law_url_of_a_page_of_pull_requests(api_url@, *remote, page as int, text);
    let bare = api_url@ + "/repos/"@ + remote.owner@ + "/"@ + remote.repo@
        + "/pulls?per_page=100&page="@ + integer_text(page as int)
        + "&state=closed&sort=updated&direction=desc"@;
    match since {
        Some(since) => {
            assert(sorted@ =~= bare + ("&since="@ + percent_encoded(encode_utf8(since@))));
        },
        None => {
            assert(sorted@ =~= bare + Seq::<char>::empty());
        },
    }
}

/// The first request of a fetch of commits is the one for page 0 with the reference and
/// the timestamp that the fetch was made with, whether or not there is either.
pub proof fn law_commit_fetch_first_asks(
    ref_name: Option<String>,
    since: Option<String>,
    fetch: CommitFetch,
    client: &GitHubClient,
    url: String,
)
    requires
        call_ensures(CommitFetch::new, (ref_name, since), fetch),
        call_ensures(CommitFetch::url, (&fetch, client), url),
    ensures
        url@ == client.api_url@ + "/repos/"@ + client.remote.owner@ + "/"@ + client.remote.repo@
            + "/commits?per_page=100&page="@ + integer_text(0) + (match ref_name {
            Some(ref_name) => "&sha="@ + ref_name@,
            None => Seq::empty(),
        }) + (match since {
            Some(since) => "&since="@ + percent_encoded(encode_utf8(since@)),
            None => Seq::empty(),
        }),
{
    let name = match ref_name {
        Some(ref_name) => Some(ref_name@),
        None => None,
    };
    let time = match since {
        Some(since) => Some(since@),
        None => None,
    };
    lemma_commit_request(client, name, time, 0);
}

proof fn lemma_commit_request(
    client: &GitHubClient,
    ref_name: Option<Seq<char>>,
    since: Option<Seq<char>>,
    page: int,
)
    ensures
        commits_url_text(
            client.api_url@,
            client.remote,
            ref_name,
            page,
            since,
        ) == client.api_url@ + "/repos/"@ + client.remote.owner@ + "/"@ + client.remote.repo@
            + "/commits?per_page=100&page="@ + integer_text(page) + (match ref_name {
            Some(ref_name) => "&sha="@ + ref_name,
            None => Seq::empty(),
        }) + (match since {
            Some(since) => "&since="@ + percent_encoded(encode_utf8(since)),
            None => Seq::empty(),
        }),
{
    let none = Seq::<char>::empty();
    let url = commits_url_text(
        client.api_url@,
        client.remote,
        ref_name,
        page,
        since,
    );
    law_url_of_a_page_of_commits(client.api_url@, client.remote, page);
    let bare = commits_url_text(
        client.api_url@,
        client.remote,
        None,
        page,
        None,
    );
    if let Some(ref_name) = ref_name {
        law_url_with_a_reference(client.api_url@, client.remote, ref_name, page);
    }
    if let Some(since) = since {
        law_url_with_a_timestamp(client.api_url@, client.remote, ref_name, page, since);
    }
    let reference = match ref_name {
        Some(ref_name) => "&sha="@ + ref_name,
        None => none,
    };
    let timestamp = match since {
        Some(since) => "&since="@ + percent_encoded(encode_utf8(since)),
        None => none,
    };
    assert(url =~= bare + reference + timestamp);
}

/// A fetch of commits asks with the reference and the timestamp that it has for the page
/// that it has come to.
pub proof fn law_commit_fetch_asks_for_its_page(
    fetch: CommitFetch,
    client: &GitHubClient,
    page: i32,
    url: String,
)
    requires
        call_ensures(CommitFetch::page, (&fetch,), page),
        call_ensures(CommitFetch::url, (&fetch, client), url),
    ensures
        url@ == client.api_url@ + "/repos/"@ + client.remote.owner@ + "/"@ + client.remote.repo@
            + "/commits?per_page=100&page="@ + integer_text(page as int) + (
        match fetch@.ref_name {
            Some(ref_name) => "&sha="@ + ref_name,
            None => Seq::empty(),
        }) + (match fetch@.since {
            Some(since) => "&since="@ + percent_encoded(encode_utf8(since)),
            None => Seq::empty(),
        }),
{
    lemma_commit_request(client, fetch@.ref_name, fetch@.since, page as int);
}

/// A fetch of commits takes all commits of a page behind those that it has, and comes to
/// the next page for the same reference and timestamp. It is complete with the empty
/// page, and fails with an error; neither changes it.
pub proof fn law_commit_fetch_accepts<E>(
    fetch: &mut CommitFetch,
    reply: Result<Vec<GitHubCommit>, E>,
    status: Result<FetchStatus, E>,
)
    requires
        call_ensures(CommitFetch::accept::<E>, (fetch, reply), status),
    ensures
        final(fetch)@.ref_name == old(fetch)@.ref_name,
        final(fetch)@.since == old(fetch)@.since,
        reply is Err ==> status == Err::<FetchStatus, E>(reply->Err_0) && final(fetch)@
            == old(fetch)@,
        reply is Ok && reply->Ok_0@.len() == 0 ==> status == Ok::<FetchStatus, E>(
            FetchStatus::Complete,
        ) && final(fetch)@ == old(fetch)@,
        reply is Ok && reply->Ok_0@.len() > 0 ==> {
            &&& status == Ok::<FetchStatus, E>(FetchStatus::More)
            &&& final(fetch)@.page == old(fetch)@.page + 1
            &&& final(fetch)@.commits.len() == old(fetch)@.commits.len() + reply->Ok_0@.len()
            &&& forall|i: int|
                0 <= i < old(fetch)@.commits.len() ==> #[trigger] final(fetch)@.commits[i]
                    == old(fetch)@.commits[i]
            &&& forall|i: int|
                0 <= i < reply->Ok_0@.len() ==> #[trigger] final(fetch)@.commits[old(fetch)@.commits.len() + i] == reply->Ok_0@[i]@
        },
{
}

/// The first request of a fetch of pull requests is the one for page 0 of the closed
/// ones, the last updated first; the timestamp of the fetch is not in it.
pub proof fn law_pull_request_fetch_first_asks(
    since: Option<String>,
    fetch: PullRequestFetch,
    client: &GitHubClient,
    url: String,
)
    requires
        call_ensures(PullRequestFetch::new, (since,), fetch),
        call_ensures(PullRequestFetch::url, (&fetch, client), url),
    ensures
        fetch@.since is Some <==> since is Some,
        since is Some ==> fetch@.since->0 == since->0@,
        url@ == client.api_url@ + "/repos/"@ + client.remote.owner@ + "/"@ + client.remote.repo@
            + "/pulls?per_page=100&page="@ + integer_text(0)
            + "&state=closed&sort=updated&direction=desc"@,
{
    law_url_of_a_page_of_pull_requests(client.api_url@, client.remote, 0, Seq::empty());
}

/// A fetch of pull requests asks for the page that it has come to.
pub proof fn law_pull_request_fetch_asks_for_its_page(
    fetch: PullRequestFetch,
    client: &GitHubClient,
    page: i32,
    url: String,
)
    requires
        call_ensures(PullRequestFetch::page, (&fetch,), page),
        call_ensures(PullRequestFetch::url, (&fetch, client), url),
    ensures
        url@ == client.api_url@ + "/repos/"@ + client.remote.owner@ + "/"@ + client.remote.repo@
            + "/pulls?per_page=100&page="@ + integer_text(page as int)
            + "&state=closed&sort=updated&direction=desc"@,
{
    law_url_of_a_page_of_pull_requests(client.api_url@, client.remote, page as int, Seq::empty());
}

/// A fetch of pull requests takes those of a page before the first outdated one behind
/// those that it has. It is complete with an empty page or an outdated pull request, and
/// otherwise comes to the next page; it fails with an error, which changes nothing.
pub proof fn law_pull_request_fetch_accepts<E>(
    fetch: &mut PullRequestFetch,
    reply: Result<Vec<GitHubPullRequest>, E>,
    status: Result<FetchStatus, E>,
    taken: int,
)
    requires
        call_ensures(PullRequestFetch::accept::<E>, (fetch, reply), status),
        reply is Ok ==> {
            &&& 0 <= taken <= reply->Ok_0@.len()
            &&& forall|i: int|
                0 <= i < taken ==> !is_outdated(#[trigger] reply->Ok_0@[i]@, fetch@.since)
            &&& taken < reply->Ok_0@.len() ==> is_outdated(reply->Ok_0@[taken]@, fetch@.since)
        },
    ensures
        final(fetch)@.since == old(fetch)@.since,
        reply is Err ==> status == Err::<FetchStatus, E>(reply->Err_0) && final(fetch)@
            == old(fetch)@,
        reply is Ok ==> {
            &&& final(fetch)@.pull_requests.len() == old(fetch)@.pull_requests.len() + taken
            &&& forall|i: int|
                0 <= i < old(fetch)@.pull_requests.len() ==> #[trigger] final(fetch)@.pull_requests[i] == old(fetch)@.pull_requests[i]
            &&& forall|i: int|
                0 <= i < taken ==> #[trigger] final(fetch)@.pull_requests[old(fetch)@.pull_requests.len() + i] == reply->Ok_0@[i]@
        },
        reply is Ok && taken == reply->Ok_0@.len() > 0 ==> status == Ok::<FetchStatus, E>(
            FetchStatus::More,
        ) && final(fetch)@.page == old(fetch)@.page + 1,
        reply is Ok && !(taken == reply->Ok_0@.len() > 0) ==> status == Ok::<FetchStatus, E>(
            FetchStatus::Complete,
        ) && final(fetch)@.page == old(fetch)@.page,
{
    if let Ok(page) = reply {
        let views = pull_request_views(page@);
        assert forall|i: int| 0 <= i < taken implies !is_outdated(
            #[trigger] views[i],
            fetch@.since,
        ) by {
            assert(!is_outdated(reply->Ok_0@[i]@, fetch@.since));
        }
        law_pull_request_fetch_takes_a_page(old(fetch)@, views, taken);
        law_last_page_is_empty_or_has_an_outdated_one(old(fetch)@, views);
        if taken < page@.len() {
            assert(is_outdated(views[taken], fetch@.since));
        }
    }
}

/// A stream asks for page after page of what it lists.
pub proof fn law_stream_asks_for_what_it_lists(
    ref_name: Option<String>,
    commits: PageStream,
    pull_requests: PageStream,
    client: &GitHubClient,
    page: i32,
    commits_url: String,
    pull_requests_url: String,
)
    requires
        call_ensures(PageStream::new, (Listing::Commits(ref_name),), commits),
        call_ensures(PageStream::new, (Listing::PullRequests,), pull_requests),
        call_ensures(PageStream::url, (&commits, client, page), commits_url),
        call_ensures(PageStream::url, (&pull_requests, client, page), pull_requests_url),
    ensures
        !commits.finished,
        !pull_requests.finished,
        commits_url@ == client.api_url@ + "/repos/"@ + client.remote.owner@ + "/"@
            + client.remote.repo@ + "/commits?per_page=100&page="@ + integer_text(page as int) + (
        match ref_name {
            Some(ref_name) => "&sha="@ + ref_name@,
            None => Seq::empty(),
        }),
        pull_requests_url@ == client.api_url@ + "/repos/"@ + client.remote.owner@ + "/"@
            + client.remote.repo@ + "/pulls?per_page=100&page="@ + integer_text(page as int)
            + "&state=closed"@,
{
    let name = match ref_name {
        Some(ref_name) => Some(ref_name@),
        None => None,
    };
    lemma_commit_request(client, name, None, page as int);
    let bare = client.api_url@ + "/repos/"@ + client.remote.owner@ + "/"@ + client.remote.repo@
        + "/commits?per_page=100&page="@ + integer_text(page as int);
    let reference = match ref_name {
        Some(ref_name) => "&sha="@ + ref_name@,
        None => Seq::empty(),
    };
    assert(commits_url@ =~= bare + reference);
    law_url_of_a_page_of_pull_requests(client.api_url@, client.remote, page as int, Seq::empty());
}

/// A stream that has not ended yields the entries of a page in their order, or the
/// error, and ends with an empty page or an error. One that has ended yields nothing.
pub proof fn law_stream_accepts<T, E>(
    stream: &mut PageStream,
    page: Result<Vec<T>, E>,
    results: Vec<Result<T, E>>,
)
    requires
        call_ensures(PageStream::accept::<T, E>, (stream, page), results),
    ensures
        final(stream).listing == old(stream).listing,
        old(stream).finished ==> results@.len() == 0 && final(stream).finished,
        !old(stream).finished && page is Err ==> results@ == seq![Err::<T, E>(page->Err_0)]
            && final(stream).finished,
        !old(stream).finished && page is Ok ==> {
            &&& results@.len() == page->Ok_0@.len()
            &&& forall|i: int|
                0 <= i < results@.len() ==> #[trigger] results@[i] == Ok::<T, E>(page->Ok_0@[i])
            &&& final(stream).finished <==> page->Ok_0@.len() == 0
        },
{
}

/// Recording a time sets the timestamp and leaves the commits and the pull requests as
/// they are, whatever and however many they are.
pub proof fn law_set_timestamp_sets_the_timestamp_only(
    cache: &mut GitHubCache,
    text: Option<String>,
)
    requires
        call_ensures(GitHubCache::set_timestamp, (cache, text), ()),
    ensures
        final(cache).commits == old(cache).commits,
        final(cache).pull_requests == old(cache).pull_requests,
        text is Some ==> final(cache).last_updated == text,
        text is None ==> final(cache).last_updated is Some && final(cache).last_updated->0@.len() == 0,
{
}

/// Updating the timestamp records a reading of the clock and leaves the commits and the
/// pull requests as they are.
pub proof fn law_update_timestamp_records_the_clock(cache: &mut GitHubCache)
    requires
        call_ensures(GitHubCache::update_timestamp, (cache,), ()),
    ensures
        final(cache)@.commits == old(cache)@.commits,
        final(cache)@.pull_requests == old(cache)@.pull_requests,
        exists|unix_nanos: i128| #[trigger]
            is_clock_reading(unix_nanos) && final(cache)@.last_updated == Some(
                if has_rfc3339_text(unix_nanos as int) {
                    rfc3339_text(unix_nanos as int)
                } else {
                    Seq::empty()
                },
            ),
{
}

/// Updating the timestamp to an instant records the text of the instant and leaves the
/// commits and the pull requests as they are.
pub proof fn law_update_timestamp_at_records_the_instant(
    cache: &mut GitHubCache,
    unix_nanos: i128,
)
    requires
        call_ensures(GitHubCache::update_timestamp_at, (cache, unix_nanos), ()),
    ensures
        final(cache)@.commits == old(cache)@.commits,
        final(cache)@.pull_requests == old(cache)@.pull_requests,
        final(cache)@.last_updated is Some,
        -62_167_219_200_000_000_000 <= unix_nanos <= 253_402_300_799_999_999_999 ==> final(cache)@.last_updated->0 == rfc3339_text(unix_nanos as int),
        unix_nanos < -62_167_219_200_000_000_000 ==> final(cache)@.last_updated->0.len() == 0,
{
}

/// Writing commits to a cache leaves its pull requests, its timestamp and what is under
/// other SHAs as they are, and puts the last commit with a SHA under it.
pub proof fn law_merge_commits_writes_the_commits(
    cache: &mut GitHubCache,
    commits: &Vec<GitHubCommit>,
    sha: Seq<char>,
)
    requires
        call_ensures(GitHubCache::merge_commits, (cache, commits), ()),
    ensures
        final(cache).pull_requests == old(cache).pull_requests,
        final(cache).last_updated == old(cache).last_updated,
        final(cache)@.commits.contains_key(sha) <==> old(cache)@.commits.contains_key(sha)
            || exists|i: int| 0 <= i < commits@.len() && (#[trigger] commits@[i]).sha@ == sha,
        (forall|i: int| 0 <= i < commits@.len() ==> (#[trigger] commits@[i]).sha@ != sha)
            && old(cache)@.commits.contains_key(sha) ==> final(cache)@.commits[sha]
            == old(cache)@.commits[sha],
        forall|i: int|
            0 <= i < commits@.len() && (#[trigger] commits@[i]).sha@ == sha && (forall|j: int|
                i < j < commits@.len() ==> (#[trigger] commits@[j]).sha@ != sha) ==> {
                let cached = final(cache)@.commits[sha];
                &&& cached.sha == sha
                &&& cached.author_login == commits@[i]@.username()
                &&& cached.date == commits@[i]@.date
            },
{
    let views = commit_views(commits@);
    law_cache_holds_old_and_new(old(cache)@, views, Seq::empty(), sha, 0);
    law_pull_requests_are_written_one_by_one(
        old(cache)@.with_commits(views),
        Seq::empty(),
        arbitrary(),
    );
    assert((exists|i: int| 0 <= i < views.len() && (#[trigger] views[i]).sha == sha) <==> (exists|
        i: int,
    | 0 <= i < commits@.len() && (#[trigger] commits@[i]).sha@ == sha)) by {
        if exists|i: int| 0 <= i < views.len() && (#[trigger] views[i]).sha == sha {
            let i = choose|i: int| 0 <= i < views.len() && (#[trigger] views[i]).sha == sha;
            assert(commits@[i].sha@ == sha);
        }
        if exists|i: int| 0 <= i < commits@.len() && (#[trigger] commits@[i]).sha@ == sha {
            let i = choose|i: int| 0 <= i < commits@.len() && (#[trigger] commits@[i]).sha@ == sha;
            assert(views[i].sha == sha);
        }
    }
    if forall|i: int| 0 <= i < commits@.len() ==> (#[trigger] commits@[i]).sha@ != sha {
        assert forall|i: int| 0 <= i < views.len() implies (#[trigger] views[i]).sha != sha by {
            assert(commits@[i].sha@ != sha);
        }
        law_merging_commits_keeps_the_rest(old(cache)@, views, sha);
    }
    assert forall|i: int|
        0 <= i < commits@.len() && (#[trigger] commits@[i]).sha@ == sha && (forall|j: int|
            i < j < commits@.len() ==> (#[trigger] commits@[j]).sha@ != sha) implies {
        let cached = final(cache)@.commits[sha];
        &&& cached.sha == sha
        &&& cached.author_login == commits@[i]@.username()
        &&& cached.date == commits@[i]@.date
    } by {
        assert forall|j: int| i < j < views.len() implies (#[trigger] views[j]).sha
            != views[i].sha by {
            assert(commits@[j].sha@ != sha);
        }
        law_last_commit_wins(old(cache)@, views, i);
    }
}

/// Writing pull requests to a cache leaves its commits, its timestamp and what is under
/// other numbers as they are, and puts the last pull request with a number under it.
pub proof fn law_merge_pull_requests_writes_the_pull_requests(
    cache: &mut GitHubCache,
    pull_requests: &Vec<GitHubPullRequest>,
    number: i64,
)
    requires
        call_ensures(GitHubCache::merge_pull_requests, (cache, pull_requests), ()),
    ensures
        final(cache).commits == old(cache).commits,
        final(cache).last_updated == old(cache).last_updated,
        final(cache)@.pull_requests.contains_key(number) <==> old(cache)@.pull_requests.contains_key(number) || exists|i: int|
            0 <= i < pull_requests@.len() && (#[trigger] pull_requests@[i]).number == number,
        (forall|i: int|
            0 <= i < pull_requests@.len() ==> (#[trigger] pull_requests@[i]).number != number)
            && old(cache)@.pull_requests.contains_key(number) ==> final(cache)@.pull_requests[number] == old(cache)@.pull_requests[number],
        forall|i: int|
            0 <= i < pull_requests@.len() && (#[trigger] pull_requests@[i]).number == number && (
            forall|j: int|
                i < j < pull_requests@.len() ==> (#[trigger] pull_requests@[j]).number != number)
                ==> final(cache)@.pull_requests[number] == pull_requests@[i]@,
{
    let views = pull_request_views(pull_requests@);
    law_cache_holds_old_and_new(old(cache)@, Seq::empty(), views, Seq::empty(), number);
    law_commits_are_written_one_by_one(old(cache)@, Seq::empty(), Seq::empty(), None, None);
    assert((exists|i: int| 0 <= i < views.len() && (#[trigger] views[i]).number == number) <==> (
    exists|i: int|
        0 <= i < pull_requests@.len() && (#[trigger] pull_requests@[i]).number == number)) by {
        if exists|i: int| 0 <= i < views.len() && (#[trigger] views[i]).number == number {
            let i = choose|i: int| 0 <= i < views.len() && (#[trigger] views[i]).number == number;
            assert(pull_requests@[i].number == number);
        }
        if exists|i: int|
            0 <= i < pull_requests@.len() && (#[trigger] pull_requests@[i]).number == number {
            let i = choose|i: int|
                0 <= i < pull_requests@.len() && (#[trigger] pull_requests@[i]).number == number;
            assert(views[i].number == number);
        }
    }
    if forall|i: int|
        0 <= i < pull_requests@.len() ==> (#[trigger] pull_requests@[i]).number != number {
        assert forall|i: int| 0 <= i < views.len() implies (#[trigger] views[i]).number
            != number by {
            assert(pull_requests@[i].number != number);
        }
        law_merging_pull_requests_keeps_the_rest(old(cache)@, views, number);
    }
    assert forall|i: int|
        0 <= i < pull_requests@.len() && (#[trigger] pull_requests@[i]).number == number && (
        forall|j: int|
            i < j < pull_requests@.len() ==> (#[trigger] pull_requests@[j]).number
                != number) implies final(cache)@.pull_requests[number] == pull_requests@[i]@ by {
        assert forall|j: int| i < j < views.len() implies (#[trigger] views[j]).number
            != views[i].number by {
            assert(pull_requests@[j].number != number);
        }
        law_last_pull_request_wins(old(cache)@, views, i);
    }
}

/// What is saved of a cache is loaded as the same cache; without a file that can be read
/// the cache is empty, and so is a new one.
pub proof fn law_cache_is_loaded_as_it_was_saved(
    cache: GitHubCache,
    record: CacheRecord,
    reloaded: GitHubCache,
    file: CacheFile,
    fresh: GitHubCache,
)
    requires
        call_ensures(GitHubCache::to_record, (&cache,), record),
        call_ensures(GitHubCache::load, (CacheFile::Parsed(record),), reloaded),
        !(file is Parsed),
        call_ensures(GitHubCache::load, (file,), fresh),
    ensures
        reloaded@ == cache@,
        fresh@.last_updated is None,
        fresh@.commits.is_empty(),
        fresh@.pull_requests.is_empty(),
{
    law_record_round_trip(cache@, record@);
}

/// What a cache says of itself: its timestamp, whether it is empty, and how many commits
/// and pull requests it has.
pub proof fn law_cache_says_what_it_holds(
    cache: GitHubCache,
    since: Option<&str>,
    empty: bool,
    counts: (usize, usize),
)
    requires
        call_ensures(GitHubCache::get_since_timestamp, (&cache,), since),
        call_ensures(GitHubCache::is_empty, (&cache,), empty),
        call_ensures(GitHubCache::stats, (&cache,), counts),
    ensures
        since is Some <==> cache.last_updated is Some,
        since is Some ==> since->0@ == cache.last_updated->0@,
        counts.0 == cache.commits@.len(),
        counts.1 == cache.pull_requests@.len(),
        empty <==> cache.commits@.is_empty() && cache.pull_requests@.is_empty(),
{
}

/// A commit goes into the cache with its SHA, its author's login and its date, and comes
/// out of it with the same.
pub proof fn law_commit_goes_through_the_cache(
    commit: &GitHubCommit,
    cached: CachedCommit,
    back: GitHubCommit,
)
    requires
        call_ensures(CachedCommit::from_commit, (commit,), cached),
        call_ensures(CachedCommit::to_commit, (&cached,), back),
    ensures
        cached.sha@ == commit.sha@,
        back.sha@ == commit.sha@,
        commit.author is Some && commit.author->0.login is Some ==> back.author is Some
            && back.author->0.login == commit.author->0.login,
        !(commit.author is Some && commit.author->0.login is Some) ==> back.author is None,
        commit.commit is Some ==> back.commit is Some && back.commit->0.author.date
            == commit.commit->0.author.date,
        commit.commit is None ==> back.commit is None,
{
}

/// A pull request goes into the cache and comes out of it as it is.
pub proof fn law_pull_request_goes_through_the_cache(
    pull_request: &GitHubPullRequest,
    cached: CachedPullRequest,
    back: GitHubPullRequest,
)
    requires
        call_ensures(CachedPullRequest::from_pull_request, (pull_request,), cached),
        call_ensures(CachedPullRequest::to_pull_request, (&cached,), back),
    ensures
        cached.number == pull_request.number,
        back.number == pull_request.number,
        back.title == pull_request.title,
        back.merge_commit_sha == pull_request.merge_commit_sha,
        back.updated_at == pull_request.updated_at,
        back.labels@.len() == pull_request.labels@.len(),
        forall|i: int|
            0 <= i < back.labels@.len() ==> (#[trigger] back.labels@[i]).name@
                == pull_request.labels@[i].name@,
{
    assert forall|i: int| 0 <= i < back.labels@.len() implies (#[trigger] back.labels@[i]).name@
        == pull_request.labels@[i].name@ by {
        assert(cached.labels@[i]@ == pull_request.labels@[i].name@);
    }
}

/// As many commits and pull requests come out of a cache as are in it.
pub proof fn law_all_of_a_cache_comes_out(
    cache: GitHubCache,
    commits: Vec<GitHubCommit>,
    pull_requests: Vec<GitHubPullRequest>,
)
    requires
        call_ensures(GitHubCache::remote_commits, (&cache,), commits),
        call_ensures(GitHubCache::remote_pull_requests, (&cache,), pull_requests),
    ensures
        commits@.len() == cache@.commits.len(),
        pull_requests@.len() == cache@.pull_requests.len(),
        lists_values(
            commit_views(commits@),
            cache@.commits,
            |cached: CachedCommitView| remote_commit(cached),
        ),
        lists_values(
            pull_request_views(pull_requests@),
            cache@.pull_requests,
            |cached: PullRequestView| cached,
        ),
{
    law_listed_counts(cache@, commit_views(commits@), pull_request_views(pull_requests@));
}

/// The first request of an update is the one for page 0 of the commits of the reference
/// since the cache was last updated, whether or not there is either.
pub proof fn law_update_first_asks(
    cache: GitHubCache,
    ref_name: Option<String>,
    sync: CacheSync,
    client: &GitHubClient,
    url: Option<String>,
)
    requires
        call_ensures(CacheSync::new, (cache, ref_name), sync),
        call_ensures(CacheSync::url, (&sync, client), url),
    ensures
        sync@.cache == cache@,
        url is Some,
        url->0@ == client.api_url@ + "/repos/"@ + client.remote.owner@ + "/"@
            + client.remote.repo@ + "/commits?per_page=100&page="@ + integer_text(0) + (
        match ref_name {
            Some(ref_name) => "&sha="@ + ref_name@,
            None => Seq::empty(),
        }) + (match cache.last_updated {
            Some(since) => "&since="@ + percent_encoded(encode_utf8(since@)),
            None => Seq::empty(),
        }),
{
    let name = match ref_name {
        Some(ref_name) => Some(ref_name@),
        None => None,
    };
    let time = match cache.last_updated {
        Some(since) => Some(since@),
        None => None,
    };
    lemma_commit_request(client, name, time, 0);
}

/// An update asks with the reference and the timestamp of its fetch for the page that it
/// has come to, and for nothing once all is in the cache.
pub proof fn law_update_asks_for_its_page(
    sync: CacheSync,
    client: &GitHubClient,
    page: i32,
    stage: SyncStage,
    url: Option<String>,
)
    requires
        call_ensures(CacheSync::page, (&sync,), page),
        call_ensures(CacheSync::stage, (&sync,), stage),
        call_ensures(CacheSync::url, (&sync, client), url),
    ensures
        stage == SyncStage::Merged <==> url is None,
        sync@.progress is Merged <==> url is None,
        sync@.progress matches ProgressView::Commits(fetch) ==> stage == SyncStage::Commits
            && page == fetch.page && url->0@ == client.api_url@ + "/repos/"@
            + client.remote.owner@ + "/"@ + client.remote.repo@ + "/commits?per_page=100&page="@
            + integer_text(page as int) + (match fetch.ref_name {
            Some(ref_name) => "&sha="@ + ref_name,
            None => Seq::empty(),
        }) + (match fetch.since {
            Some(since) => "&since="@ + percent_encoded(encode_utf8(since)),
            None => Seq::empty(),
        }),
        sync@.progress matches ProgressView::PullRequests(fetch) ==> stage
            == SyncStage::PullRequests && page == fetch.page && url->0@ == client.api_url@
            + "/repos/"@ + client.remote.owner@ + "/"@ + client.remote.repo@
            + "/pulls?per_page=100&page="@ + integer_text(page as int)
            + "&state=closed&sort=updated&direction=desc"@,
{
    if let ProgressView::Commits(fetch) = sync@.progress {
        lemma_commit_request(client, fetch.ref_name, fetch.since, fetch.page);
    }
    law_url_of_a_page_of_pull_requests(client.api_url@, client.remote, page as int, Seq::empty());
}

/// An update that is finished has in its cache, and lists, all that was merged, however
/// much that is, and has recorded a reading of the clock.
pub proof fn law_finished_update_keeps_all(
    sync: CacheSync,
    synced: SyncedCache,
    key: Seq<char>,
    number: i64,
)
    requires
        call_ensures(CacheSync::finish, (sync,), synced),
    ensures
        synced.cache@.commits == sync@.cache.commits,
        synced.cache@.pull_requests == sync@.cache.pull_requests,
        synced.commits@.len() == sync@.cache.commits.len(),
        synced.pull_requests@.len() == sync@.cache.pull_requests.len(),
        sync@.cache.commits.contains_key(key) ==> exists|i: int|
            0 <= i < synced.commits@.len() && (#[trigger] synced.commits@[i])@.sha
                == sync@.cache.commits[key].sha && synced.commits@[i]@.username()
                == sync@.cache.commits[key].author_login && synced.commits@[i]@.date
                == sync@.cache.commits[key].date,
        sync@.cache.pull_requests.contains_key(number) ==> exists|i: int|
            0 <= i < synced.pull_requests@.len() && (#[trigger] synced.pull_requests@[i])@
                == sync@.cache.pull_requests[number],
        exists|unix_nanos: i128| #[trigger]
            is_clock_reading(unix_nanos) && synced.cache@.last_updated == Some(
                if has_rfc3339_text(unix_nanos as int) {
                    rfc3339_text(unix_nanos as int)
                } else {
                    Seq::empty()
                },
            ),
{
    law_synced_cache_is_listed(synced, key, number);
}

/// An update that is finished at an instant has in its cache, and lists, all that was
/// merged, however much that is, and has recorded the instant.
pub proof fn law_update_finished_at_an_instant_keeps_all(
    sync: CacheSync,
    unix_nanos: i128,
    synced: SyncedCache,
)
    requires
        call_ensures(CacheSync::finish_at, (sync, unix_nanos), synced),
    ensures
        synced.cache@.commits == sync@.cache.commits,
        synced.cache@.pull_requests == sync@.cache.pull_requests,
        synced.commits@.len() == sync@.cache.commits.len(),
        synced.pull_requests@.len() == sync@.cache.pull_requests.len(),
        synced.cache@.last_updated is Some,
        -62_167_219_200_000_000_000 <= unix_nanos <= 253_402_300_799_999_999_999
            ==> synced.cache@.last_updated->0 == rfc3339_text(unix_nanos as int),
{
    law_synced_cache_is_listed(synced, Seq::empty(), 0);
}

/// An update takes a page of commits to its fetch, and with the empty page writes all of
/// them to the cache and comes to the pull requests since the same time. It fails with an
/// error.
pub proof fn law_update_accepts_commits<E>(
    sync: CacheSync,
    reply: Result<Vec<GitHubCommit>, E>,
    next: Result<CacheSync, E>,
)
    requires
        sync@.progress is Commits,
        call_ensures(CacheSync::accept_commits::<E>, (sync, reply), next),
    ensures
        reply is Err ==> next is Err && next->Err_0 == reply->Err_0,
        reply is Ok ==> next is Ok && next->Ok_0@.since == sync@.since,
        reply is Ok && reply->Ok_0@.len() > 0 ==> {
            let before = sync@.progress->Commits_0;
            &&& next->Ok_0@.cache == sync@.cache
            &&& next->Ok_0@.progress is Commits
            &&& next->Ok_0@.progress->Commits_0.ref_name == before.ref_name
            &&& next->Ok_0@.progress->Commits_0.since == before.since
            &&& next->Ok_0@.progress->Commits_0.page == before.page + 1
            &&& next->Ok_0@.progress->Commits_0.commits == before.commits + commit_views(
                reply->Ok_0@,
            )
        },
        reply is Ok && reply->Ok_0@.len() == 0 ==> {
            &&& next->Ok_0@.cache == sync@.cache.with_commits(sync@.progress->Commits_0.commits)
            &&& next->Ok_0@.progress is PullRequests
            &&& next->Ok_0@.progress->PullRequests_0.since == sync@.since
            &&& next->Ok_0@.progress->PullRequests_0.page == 0
            &&& next->Ok_0@.progress->PullRequests_0.pull_requests.len() == 0
        },
{
}

/// An update takes the pull requests of a page before the first outdated one to its
/// fetch, and with an outdated one or an empty page writes all of them to the cache and
/// is at its end. It fails with an error.
pub proof fn law_update_accepts_pull_requests<E>(
    sync: CacheSync,
    reply: Result<Vec<GitHubPullRequest>, E>,
    next: Result<CacheSync, E>,
    taken: int,
)
    requires
        sync@.progress is PullRequests,
        call_ensures(CacheSync::accept_pull_requests::<E>, (sync, reply), next),
        reply is Ok ==> {
            &&& 0 <= taken <= reply->Ok_0@.len()
            &&& forall|i: int|
                0 <= i < taken ==> !is_outdated(
                    #[trigger] pull_request_views(reply->Ok_0@)[i],
                    sync@.progress->PullRequests_0.since,
                )
            &&& taken < reply->Ok_0@.len() ==> is_outdated(
                pull_request_views(reply->Ok_0@)[taken],
                sync@.progress->PullRequests_0.since,
            )
        },
    ensures
        reply is Err ==> next is Err && next->Err_0 == reply->Err_0,
        reply is Ok ==> next is Ok && next->Ok_0@.since == sync@.since,
        reply is Ok && taken == reply->Ok_0@.len() > 0 ==> {
            let before = sync@.progress->PullRequests_0;
            &&& next->Ok_0@.cache == sync@.cache
            &&& next->Ok_0@.progress is PullRequests
            &&& next->Ok_0@.progress->PullRequests_0.since == before.since
            &&& next->Ok_0@.progress->PullRequests_0.page == before.page + 1
            &&& next->Ok_0@.progress->PullRequests_0.pull_requests == before.pull_requests
                + pull_request_views(reply->Ok_0@)
        },
        reply is Ok && !(taken == reply->Ok_0@.len() > 0) ==> {
            &&& next->Ok_0@.cache == sync@.cache.with_pull_requests(
                sync@.progress->PullRequests_0.pull_requests + pull_request_views(
                    reply->Ok_0@,
                ).take(taken),
            )
            &&& next->Ok_0@.progress is Merged
        },
{
    if let Ok(page) = reply {
        law_update_takes_a_page_of_pull_requests(
            sync@,
            sync@.progress->PullRequests_0,
            pull_request_views(page@),
            taken,
        );
    }
}

/// A save goes from step to step with the event that each waits for, carries the text to
/// the file, and fails with an error.
pub proof fn law_save_goes_step_by_step<E>(
    text: String,
    error: E,
    first: SaveStep,
    failed: Result<SaveStep, E>,
    second: Result<SaveStep, E>,
    third: Result<SaveStep, E>,
    fourth: Result<SaveStep, E>,
    last: Result<SaveStep, E>,
)
    requires
        call_ensures(SaveStep::first, (), first),
        call_ensures(SaveStep::next::<E>, (first, Err(error)), failed),
        call_ensures(SaveStep::next::<E>, (first, Ok(SaveEvent::DirectoriesCreated)), second),
        call_ensures(
            SaveStep::next::<E>,
            (SaveStep::Serialize, Ok(SaveEvent::Serialized(text))),
            third,
        ),
        call_ensures(
            SaveStep::next::<E>,
            (SaveStep::CreateFile(text), Ok(SaveEvent::FileCreated)),
            fourth,
        ),
        call_ensures(
            SaveStep::next::<E>,
            (SaveStep::Write(text), Ok(SaveEvent::Written)),
            last,
        ),
    ensures
        first is CreateDirectories,
        failed is Err && failed->Err_0 == error,
        second is Ok && second->Ok_0 is Serialize,
        third is Ok && third->Ok_0 is CreateFile && third->Ok_0->CreateFile_0@ == text@,
        fourth is Ok && fourth->Ok_0 is Write && fourth->Ok_0->Write_0@ == text@,
        last is Ok && last->Ok_0 is Saved,
{
}

/// The timestamp of a commit is that of its date, there is none without a date, and a
/// date that cannot be read is an error.
pub proof fn law_timestamp_is_that_of_the_date(
    commit: GitHubCommit,
    timestamp: Option<i64>,
    checked: Result<Option<i64>, InvalidDate>,
)
    requires
        call_ensures(GitHubCommit::timestamp, (&commit,), timestamp),
        call_ensures(GitHubCommit::checked_timestamp, (&commit,), checked),
    ensures
        commit.commit is None ==> timestamp is None && checked == Ok::<Option<i64>, InvalidDate>(
            None,
        ),
        commit.commit is Some ==> ({
            let seconds = rfc3339_seconds(commit.commit->0.author.date@);
            &&& seconds is Some ==> timestamp == seconds && checked == Ok::<
                Option<i64>,
                InvalidDate,
            >(seconds)
            &&& seconds is None ==> checked == Err::<Option<i64>, InvalidDate>(InvalidDate)
        }),
{
}

/// A commit and a pull request give what their fields hold.
pub proof fn law_entries_give_their_fields(
    commit: GitHubCommit,
    id: String,
    username: Option<String>,
    pull_request: GitHubPullRequest,
    number: i64,
    title: Option<String>,
    labels: Vec<String>,
    merge_commit: Option<String>,
)
    requires
        call_ensures(GitHubCommit::id, (&commit,), id),
        call_ensures(GitHubCommit::username, (&commit,), username),
        call_ensures(GitHubPullRequest::number, (&pull_request,), number),
        call_ensures(GitHubPullRequest::title, (&pull_request,), title),
        call_ensures(GitHubPullRequest::labels, (&pull_request,), labels),
        call_ensures(GitHubPullRequest::merge_commit, (&pull_request,), merge_commit),
    ensures
        id@ == commit.sha@,
        commit.author is Some ==> username == commit.author->0.login,
        commit.author is None ==> username is None,
        number == pull_request.number,
        title == pull_request.title,
        merge_commit == pull_request.merge_commit_sha,
        labels@.len() == pull_request.labels@.len(),
        forall|i: int|
            0 <= i < labels@.len() ==> (#[trigger] labels@[i])@ == pull_request.labels@[i].name@,
{
}

/// The cache file lies in a directory of its own inside the git directory.
pub proof fn law_cache_file_lies_in_the_git_directory(git_dir: &Path, path: PathBuf)
    requires
        call_ensures(GitHubCache::cache_path, (git_dir,), path),
    ensures
        owned_components(&path) == components(git_dir) + seq![
            "git-cliff-core"@,
            "github_cache.json"@,
        ],
{
    assert(owned_components(&path) =~= components(git_dir) + seq![
        "git-cliff-core"@,
        "github_cache.json"@,
    ]);
}

/// A page of pull requests is the last one just when it is empty or has an outdated one.
pub proof fn law_last_page_is_recognised(
    fetch: PullRequestFetch,
    page: &Vec<GitHubPullRequest>,
    last: bool,
)
    requires
        call_ensures(PullRequestFetch::is_last, (&fetch, page), last),
    ensures
        last <==> page@.len() == 0 || exists|i: int|
            0 <= i < page@.len() && is_outdated((#[trigger] page@[i])@, fetch@.since),
{
    let views = pull_request_views(page@);
    law_last_page_is_empty_or_has_an_outdated_one(fetch@, views);
    if exists|i: int| 0 <= i < views.len() && is_outdated(#[trigger] views[i], fetch@.since) {
        let i = choose|i: int|
            0 <= i < views.len() && is_outdated(#[trigger] views[i], fetch@.since);
        assert(is_outdated(page@[i]@, fetch@.since));
    }
    if exists|i: int| 0 <= i < page@.len() && is_outdated((#[trigger] page@[i])@, fetch@.since) {
        let i = choose|i: int|
            0 <= i < page@.len() && is_outdated((#[trigger] page@[i])@, fetch@.since);
        assert(is_outdated(views[i], fetch@.since));
    }
}

/// Fetches give all that they have, in its order.
pub proof fn law_fetches_give_all_that_they_have(
    commit_fetch: CommitFetch,
    commits: Vec<GitHubCommit>,
    pull_request_fetch: PullRequestFetch,
    pull_requests: Vec<GitHubPullRequest>,
)
    requires
        call_ensures(CommitFetch::into_commits, (commit_fetch,), commits),
        call_ensures(PullRequestFetch::into_pull_requests, (pull_request_fetch,), pull_requests),
    ensures
        commits@.len() == commit_fetch@.commits.len(),
        forall|i: int|
            0 <= i < commits@.len() ==> (#[trigger] commits@[i])@ == commit_fetch@.commits[i],
        pull_requests@.len() == pull_request_fetch@.pull_requests.len(),
        forall|i: int|
            0 <= i < pull_requests@.len() ==> (#[trigger] pull_requests@[i])@
                == pull_request_fetch@.pull_requests[i],
{
}

/// A checked update goes on as an unchecked one, unless the page behind the one that it
/// was given is asked for and has no number.
pub proof fn law_checked_update_accepts_what_it_can_count<E>(
    sync: CacheSync,
    reply: Result<Vec<GitHubPullRequest>, E>,
    checked: Option<Result<CacheSync, E>>,
    unchecked: Result<CacheSync, E>,
)
    requires
        call_ensures(CacheSync::checked_accept_pull_requests::<E>, (sync, reply), checked),
        call_ensures(CacheSync::accept_pull_requests::<E>, (sync, reply), unchecked),
    ensures
        sync@.page() < i32::MAX || reply is Err ==> checked is Some,
        checked is Some && reply is Err ==> checked->0 is Err && checked->0->Err_0
            == reply->Err_0,
        checked is Some && reply is Ok ==> checked->0 is Ok && unchecked is Ok
            && checked->0->Ok_0@ == unchecked->Ok_0@,
        checked is None ==> reply is Ok && reply->Ok_0@.len() > 0,
{
}

/// Times that can be read are compared by their instants, and others by their texts.
pub proof fn law_times_are_compared_by_their_instants(
    a: &str,
    b: &str,
    a_nanos: Option<i128>,
    b_nanos: Option<i128>,
    before: bool,
    sorts_before: bool,
)
    requires
        call_ensures(is_time_before, (a, b, a_nanos, b_nanos), before),
        call_ensures(is_before, (a, b), sorts_before),
    ensures
        a_nanos is Some && b_nanos is Some ==> (before <==> a_nanos->0 < b_nanos->0),
        a_nanos is None || b_nanos is None ==> before == sorts_before,
        sorts_before == text_before(a@, b@),
{
}

/// A client gives the repository that it is for.
pub proof fn law_client_gives_its_repository(client: &GitHubClient, remote: Remote)
    requires
        call_ensures(GitHubClient::remote, (client,), remote),
    ensures
        remote.owner@ == client.remote.owner@,
        remote.repo@ == client.remote.repo@,
{
}

} // verus!
