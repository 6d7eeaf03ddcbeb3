//! What holds of the cache, of its updates and of the URLs as a whole.

use crate::remote::cache::{
    cached_commit, commit_entries, empty_cache, pull_request_entries, remote_commit, CacheView,
    CachedCommitView,
};
use crate::remote::clock::rfc3339_nanos;
use crate::remote::fetch::{
    fresh_count, is_outdated, lemma_fresh_count, lemma_fresh_prefix, CommitFetchView,
    PullRequestFetchView,
};
use crate::remote::github::{
    commits_url_text, encoded_text, page_url_text, parameter_text, pull_requests_url_sorted_text,
    pull_requests_url_text, CommitView, PullRequestView, Remote,
    MAX_PAGE_SIZE,
};
use crate::remote::listing::{
    enumerates, lemma_last_write_wins, lemma_list_length, lemma_unwritten_key_stays,
    lemma_writing_again_changes_nothing, lemma_written_in_parts, lemma_written_keys,
    lists_values, written,
};
use crate::remote::runs::{
    commit_run, entries_read, in_one_order, is_read_alike, is_sorted_by_update,
    law_commit_fetch_gets_all_pages, law_early_stop_misses_no_instant,
    law_early_stop_misses_nothing, law_pull_request_fetch_stops_at_outdated,
    pull_request_run, read_end, Outcome, ReadEnd,
};
use crate::remote::sync::{ProgressView, SyncView};
use crate::remote::text::{
    decimal, integer_text, lemma_integer_text_is_injective, lemma_percent_encoded_is_injective,
};
use vstd::prelude::*;
use vstd::utf8::{encode_utf8, encode_utf8_decode_utf8};

verus! {

/// A commit that goes through the cache keeps its SHA, its author's login and its
/// date. It comes back as it was unless it has an author without a login.
pub proof fn law_cached_commit_keeps_what_it_says(commit: CommitView)
    ensures
        remote_commit(cached_commit(commit)).sha == commit.sha,
        remote_commit(cached_commit(commit)).username() == commit.username(),
        remote_commit(cached_commit(commit)).date == commit.date,
        remote_commit(cached_commit(commit)) == commit <==> commit.author
            != Some(None::<Seq<char>>),
{
}

/// A cached commit that is fetched as the commit it stands for is cached as it was.
pub proof fn law_cached_commit_round_trip(cached: CachedCommitView)
    ensures
        cached_commit(remote_commit(cached)) == cached,
{
}

/// Writing the same commits to the cache a second time changes nothing.
pub proof fn law_merging_commits_again_changes_nothing(
    cache: CacheView,
    commits: Seq<CommitView>,
)
    ensures
        cache.with_commits(commits).with_commits(commits) == cache.with_commits(commits),
{
    lemma_writing_again_changes_nothing(cache.commits, commit_entries(commits));
}

/// Writing the same pull requests to the cache a second time changes nothing.
pub proof fn law_merging_pull_requests_again_changes_nothing(
    cache: CacheView,
    pull_requests: Seq<PullRequestView>,
)
    ensures
        cache.with_pull_requests(pull_requests).with_pull_requests(pull_requests)
            == cache.with_pull_requests(pull_requests),
{
    lemma_writing_again_changes_nothing(
        cache.pull_requests,
        pull_request_entries(pull_requests),
    );
}

/// It makes no difference in how many batches commits and pull requests are written
/// to the cache, so long as their order stays.
pub proof fn law_merging_in_batches(
    cache: CacheView,
    commits: Seq<CommitView>,
    more_commits: Seq<CommitView>,
    pull_requests: Seq<PullRequestView>,
    more_pull_requests: Seq<PullRequestView>,
)
    ensures
        cache.with_commits(commits).with_commits(more_commits) == cache.with_commits(
            commits + more_commits,
        ),
        cache.with_pull_requests(pull_requests).with_pull_requests(more_pull_requests)
            == cache.with_pull_requests(pull_requests + more_pull_requests),
{
    lemma_written_in_parts(
        cache.commits,
        commit_entries(commits),
        commit_entries(more_commits),
    );
    assert(commit_entries(commits) + commit_entries(more_commits) =~= commit_entries(
        commits + more_commits,
    ));
    lemma_written_in_parts(
        cache.pull_requests,
        pull_request_entries(pull_requests),
        pull_request_entries(more_pull_requests),
    );
    assert(pull_request_entries(pull_requests) + pull_request_entries(more_pull_requests)
        =~= pull_request_entries(pull_requests + more_pull_requests));
}

/// Of the commits written to the cache, the last with a SHA is found under it.
pub proof fn law_last_commit_wins(cache: CacheView, commits: Seq<CommitView>, i: int)
    requires
        0 <= i < commits.len(),
        forall|j: int| i < j < commits.len() ==> (#[trigger] commits[j]).sha != commits[i].sha,
    ensures
        cache.with_commits(commits).commits.contains_key(commits[i].sha),
        cache.with_commits(commits).commits[commits[i].sha] == cached_commit(commits[i]),
{
    let entries = commit_entries(commits);
    assert forall|j: int| i < j < entries.len() implies #[trigger] entries[j].0 != entries[i].0 by {
        assert(commits[j].sha != commits[i].sha);
    }
    lemma_last_write_wins(cache.commits, entries, i);
}

/// Of the pull requests written to the cache, the last with a number is found under it.
pub proof fn law_last_pull_request_wins(
    cache: CacheView,
    pull_requests: Seq<PullRequestView>,
    i: int,
)
    requires
        0 <= i < pull_requests.len(),
        forall|j: int|
            i < j < pull_requests.len() ==> (#[trigger] pull_requests[j]).number
                != pull_requests[i].number,
    ensures
        cache.with_pull_requests(pull_requests).pull_requests.contains_key(
            pull_requests[i].number,
        ),
        cache.with_pull_requests(pull_requests).pull_requests[pull_requests[i].number]
            == pull_requests[i],
{
    let entries = pull_request_entries(pull_requests);
    assert forall|j: int| i < j < entries.len() implies #[trigger] entries[j].0 != entries[i].0 by {
        assert(pull_requests[j].number != pull_requests[i].number);
    }
    lemma_last_write_wins(cache.pull_requests, entries, i);
}

/// Writing commits to the cache leaves alone what is cached under other SHAs, the
/// pull requests and the timestamp.
pub proof fn law_merging_commits_keeps_the_rest(
    cache: CacheView,
    commits: Seq<CommitView>,
    sha: Seq<char>,
)
    requires
        forall|i: int| 0 <= i < commits.len() ==> (#[trigger] commits[i]).sha != sha,
    ensures
        cache.with_commits(commits).commits.contains_key(sha) == cache.commits.contains_key(sha),
        cache.commits.contains_key(sha) ==> cache.with_commits(commits).commits[sha]
            == cache.commits[sha],
        cache.with_commits(commits).pull_requests == cache.pull_requests,
        cache.with_commits(commits).last_updated == cache.last_updated,
{
    let entries = commit_entries(commits);
    assert forall|j: int| 0 <= j < entries.len() implies #[trigger] entries[j].0 != sha by {
        assert(commits[j].sha != sha);
    }
    lemma_unwritten_key_stays(cache.commits, entries, sha);
}

/// Writing pull requests to the cache leaves alone what is cached under other
/// numbers, the commits and the timestamp.
pub proof fn law_merging_pull_requests_keeps_the_rest(
    cache: CacheView,
    pull_requests: Seq<PullRequestView>,
    number: i64,
)
    requires
        forall|i: int|
            0 <= i < pull_requests.len() ==> (#[trigger] pull_requests[i]).number != number,
    ensures
        cache.with_pull_requests(pull_requests).pull_requests.contains_key(number)
            == cache.pull_requests.contains_key(number),
        cache.pull_requests.contains_key(number) ==> cache.with_pull_requests(
            pull_requests,
        ).pull_requests[number] == cache.pull_requests[number],
        cache.with_pull_requests(pull_requests).commits == cache.commits,
        cache.with_pull_requests(pull_requests).last_updated == cache.last_updated,
{
    let entries = pull_request_entries(pull_requests);
    assert forall|j: int| 0 <= j < entries.len() implies #[trigger] entries[j].0 != number by {
        assert(pull_requests[j].number != number);
    }
    lemma_unwritten_key_stays(cache.pull_requests, entries, number);
}

/// What is in the cache stays in it, and what is fetched comes into it: after new
/// commits and pull requests were written, exactly the old and the new are there.
pub proof fn law_cache_holds_old_and_new(
    cache: CacheView,
    commits: Seq<CommitView>,
    pull_requests: Seq<PullRequestView>,
    sha: Seq<char>,
    number: i64,
)
    ensures
        cache.with_commits(commits).with_pull_requests(pull_requests).commits.contains_key(sha)
            <==> cache.commits.contains_key(sha) || exists|i: int|
            0 <= i < commits.len() && (#[trigger] commits[i]).sha == sha,
        cache.with_commits(commits).with_pull_requests(pull_requests).pull_requests.contains_key(
            number,
        ) <==> cache.pull_requests.contains_key(number) || exists|i: int|
            0 <= i < pull_requests.len() && (#[trigger] pull_requests[i]).number == number,
{
    let entries = commit_entries(commits);
    lemma_written_keys(cache.commits, entries, sha);
    assert((exists|i: int| 0 <= i < entries.len() && #[trigger] entries[i].0 == sha) <==> (exists|
        i: int,
    | 0 <= i < commits.len() && (#[trigger] commits[i]).sha == sha)) by {
        if exists|i: int| 0 <= i < entries.len() && #[trigger] entries[i].0 == sha {
            let i = choose|i: int| 0 <= i < entries.len() && #[trigger] entries[i].0 == sha;
            assert(commits[i].sha == sha);
        }
        if exists|i: int| 0 <= i < commits.len() && (#[trigger] commits[i]).sha == sha {
            let i = choose|i: int| 0 <= i < commits.len() && (#[trigger] commits[i]).sha == sha;
            assert(entries[i].0 == sha);
        }
    }
    let others = pull_request_entries(pull_requests);
    lemma_written_keys(cache.pull_requests, others, number);
    assert((exists|i: int| 0 <= i < others.len() && #[trigger] others[i].0 == number) <==> (exists|
        i: int,
    | 0 <= i < pull_requests.len() && (#[trigger] pull_requests[i]).number == number)) by {
        if exists|i: int| 0 <= i < others.len() && #[trigger] others[i].0 == number {
            let i = choose|i: int| 0 <= i < others.len() && #[trigger] others[i].0 == number;
            assert(pull_requests[i].number == number);
        }
        if exists|i: int|
            0 <= i < pull_requests.len() && (#[trigger] pull_requests[i]).number == number {
            let i = choose|i: int|
                0 <= i < pull_requests.len() && (#[trigger] pull_requests[i]).number == number;
            assert(others[i].0 == number);
        }
    }
}

/// Every commit is cached under its own SHA, and every pull request under its own number.
pub open spec fn is_indexed(cache: CacheView) -> bool {
    &&& forall|sha: Seq<char>| #[trigger]
        cache.commits.contains_key(sha) ==> cache.commits[sha].sha == sha
    &&& forall|number: i64| #[trigger]
        cache.pull_requests.contains_key(number) ==> cache.pull_requests[number].number == number
}

proof fn lemma_commits_stay_indexed(
    map: Map<Seq<char>, CachedCommitView>,
    entries: Seq<(Seq<char>, CachedCommitView)>,
)
    requires
        forall|sha: Seq<char>| #[trigger] map.contains_key(sha) ==> map[sha].sha == sha,
        forall|i: int| 0 <= i < entries.len() ==> (#[trigger] entries[i]).1.sha == entries[i].0,
    ensures
        forall|sha: Seq<char>| #[trigger]
            written(map, entries).contains_key(sha) ==> written(map, entries)[sha].sha == sha,
    decreases entries.len(),
{
    if entries.len() > 0 {
        let earlier = entries.drop_last();
        assert forall|i: int| 0 <= i < earlier.len() implies (#[trigger] earlier[i]).1.sha
            == earlier[i].0 by {
            assert(earlier[i] == entries[i]);
        }
        lemma_commits_stay_indexed(map, earlier);
        assert(entries[entries.len() - 1].1.sha == entries[entries.len() - 1].0);
    }
}

proof fn lemma_pull_requests_stay_indexed(
    map: Map<i64, PullRequestView>,
    entries: Seq<(i64, PullRequestView)>,
)
    requires
        forall|number: i64| #[trigger] map.contains_key(number) ==> map[number].number == number,
        forall|i: int| 0 <= i < entries.len() ==> (#[trigger] entries[i]).1.number == entries[i].0,
    ensures
        forall|number: i64| #[trigger]
            written(map, entries).contains_key(number) ==> written(map, entries)[number].number
                == number,
    decreases entries.len(),
{
    if entries.len() > 0 {
        let earlier = entries.drop_last();
        assert forall|i: int| 0 <= i < earlier.len() implies (#[trigger] earlier[i]).1.number
            == earlier[i].0 by {
            assert(earlier[i] == entries[i]);
        }
        lemma_pull_requests_stay_indexed(map, earlier);
        assert(entries[entries.len() - 1].1.number == entries[entries.len() - 1].0);
    }
}

/// In an empty cache everything is cached under its own key, and every update keeps it so.
pub proof fn law_cache_stays_indexed(
    cache: CacheView,
    commits: Seq<CommitView>,
    pull_requests: Seq<PullRequestView>,
    timestamp: Seq<char>,
)
    requires
        is_indexed(cache),
    ensures
        is_indexed(empty_cache()),
        is_indexed(cache.with_commits(commits)),
        is_indexed(cache.with_pull_requests(pull_requests)),
        is_indexed(cache.with_timestamp(timestamp)),
{
    lemma_commits_stay_indexed(cache.commits, commit_entries(commits));
    lemma_pull_requests_stay_indexed(cache.pull_requests, pull_request_entries(pull_requests));
}

/// Where every commit is cached under its own SHA, no two of the listed commits have
/// one SHA.
pub proof fn law_listed_commits_are_distinct(cache: CacheView, commits: Seq<CommitView>)
    requires
        is_indexed(cache),
        lists_values(commits, cache.commits, |cached: CachedCommitView| remote_commit(cached)),
    ensures
        forall|i: int, j: int|
            0 <= i < j < commits.len() ==> (#[trigger] commits[i]).sha != (#[trigger]
            commits[j]).sha,
{
    let to_remote = |cached: CachedCommitView| remote_commit(cached);
    let keys = choose|keys: Seq<Seq<char>>|
        {
            &&& #[trigger] enumerates(keys, cache.commits.dom())
            &&& commits == keys.map_values(|key: Seq<char>| to_remote(cache.commits[key]))
        };
    assert forall|i: int, j: int| 0 <= i < j < commits.len() implies (#[trigger] commits[i]).sha
        != (#[trigger] commits[j]).sha by {
        assert(keys.to_set().contains(keys[i]));
        assert(keys.to_set().contains(keys[j]));
        assert(cache.commits.contains_key(keys[i]));
        assert(cache.commits.contains_key(keys[j]));
    }
}

/// Where every pull request is cached under its own number, no two of the listed pull
/// requests have one number.
pub proof fn law_listed_pull_requests_are_distinct(
    cache: CacheView,
    pull_requests: Seq<PullRequestView>,
)
    requires
        is_indexed(cache),
        lists_values(pull_requests, cache.pull_requests, |cached: PullRequestView| cached),
    ensures
        forall|i: int, j: int|
            0 <= i < j < pull_requests.len() ==> (#[trigger] pull_requests[i]).number != (
            #[trigger] pull_requests[j]).number,
{
    let same = |cached: PullRequestView| cached;
    let keys = choose|keys: Seq<i64>|
        {
            &&& #[trigger] enumerates(keys, cache.pull_requests.dom())
            &&& pull_requests == keys.map_values(|key: i64| same(cache.pull_requests[key]))
        };
    assert forall|i: int, j: int| 0 <= i < j < pull_requests.len() implies (
    #[trigger] pull_requests[i]).number != (#[trigger] pull_requests[j]).number by {
        assert(keys.to_set().contains(keys[i]));
        assert(keys.to_set().contains(keys[j]));
        assert(cache.pull_requests.contains_key(keys[i]));
        assert(cache.pull_requests.contains_key(keys[j]));
    }
}

/// As many commits and pull requests are listed as are in the cache, so that none are
/// listed just when the cache is empty.
pub proof fn law_listed_counts(
    cache: CacheView,
    commits: Seq<CommitView>,
    pull_requests: Seq<PullRequestView>,
)
    requires
        lists_values(commits, cache.commits, |cached: CachedCommitView| remote_commit(cached)),
        lists_values(pull_requests, cache.pull_requests, |cached: PullRequestView| cached),
    ensures
        commits.len() == cache.commits.len(),
        pull_requests.len() == cache.pull_requests.len(),
        commits.len() == 0 <==> cache.commits.is_empty(),
        pull_requests.len() == 0 <==> cache.pull_requests.is_empty(),
{
    lemma_list_length(commits, cache.commits, |cached: CachedCommitView| remote_commit(cached));
    lemma_list_length(pull_requests, cache.pull_requests, |cached: PullRequestView| cached);
    if commits.len() == 0 {
        assert(cache.commits.dom() =~= Set::empty());
    }
    if pull_requests.len() == 0 {
        assert(cache.pull_requests.dom() =~= Set::empty());
    }
}

/// The run behind an update asks for what is new since that update.
pub proof fn law_next_run_asks_since_the_update(
    cache: CacheView,
    timestamp: Seq<char>,
    ref_name: Option<Seq<char>>,
)
    ensures
        SyncView::start(cache.with_timestamp(timestamp), ref_name).since == Some(timestamp),
        SyncView::start(cache.with_timestamp(timestamp), ref_name).progress
            == ProgressView::Commits(CommitFetchView::start(ref_name, Some(timestamp))),
{
}

/// Without a timestamp no pull request is outdated, so that a first run takes all.
pub proof fn law_first_run_takes_all_pull_requests(pull_requests: Seq<PullRequestView>)
    ensures
        fresh_count(pull_requests, None) == pull_requests.len(),
{
    lemma_fresh_count(pull_requests, None, pull_requests.len() as int);
}

/// Where an update stands after replies to its requests for commits.
pub open spec fn sync_commits<E>(
    sync: SyncView,
    replies: Seq<Result<Seq<CommitView>, E>>,
) -> Outcome<SyncView, E>
    decreases replies.len(),
{
    if replies.len() == 0 {
        Outcome::Pending(sync)
    } else {
        match replies[0] {
            Ok(page) => if page.len() == 0 {
                Outcome::Complete(sync.after_commits(page))
            } else {
                sync_commits(sync.after_commits(page), replies.drop_first())
            },
            Err(error) => Outcome::Failed(error),
        }
    }
}

/// Where an update stands after replies to its requests for pull requests.
pub open spec fn sync_pull_requests<E>(
    sync: SyncView,
    replies: Seq<Result<Seq<PullRequestView>, E>>,
) -> Outcome<SyncView, E>
    decreases replies.len(),
{
    if replies.len() == 0 {
        Outcome::Pending(sync)
    } else {
        match replies[0] {
            Ok(page) => if sync.progress->PullRequests_0.ends_with(page) {
                Outcome::Complete(sync.after_pull_requests(page))
            } else {
                sync_pull_requests(sync.after_pull_requests(page), replies.drop_first())
            },
            Err(error) => Outcome::Failed(error),
        }
    }
}

/// Where an update stands after the replies to its requests for commits and, once it
/// has the commits, to those for pull requests.
pub open spec fn sync_run<E>(
    sync: SyncView,
    commits: Seq<Result<Seq<CommitView>, E>>,
    pull_requests: Seq<Result<Seq<PullRequestView>, E>>,
) -> Outcome<SyncView, E> {
    match sync_commits(sync, commits) {
        Outcome::Complete(sync) => sync_pull_requests(sync, pull_requests),
        other => other,
    }
}

proof fn lemma_sync_commits<E>(sync: SyncView, replies: Seq<Result<Seq<CommitView>, E>>)
    requires
        sync.progress is Commits,
    ensures
        sync_commits(sync, replies) == (match commit_run(sync.progress->Commits_0, replies) {
            Outcome::Failed(error) => Outcome::Failed(error),
            Outcome::Pending(fetch) => Outcome::Pending(
                SyncView { progress: ProgressView::Commits(fetch), ..sync },
            ),
            Outcome::Complete(fetch) => Outcome::Complete(
                SyncView {
                    cache: sync.cache.with_commits(fetch.commits),
                    progress: ProgressView::PullRequests(PullRequestFetchView::start(sync.since)),
                    ..sync
                },
            ),
        }),
    decreases replies.len(),
{
    if replies.len() > 0 {
        if let Ok(page) = replies[0] {
            if page.len() > 0 {
                lemma_sync_commits(sync.after_commits(page), replies.drop_first());
            }
        }
    }
}

proof fn lemma_sync_pull_requests<E>(
    sync: SyncView,
    replies: Seq<Result<Seq<PullRequestView>, E>>,
)
    requires
        sync.progress is PullRequests,
    ensures
        sync_pull_requests(sync, replies) == (match pull_request_run(
            sync.progress->PullRequests_0,
            replies,
        ) {
            Outcome::Failed(error) => Outcome::Failed(error),
            Outcome::Pending(fetch) => Outcome::Pending(
                SyncView { progress: ProgressView::PullRequests(fetch), ..sync },
            ),
            Outcome::Complete(fetch) => Outcome::Complete(
                SyncView {
                    cache: sync.cache.with_pull_requests(fetch.pull_requests),
                    progress: ProgressView::Merged,
                    ..sync
                },
            ),
        }),
    decreases replies.len(),
{
    if replies.len() > 0 {
        if let Ok(page) = replies[0] {
            if !sync.progress->PullRequests_0.ends_with(page) {
                lemma_sync_pull_requests(sync.after_pull_requests(page), replies.drop_first());
            }
        }
    }
}

/// An update that gets all its replies writes to the cache the commits of all pages
/// up to the first empty one, and the pull requests of all pages up to the first that
/// was last updated before the cache, or else up to the first empty page.
pub proof fn law_update_merges_what_is_new<E>(
    cache: CacheView,
    ref_name: Option<Seq<char>>,
    commits: Seq<Result<Seq<CommitView>, E>>,
    pull_requests: Seq<Result<Seq<PullRequestView>, E>>,
)
    requires
        read_end(commits) is Empty,
        read_end(pull_requests) is Empty || fresh_count(
            entries_read(pull_requests),
            cache.last_updated,
        ) < entries_read(pull_requests).len(),
    ensures
        sync_run(SyncView::start(cache, ref_name), commits, pull_requests)
            == Outcome::<SyncView, E>::Complete(
            SyncView {
                cache: cache.with_commits(entries_read(commits)).with_pull_requests(
                    entries_read(pull_requests).take(
                        fresh_count(entries_read(pull_requests), cache.last_updated) as int,
                    ),
                ),
                since: cache.last_updated,
                progress: ProgressView::Merged,
            },
        ),
{
    let start = SyncView::start(cache, ref_name);
    lemma_sync_commits(start, commits);
    law_commit_fetch_gets_all_pages(start.progress->Commits_0, commits);
    assert(Seq::<CommitView>::empty() + entries_read(commits) =~= entries_read(commits));
    let next = SyncView {
        cache: cache.with_commits(entries_read(commits)),
        progress: ProgressView::PullRequests(PullRequestFetchView::start(cache.last_updated)),
        ..start
    };
    lemma_sync_pull_requests(next, pull_requests);
    law_pull_request_fetch_stops_at_outdated(next.progress->PullRequests_0, pull_requests);
    let taken = entries_read(pull_requests).take(
        fresh_count(entries_read(pull_requests), cache.last_updated) as int,
    );
    assert(Seq::<PullRequestView>::empty() + taken =~= taken);
}

/// Where the API sorts the pull requests by their last update, in one order with the
/// time of the last run, the cache that comes of an update holds every commit that was
/// listed and every pull request that was listed and is not outdated.
pub proof fn law_update_misses_nothing(
    cache: CacheView,
    commits: Seq<CommitView>,
    pull_requests: Seq<PullRequestView>,
    i: int,
    j: int,
)
    requires
        is_sorted_by_update(pull_requests),
        cache.last_updated is Some ==> in_one_order(pull_requests, cache.last_updated->0),
        0 <= i < commits.len(),
        0 <= j < pull_requests.len(),
        !is_outdated(pull_requests[j], cache.last_updated),
    ensures
        ({
            let updated = cache.with_commits(commits).with_pull_requests(
                pull_requests.take(fresh_count(pull_requests, cache.last_updated) as int),
            );
            &&& updated.commits.contains_key(commits[i].sha)
            &&& updated.pull_requests.contains_key(pull_requests[j].number)
        }),
{
    lemma_fresh_prefix(pull_requests, cache.last_updated);
    let taken = pull_requests.take(fresh_count(pull_requests, cache.last_updated) as int);
    law_early_stop_misses_nothing(pull_requests, cache.last_updated, j);
    assert(taken[j] == pull_requests[j]);
    law_cache_holds_old_and_new(
        cache,
        commits,
        taken,
        commits[i].sha,
        pull_requests[j].number,
    );
}

/// Where the API sorts the pull requests by their last update and all timestamps can be
/// read, the cache that comes of an update holds every pull request that was listed and
/// was last updated at no instant before that of the last run.
pub proof fn law_update_misses_no_instant(
    cache: CacheView,
    commits: Seq<CommitView>,
    pull_requests: Seq<PullRequestView>,
    j: int,
)
    requires
        is_sorted_by_update(pull_requests),
        cache.last_updated is Some,
        rfc3339_nanos(cache.last_updated->0) is Some,
        is_read_alike(pull_requests, cache.last_updated->0),
        0 <= j < pull_requests.len(),
        rfc3339_nanos(pull_requests[j].updated_at->0)->0 >= rfc3339_nanos(
            cache.last_updated->0,
        )->0,
    ensures
        cache.with_commits(commits).with_pull_requests(
            pull_requests.take(fresh_count(pull_requests, cache.last_updated) as int),
        ).pull_requests.contains_key(pull_requests[j].number),
{
    lemma_fresh_prefix(pull_requests, cache.last_updated);
    let taken = pull_requests.take(fresh_count(pull_requests, cache.last_updated) as int);
    law_early_stop_misses_no_instant(pull_requests, cache.last_updated->0, j);
    assert(taken[j] == pull_requests[j]);
    law_cache_holds_old_and_new(cache, commits, taken, Seq::empty(), pull_requests[j].number);
}

/// An update fails with the first error among the replies that it waits for.
pub proof fn law_update_fails_with_the_first_error<E>(
    cache: CacheView,
    ref_name: Option<Seq<char>>,
    commits: Seq<Result<Seq<CommitView>, E>>,
    pull_requests: Seq<Result<Seq<PullRequestView>, E>>,
)
    ensures
        read_end(commits) matches ReadEnd::Failed(error) ==> sync_run(
            SyncView::start(cache, ref_name),
            commits,
            pull_requests,
        ) == Outcome::<SyncView, E>::Failed(error),
        read_end(commits) is Empty && fresh_count(entries_read(pull_requests), cache.last_updated)
            >= entries_read(pull_requests).len() ==> (read_end(pull_requests) matches ReadEnd::Failed(
            error,
        ) ==> sync_run(SyncView::start(cache, ref_name), commits, pull_requests)
            == Outcome::<SyncView, E>::Failed(error)),
{
    let start = SyncView::start(cache, ref_name);
    lemma_sync_commits(start, commits);
    law_commit_fetch_gets_all_pages(start.progress->Commits_0, commits);
    assert(Seq::<CommitView>::empty() + entries_read(commits) =~= entries_read(commits));
    let next = SyncView {
        cache: cache.with_commits(entries_read(commits)),
        progress: ProgressView::PullRequests(PullRequestFetchView::start(cache.last_updated)),
        ..start
    };
    lemma_sync_pull_requests(next, pull_requests);
    law_pull_request_fetch_stops_at_outdated(next.progress->PullRequests_0, pull_requests);
}

/// What stands between the same two sequences in two equal ones is the same.
pub proof fn lemma_same_around<T>(before: Seq<T>, a: Seq<T>, b: Seq<T>, behind: Seq<T>)
    requires
        before + a + behind == before + b + behind,
    ensures
        a == b,
{
    let left = before + a + behind;
    let right = before + b + behind;
    assert(left.len() == right.len());
    assert(a =~= left.subrange(before.len() as int, (before.len() + a.len()) as int));
    assert(b =~= right.subrange(before.len() as int, (before.len() + b.len()) as int));
}

proof fn lemma_page_can_be_read(
    api_url: Seq<char>,
    remote: Remote,
    listing: Seq<char>,
    first: int,
    second: int,
    behind: Seq<char>,
)
    requires
        page_url_text(api_url, remote, listing, first) + behind == page_url_text(
            api_url,
            remote,
            listing,
            second,
        ) + behind,
    ensures
        first == second,
{
    let before = api_url + "/repos/"@ + remote.owner@ + "/"@ + remote.repo@ + "/"@ + listing
        + "?per_page="@ + decimal(MAX_PAGE_SIZE as nat) + "&page="@;
    lemma_same_around(
        before,
        integer_text(first),
        integer_text(second),
        behind,
    );
    lemma_integer_text_is_injective(first, second);
}

/// Different pages of one listing have different URLs.
pub proof fn law_pages_have_different_urls(
    api_url: Seq<char>,
    remote: Remote,
    ref_name: Option<Seq<char>>,
    since: Option<Seq<char>>,
    first: int,
    second: int,
)
    requires
        first != second,
    ensures
        commits_url_text(api_url, remote, ref_name, first, since) != commits_url_text(
            api_url,
            remote,
            ref_name,
            second,
            since,
        ),
        pull_requests_url_text(api_url, remote, first) != pull_requests_url_text(
            api_url,
            remote,
            second,
        ),
        pull_requests_url_sorted_text(api_url, remote, first, since)
            != pull_requests_url_sorted_text(api_url, remote, second, since),
{
    let parameters = parameter_text("sha"@, ref_name) + parameter_text(
        "since"@,
        encoded_text(since),
    );
    let sorting = "&state=closed"@ + "&sort=updated&direction=desc"@ + parameter_text(
        "since"@,
        encoded_text(since),
    );
    let commits = |page: int| page_url_text(api_url, remote, "commits"@, page);
    let pulls = |page: int| page_url_text(api_url, remote, "pulls"@, page);
    assert(commits_url_text(api_url, remote, ref_name, first, since) =~= commits(first)
        + parameters);
    assert(commits_url_text(api_url, remote, ref_name, second, since) =~= commits(second)
        + parameters);
    assert(pull_requests_url_sorted_text(api_url, remote, first, since) =~= pulls(first)
        + sorting);
    assert(pull_requests_url_sorted_text(api_url, remote, second, since) =~= pulls(second)
        + sorting);
    if commits(first) + parameters == commits(second) + parameters {
        lemma_page_can_be_read(api_url, remote, "commits"@, first, second, parameters);
    }
    if pulls(first) + "&state=closed"@ == pulls(second) + "&state=closed"@ {
        lemma_page_can_be_read(api_url, remote, "pulls"@, first, second, "&state=closed"@);
    }
    if pulls(first) + sorting == pulls(second) + sorting {
        lemma_page_can_be_read(api_url, remote, "pulls"@, first, second, sorting);
    }
}

/// Without a timestamp the URL of a page of commits has no parameter for one, and the
/// sorted listing of pull requests is the plain one with the sorting behind it.
pub proof fn law_urls_without_timestamp(
    api_url: Seq<char>,
    remote: Remote,
    ref_name: Option<Seq<char>>,
    page: int,
)
    ensures
        commits_url_text(api_url, remote, ref_name, page, None) == page_url_text(
            api_url,
            remote,
            "commits"@,
            page,
        ) + parameter_text("sha"@, ref_name),
        pull_requests_url_sorted_text(api_url, remote, page, None) == pull_requests_url_text(
            api_url,
            remote,
            page,
        ) + "&sort=updated&direction=desc"@,
{
    assert(commits_url_text(api_url, remote, ref_name, page, None) =~= page_url_text(
        api_url,
        remote,
        "commits"@,
        page,
    ) + parameter_text("sha"@, ref_name));
    assert(pull_requests_url_sorted_text(api_url, remote, page, None) =~= pull_requests_url_text(
        api_url,
        remote,
        page,
    ) + "&sort=updated&direction=desc"@);
}

/// Different timestamps give different URLs.
pub proof fn law_timestamps_have_different_urls(
    api_url: Seq<char>,
    remote: Remote,
    ref_name: Option<Seq<char>>,
    page: int,
    first: Seq<char>,
    second: Seq<char>,
)
    requires
        first != second,
    ensures
        commits_url_text(api_url, remote, ref_name, page, Some(first)) != commits_url_text(
            api_url,
            remote,
            ref_name,
            page,
            Some(second),
        ),
{
    let before = page_url_text(api_url, remote, "commits"@, page) + parameter_text(
        "sha"@,
        ref_name,
    ) + ("&"@ + "since"@ + "="@);
    let a = encoded_text(Some(first))->0;
    let b = encoded_text(Some(second))->0;
    let none = Seq::<char>::empty();
    assert(commits_url_text(api_url, remote, ref_name, page, Some(first)) =~= before + a + none);
    assert(commits_url_text(api_url, remote, ref_name, page, Some(second)) =~= before + b + none);
    if before + a + none == before + b + none {
        lemma_same_around(before, a, b, none);
        lemma_percent_encoded_is_injective(encode_utf8(first), encode_utf8(second));
        encode_utf8_decode_utf8(first);
        encode_utf8_decode_utf8(second);
    }
}

} // verus!
