//! What the cache holds, entry by entry, and what comes out of it.

use crate::remote::cache::{
    cached_commit, commit_entries, empty_cache, loaded, pull_request_entries, records,
    remote_commit, restored, update_text, CacheFile, CacheRecord, CacheRecordView, CacheView,
    CachedCommit, CachedCommitView, CachedPullRequest, GitHubCache,
};
use crate::remote::clock::rfc3339_text;
use crate::remote::github::{
    commit_views, pull_request_views, CommitView, GitHubCommit, GitHubPullRequest,
    PullRequestView,
};
use crate::remote::laws::{
    is_indexed, law_cache_holds_old_and_new, law_cache_stays_indexed, law_last_commit_wins,
    law_last_pull_request_wins, law_listed_counts,
};
use crate::remote::listing::{
    enumerates, lemma_last_write_wins, lemma_written_keys, lists_entries, lists_values,
};
use crate::remote::sync::SyncedCache;
use vstd::prelude::*;

verus! {

/// What a commit says is in its fields: the SHA, the login of the author where there
/// is an author, and the date where there are details.
pub proof fn law_commit_says_what_its_fields_hold(commit: GitHubCommit)
    ensures
        commit@.sha == commit.sha@,
        commit@.author is Some <==> commit.author is Some,
        commit.author is Some ==> (commit@.author->0 is Some <==> commit.author->0.login is Some),
        commit.author is Some && commit.author->0.login is Some ==> commit@.author->0->0
            == commit.author->0.login->0@,
        commit@.date is Some <==> commit.commit is Some,
        commit.commit is Some ==> commit@.date->0 == commit.commit->0.author.date@,
{
}

/// The username of a commit is the login of its author, and there is none without an
/// author or without a login.
pub proof fn law_username_is_the_login(sha: Seq<char>, date: Option<Seq<char>>, login: Seq<char>)
    ensures
        (CommitView { sha, author: Some(Some(login)), date }).username() == Some(login),
        (CommitView { sha, author: Some(None), date }).username() == None::<Seq<char>>,
        (CommitView { sha, author: None, date }).username() == None::<Seq<char>>,
{
}

/// What a pull request says is in its fields.
pub proof fn law_pull_request_says_what_its_fields_hold(pull_request: GitHubPullRequest)
    ensures
        pull_request@.number == pull_request.number,
        pull_request@.title is Some <==> pull_request.title is Some,
        pull_request.title is Some ==> pull_request@.title->0 == pull_request.title->0@,
        pull_request@.merge_commit_sha is Some <==> pull_request.merge_commit_sha is Some,
        pull_request.merge_commit_sha is Some ==> pull_request@.merge_commit_sha->0
            == pull_request.merge_commit_sha->0@,
        pull_request@.labels.len() == pull_request.labels@.len(),
        forall|i: int|
            0 <= i < pull_request.labels@.len() ==> #[trigger] pull_request@.labels[i]
                == pull_request.labels@[i].name@,
        pull_request@.updated_at is Some <==> pull_request.updated_at is Some,
        pull_request.updated_at is Some ==> pull_request@.updated_at->0
            == pull_request.updated_at->0@,
{
}

/// Commits and pull requests are viewed one by one, in their order.
pub proof fn law_entries_are_viewed_one_by_one(
    commits: Seq<GitHubCommit>,
    pull_requests: Seq<GitHubPullRequest>,
)
    ensures
        commit_views(commits).len() == commits.len(),
        forall|i: int| 0 <= i < commits.len() ==> #[trigger] commit_views(commits)[i] == commits[i]@,
        pull_request_views(pull_requests).len() == pull_requests.len(),
        forall|i: int|
            0 <= i < pull_requests.len() ==> #[trigger] pull_request_views(pull_requests)[i]
                == pull_requests[i]@,
{
}

/// What a cached commit says is in its fields.
pub proof fn law_cached_commit_says_what_its_fields_hold(cached: CachedCommit)
    ensures
        cached@.sha == cached.sha@,
        cached@.author_login is Some <==> cached.author_login is Some,
        cached.author_login is Some ==> cached@.author_login->0 == cached.author_login->0@,
        cached@.date is Some <==> cached.date is Some,
        cached.date is Some ==> cached@.date->0 == cached.date->0@,
{
}

/// What a cached pull request says is in its fields.
pub proof fn law_cached_pull_request_says_what_its_fields_hold(cached: CachedPullRequest)
    ensures
        cached@.number == cached.number,
        cached@.title is Some <==> cached.title is Some,
        cached.title is Some ==> cached@.title->0 == cached.title->0@,
        cached@.merge_commit_sha is Some <==> cached.merge_commit_sha is Some,
        cached.merge_commit_sha is Some ==> cached@.merge_commit_sha->0
            == cached.merge_commit_sha->0@,
        cached@.labels.len() == cached.labels@.len(),
        forall|i: int|
            0 <= i < cached.labels@.len() ==> #[trigger] cached@.labels[i] == cached.labels@[i]@,
        cached@.updated_at is Some <==> cached.updated_at is Some,
        cached.updated_at is Some ==> cached@.updated_at->0 == cached.updated_at->0@,
{
}

/// What a cache holds is in its maps, each entry under its key, and in its timestamp.
pub proof fn law_cache_holds_what_its_maps_hold(cache: GitHubCache)
    ensures
        cache@.last_updated is Some <==> cache.last_updated is Some,
        cache.last_updated is Some ==> cache@.last_updated->0 == cache.last_updated->0@,
        cache@.commits.dom() == cache.commits@.dom(),
        forall|sha: Seq<char>| #[trigger]
            cache.commits@.contains_key(sha) ==> cache@.commits[sha] == cache.commits@[sha]@,
        cache@.pull_requests.dom() == cache.pull_requests@.dom(),
        forall|number: i64| #[trigger]
            cache.pull_requests@.contains_key(number) ==> cache@.pull_requests[number]
                == cache.pull_requests@[number]@,
{
    assert(cache@.commits.dom() =~= cache.commits@.dom());
    assert(cache@.pull_requests.dom() =~= cache.pull_requests@.dom());
}

/// What a record holds is in its lists, in their order, and in its timestamp.
pub proof fn law_record_holds_what_its_lists_hold(record: CacheRecord)
    ensures
        record@.last_updated is Some <==> record.last_updated is Some,
        record.last_updated is Some ==> record@.last_updated->0 == record.last_updated->0@,
        record@.commits.len() == record.commits@.len(),
        forall|i: int|
            0 <= i < record.commits@.len() ==> (#[trigger] record@.commits[i]).0
                == record.commits@[i].0@ && record@.commits[i].1 == record.commits@[i].1@,
        record@.pull_requests.len() == record.pull_requests@.len(),
        forall|i: int|
            0 <= i < record.pull_requests@.len() ==> (#[trigger] record@.pull_requests[i]).0
                == record.pull_requests@[i].0 && record@.pull_requests[i].1
                == record.pull_requests@[i].1@,
{
}

/// The cache keeps of a commit its SHA, the login of its author and its date, each as
/// it is.
pub proof fn law_cache_keeps_sha_login_and_date(
    sha: Seq<char>,
    login: Seq<char>,
    date: Option<Seq<char>>,
)
    ensures
        cached_commit(CommitView { sha, author: Some(Some(login)), date }) == (CachedCommitView {
            sha,
            author_login: Some(login),
            date,
        }),
        cached_commit(CommitView { sha, author: Some(None), date }) == (CachedCommitView {
            sha,
            author_login: None,
            date,
        }),
        cached_commit(CommitView { sha, author: None, date }) == (CachedCommitView {
            sha,
            author_login: None,
            date,
        }),
        remote_commit(CachedCommitView { sha, author_login: Some(login), date }) == (CommitView {
            sha,
            author: Some(Some(login)),
            date,
        }),
        remote_commit(CachedCommitView { sha, author_login: None, date }) == (CommitView {
            sha,
            author: None,
            date,
        }),
{
}

/// Recording an update changes the timestamp and leaves the commits and the pull
/// requests as they were, however many there are.
pub proof fn law_recording_an_update_keeps_the_entries(cache: CacheView, timestamp: Seq<char>)
    ensures
        cache.with_timestamp(timestamp).last_updated == Some(timestamp),
        cache.with_timestamp(timestamp).commits == cache.commits,
        cache.with_timestamp(timestamp).pull_requests == cache.pull_requests,
{
}

/// The text of an update is the RFC 3339 text of its instant in the years 0 to 9999,
/// and empty in the years before.
pub proof fn law_update_is_recorded_by_its_instant(unix_nanos: int)
    ensures
        -62_167_219_200_000_000_000 <= unix_nanos <= 253_402_300_799_999_999_999 ==> update_text(
            unix_nanos,
        ) == rfc3339_text(unix_nanos),
        unix_nanos < -62_167_219_200_000_000_000 ==> update_text(unix_nanos).len() == 0,
{
}

/// Writing no commits changes nothing, and writing one more puts its SHA, the login of
/// its author and its date under its SHA.
pub proof fn law_commits_are_written_one_by_one(
    cache: CacheView,
    commits: Seq<CommitView>,
    sha: Seq<char>,
    author: Option<Option<Seq<char>>>,
    date: Option<Seq<char>>,
)
    ensures
        cache.with_commits(Seq::empty()) == cache,
        ({
            let before = cache.with_commits(commits);
            let after = cache.with_commits(commits.push(CommitView { sha, author, date }));
            &&& after.commits == before.commits.insert(
                sha,
                CachedCommitView {
                    sha,
                    author_login: if author is Some {
                        author->0
                    } else {
                        None
                    },
                    date,
                },
            )
            &&& after.pull_requests == cache.pull_requests
            &&& after.last_updated == cache.last_updated
        }),
{
    let more = commits.push(CommitView { sha, author, date });
    assert(commit_entries(more).drop_last() =~= commit_entries(commits));
    assert(cache.with_commits(Seq::empty()) =~= cache);
}

/// Writing no pull requests changes nothing, and writing one more puts it, as it is,
/// under its number.
pub proof fn law_pull_requests_are_written_one_by_one(
    cache: CacheView,
    pull_requests: Seq<PullRequestView>,
    pull_request: PullRequestView,
)
    ensures
        cache.with_pull_requests(Seq::empty()) == cache,
        ({
            let before = cache.with_pull_requests(pull_requests);
            let after = cache.with_pull_requests(pull_requests.push(pull_request));
            &&& after.pull_requests == before.pull_requests.insert(
                pull_request.number,
                pull_request,
            )
            &&& after.commits == cache.commits
            &&& after.last_updated == cache.last_updated
        }),
{
    let more = pull_requests.push(pull_request);
    assert(pull_request_entries(more).drop_last() =~= pull_request_entries(pull_requests));
    assert(cache.with_pull_requests(Seq::empty()) =~= cache);
}

/// Where there is no cache file, or none that can be opened, read and parsed, the cache
/// is empty and has no timestamp, as that of a first run has none.
pub proof fn law_without_a_cache_file_the_cache_is_empty(file: CacheFile)
    requires
        !(file is Parsed),
    ensures
        loaded(file).last_updated is None,
        loaded(file).commits == Map::<Seq<char>, CachedCommitView>::empty(),
        loaded(file).pull_requests == Map::<i64, PullRequestView>::empty(),
        empty_cache().last_updated is None,
        empty_cache().commits == Map::<Seq<char>, CachedCommitView>::empty(),
        empty_cache().pull_requests == Map::<i64, PullRequestView>::empty(),
{
}

/// A cache that is loaded from a record has its timestamp, and exactly the keys of its
/// entries.
pub proof fn law_loaded_cache_has_the_keys_of_the_record(
    record: CacheRecord,
    sha: Seq<char>,
    number: i64,
)
    ensures
        loaded(CacheFile::Parsed(record)).last_updated == record@.last_updated,
        loaded(CacheFile::Parsed(record)).commits.contains_key(sha) <==> exists|i: int|
            0 <= i < record.commits@.len() && (#[trigger] record.commits@[i]).0@ == sha,
        loaded(CacheFile::Parsed(record)).pull_requests.contains_key(number) <==> exists|i: int|
            0 <= i < record.pull_requests@.len() && (#[trigger] record.pull_requests@[i]).0
                == number,
{
    let commits = record@.commits;
    lemma_written_keys(Map::<Seq<char>, CachedCommitView>::empty(), commits, sha);
    if exists|i: int| 0 <= i < commits.len() && #[trigger] commits[i].0 == sha {
        let i = choose|i: int| 0 <= i < commits.len() && #[trigger] commits[i].0 == sha;
        assert(record.commits@[i].0@ == sha);
    }
    if exists|i: int| 0 <= i < record.commits@.len() && (#[trigger] record.commits@[i]).0@ == sha {
        let i = choose|i: int|
            0 <= i < record.commits@.len() && (#[trigger] record.commits@[i]).0@ == sha;
        assert(commits[i].0 == sha);
    }
    let pull_requests = record@.pull_requests;
    lemma_written_keys(Map::<i64, PullRequestView>::empty(), pull_requests, number);
    if exists|i: int| 0 <= i < pull_requests.len() && #[trigger] pull_requests[i].0 == number {
        let i = choose|i: int|
            0 <= i < pull_requests.len() && #[trigger] pull_requests[i].0 == number;
        assert(record.pull_requests@[i].0 == number);
    }
    if exists|i: int|
        0 <= i < record.pull_requests@.len() && (#[trigger] record.pull_requests@[i]).0 == number {
        let i = choose|i: int|
            0 <= i < record.pull_requests@.len() && (#[trigger] record.pull_requests@[i]).0
                == number;
        assert(pull_requests[i].0 == number);
    }
}

/// A cache that is loaded from a record has under each SHA the last commit with the SHA.
pub proof fn law_loaded_cache_has_the_commits_of_the_record(record: CacheRecordView, i: int)
    requires
        0 <= i < record.commits.len(),
        forall|k: int|
            i < k < record.commits.len() ==> #[trigger] record.commits[k].0 != record.commits[i].0,
    ensures
        restored(record).commits.contains_key(record.commits[i].0),
        restored(record).commits[record.commits[i].0] == record.commits[i].1,
{
    lemma_last_write_wins(Map::<Seq<char>, CachedCommitView>::empty(), record.commits, i);
}

/// A cache that is loaded from a record has under each number the last pull request with
/// the number.
pub proof fn law_loaded_cache_has_the_pull_requests_of_the_record(
    record: CacheRecordView,
    i: int,
)
    requires
        0 <= i < record.pull_requests.len(),
        forall|k: int|
            i < k < record.pull_requests.len() ==> #[trigger] record.pull_requests[k].0
                != record.pull_requests[i].0,
    ensures
        restored(record).pull_requests.contains_key(record.pull_requests[i].0),
        restored(record).pull_requests[record.pull_requests[i].0] == record.pull_requests[i].1,
{
    lemma_last_write_wins(Map::<i64, PullRequestView>::empty(), record.pull_requests, i);
}

proof fn lemma_listed_entries<K, V>(entries: Seq<(K, V)>, map: Map<K, V>)
    requires
        lists_entries(entries, map),
    ensures
        forall|i: int|
            0 <= i < entries.len() ==> map.contains_key((#[trigger] entries[i]).0)
                && map[entries[i].0] == entries[i].1,
        forall|key: K| #[trigger]
            map.contains_key(key) ==> exists|i: int|
                0 <= i < entries.len() && #[trigger] entries[i].0 == key,
        forall|i: int, j: int|
            0 <= i < j < entries.len() ==> (#[trigger] entries[i]).0 != (#[trigger] entries[j]).0,
{
    let keys = choose|keys: Seq<K>|
        {
            &&& #[trigger] enumerates(keys, map.dom())
            &&& entries == keys.map_values(|key: K| (key, map[key]))
        };
    assert forall|i: int| 0 <= i < entries.len() implies map.contains_key(
        (#[trigger] entries[i]).0,
    ) && map[entries[i].0] == entries[i].1 by {
        assert(keys.to_set().contains(keys[i]));
    }
    assert forall|key: K| #[trigger] map.contains_key(key) implies exists|i: int|
        0 <= i < entries.len() && #[trigger] entries[i].0 == key by {
        assert(keys.to_set().contains(key));
        let i = choose|i: int| 0 <= i < keys.len() && keys[i] == key;
        assert(entries[i].0 == key);
    }
    assert forall|i: int, j: int| 0 <= i < j < entries.len() implies (#[trigger] entries[i]).0 != (
    #[trigger] entries[j]).0 by {
        assert(keys[i] != keys[j]);
    }
}

/// A record of a cache has its timestamp, and each of its entries once, under its key.
pub proof fn law_record_has_every_entry_once(record: CacheRecordView, cache: CacheView)
    requires
        records(record, cache),
    ensures
        record.last_updated == cache.last_updated,
        forall|i: int|
            0 <= i < record.commits.len() ==> cache.commits.contains_key(
                (#[trigger] record.commits[i]).0,
            ) && cache.commits[record.commits[i].0] == record.commits[i].1,
        forall|sha: Seq<char>| #[trigger]
            cache.commits.contains_key(sha) ==> exists|i: int|
                0 <= i < record.commits.len() && #[trigger] record.commits[i].0 == sha,
        forall|i: int, j: int|
            0 <= i < j < record.commits.len() ==> (#[trigger] record.commits[i]).0 != (
            #[trigger] record.commits[j]).0,
        forall|i: int|
            0 <= i < record.pull_requests.len() ==> cache.pull_requests.contains_key(
                (#[trigger] record.pull_requests[i]).0,
            ) && cache.pull_requests[record.pull_requests[i].0] == record.pull_requests[i].1,
        forall|number: i64| #[trigger]
            cache.pull_requests.contains_key(number) ==> exists|i: int|
                0 <= i < record.pull_requests.len() && #[trigger] record.pull_requests[i].0
                    == number,
        forall|i: int, j: int|
            0 <= i < j < record.pull_requests.len() ==> (#[trigger] record.pull_requests[i]).0 != (
            #[trigger] record.pull_requests[j]).0,
{
    lemma_listed_entries(record.commits, cache.commits);
    lemma_listed_entries(record.pull_requests, cache.pull_requests);
}

proof fn lemma_position_of_key<K, V, W>(
    values: Seq<W>,
    map: Map<K, V>,
    to: spec_fn(V) -> W,
    key: K,
) -> (i: int)
    requires
        lists_values(values, map, to),
        map.contains_key(key),
    ensures
        0 <= i < values.len(),
        values[i] == to(map[key]),
{
    let keys = choose|keys: Seq<K>|
        {
            &&& #[trigger] enumerates(keys, map.dom())
            &&& values == keys.map_values(|key: K| to(map[key]))
        };
    assert(keys.to_set().contains(key));
    choose|i: int| 0 <= i < keys.len() && keys[i] == key
}

proof fn lemma_key_of_position<K, V, W>(
    values: Seq<W>,
    map: Map<K, V>,
    to: spec_fn(V) -> W,
    i: int,
) -> (key: K)
    requires
        lists_values(values, map, to),
        0 <= i < values.len(),
    ensures
        map.contains_key(key),
        values[i] == to(map[key]),
{
    let keys = choose|keys: Seq<K>|
        {
            &&& #[trigger] enumerates(keys, map.dom())
            &&& values == keys.map_values(|key: K| to(map[key]))
        };
    assert(keys.to_set().contains(keys[i]));
    keys[i]
}

/// Every cached commit is listed, with its SHA, its author's login and its date.
pub proof fn law_every_cached_commit_is_listed(
    cache: CacheView,
    commits: Seq<CommitView>,
    key: Seq<char>,
)
    requires
        lists_values(commits, cache.commits, |cached: CachedCommitView| remote_commit(cached)),
        cache.commits.contains_key(key),
    ensures
        exists|i: int|
            0 <= i < commits.len() && (#[trigger] commits[i]).sha == cache.commits[key].sha
                && commits[i].author == (match cache.commits[key].author_login {
                Some(login) => Some(Some(login)),
                None => None,
            }) && commits[i].date == cache.commits[key].date,
{
    let to_remote = |cached: CachedCommitView| remote_commit(cached);
    let i = lemma_position_of_key(commits, cache.commits, to_remote, key);
    assert(commits[i].sha == cache.commits[key].sha);
}

/// No commit is listed but those that are cached.
pub proof fn law_only_cached_commits_are_listed(
    cache: CacheView,
    commits: Seq<CommitView>,
    i: int,
)
    requires
        lists_values(commits, cache.commits, |cached: CachedCommitView| remote_commit(cached)),
        0 <= i < commits.len(),
    ensures
        exists|key: Seq<char>| #[trigger]
            cache.commits.contains_key(key) && commits[i].sha == cache.commits[key].sha
                && commits[i].author == (match cache.commits[key].author_login {
                Some(login) => Some(Some(login)),
                None => None,
            }) && commits[i].date == cache.commits[key].date,
{
    let to_remote = |cached: CachedCommitView| remote_commit(cached);
    let key = lemma_key_of_position(commits, cache.commits, to_remote, i);
    assert(cache.commits.contains_key(key));
}

/// Every cached pull request is listed, as it is.
pub proof fn law_every_cached_pull_request_is_listed(
    cache: CacheView,
    pull_requests: Seq<PullRequestView>,
    number: i64,
)
    requires
        lists_values(pull_requests, cache.pull_requests, |cached: PullRequestView| cached),
        cache.pull_requests.contains_key(number),
    ensures
        pull_requests.contains(cache.pull_requests[number]),
{
    let same = |cached: PullRequestView| cached;
    let i = lemma_position_of_key(pull_requests, cache.pull_requests, same, number);
    assert(pull_requests[i] == cache.pull_requests[number]);
}

/// No pull request is listed but those that are cached.
pub proof fn law_only_cached_pull_requests_are_listed(
    cache: CacheView,
    pull_requests: Seq<PullRequestView>,
    i: int,
)
    requires
        lists_values(pull_requests, cache.pull_requests, |cached: PullRequestView| cached),
        0 <= i < pull_requests.len(),
    ensures
        exists|number: i64| #[trigger]
            cache.pull_requests.contains_key(number) && pull_requests[i]
                == cache.pull_requests[number],
{
    let same = |cached: PullRequestView| cached;
    let number = lemma_key_of_position(pull_requests, cache.pull_requests, same, i);
    assert(cache.pull_requests.contains_key(number));
}

/// The lists beside a cache that was brought up to date are as long as the cache is large,
/// and have every cached commit and every cached pull request.
pub proof fn law_synced_cache_is_listed(synced: SyncedCache, key: Seq<char>, number: i64)
    requires
        synced.lists_cache(),
    ensures
        synced.commits@.len() == synced.cache@.commits.len(),
        synced.pull_requests@.len() == synced.cache@.pull_requests.len(),
        synced.cache@.commits.contains_key(key) ==> exists|i: int|
            0 <= i < synced.commits@.len() && (#[trigger] synced.commits@[i])@.sha
                == synced.cache@.commits[key].sha && synced.commits@[i]@.username()
                == synced.cache@.commits[key].author_login && synced.commits@[i]@.date
                == synced.cache@.commits[key].date,
        synced.cache@.pull_requests.contains_key(number) ==> exists|i: int|
            0 <= i < synced.pull_requests@.len() && (#[trigger] synced.pull_requests@[i])@
                == synced.cache@.pull_requests[number],
{
    let cache = synced.cache@;
    let commits = commit_views(synced.commits@);
    let pull_requests = pull_request_views(synced.pull_requests@);
    law_listed_counts(cache, commits, pull_requests);
    if cache.commits.contains_key(key) {
        let to_remote = |cached: CachedCommitView| remote_commit(cached);
        let i = lemma_position_of_key(commits, cache.commits, to_remote, key);
        assert(synced.commits@[i]@ == commits[i]);
    }
    if cache.pull_requests.contains_key(number) {
        let same = |cached: PullRequestView| cached;
        let i = lemma_position_of_key(pull_requests, cache.pull_requests, same, number);
        assert(synced.pull_requests@[i]@ == pull_requests[i]);
    }
}

/// What a finished update lists: the commits that were cached and those that are new,
/// and no others, and likewise the pull requests, whatever the time that is recorded.
pub proof fn law_finished_update_lists_old_and_new(
    cache: CacheView,
    new_commits: Seq<CommitView>,
    new_pull_requests: Seq<PullRequestView>,
    timestamp: Seq<char>,
    commits: Seq<CommitView>,
    pull_requests: Seq<PullRequestView>,
    sha: Seq<char>,
    number: i64,
)
    requires
        is_indexed(cache),
        lists_values(
            commits,
            cache.with_commits(new_commits).with_pull_requests(new_pull_requests).with_timestamp(
                timestamp,
            ).commits,
            |cached: CachedCommitView| remote_commit(cached),
        ),
        lists_values(
            pull_requests,
            cache.with_commits(new_commits).with_pull_requests(new_pull_requests).with_timestamp(
                timestamp,
            ).pull_requests,
            |cached: PullRequestView| cached,
        ),
    ensures
        (exists|i: int| 0 <= i < commits.len() && (#[trigger] commits[i]).sha == sha)
            <==> cache.commits.contains_key(sha) || exists|i: int|
            0 <= i < new_commits.len() && (#[trigger] new_commits[i]).sha == sha,
        (exists|i: int| 0 <= i < pull_requests.len() && (#[trigger] pull_requests[i]).number
            == number) <==> cache.pull_requests.contains_key(number) || exists|i: int|
            0 <= i < new_pull_requests.len() && (#[trigger] new_pull_requests[i]).number == number,
{
    let merged = cache.with_commits(new_commits).with_pull_requests(new_pull_requests);
    let updated = merged.with_timestamp(timestamp);
    law_cache_holds_old_and_new(cache, new_commits, new_pull_requests, sha, number);
    law_cache_stays_indexed(cache, new_commits, new_pull_requests, timestamp);
    law_cache_stays_indexed(
        cache.with_commits(new_commits),
        new_commits,
        new_pull_requests,
        timestamp,
    );
    if merged.commits.contains_key(sha) {
        assert(updated.commits.contains_key(sha));
        law_every_cached_commit_is_listed(updated, commits, sha);
        let i = choose|i: int|
            0 <= i < commits.len() && (#[trigger] commits[i]).sha == updated.commits[sha].sha;
        assert(commits[i].sha == sha);
    }
    if exists|i: int| 0 <= i < commits.len() && (#[trigger] commits[i]).sha == sha {
        let i = choose|i: int| 0 <= i < commits.len() && (#[trigger] commits[i]).sha == sha;
        law_only_cached_commits_are_listed(updated, commits, i);
        let key = choose|key: Seq<char>| #[trigger]
            updated.commits.contains_key(key) && commits[i].sha == updated.commits[key].sha;
        assert(merged.commits.contains_key(key));
    }
    if merged.pull_requests.contains_key(number) {
        assert(updated.pull_requests.contains_key(number));
        law_every_cached_pull_request_is_listed(updated, pull_requests, number);
        let i = choose|i: int|
            0 <= i < pull_requests.len() && pull_requests[i] == updated.pull_requests[number];
        assert(pull_requests[i].number == number);
    }
    if exists|i: int| 0 <= i < pull_requests.len() && (#[trigger] pull_requests[i]).number
        == number {
        let i = choose|i: int|
            0 <= i < pull_requests.len() && (#[trigger] pull_requests[i]).number == number;
        law_only_cached_pull_requests_are_listed(updated, pull_requests, i);
        let key = choose|key: i64| #[trigger]
            updated.pull_requests.contains_key(key) && pull_requests[i]
                == updated.pull_requests[key];
        assert(merged.pull_requests.contains_key(key));
    }
}

/// A finished update lists each new commit with the login and the date that came last
/// under its SHA.
pub proof fn law_finished_update_lists_the_last_commits(
    cache: CacheView,
    new_commits: Seq<CommitView>,
    new_pull_requests: Seq<PullRequestView>,
    timestamp: Seq<char>,
    commits: Seq<CommitView>,
    i: int,
)
    requires
        lists_values(
            commits,
            cache.with_commits(new_commits).with_pull_requests(new_pull_requests).with_timestamp(
                timestamp,
            ).commits,
            |cached: CachedCommitView| remote_commit(cached),
        ),
        0 <= i < new_commits.len(),
        forall|k: int|
            i < k < new_commits.len() ==> (#[trigger] new_commits[k]).sha != new_commits[i].sha,
    ensures
        exists|k: int|
            0 <= k < commits.len() && (#[trigger] commits[k]).sha == new_commits[i].sha
                && commits[k].username() == new_commits[i].username() && commits[k].date
                == new_commits[i].date,
{
    let merged = cache.with_commits(new_commits).with_pull_requests(new_pull_requests);
    let updated = merged.with_timestamp(timestamp);
    law_last_commit_wins(cache, new_commits, i);
    let sha = new_commits[i].sha;
    assert(updated.commits.contains_key(sha));
    law_every_cached_commit_is_listed(updated, commits, sha);
    let k = choose|k: int|
        0 <= k < commits.len() && (#[trigger] commits[k]).sha == updated.commits[sha].sha
            && commits[k].author == (match updated.commits[sha].author_login {
            Some(login) => Some(Some(login)),
            None => None,
        }) && commits[k].date == updated.commits[sha].date;
    assert(commits[k].sha == sha);
}

/// A finished update lists each new pull request as it came last under its number.
pub proof fn law_finished_update_lists_the_last_pull_requests(
    cache: CacheView,
    new_commits: Seq<CommitView>,
    new_pull_requests: Seq<PullRequestView>,
    timestamp: Seq<char>,
    pull_requests: Seq<PullRequestView>,
    i: int,
)
    requires
        lists_values(
            pull_requests,
            cache.with_commits(new_commits).with_pull_requests(new_pull_requests).with_timestamp(
                timestamp,
            ).pull_requests,
            |cached: PullRequestView| cached,
        ),
        0 <= i < new_pull_requests.len(),
        forall|k: int|
            i < k < new_pull_requests.len() ==> (#[trigger] new_pull_requests[k]).number
                != new_pull_requests[i].number,
    ensures
        pull_requests.contains(new_pull_requests[i]),
{
    let merged = cache.with_commits(new_commits).with_pull_requests(new_pull_requests);
    let updated = merged.with_timestamp(timestamp);
    law_last_pull_request_wins(cache.with_commits(new_commits), new_pull_requests, i);
    let number = new_pull_requests[i].number;
    assert(updated.pull_requests.contains_key(number));
    law_every_cached_pull_request_is_listed(updated, pull_requests, number);
}

} // verus!
