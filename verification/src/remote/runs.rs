//! Whole runs of fetches and streams: what comes of a sequence of replies.

use crate::remote::clock::{rfc3339_nanos, timestamp_before};
use crate::remote::fetch::{
    finished_after, fresh_count, is_outdated, lemma_fresh_count, lemma_fresh_prefix,
    page_results, results_of, CommitFetchView, PullRequestFetchView,
};
use crate::remote::github::{CommitView, PullRequestView};
use crate::remote::text::lemma_before_and_not_after;
use vstd::prelude::*;

verus! {

/// How the pages that are read one after another come to their end.
pub enum ReadEnd<E> {
    /// There are no more replies.
    Open,
    /// An empty page was read.
    Empty,
    /// A request failed.
    Failed(E),
}

/// The entries of the pages before the first empty page or error, one page behind
/// the other.
pub open spec fn entries_read<T, E>(replies: Seq<Result<Seq<T>, E>>) -> Seq<T>
    decreases replies.len(),
{
    if replies.len() == 0 {
        Seq::empty()
    } else {
        match replies[0] {
            Ok(page) => if page.len() == 0 {
                Seq::empty()
            } else {
                page + entries_read(replies.drop_first())
            },
            Err(_) => Seq::empty(),
        }
    }
}

/// The number of pages before the first empty page or error.
pub open spec fn pages_read<T, E>(replies: Seq<Result<Seq<T>, E>>) -> nat
    decreases replies.len(),
{
    if replies.len() == 0 {
        0
    } else {
        match replies[0] {
            Ok(page) => if page.len() == 0 {
                0
            } else {
                1 + pages_read(replies.drop_first())
            },
            Err(_) => 0,
        }
    }
}

/// What ends the reading of pages.
pub open spec fn read_end<T, E>(replies: Seq<Result<Seq<T>, E>>) -> ReadEnd<E>
    decreases replies.len(),
{
    if replies.len() == 0 {
        ReadEnd::Open
    } else {
        match replies[0] {
            Ok(page) => if page.len() == 0 {
                ReadEnd::Empty
            } else {
                read_end(replies.drop_first())
            },
            Err(error) => ReadEnd::Failed(error),
        }
    }
}

/// Where a run stands.
pub enum Outcome<S, E> {
    /// The run asks for another page.
    Pending(S),
    /// The run has got all that it was for.
    Complete(S),
    /// A request failed, and the run with it.
    Failed(E),
}

/// Where a fetch of commits stands after replies.
pub open spec fn commit_run<E>(
    fetch: CommitFetchView,
    replies: Seq<Result<Seq<CommitView>, E>>,
) -> Outcome<CommitFetchView, E>
    decreases replies.len(),
{
    if replies.len() == 0 {
        Outcome::Pending(fetch)
    } else {
        match replies[0] {
            Ok(page) => if page.len() == 0 {
                Outcome::Complete(fetch.after(page))
            } else {
                commit_run(fetch.after(page), replies.drop_first())
            },
            Err(error) => Outcome::Failed(error),
        }
    }
}

/// Where a fetch of pull requests stands after replies.
pub open spec fn pull_request_run<E>(
    fetch: PullRequestFetchView,
    replies: Seq<Result<Seq<PullRequestView>, E>>,
) -> Outcome<PullRequestFetchView, E>
    decreases replies.len(),
{
    if replies.len() == 0 {
        Outcome::Pending(fetch)
    } else {
        match replies[0] {
            Ok(page) => if fetch.ends_with(page) {
                Outcome::Complete(fetch.after(page))
            } else {
                pull_request_run(fetch.after(page), replies.drop_first())
            },
            Err(error) => Outcome::Failed(error),
        }
    }
}

/// A fetch of commits gets the entries of all pages up to the first empty one, in
/// their order, and asks for one page after another. It is complete with the empty
/// page and fails with the first error.
pub proof fn law_commit_fetch_gets_all_pages<E>(
    fetch: CommitFetchView,
    replies: Seq<Result<Seq<CommitView>, E>>,
)
    ensures
        ({
            let after = CommitFetchView {
                page: fetch.page + pages_read(replies),
                commits: fetch.commits + entries_read(replies),
                ..fetch
            };
            commit_run(fetch, replies) == (match read_end(replies) {
                ReadEnd::Open => Outcome::Pending(after),
                ReadEnd::Empty => Outcome::Complete(after),
                ReadEnd::Failed(error) => Outcome::Failed(error),
            })
        }),
    decreases replies.len(),
{
    let after = CommitFetchView {
        page: fetch.page + pages_read(replies),
        commits: fetch.commits + entries_read(replies),
        ..fetch
    };
    if replies.len() == 0 {
        assert(after =~= fetch);
    } else if let Ok(page) = replies[0] {
        if page.len() == 0 {
            assert(after =~= fetch);
        } else {
            let rest = replies.drop_first();
            law_commit_fetch_gets_all_pages(fetch.after(page), rest);
            assert(fetch.commits + page + entries_read(rest) =~= fetch.commits + (page
                + entries_read(rest)));
        }
    }
}

/// The pull requests before the first outdated one in two lists put together.
proof fn lemma_fresh_count_of_sum(
    first: Seq<PullRequestView>,
    second: Seq<PullRequestView>,
    since: Option<Seq<char>>,
)
    ensures
        fresh_count(first + second, since) == (if fresh_count(first, since) < first.len() {
            fresh_count(first, since)
        } else {
            first.len() + fresh_count(second, since)
        }),
{
    let both = first + second;
    lemma_fresh_prefix(first, since);
    lemma_fresh_prefix(second, since);
    if fresh_count(first, since) < first.len() {
        lemma_fresh_count(both, since, fresh_count(first, since) as int);
    } else {
        assert forall|i: int|
            0 <= i < first.len() + fresh_count(second, since) implies !is_outdated(
            #[trigger] both[i],
            since,
        ) by {
            if i < first.len() {
                assert(both[i] == first[i]);
            } else {
                assert(both[i] == second[i - first.len()]);
            }
        }
        lemma_fresh_count(both, since, (first.len() + fresh_count(second, since)) as int);
    }
}

/// The number of pages before the first that holds an outdated entry, or else before
/// the first empty page or error.
pub open spec fn fresh_pages<E>(
    replies: Seq<Result<Seq<PullRequestView>, E>>,
    since: Option<Seq<char>>,
) -> nat
    decreases replies.len(),
{
    if replies.len() == 0 {
        0
    } else {
        match replies[0] {
            Ok(page) => if page.len() == 0 || fresh_count(page, since) < page.len() {
                0
            } else {
                1 + fresh_pages(replies.drop_first(), since)
            },
            Err(_) => 0,
        }
    }
}

/// A fetch of pull requests gets the entries of the pages, in their order, up to the
/// first that is outdated, wherever on the pages it stands, or else up to the first
/// empty page. It is complete with the outdated entry or the empty page, and fails
/// with the first error before that. The page that holds the first outdated entry is
/// the last that is asked for.
pub proof fn law_pull_request_fetch_stops_at_outdated<E>(
    fetch: PullRequestFetchView,
    replies: Seq<Result<Seq<PullRequestView>, E>>,
)
    ensures
        ({
            let all = entries_read(replies);
            let fresh = fresh_count(all, fetch.since);
            let got = fetch.pull_requests + all.take(fresh as int);
            if fresh < all.len() {
                pull_request_run(fetch, replies) == Outcome::<PullRequestFetchView, E>::Complete(
                    PullRequestFetchView {
                        page: fetch.page + fresh_pages(replies, fetch.since),
                        pull_requests: got,
                        ..fetch
                    },
                )
            } else {
                let after = PullRequestFetchView {
                    page: fetch.page + pages_read(replies),
                    pull_requests: got,
                    ..fetch
                };
                pull_request_run(fetch, replies) == (match read_end(replies) {
                    ReadEnd::Open => Outcome::Pending(after),
                    ReadEnd::Empty => Outcome::Complete(after),
                    ReadEnd::Failed(error) => Outcome::Failed(error),
                })
            }
        }),
    decreases replies.len(),
{
    let all = entries_read(replies);
    let fresh = fresh_count(all, fetch.since);
    let after = PullRequestFetchView {
        page: fetch.page + pages_read(replies),
        pull_requests: fetch.pull_requests + all.take(fresh as int),
        ..fetch
    };
    if replies.len() == 0 {
        assert(after =~= fetch);
    } else if let Ok(page) = replies[0] {
        if page.len() == 0 {
            assert(after =~= fetch);
            assert(fetch.after(page) =~= fetch);
        } else {
            let rest = replies.drop_first();
            let others = entries_read(rest);
            law_pull_request_fetch_stops_at_outdated(fetch.after(page), rest);
            lemma_fresh_count_of_sum(page, others, fetch.since);
            lemma_fresh_prefix(page, fetch.since);
            lemma_fresh_prefix(others, fetch.since);
            if fetch.ends_with(page) {
                assert(all.take(fresh as int) =~= page.take(fresh as int));
            } else {
                assert(page.take(page.len() as int) =~= page);
                assert(all.take(fresh as int) =~= page + others.take(
                    fresh_count(others, fetch.since) as int,
                ));
                assert(fetch.pull_requests + page + others.take(
                    fresh_count(others, fetch.since) as int,
                ) =~= fetch.pull_requests + (page + others.take(
                    fresh_count(others, fetch.since) as int,
                )));
            }
        }
    }
}

/// Pull requests in the order in which the API sorts them: all say when they were
/// last updated, and none was updated after one that stands before it.
pub open spec fn is_sorted_by_update(pull_requests: Seq<PullRequestView>) -> bool {
    &&& forall|i: int|
        0 <= i < pull_requests.len() ==> (#[trigger] pull_requests[i]).updated_at is Some
    &&& forall|i: int, j: int|
        0 <= i < j < pull_requests.len() ==> !timestamp_before(
            #[trigger] pull_requests[i].updated_at->0,
            #[trigger] pull_requests[j].updated_at->0,
        )
}

/// Whether `timestamp` says when one of the pull requests was last updated.
pub open spec fn is_update_of(timestamp: Seq<char>, pull_requests: Seq<PullRequestView>) -> bool {
    exists|i: int|
        0 <= i < pull_requests.len() && (#[trigger] pull_requests[i]).updated_at == Some(timestamp)
}

/// The last updates of the pull requests are in one order with `since`: one that is not
/// after an update before `since` is before `since` too.
pub open spec fn in_one_order(pull_requests: Seq<PullRequestView>, since: Seq<char>) -> bool {
    forall|a: Seq<char>, b: Seq<char>|
        #![trigger timestamp_before(a, b)]
        is_update_of(a, pull_requests) && is_update_of(b, pull_requests) && timestamp_before(
            a,
            since,
        ) && !timestamp_before(a, b) ==> timestamp_before(b, since)
}

/// The last updates of the pull requests can be read as `since` can: all of them where
/// it can be read, and none where it cannot.
pub open spec fn is_read_alike(pull_requests: Seq<PullRequestView>, since: Seq<char>) -> bool {
    forall|a: Seq<char>| #[trigger]
        is_update_of(a, pull_requests) ==> (rfc3339_nanos(a) is Some <==> rfc3339_nanos(
            since,
        ) is Some)
}

/// Timestamps that can all be read are in one order, whatever their offsets and
/// fractions, and so are timestamps of which none can be read.
pub proof fn law_timestamps_read_alike_are_in_one_order(
    pull_requests: Seq<PullRequestView>,
    since: Seq<char>,
)
    requires
        is_read_alike(pull_requests, since),
    ensures
        in_one_order(pull_requests, since),
{
    assert forall|a: Seq<char>, b: Seq<char>|
        #![trigger timestamp_before(a, b)]
        is_update_of(a, pull_requests) && is_update_of(b, pull_requests) && timestamp_before(
            a,
            since,
        ) && !timestamp_before(a, b) implies timestamp_before(b, since) by {
        if rfc3339_nanos(since) is None {
            lemma_before_and_not_after(a, b, since);
        }
    }
}

/// Where pull requests come sorted by their last update, in one order with `since`,
/// stopping at the first outdated one leaves out the outdated ones and no others.
pub proof fn law_early_stop_misses_nothing(
    pull_requests: Seq<PullRequestView>,
    since: Option<Seq<char>>,
    i: int,
)
    requires
        is_sorted_by_update(pull_requests),
        since is Some ==> in_one_order(pull_requests, since->0),
        0 <= i < pull_requests.len(),
    ensures
        is_outdated(pull_requests[i], since) <==> fresh_count(pull_requests, since) <= i,
{
    lemma_fresh_prefix(pull_requests, since);
    let first = fresh_count(pull_requests, since) as int;
    if first < i {
        let a = pull_requests[first].updated_at->0;
        let b = pull_requests[i].updated_at->0;
        assert(is_update_of(a, pull_requests));
        assert(is_update_of(b, pull_requests));
        assert(timestamp_before(a, since->0));
        assert(!timestamp_before(a, b));
        assert(timestamp_before(b, since->0));
    }
}

/// Where pull requests come sorted by their last update and all timestamps can be read,
/// stopping at the first outdated one leaves out those whose last update was at an
/// instant before that of `since` and no others.
pub proof fn law_early_stop_misses_no_instant(
    pull_requests: Seq<PullRequestView>,
    since: Seq<char>,
    i: int,
)
    requires
        is_sorted_by_update(pull_requests),
        rfc3339_nanos(since) is Some,
        is_read_alike(pull_requests, since),
        0 <= i < pull_requests.len(),
    ensures
        rfc3339_nanos(pull_requests[i].updated_at->0)->0 < rfc3339_nanos(since)->0
            <==> fresh_count(pull_requests, Some(since)) <= i,
{
    law_timestamps_read_alike_are_in_one_order(pull_requests, since);
    law_early_stop_misses_nothing(pull_requests, Some(since), i);
    assert(is_update_of(pull_requests[i].updated_at->0, pull_requests));
}

/// For the same replies, a fetch from one timestamp gives a prefix of what a fetch from
/// another timestamp gives, or a fetch of all, where no update is before the second
/// timestamp and not before the first. It is complete where the other is.
pub proof fn law_fetch_of_fewer_gives_a_prefix<E>(
    replies: Seq<Result<Seq<PullRequestView>, E>>,
    earlier: Option<Seq<char>>,
    later: Seq<char>,
)
    requires
        earlier is Some ==> forall|a: Seq<char>| #[trigger]
            is_update_of(a, entries_read(replies)) && timestamp_before(a, earlier->0)
                ==> timestamp_before(a, later),
        pull_request_run(PullRequestFetchView::start(earlier), replies) is Complete,
    ensures
        pull_request_run(PullRequestFetchView::start(Some(later)), replies) is Complete,
        pull_request_run(
            PullRequestFetchView::start(Some(later)),
            replies,
        )->Complete_0.pull_requests.is_prefix_of(
            pull_request_run(
                PullRequestFetchView::start(earlier),
                replies,
            )->Complete_0.pull_requests,
        ),
{
    let all = entries_read(replies);
    let wide = fresh_count(all, earlier) as int;
    let narrow = fresh_count(all, Some(later)) as int;
    law_pull_request_fetch_stops_at_outdated(PullRequestFetchView::start(earlier), replies);
    law_pull_request_fetch_stops_at_outdated(PullRequestFetchView::start(Some(later)), replies);
    lemma_fresh_prefix(all, earlier);
    lemma_fresh_prefix(all, Some(later));
    if wide < narrow {
        assert(is_update_of(all[wide].updated_at->0, all));
        assert(!is_outdated(all[wide], Some(later)));
    }
    assert(Seq::<PullRequestView>::empty() + all.take(wide) =~= all.take(wide));
    assert(Seq::<PullRequestView>::empty() + all.take(narrow) =~= all.take(narrow));
    assert(all.take(narrow) =~= all.take(wide).take(narrow));
}

/// For the same replies, a fetch from a timestamp gives a prefix of what a fetch from a
/// timestamp that is not after it gives, or a fetch of all, and is complete where that
/// is: for timestamps that can all be read, and for timestamps of which none can.
pub proof fn law_later_since_gives_a_prefix<E>(
    replies: Seq<Result<Seq<PullRequestView>, E>>,
    earlier: Option<Seq<char>>,
    later: Seq<char>,
)
    requires
        earlier is Some ==> {
            &&& !timestamp_before(later, earlier->0)
            &&& is_read_alike(entries_read(replies), later)
            &&& rfc3339_nanos(earlier->0) is Some <==> rfc3339_nanos(later) is Some
        },
        pull_request_run(PullRequestFetchView::start(earlier), replies) is Complete,
    ensures
        pull_request_run(PullRequestFetchView::start(Some(later)), replies) is Complete,
        pull_request_run(
            PullRequestFetchView::start(Some(later)),
            replies,
        )->Complete_0.pull_requests.is_prefix_of(
            pull_request_run(
                PullRequestFetchView::start(earlier),
                replies,
            )->Complete_0.pull_requests,
        ),
{
    if earlier is Some {
        assert forall|a: Seq<char>| #[trigger]
            is_update_of(a, entries_read(replies)) && timestamp_before(
                a,
                earlier->0,
            ) implies timestamp_before(a, later) by {
            if rfc3339_nanos(later) is None && !timestamp_before(a, later) {
                lemma_before_and_not_after(a, later, earlier->0);
            }
        }
    }
    law_fetch_of_fewer_gives_a_prefix(replies, earlier, later);
}

/// What a stream of pages yields for replies.
pub open spec fn streamed<T, E>(finished: bool, replies: Seq<Result<Seq<T>, E>>) -> Seq<
    Result<T, E>,
>
    decreases replies.len(),
{
    if replies.len() == 0 {
        Seq::empty()
    } else {
        results_of(finished, replies[0]) + streamed(
            finished_after(finished, replies[0]),
            replies.drop_first(),
        )
    }
}

/// A stream that has ended yields nothing more.
pub proof fn law_finished_stream_is_silent<T, E>(replies: Seq<Result<Seq<T>, E>>)
    ensures
        streamed(true, replies) == Seq::<Result<T, E>>::empty(),
    decreases replies.len(),
{
    if replies.len() > 0 {
        law_finished_stream_is_silent(replies.drop_first());
        assert(streamed(true, replies) =~= Seq::<Result<T, E>>::empty());
    }
}

/// What collecting results gives: the first error, or all values where there is none.
pub open spec fn collected<T, E>(results: Seq<Result<T, E>>) -> Result<Seq<T>, E>
    decreases results.len(),
{
    if results.len() == 0 {
        Ok(Seq::empty())
    } else {
        match results[0] {
            Err(error) => Err(error),
            Ok(item) => match collected(results.drop_first()) {
                Err(error) => Err(error),
                Ok(items) => Ok(seq![item] + items),
            },
        }
    }
}

proof fn lemma_collected_behind_page<T, E>(page: Seq<T>, rest: Seq<Result<T, E>>)
    ensures
        collected(page_results::<T, E>(page) + rest) == (match collected(rest) {
            Err(error) => Err(error),
            Ok(items) => Ok(page + items),
        }),
    decreases page.len(),
{
    let results = page_results::<T, E>(page) + rest;
    if page.len() == 0 {
        assert(results =~= rest);
        if let Ok(items) = collected(rest) {
            assert(page + items =~= items);
        }
    } else {
        lemma_collected_behind_page(page.drop_first(), rest);
        assert(results.drop_first() =~= page_results::<T, E>(page.drop_first()) + rest);
        if let Ok(items) = collected(rest) {
            assert(seq![page[0]] + (page.drop_first() + items) =~= page + items);
        }
    }
}

/// The stream yields the entries of all pages up to the first empty one, in their
/// order. A failed request gives one error, behind the entries that came before it,
/// and nothing comes behind the error.
pub proof fn law_stream_yields_all_pages<T, E>(replies: Seq<Result<Seq<T>, E>>)
    ensures
        streamed(false, replies) == page_results::<T, E>(entries_read(replies)) + (match read_end(
            replies,
        ) {
            ReadEnd::Failed(error) => seq![Err::<T, E>(error)],
            _ => Seq::empty(),
        }),
    decreases replies.len(),
{
    let expected = page_results::<T, E>(entries_read(replies)) + (match read_end(replies) {
        ReadEnd::Failed(error) => seq![Err::<T, E>(error)],
        _ => Seq::empty(),
    });
    if replies.len() > 0 {
        law_stream_yields_all_pages(replies.drop_first());
        law_finished_stream_is_silent(replies.drop_first());
    }
    assert(streamed(false, replies) =~= expected);
}

/// Collecting a stream gives the first error before the empty page, or the entries of
/// all pages.
pub proof fn law_collected_stream<T, E>(replies: Seq<Result<Seq<T>, E>>)
    ensures
        collected(streamed(false, replies)) == (match read_end(replies) {
            ReadEnd::Failed(error) => Err(error),
            _ => Ok(entries_read(replies)),
        }),
{
    law_stream_yields_all_pages(replies);
    let all = entries_read(replies);
    let tail = match read_end(replies) {
        ReadEnd::Failed(error) => seq![Err::<T, E>(error)],
        _ => Seq::empty(),
    };
    lemma_collected_behind_page(all, tail);
    assert(all + Seq::<T>::empty() =~= all);
}

/// Collecting the stream of commits and fetching the commits page by page come to the
/// same: the first error, or the entries of all pages.
pub proof fn law_stream_and_fetch_agree<E>(
    ref_name: Option<Seq<char>>,
    replies: Seq<Result<Seq<CommitView>, E>>,
)
    ensures
        collected(streamed(false, replies)) == (match commit_run(
            CommitFetchView::start(ref_name, None),
            replies,
        ) {
            Outcome::Failed(error) => Err(error),
            Outcome::Pending(fetch) => Ok(fetch.commits),
            Outcome::Complete(fetch) => Ok(fetch.commits),
        }),
{
    let start = CommitFetchView::start(ref_name, None);
    law_commit_fetch_gets_all_pages(start, replies);
    law_collected_stream(replies);
    assert(Seq::<CommitView>::empty() + entries_read(replies) =~= entries_read(replies));
}

} // verus!
