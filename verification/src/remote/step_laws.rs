//! What each step of a fetch, a stream, an update and a save does, field by field, and
//! what whole runs of fetches ask for and get, page by page.

use crate::remote::cache::CacheView;
use crate::remote::clock::{rfc3339_nanos, time_before};
use crate::remote::fetch::{
    finished_after, is_outdated, lemma_fresh_count, lemma_fresh_prefix, page_view, results_of,
    CommitFetchView, PullRequestFetchView,
};
use crate::remote::github::{CommitView, PullRequestView};
use crate::remote::runs::{
    commit_run, entries_read, law_commit_fetch_gets_all_pages, pages_read, pull_request_run,
    read_end, Outcome, ReadEnd,
};
use crate::remote::save::{SaveEvent, SaveEventView, SaveStep, SaveStepView};
use crate::remote::sync::{ProgressView, SyncStage, SyncView};
use crate::remote::text::text_before;
use vstd::prelude::*;

verus! {

/// A fetch of commits begins with the reference and the timestamp that it is for,
/// whether or not there is one, at page 0, with no commits.
pub proof fn law_commit_fetch_begins_as_asked(
    ref_name: Option<Seq<char>>,
    since: Option<Seq<char>>,
)
    ensures
        CommitFetchView::start(ref_name, since).ref_name == ref_name,
        CommitFetchView::start(ref_name, since).since == since,
        CommitFetchView::start(ref_name, since).page == 0,
        CommitFetchView::start(ref_name, since).commits == Seq::<CommitView>::empty(),
{
}

/// A page of commits is put behind those that a fetch has, and the next page is asked
/// for with the same reference and timestamp; an empty page changes nothing.
pub proof fn law_commit_fetch_takes_a_page(fetch: CommitFetchView, page: Seq<CommitView>)
    ensures
        fetch.after(page).ref_name == fetch.ref_name,
        fetch.after(page).since == fetch.since,
        fetch.after(page).commits == fetch.commits + page,
        page.len() > 0 ==> fetch.after(page).page == fetch.page + 1,
        page.len() == 0 ==> fetch.after(page).page == fetch.page,
{
    assert(page.len() == 0 ==> fetch.commits + page =~= fetch.commits);
}

/// Pages that are read up to the first empty page, the first error or the last reply:
/// their entries are those of the pages, one page behind the other.
pub proof fn law_pages_are_read_in_order<T, E>(replies: Seq<Result<Seq<T>, E>>, count: nat)
    requires
        count <= replies.len(),
        forall|i: int|
            0 <= i < count ==> (#[trigger] replies[i]) is Ok && replies[i]->Ok_0.len() > 0,
        count < replies.len() ==> replies[count as int] is Err
            || replies[count as int]->Ok_0.len() == 0,
    ensures
        pages_read(replies) == count,
        entries_read(replies) == Seq::new(count, |i: int| replies[i]->Ok_0).flatten(),
        count == replies.len() ==> read_end(replies) == ReadEnd::<E>::Open,
        count < replies.len() && replies[count as int] is Ok ==> read_end(replies)
            == ReadEnd::<E>::Empty,
        count < replies.len() && replies[count as int] is Err ==> read_end(replies)
            == ReadEnd::<E>::Failed(replies[count as int]->Err_0),
    decreases count,
{
    let pages = Seq::new(count, |i: int| replies[i]->Ok_0);
    if count > 0 {
        let rest = replies.drop_first();
        assert forall|i: int| 0 <= i < count - 1 implies (#[trigger] rest[i]) is Ok
            && rest[i]->Ok_0.len() > 0 by {
            assert(rest[i] == replies[i + 1]);
        }
        law_pages_are_read_in_order(rest, (count - 1) as nat);
        assert(pages.drop_first() =~= Seq::new((count - 1) as nat, |i: int| rest[i]->Ok_0));
        assert(replies[0] is Ok);
    }
}

/// After as many pages as it has got, none of them empty, a fetch of commits that began
/// for a reference and a timestamp asks with both for the page with that number, and
/// has the commits of the pages, in their order. An empty page then completes it, and
/// an error fails it.
pub proof fn law_commit_fetch_asks_for_page_after_page<E>(
    ref_name: Option<Seq<char>>,
    since: Option<Seq<char>>,
    replies: Seq<Result<Seq<CommitView>, E>>,
    error: E,
)
    requires
        forall|i: int|
            0 <= i < replies.len() ==> (#[trigger] replies[i]) is Ok && replies[i]->Ok_0.len() > 0,
    ensures
        ({
            let start = CommitFetchView::start(ref_name, since);
            let now = CommitFetchView {
                ref_name,
                since,
                page: replies.len() as int,
                commits: Seq::new(replies.len(), |i: int| replies[i]->Ok_0).flatten(),
            };
            &&& commit_run(start, replies) == Outcome::<CommitFetchView, E>::Pending(now)
            &&& commit_run(start, replies.push(Ok(Seq::empty())))
                == Outcome::<CommitFetchView, E>::Complete(now)
            &&& commit_run(start, replies.push(Err(error)))
                == Outcome::<CommitFetchView, E>::Failed(error)
        }),
{
    let start = CommitFetchView::start(ref_name, since);
    let pages = Seq::new(replies.len(), |i: int| replies[i]->Ok_0);
    law_pages_are_read_in_order(replies, replies.len());
    law_commit_fetch_gets_all_pages(start, replies);
    assert(Seq::<CommitView>::empty() + pages.flatten() =~= pages.flatten());
    let ended = replies.push(Ok(Seq::empty()));
    law_pages_are_read_in_order(ended, replies.len());
    law_commit_fetch_gets_all_pages(start, ended);
    assert(Seq::new(replies.len(), |i: int| ended[i]->Ok_0) =~= pages);
    let failed = replies.push(Err(error));
    law_pages_are_read_in_order(failed, replies.len());
    law_commit_fetch_gets_all_pages(start, failed);
}

/// Two timestamps that can be read are in the order of their instants, and others in
/// the order of their texts.
pub proof fn law_times_are_in_the_order_of_instants(
    a: Seq<char>,
    b: Seq<char>,
    x: i128,
    y: i128,
    readable: Option<i128>,
)
    ensures
        time_before(a, b, Some(x), Some(y)) <==> x < y,
        time_before(a, b, None, readable) <==> text_before(a, b),
        time_before(a, b, readable, None) <==> text_before(a, b),
{
}

/// A pull request is outdated where both times are given and its last update is before
/// the other; it is not where either is missing.
pub proof fn law_outdated_is_updated_before(
    pull_request: PullRequestView,
    updated_at: Seq<char>,
    since: Seq<char>,
)
    requires
        pull_request.updated_at == Some(updated_at),
    ensures
        rfc3339_nanos(updated_at) is Some && rfc3339_nanos(since) is Some ==> (is_outdated(
            pull_request,
            Some(since),
        ) <==> rfc3339_nanos(updated_at)->0 < rfc3339_nanos(since)->0),
        rfc3339_nanos(updated_at) is None || rfc3339_nanos(since) is None ==> (is_outdated(
            pull_request,
            Some(since),
        ) <==> text_before(updated_at, since)),
        !is_outdated(pull_request, None),
        !is_outdated(PullRequestView { updated_at: None, ..pull_request }, Some(since)),
        !is_outdated(PullRequestView { updated_at: None, ..pull_request }, None),
{
}

/// A fetch of pull requests begins with the timestamp that it is for, whether or not
/// there is one, at page 0, with no pull requests.
pub proof fn law_pull_request_fetch_begins_as_asked(since: Option<Seq<char>>)
    ensures
        PullRequestFetchView::start(since).since == since,
        PullRequestFetchView::start(since).page == 0,
        PullRequestFetchView::start(since).pull_requests == Seq::<PullRequestView>::empty(),
{
}

/// A page of pull requests is the last one just when it is empty or has an outdated one.
pub proof fn law_last_page_is_empty_or_has_an_outdated_one(
    fetch: PullRequestFetchView,
    page: Seq<PullRequestView>,
)
    ensures
        fetch.ends_with(page) <==> page.len() == 0 || exists|i: int|
            0 <= i < page.len() && is_outdated(#[trigger] page[i], fetch.since),
{
    lemma_fresh_prefix(page, fetch.since);
}

/// A fetch takes of a page the pull requests before the first outdated one, behind
/// those that it has: all of a page without an outdated one, and then asks for the next.
pub proof fn law_pull_request_fetch_takes_a_page(
    fetch: PullRequestFetchView,
    page: Seq<PullRequestView>,
    taken: int,
)
    requires
        0 <= taken <= page.len(),
        forall|i: int| 0 <= i < taken ==> !is_outdated(#[trigger] page[i], fetch.since),
        taken < page.len() ==> is_outdated(page[taken], fetch.since),
    ensures
        fetch.after(page).since == fetch.since,
        fetch.after(page).pull_requests == fetch.pull_requests + page.take(taken),
        taken < page.len() || page.len() == 0 ==> fetch.after(page).page == fetch.page,
        taken == page.len() > 0 ==> fetch.after(page).page == fetch.page + 1,
{
    lemma_fresh_count(page, fetch.since, taken);
}

/// Whether the pull request at a position is outdated and none before it is.
pub open spec fn is_first_outdated(
    pull_requests: Seq<PullRequestView>,
    position: int,
    since: Option<Seq<char>>,
) -> bool {
    &&& 0 <= position < pull_requests.len()
    &&& forall|i: int| 0 <= i < position ==> !is_outdated(#[trigger] pull_requests[i], since)
    &&& is_outdated(pull_requests[position], since)
}

/// After as many pages as it has got, none of them empty or with an outdated pull
/// request, a fetch of pull requests asks for the page with that number, and has the
/// pull requests of the pages, in their order. An empty page then completes it, an error
/// fails it, and a page with an outdated pull request completes it with those before it.
pub proof fn law_pull_request_fetch_asks_for_page_after_page<E>(
    since: Option<Seq<char>>,
    replies: Seq<Result<Seq<PullRequestView>, E>>,
    page: Seq<PullRequestView>,
    taken: int,
    error: E,
)
    requires
        forall|i: int|
            0 <= i < replies.len() ==> (#[trigger] replies[i]) is Ok && replies[i]->Ok_0.len() > 0,
        forall|i: int, j: int|
            0 <= i < replies.len() && 0 <= j < replies[i]->Ok_0.len() ==> !is_outdated(
                #[trigger] replies[i]->Ok_0[j],
                since,
            ),
    ensures
        ({
            let start = PullRequestFetchView::start(since);
            let now = PullRequestFetchView {
                since,
                page: replies.len() as int,
                pull_requests: Seq::new(replies.len(), |i: int| replies[i]->Ok_0).flatten(),
            };
            &&& pull_request_run(start, replies) == Outcome::<PullRequestFetchView, E>::Pending(now)
            &&& pull_request_run(start, replies.push(Ok(Seq::empty())))
                == Outcome::<PullRequestFetchView, E>::Complete(now)
            &&& pull_request_run(start, replies.push(Err(error)))
                == Outcome::<PullRequestFetchView, E>::Failed(error)
            &&& is_first_outdated(page, taken, since) ==> pull_request_run(
                start,
                replies.push(Ok(page)),
            ) == Outcome::<PullRequestFetchView, E>::Complete(
                PullRequestFetchView {
                    pull_requests: now.pull_requests + page.take(taken),
                    ..now
                },
            )
        }),
{
    let start = PullRequestFetchView::start(since);
    lemma_pull_request_run_from(start, replies, page, taken, error);
    let pages = Seq::new(replies.len(), |i: int| replies[i]->Ok_0);
    assert(Seq::<PullRequestView>::empty() + pages.flatten() =~= pages.flatten());
}

proof fn lemma_pull_request_run_from<E>(
    fetch: PullRequestFetchView,
    replies: Seq<Result<Seq<PullRequestView>, E>>,
    page: Seq<PullRequestView>,
    taken: int,
    error: E,
)
    requires
        forall|i: int|
            0 <= i < replies.len() ==> (#[trigger] replies[i]) is Ok && replies[i]->Ok_0.len() > 0,
        forall|i: int, j: int|
            0 <= i < replies.len() && 0 <= j < replies[i]->Ok_0.len() ==> !is_outdated(
                #[trigger] replies[i]->Ok_0[j],
                fetch.since,
            ),
    ensures
        ({
            let now = PullRequestFetchView {
                since: fetch.since,
                page: fetch.page + replies.len(),
                pull_requests: fetch.pull_requests + Seq::new(
                    replies.len(),
                    |i: int| replies[i]->Ok_0,
                ).flatten(),
            };
            &&& pull_request_run(fetch, replies) == Outcome::<PullRequestFetchView, E>::Pending(now)
            &&& pull_request_run(fetch, replies.push(Ok(Seq::empty())))
                == Outcome::<PullRequestFetchView, E>::Complete(now)
            &&& pull_request_run(fetch, replies.push(Err(error)))
                == Outcome::<PullRequestFetchView, E>::Failed(error)
            &&& is_first_outdated(page, taken, fetch.since) ==> pull_request_run(
                fetch,
                replies.push(Ok(page)),
            ) == Outcome::<PullRequestFetchView, E>::Complete(
                PullRequestFetchView {
                    pull_requests: now.pull_requests + page.take(taken),
                    ..now
                },
            )
        }),
    decreases replies.len(),
{
    let none = Seq::<PullRequestView>::empty();
    let pages = Seq::new(replies.len(), |i: int| replies[i]->Ok_0);
    let ended = replies.push(Ok(none));
    let failed = replies.push(Err(error));
    let stopped = replies.push(Ok(page));
    reveal_with_fuel(pull_request_run, 2);
    if replies.len() == 0 {
        if is_first_outdated(page, taken, fetch.since) {
            law_pull_request_fetch_takes_a_page(fetch, page, taken);
            law_last_page_is_empty_or_has_an_outdated_one(fetch, page);
            assert(is_outdated(page[taken], fetch.since));
        }
        law_pull_request_fetch_takes_a_page(fetch, none, 0);
        assert(fetch.pull_requests + pages.flatten() =~= fetch.pull_requests);
        assert(none.take(0) =~= none);
        assert(fetch.pull_requests + none =~= fetch.pull_requests);
    } else {
        let first = replies[0]->Ok_0;
        let rest = replies.drop_first();
        assert(replies[0] is Ok && first.len() > 0);
        assert forall|j: int| 0 <= j < first.len() implies !is_outdated(
            #[trigger] first[j],
            fetch.since,
        ) by {
            assert(!is_outdated(replies[0]->Ok_0[j], fetch.since));
        }
        law_pull_request_fetch_takes_a_page(fetch, first, first.len() as int);
        law_last_page_is_empty_or_has_an_outdated_one(fetch, first);
        assert(first.take(first.len() as int) =~= first);
        assert forall|i: int| 0 <= i < rest.len() implies (#[trigger] rest[i]) is Ok
            && rest[i]->Ok_0.len() > 0 by {
            assert(rest[i] == replies[i + 1]);
        }
        assert forall|i: int, j: int|
            0 <= i < rest.len() && 0 <= j < rest[i]->Ok_0.len() implies !is_outdated(
            #[trigger] rest[i]->Ok_0[j],
            fetch.since,
        ) by {
            assert(!is_outdated(replies[i + 1]->Ok_0[j], fetch.since));
        }
        lemma_pull_request_run_from(fetch.after(first), rest, page, taken, error);
        let others = Seq::new(rest.len(), |i: int| rest[i]->Ok_0);
        assert(pages.drop_first() =~= others);
        assert(fetch.pull_requests + first + others.flatten() =~= fetch.pull_requests
            + pages.flatten());
        assert(ended.drop_first() =~= rest.push(Ok(none)));
        assert(failed.drop_first() =~= rest.push(Err(error)));
        assert(stopped.drop_first() =~= rest.push(Ok(page)));
        assert(ended[0] == replies[0]);
        assert(failed[0] == replies[0]);
        assert(stopped[0] == replies[0]);
    }
}

/// A stream yields the entries of a page, each once and in their order, or the error in
/// its place, and ends with an error or an empty page. After its end it yields nothing
/// and stays at its end.
pub proof fn law_stream_yields_a_page<T, E>(page: Vec<T>, error: E)
    ensures
        ({
            let results = results_of(false, page_view::<T, E>(Ok(page)));
            &&& results.len() == page@.len()
            &&& forall|i: int|
                0 <= i < page@.len() ==> #[trigger] results[i] == Ok::<T, E>(page@[i])
        }),
        results_of(false, page_view::<T, E>(Err(error))) == seq![Err::<T, E>(error)],
        finished_after(false, page_view::<T, E>(Ok(page))) <==> page@.len() == 0,
        finished_after(false, page_view::<T, E>(Err(error))),
        results_of(true, page_view::<T, E>(Ok(page))).len() == 0,
        results_of(true, page_view::<T, E>(Err(error))).len() == 0,
        finished_after(true, page_view::<T, E>(Ok(page))),
        finished_after(true, page_view::<T, E>(Err(error))),
{
}

/// An update begins with the cache as it is, and asks for page 0 of the commits of the
/// reference since the cache was last updated, whether or not there is either.
pub proof fn law_update_begins_as_asked(cache: CacheView, ref_name: Option<Seq<char>>)
    ensures
        SyncView::start(cache, ref_name).cache == cache,
        SyncView::start(cache, ref_name).since == cache.last_updated,
        SyncView::start(cache, ref_name).stage() == SyncStage::Commits,
        SyncView::start(cache, ref_name).page() == 0,
        SyncView::start(cache, ref_name).progress == ProgressView::Commits(
            CommitFetchView {
                ref_name,
                since: cache.last_updated,
                page: 0,
                commits: Seq::empty(),
            },
        ),
{
}

/// A page of commits goes to the fetch and leaves the cache as it is. The empty page
/// behind them has all of them written to the cache, which keeps its pull requests and
/// its timestamp, and the pull requests since the same time are asked for from page 0.
pub proof fn law_update_takes_a_page_of_commits(
    sync: SyncView,
    fetch: CommitFetchView,
    page: Seq<CommitView>,
)
    requires
        sync.progress == ProgressView::Commits(fetch),
    ensures
        sync.after_commits(page).since == sync.since,
        page.len() > 0 ==> {
            &&& sync.after_commits(page).cache == sync.cache
            &&& sync.after_commits(page).progress == ProgressView::Commits(
                CommitFetchView {
                    ref_name: fetch.ref_name,
                    since: fetch.since,
                    page: fetch.page + 1,
                    commits: fetch.commits + page,
                },
            )
            &&& sync.after_commits(page).stage() == SyncStage::Commits
            &&& sync.after_commits(page).page() == fetch.page + 1
        },
        page.len() == 0 ==> {
            &&& sync.after_commits(page).cache == sync.cache.with_commits(fetch.commits)
            &&& sync.after_commits(page).cache.pull_requests == sync.cache.pull_requests
            &&& sync.after_commits(page).cache.last_updated == sync.cache.last_updated
            &&& sync.after_commits(page).progress == ProgressView::PullRequests(
                PullRequestFetchView { since: sync.since, page: 0, pull_requests: Seq::empty() },
            )
            &&& sync.after_commits(page).stage() == SyncStage::PullRequests
            &&& sync.after_commits(page).page() == 0
        },
{
}

/// A page of pull requests without an outdated one goes to the fetch and leaves the cache
/// as it is. An empty page, or one with an outdated pull request, has those before it
/// written to the cache, which keeps its commits and its timestamp, and nothing more is
/// asked for.
pub proof fn law_update_takes_a_page_of_pull_requests(
    sync: SyncView,
    fetch: PullRequestFetchView,
    page: Seq<PullRequestView>,
    taken: int,
)
    requires
        sync.progress == ProgressView::PullRequests(fetch),
        0 <= taken <= page.len(),
        forall|i: int| 0 <= i < taken ==> !is_outdated(#[trigger] page[i], fetch.since),
        taken < page.len() ==> is_outdated(page[taken], fetch.since),
    ensures
        sync.after_pull_requests(page).since == sync.since,
        taken == page.len() > 0 ==> {
            &&& sync.after_pull_requests(page).cache == sync.cache
            &&& sync.after_pull_requests(page).progress == ProgressView::PullRequests(
                PullRequestFetchView {
                    since: fetch.since,
                    page: fetch.page + 1,
                    pull_requests: fetch.pull_requests + page,
                },
            )
            &&& sync.after_pull_requests(page).stage() == SyncStage::PullRequests
            &&& sync.after_pull_requests(page).page() == fetch.page + 1
        },
        taken < page.len() || page.len() == 0 ==> {
            &&& sync.after_pull_requests(page).cache == sync.cache.with_pull_requests(
                fetch.pull_requests + page.take(taken),
            )
            &&& sync.after_pull_requests(page).cache.commits == sync.cache.commits
            &&& sync.after_pull_requests(page).cache.last_updated == sync.cache.last_updated
            &&& sync.after_pull_requests(page).progress == ProgressView::Merged
            &&& sync.after_pull_requests(page).stage() == SyncStage::Merged
        },
{
    law_pull_request_fetch_takes_a_page(fetch, page, taken);
    lemma_fresh_count(page, fetch.since, taken);
    assert(page.take(page.len() as int) =~= page);
}

/// A step of a save, and an event, are viewed with the text that they carry.
pub proof fn law_save_carries_its_text(text: String)
    ensures
        SaveStep::CreateDirectories@ == SaveStepView::CreateDirectories,
        SaveStep::Serialize@ == SaveStepView::Serialize,
        SaveStep::CreateFile(text)@ == SaveStepView::CreateFile(text@),
        SaveStep::Write(text)@ == SaveStepView::Write(text@),
        SaveStep::Saved@ == SaveStepView::Saved,
        SaveEvent::DirectoriesCreated@ == SaveEventView::DirectoriesCreated,
        SaveEvent::Serialized(text)@ == SaveEventView::Serialized(text@),
        SaveEvent::FileCreated@ == SaveEventView::FileCreated,
        SaveEvent::Written@ == SaveEventView::Written,
{
}

/// A save goes on only with the event that its step waits for, and any other event
/// leaves it at the step. A cache that is saved stays so.
pub proof fn law_save_waits_for_its_event(event: SaveEventView, text: Seq<char>)
    ensures
        event is DirectoriesCreated ==> SaveStepView::CreateDirectories.after(event)
            == SaveStepView::Serialize,
        !(event is DirectoriesCreated) ==> SaveStepView::CreateDirectories.after(event)
            == SaveStepView::CreateDirectories,
        event is Serialized ==> SaveStepView::Serialize.after(event) == SaveStepView::CreateFile(
            event->Serialized_0,
        ),
        !(event is Serialized) ==> SaveStepView::Serialize.after(event) == SaveStepView::Serialize,
        event is FileCreated ==> SaveStepView::CreateFile(text).after(event)
            == SaveStepView::Write(text),
        !(event is FileCreated) ==> SaveStepView::CreateFile(text).after(event)
            == SaveStepView::CreateFile(text),
        event is Written ==> SaveStepView::Write(text).after(event) == SaveStepView::Saved,
        !(event is Written) ==> SaveStepView::Write(text).after(event) == SaveStepView::Write(
            text,
        ),
        SaveStepView::Saved.after(event) == SaveStepView::Saved,
{
}

} // verus!
