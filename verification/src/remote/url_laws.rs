//! What the URLs say, character by character.

use crate::remote::fetch::CommitFetchView;
use crate::remote::github::{
    commits_url_text, pull_requests_url_sorted_text, pull_requests_url_text, CommitView,
    Remote,
};
use crate::remote::laws::lemma_same_around;
use crate::remote::runs::commit_run;
use crate::remote::step_laws::law_commit_fetch_asks_for_page_after_page;
use crate::remote::text::{decimal, digit_char, integer_text, percent_encoded};
use vstd::prelude::*;
use vstd::utf8::encode_utf8;

verus! {

proof fn lemma_page_size_text()
    ensures
        decimal(100) == "100"@,
{
    reveal_strlit("100");
    reveal_with_fuel(decimal, 3);
    assert(digit_char(1) == '1');
    assert(digit_char(0) == '0');
    assert(decimal(100) =~= seq!['1', '0', '0']);
    assert("100"@ =~= seq!['1', '0', '0']);
}

/// A page of commits has the URL of the repository's commits with the size and the
/// number of the page, where no reference and no timestamp is given.
pub proof fn law_url_of_a_page_of_commits(api_url: Seq<char>, remote: Remote, page: int)
    ensures
        commits_url_text(api_url, remote, None, page, None) == api_url + "/repos/"@
            + remote.owner@ + "/"@ + remote.repo@ + "/commits?per_page=100&page="@ + integer_text(
            page,
        ),
{
    lemma_page_size_text();
    reveal_strlit("/");
    reveal_strlit("100");
    reveal_strlit("commits");
    reveal_strlit("?per_page=");
    reveal_strlit("&page=");
    reveal_strlit("/commits?per_page=100&page=");
    assert("/"@ + "commits"@ + "?per_page="@ + "100"@ + "&page="@
        =~= "/commits?per_page=100&page="@);
    assert(commits_url_text(api_url, remote, None, page, None) =~= api_url + "/repos/"@
        + remote.owner@ + "/"@ + remote.repo@ + ("/"@ + "commits"@ + "?per_page="@ + "100"@
        + "&page="@) + integer_text(page));
}

/// A reference stands in the URL of a page of commits behind `&sha=`, whatever it is.
pub proof fn law_url_with_a_reference(
    api_url: Seq<char>,
    remote: Remote,
    ref_name: Seq<char>,
    page: int,
)
    ensures
        commits_url_text(api_url, remote, Some(ref_name), page, None) == commits_url_text(
            api_url,
            remote,
            None,
            page,
            None,
        ) + "&sha="@ + ref_name,
{
    reveal_strlit("&");
    reveal_strlit("sha");
    reveal_strlit("=");
    reveal_strlit("&sha=");
    assert("&"@ + "sha"@ + "="@ =~= "&sha="@);
    assert(commits_url_text(api_url, remote, Some(ref_name), page, None) =~= commits_url_text(
        api_url,
        remote,
        None,
        page,
        None,
    ) + ("&"@ + "sha"@ + "="@) + ref_name);
}

/// A timestamp stands in the URL of a page of commits behind `&since=`, percent-encoded,
/// whatever it is and whatever reference stands before it.
pub proof fn law_url_with_a_timestamp(
    api_url: Seq<char>,
    remote: Remote,
    ref_name: Option<Seq<char>>,
    page: int,
    since: Seq<char>,
)
    ensures
        commits_url_text(api_url, remote, ref_name, page, Some(since)) == commits_url_text(
            api_url,
            remote,
            ref_name,
            page,
            None,
        ) + "&since="@ + percent_encoded(encode_utf8(since)),
{
    lemma_since_parameter();
    assert(commits_url_text(api_url, remote, ref_name, page, Some(since)) =~= commits_url_text(
        api_url,
        remote,
        ref_name,
        page,
        None,
    ) + ("&"@ + "since"@ + "="@) + percent_encoded(encode_utf8(since)));
}

proof fn lemma_since_parameter()
    ensures
        "&"@ + "since"@ + "="@ == "&since="@,
{
    reveal_strlit("&");
    reveal_strlit("since");
    reveal_strlit("=");
    reveal_strlit("&since=");
    assert("&"@ + "since"@ + "="@ =~= "&since="@);
}

/// A page of pull requests has the URL of the repository's closed pull requests with the
/// size and the number of the page. Sorted, the last update comes first; a timestamp
/// stands behind that, percent-encoded.
pub proof fn law_url_of_a_page_of_pull_requests(
    api_url: Seq<char>,
    remote: Remote,
    page: int,
    since: Seq<char>,
)
    ensures
        pull_requests_url_text(api_url, remote, page) == api_url + "/repos/"@ + remote.owner@
            + "/"@ + remote.repo@ + "/pulls?per_page=100&page="@ + integer_text(page)
            + "&state=closed"@,
        pull_requests_url_sorted_text(api_url, remote, page, None) == api_url + "/repos/"@
            + remote.owner@ + "/"@ + remote.repo@ + "/pulls?per_page=100&page="@ + integer_text(
            page,
        ) + "&state=closed&sort=updated&direction=desc"@,
        pull_requests_url_sorted_text(api_url, remote, page, Some(since))
            == pull_requests_url_sorted_text(api_url, remote, page, None) + "&since="@
            + percent_encoded(encode_utf8(since)),
{
    lemma_page_size_text();
    lemma_since_parameter();
    reveal_strlit("/");
    reveal_strlit("100");
    reveal_strlit("pulls");
    reveal_strlit("?per_page=");
    reveal_strlit("&page=");
    reveal_strlit("/pulls?per_page=100&page=");
    reveal_strlit("&state=closed");
    reveal_strlit("&sort=updated&direction=desc");
    reveal_strlit("&state=closed&sort=updated&direction=desc");
    let middle = "/"@ + "pulls"@ + "?per_page="@ + "100"@ + "&page="@;
    assert(middle =~= "/pulls?per_page=100&page="@);
    let sorting = "&state=closed"@ + "&sort=updated&direction=desc"@;
    assert(sorting =~= "&state=closed&sort=updated&direction=desc"@);
    let before = api_url + "/repos/"@ + remote.owner@ + "/"@ + remote.repo@ + middle + integer_text(
        page,
    );
    let plain = pull_requests_url_text(api_url, remote, page);
    assert(plain =~= before + "&state=closed"@);
    let sorted = pull_requests_url_sorted_text(api_url, remote, page, None);
    assert(sorted =~= before + sorting);
    assert(pull_requests_url_sorted_text(api_url, remote, page, Some(since)) =~= sorted + ("&"@
        + "since"@ + "="@) + percent_encoded(encode_utf8(since)));
}

/// The next request of a fetch of commits, after as many pages as it has got, none of
/// them empty, is for the page with that number, with the reference and the timestamp
/// that the fetch began with.
pub proof fn law_requests_of_a_commit_fetch<E>(
    api_url: Seq<char>,
    remote: Remote,
    ref_name: Option<Seq<char>>,
    since: Option<Seq<char>>,
    replies: Seq<Result<Seq<CommitView>, E>>,
    error: E,
)
    requires
        forall|i: int|
            0 <= i < replies.len() ==> (#[trigger] replies[i]) is Ok && replies[i]->Ok_0.len() > 0,
    ensures
        commit_run(CommitFetchView::start(ref_name, since), replies) is Pending,
        ({
            let fetch = commit_run(
                CommitFetchView::start(ref_name, since),
                replies,
            )->Pending_0;
            commits_url_text(api_url, remote, fetch.ref_name, fetch.page, fetch.since) == api_url
                + "/repos/"@ + remote.owner@ + "/"@ + remote.repo@
                + "/commits?per_page=100&page="@ + integer_text(replies.len() as int) + (
            match ref_name {
                Some(ref_name) => "&sha="@ + ref_name,
                None => Seq::empty(),
            }) + (match since {
                Some(since) => "&since="@ + percent_encoded(encode_utf8(since)),
                None => Seq::empty(),
            })
        }),
{
    let page = replies.len() as int;
    law_commit_fetch_asks_for_page_after_page(ref_name, since, replies, error);
    law_url_of_a_page_of_commits(api_url, remote, page);
    let bare = commits_url_text(api_url, remote, None, page, None);
    let reference = match ref_name {
        Some(ref_name) => "&sha="@ + ref_name,
        None => Seq::empty(),
    };
    let timestamp = match since {
        Some(since) => "&since="@ + percent_encoded(encode_utf8(since)),
        None => Seq::empty(),
    };
    if let Some(ref_name) = ref_name {
        law_url_with_a_reference(api_url, remote, ref_name, page);
    }
    assert(commits_url_text(api_url, remote, ref_name, page, None) =~= bare + reference);
    if let Some(since) = since {
        law_url_with_a_timestamp(api_url, remote, ref_name, page, since);
    }
    assert(commits_url_text(api_url, remote, ref_name, page, since) =~= bare + reference
        + timestamp);
}

/// Different references, and a reference and none, give different URLs for a page.
pub proof fn law_references_have_different_urls(
    api_url: Seq<char>,
    remote: Remote,
    first: Option<Seq<char>>,
    second: Option<Seq<char>>,
    page: int,
    since: Option<Seq<char>>,
)
    requires
        first != second,
    ensures
        commits_url_text(api_url, remote, first, page, since) != commits_url_text(
            api_url,
            remote,
            second,
            page,
            since,
        ),
{
    reveal_strlit("&sha=");
    let none = Seq::<char>::empty();
    let bare = commits_url_text(api_url, remote, None, page, None);
    let behind = match since {
        Some(since) => "&since="@ + percent_encoded(encode_utf8(since)),
        None => none,
    };
    let reference = |ref_name: Option<Seq<char>>|
        match ref_name {
            Some(ref_name) => "&sha="@ + ref_name,
            None => none,
        };
    assert forall|ref_name: Option<Seq<char>>| #[trigger]
        commits_url_text(api_url, remote, ref_name, page, since) == bare + reference(ref_name)
            + behind by {
        let url = commits_url_text(api_url, remote, ref_name, page, None);
        if let Some(ref_name) = ref_name {
            law_url_with_a_reference(api_url, remote, ref_name, page);
        }
        assert(url =~= bare + reference(ref_name));
        if let Some(since) = since {
            law_url_with_a_timestamp(api_url, remote, ref_name, page, since);
        }
        assert(commits_url_text(api_url, remote, ref_name, page, since) =~= url + behind);
    }
    if commits_url_text(api_url, remote, first, page, since) == commits_url_text(
        api_url,
        remote,
        second,
        page,
        since,
    ) {
        lemma_same_around(bare, reference(first), reference(second), behind);
        if first is Some && second is Some {
            let a = first->0;
            let b = second->0;
            assert("&sha="@ + a + none =~= "&sha="@ + a);
            assert("&sha="@ + b + none =~= "&sha="@ + b);
            lemma_same_around("&sha="@, a, b, none);
        } else {
            assert(reference(first).len() == reference(second).len());
        }
    }
}

} // verus!
