use git_cliff_core::remote::clock::{is_time_before, unix_nanos};
use git_cliff_core::remote::fetch::{
    CommitFetch, FetchStatus, Listing, PageStream, PullRequestFetch,
};
use git_cliff_core::remote::github::{GitHubClient, GitHubCommit, GitHubPullRequest, Remote};

fn client() -> GitHubClient {
    GitHubClient::new(
        Remote {
            owner: "o".to_string(),
            repo: "r".to_string(),
        },
        Some("api".to_string()),
    )
}

fn commits(shas: &[&str]) -> Vec<GitHubCommit> {
    shas.iter()
        .map(|sha| GitHubCommit {
            sha: sha.to_string(),
            ..GitHubCommit::default()
        })
        .collect()
}

fn pull_requests(entries: &[(i64, Option<&str>)]) -> Vec<GitHubPullRequest> {
    entries
        .iter()
        .map(|(number, updated_at)| GitHubPullRequest {
            number: *number,
            updated_at: updated_at.map(|text| text.to_string()),
            ..GitHubPullRequest::default()
        })
        .collect()
}

fn numbers(pull_requests: &[GitHubPullRequest]) -> Vec<i64> {
    pull_requests.iter().map(|p| p.number()).collect()
}

#[test]
fn commits_are_fetched_up_to_the_empty_page() {
    let mut fetch = CommitFetch::new(Some("main".to_string()), Some("t".to_string()));
    assert_eq!(
        fetch.url(&client()),
        "api/repos/o/r/commits?per_page=100&page=0&sha=main&since=t"
    );
    assert_eq!(
        fetch.accept::<String>(Ok(commits(&["a", "b"]))),
        Ok(FetchStatus::More)
    );
    assert_eq!(fetch.page(), 1);
    assert_eq!(
        fetch.url(&client()),
        "api/repos/o/r/commits?per_page=100&page=1&sha=main&since=t"
    );
    assert_eq!(
        fetch.accept::<String>(Ok(commits(&["c"]))),
        Ok(FetchStatus::More)
    );
    assert_eq!(
        fetch.accept::<String>(Ok(Vec::new())),
        Ok(FetchStatus::Complete)
    );
    assert_eq!(fetch.into_commits(), commits(&["a", "b", "c"]));
}

#[test]
fn failed_request_fails_the_fetch_of_commits() {
    let mut fetch = CommitFetch::new(None, None);
    assert_eq!(
        fetch.url(&client()),
        "api/repos/o/r/commits?per_page=100&page=0"
    );
    assert_eq!(fetch.accept(Err("down")), Err("down"));
    assert_eq!(fetch.page(), 0);
}

#[test]
fn pull_requests_are_fetched_up_to_the_first_outdated_one() {
    let mut fetch = PullRequestFetch::new(Some("2024-01-10".to_string()));
    assert_eq!(
        fetch.url(&client()),
        "api/repos/o/r/pulls?per_page=100&page=0&state=closed&sort=updated&direction=desc"
    );
    assert_eq!(
        fetch.accept::<String>(Ok(pull_requests(&[
            (5, Some("2024-01-12")),
            (4, None),
            (3, Some("2024-01-10")),
        ]))),
        Ok(FetchStatus::More)
    );
    assert_eq!(fetch.page(), 1);
    assert_eq!(
        fetch.accept::<String>(Ok(pull_requests(&[
            (2, Some("2024-01-11")),
            (1, Some("2024-01-09")),
            (6, Some("2024-01-13")),
        ]))),
        Ok(FetchStatus::Complete)
    );
    assert_eq!(fetch.page(), 1);
    assert_eq!(numbers(&fetch.into_pull_requests()), vec![5, 4, 3, 2]);
}

#[test]
fn without_timestamp_all_pull_requests_are_fetched() {
    let mut fetch = PullRequestFetch::new(None);
    assert_eq!(
        fetch.accept::<String>(Ok(pull_requests(&[(2, Some("9")), (1, Some(""))]))),
        Ok(FetchStatus::More)
    );
    assert_eq!(
        fetch.accept::<String>(Ok(Vec::new())),
        Ok(FetchStatus::Complete)
    );
    assert_eq!(numbers(&fetch.into_pull_requests()), vec![2, 1]);
}

#[test]
fn failed_request_fails_the_fetch_of_pull_requests() {
    let mut fetch = PullRequestFetch::new(None);
    assert_eq!(fetch.accept(Err(7)), Err(7));
    assert_eq!(fetch.page(), 0);
    assert_eq!(numbers(&fetch.into_pull_requests()), Vec::<i64>::new());
}

#[test]
fn page_boundaries_make_no_difference() {
    let all = [
        (5, Some("5")),
        (4, Some("4")),
        (3, Some("3")),
        (2, Some("2")),
        (1, Some("1")),
    ];
    for size in 1..=5 {
        let mut fetch = PullRequestFetch::new(Some("3".to_string()));
        for page in all.chunks(size) {
            let status = fetch.accept::<String>(Ok(pull_requests(page)));
            if status == Ok(FetchStatus::Complete) {
                break;
            }
        }
        assert_eq!(numbers(&fetch.into_pull_requests()), vec![5, 4, 3]);
    }
}

#[test]
fn early_stop_misses_nothing_in_sorted_pages() {
    let sorted = [(5, Some("5")), (4, Some("4")), (3, Some("4")), (2, Some("1"))];
    for since in ["0", "1", "2", "4", "5", "6"] {
        let mut fetch = PullRequestFetch::new(Some(since.to_string()));
        let _ = fetch.accept::<String>(Ok(pull_requests(&sorted)));
        let expected: Vec<i64> = sorted
            .iter()
            .filter(|(_, updated_at)| updated_at.unwrap() >= since)
            .map(|(number, _)| *number)
            .collect();
        assert_eq!(numbers(&fetch.into_pull_requests()), expected);
    }
}

#[test]
fn times_are_in_the_order_of_their_instants() {
    let (utc, offset) = ("2024-01-01T00:00:00Z", "2023-12-31T23:30:00-01:00");
    let (early, late) = (Some(1_704_067_200_000_000_000), Some(1_704_069_000_000_000_000));
    assert!(!is_time_before(offset, utc, late, early));
    assert!(is_time_before(utc, offset, early, late));
    assert!(!is_time_before(utc, offset, Some(5), Some(5)));
    assert!(is_time_before(offset, offset, Some(4), Some(5)));
    assert!(is_time_before(utc, utc, Some(-1), Some(0)));
}

#[test]
fn times_that_cannot_be_read_are_in_the_order_of_their_texts() {
    assert!(is_time_before("1", "2", None, None));
    assert!(is_time_before("1", "2", None, Some(0)));
    assert!(!is_time_before("2", "1", Some(0), None));
    assert!(is_time_before("", "Z", None, None));
    assert!(!is_time_before("", "", None, None));
}

#[test]
fn instants_are_read_with_offset_and_fraction() {
    assert_eq!(unix_nanos("2024-01-01T00:00:00Z"), Some(1_704_067_200_000_000_000));
    assert_eq!(unix_nanos("2023-12-31T23:30:00-01:00"), Some(1_704_069_000_000_000_000));
    assert_eq!(unix_nanos("2024-01-01T00:00:00.5Z"), Some(1_704_067_200_500_000_000));
    assert_eq!(unix_nanos("1969-12-31T23:59:59.999999999Z"), Some(-1));
    assert_eq!(unix_nanos("2024-01-01T00:00:00.1234567899Z"), Some(1_704_067_200_123_456_789));
    assert_eq!(unix_nanos("2024-01-01"), None);
}

#[test]
fn fractions_of_a_second_decide_what_is_outdated() {
    for (updated_at, since, outdated) in [
        ("2024-01-01T00:00:00.1+00:00", "2024-01-01T00:00:00.5Z", true),
        ("2024-01-01T00:00:00.5+00:00", "2024-01-01T00:00:00.5Z", false),
        ("2024-01-01T01:00:00.6+01:00", "2024-01-01T00:00:00.5Z", false),
        ("2024-01-01T00:00:00.5Z", "2024-01-01T00:00:00Z", false),
        ("2024-01-01T00:00:00Z", "2024-01-01T00:00:00.5Z", true),
        ("2024-01-01T00:00:00.5Z", "2024-01-01T00:00:00.50Z", false),
        ("2024-01-01T00:00:00.50Z", "2024-01-01T00:00:00.5Z", false),
        ("2024-01-01T00:00:01Z", "2024-01-01T00:00:00.999999999Z", false),
    ] {
        let fetch = PullRequestFetch::new(Some(since.to_string()));
        assert_eq!(fetch.is_last(&pull_requests(&[(1, Some(updated_at))])), outdated);
    }
}

#[test]
fn error_behind_the_last_page_has_no_effect() {
    let mut fetch = PullRequestFetch::new(Some("2024-01-01T00:00:00.5Z".to_string()));
    let page = pull_requests(&[
        (1, Some("2024-01-01T00:00:00.7+00:00")),
        (2, Some("2024-01-01T00:00:00.1+00:00")),
    ]);
    assert_eq!(fetch.accept::<String>(Ok(page)), Ok(FetchStatus::Complete));
    assert_eq!(fetch.page(), 0);
    assert_eq!(numbers(&fetch.into_pull_requests()), vec![1]);
}

#[test]
fn later_since_gives_a_prefix() {
    let pages = [
        pull_requests(&[
            (1, Some("2024-01-01T00:00:02.5Z")),
            (2, None),
            (3, Some("2024-01-01T01:00:03+01:00")),
        ]),
        pull_requests(&[(4, Some("2024-01-01T00:00:01Z")), (5, Some("2024-01-01T00:00:04Z"))]),
        Vec::new(),
    ];
    let mut previous: Option<Vec<i64>> = None;
    for (since, expected) in [
        (None, vec![1, 2, 3, 4, 5]),
        (Some("2024-01-01T00:00:00.5Z"), vec![1, 2, 3, 4, 5]),
        (Some("2024-01-01T02:00:01.5+02:00"), vec![1, 2, 3]),
        (Some("2024-01-01T00:00:02Z"), vec![1, 2, 3]),
        (Some("2024-01-01T00:00:02.6Z"), vec![]),
    ] {
        let mut fetch = PullRequestFetch::new(since.map(|text: &str| text.to_string()));
        for page in &pages {
            if fetch.accept::<String>(Ok(page.clone())) == Ok(FetchStatus::Complete) {
                break;
            }
        }
        let got = numbers(&fetch.into_pull_requests());
        assert_eq!(got, expected);
        assert!(previous.map_or(true, |before| before.starts_with(&got)));
        previous = Some(got);
    }
}

#[test]
fn pull_request_with_an_offset_is_taken_by_its_time() {
    let mut fetch = PullRequestFetch::new(Some("2024-01-01T00:00:00Z".to_string()));
    let page = pull_requests(&[(1, Some("2023-12-31T23:30:00-01:00"))]);
    assert!(!fetch.is_last(&page));
    assert_eq!(fetch.accept::<String>(Ok(page)), Ok(FetchStatus::More));
    assert_eq!(
        fetch.accept::<String>(Ok(Vec::new())),
        Ok(FetchStatus::Complete)
    );
    assert_eq!(numbers(&fetch.into_pull_requests()), vec![1]);

    let mut fetch = PullRequestFetch::new(Some("2024-01-01T00:00:00Z".to_string()));
    let page = pull_requests(&[(1, Some("2024-01-01T00:30:00+01:00"))]);
    assert!(fetch.is_last(&page));
    assert_eq!(fetch.accept::<String>(Ok(page)), Ok(FetchStatus::Complete));
    assert!(fetch.into_pull_requests().is_empty());
}

#[test]
fn early_stop_misses_nothing_with_offsets() {
    let sorted = [
        (4, Some("2024-01-01T03:00:00+00:00")),
        (3, Some("2024-01-01T03:00:00+01:00")),
        (2, Some("2023-12-31T23:30:00-01:00")),
        (1, Some("2024-01-01T00:59:59+01:00")),
    ];
    for (since, expected) in [
        ("2024-01-01T00:00:00Z", vec![4, 3, 2]),
        ("2024-01-01T00:30:00Z", vec![4, 3, 2]),
        ("2024-01-01T00:30:01Z", vec![4, 3]),
        ("2024-01-01T03:00:01Z", vec![]),
    ] {
        let mut fetch = PullRequestFetch::new(Some(since.to_string()));
        let _ = fetch.accept::<String>(Ok(pull_requests(&sorted)));
        assert_eq!(numbers(&fetch.into_pull_requests()), expected);
    }
}

#[test]
fn page_with_the_first_outdated_entry_is_the_last_asked_for() {
    let mut fetch = PullRequestFetch::new(Some("2024-01-01T00:00:00Z".to_string()));
    for page in 0..3 {
        assert_eq!(fetch.page(), page);
        assert_eq!(
            fetch.accept::<String>(Ok(pull_requests(&[(1, Some("2024-01-02T00:00:00Z"))]))),
            Ok(FetchStatus::More)
        );
    }
    assert_eq!(
        fetch.accept::<String>(Ok(pull_requests(&[(2, Some("2023-12-31T23:59:59Z"))]))),
        Ok(FetchStatus::Complete)
    );
    assert_eq!(fetch.page(), 3);
}

#[test]
fn collected_stream_has_all_entries_or_the_first_error() {
    let mut stream = PageStream::new(Listing::PullRequests);
    let mut results = stream.accept::<GitHubPullRequest, String>(Ok(pull_requests(&[(1, None)])));
    results.extend(stream.accept(Ok(pull_requests(&[(2, None), (3, None)]))));
    results.extend(stream.accept(Ok(Vec::new())));
    results.extend(stream.accept(Err("late".to_string())));
    let collected: Result<Vec<GitHubPullRequest>, String> = results.into_iter().collect();
    assert_eq!(numbers(&collected.unwrap()), vec![1, 2, 3]);

    let mut stream = PageStream::new(Listing::PullRequests);
    let mut results = stream.accept::<GitHubPullRequest, String>(Ok(pull_requests(&[(1, None)])));
    results.extend(stream.accept(Err("down".to_string())));
    let collected: Result<Vec<GitHubPullRequest>, String> = results.into_iter().collect();
    assert_eq!(collected.err(), Some("down".to_string()));
}

#[test]
fn stream_yields_all_pages_and_ends() {
    let mut stream = PageStream::new(Listing::Commits(Some("main".to_string())));
    assert_eq!(
        stream.url(&client(), 4),
        "api/repos/o/r/commits?per_page=100&page=4&sha=main"
    );
    assert_eq!(
        stream.accept::<i32, String>(Ok(vec![1, 2])),
        vec![Ok(1), Ok(2)]
    );
    assert!(!stream.finished);
    assert_eq!(stream.accept::<i32, String>(Ok(vec![3])), vec![Ok(3)]);
    assert_eq!(stream.accept::<i32, String>(Ok(Vec::new())), Vec::new());
    assert!(stream.finished);
    assert_eq!(stream.accept::<i32, String>(Ok(vec![4])), Vec::new());
}

#[test]
fn stream_ends_with_the_first_error() {
    let mut stream = PageStream::new(Listing::PullRequests);
    assert_eq!(
        stream.url(&client(), 0),
        "api/repos/o/r/pulls?per_page=100&page=0&state=closed"
    );
    assert_eq!(stream.accept(Ok::<_, &str>(vec![1])), vec![Ok(1)]);
    assert_eq!(stream.accept::<i32, _>(Err("down")), vec![Err("down")]);
    assert!(stream.finished);
    assert_eq!(stream.accept(Ok::<_, &str>(vec![2])), Vec::new());
    assert_eq!(stream.accept::<i32, _>(Err("still down")), Vec::new());
}

#[test]
fn stream_and_fetch_agree() {
    let pages = [commits(&["a", "b"]), commits(&["c"]), Vec::new()];
    let mut stream = PageStream::new(Listing::Commits(None));
    let mut fetch = CommitFetch::new(None, None);
    let mut results = Vec::new();
    for page in pages {
        results.extend(stream.accept::<_, String>(Ok(page.clone())));
        let _ = fetch.accept::<String>(Ok(page));
    }
    let collected: Result<Vec<GitHubCommit>, String> = results.into_iter().collect();
    assert_eq!(collected, Ok(fetch.into_commits()));
}
