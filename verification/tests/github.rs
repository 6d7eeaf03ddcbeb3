use git_cliff_core::remote::github::{
    GitHubClient, GitHubCommit, GitHubCommitAuthor, GitHubCommitDetails,
    GitHubCommitDetailsAuthor, GitHubPullRequest, InvalidDate, PullRequestLabel, Remote, API_URL,
    MAX_PAGE_SIZE,
};
use git_cliff_core::remote::text::{is_before, push_decimal, push_integer};

fn dated(date: &str) -> GitHubCommit {
    GitHubCommit {
        sha: String::from("1d244937ee6ceb8e0314a4a201ba93a7a61f2071"),
        author: Some(GitHubCommitAuthor {
            login: Some(String::from("orhun")),
        }),
        commit: Some(GitHubCommitDetails {
            author: GitHubCommitDetailsAuthor {
                date: String::from(date),
            },
        }),
    }
}

fn remote() -> Remote {
    Remote {
        owner: "orhun".to_string(),
        repo: "git-cliff".to_string(),
    }
}

#[test]
fn timestamp() {
    let remote_commit = GitHubCommit {
        sha: String::from("1d244937ee6ceb8e0314a4a201ba93a7a61f2071"),
        author: Some(GitHubCommitAuthor {
            login: Some(String::from("orhun")),
        }),
        commit: Some(GitHubCommitDetails {
            author: GitHubCommitDetailsAuthor {
                date: String::from("2021-07-18T15:14:39+03:00"),
            },
        }),
    };

    assert_eq!(Some(1_626_610_479), remote_commit.timestamp());
}

#[test]
fn timestamp_is_checked() {
    assert_eq!(
        dated("2021-07-18T15:14:39+03:00").checked_timestamp(),
        Ok(Some(1_626_610_479))
    );
    assert_eq!(
        dated("1969-12-31T23:59:59.5Z").checked_timestamp(),
        Ok(Some(-1))
    );
    assert_eq!(dated("yesterday").checked_timestamp(), Err(InvalidDate));
    assert_eq!(dated("").checked_timestamp(), Err(InvalidDate));
    let undated = GitHubCommit::default();
    assert_eq!(undated.checked_timestamp(), Ok(None));
    assert_eq!(undated.timestamp(), None);
    assert_eq!(undated.convert_to_unix_timestamp("1970-01-01T00:00:01Z"), 1);
}

#[test]
fn commit_says_who_and_what() {
    let commit = dated("2021-07-18T15:14:39+03:00");
    assert_eq!(commit.id(), "1d244937ee6ceb8e0314a4a201ba93a7a61f2071");
    assert_eq!(commit.username(), Some("orhun".to_string()));
    assert_eq!(GitHubCommit::default().username(), None);
    let nameless = GitHubCommit {
        author: Some(GitHubCommitAuthor { login: None }),
        ..GitHubCommit::default()
    };
    assert_eq!(nameless.username(), None);
}

#[test]
fn pull_request_says_what_it_is() {
    let pull_request = GitHubPullRequest {
        number: 42,
        title: Some("Title".to_string()),
        merge_commit_sha: Some("abc".to_string()),
        labels: vec![
            PullRequestLabel {
                name: "bug".to_string(),
            },
            PullRequestLabel {
                name: "docs".to_string(),
            },
        ],
        updated_at: None,
    };
    assert_eq!(pull_request.number(), 42);
    assert_eq!(pull_request.title(), Some("Title".to_string()));
    assert_eq!(pull_request.merge_commit(), Some("abc".to_string()));
    assert_eq!(
        pull_request.labels(),
        vec!["bug".to_string(), "docs".to_string()]
    );
    assert_eq!(GitHubPullRequest::default().labels(), Vec::<String>::new());
    assert_eq!(GitHubPullRequest::default().title(), None);
}

#[test]
fn commits_url() {
    assert_eq!(MAX_PAGE_SIZE, 100);
    assert_eq!(
        GitHubClient::commits_url(API_URL, &remote(), None, 0),
        "https://api.github.com/repos/orhun/git-cliff/commits?per_page=100&page=0"
    );
    assert_eq!(
        GitHubClient::commits_url("http://host", &remote(), Some("release/1.x"), 12),
        "http://host/repos/orhun/git-cliff/commits?per_page=100&page=12&sha=release/1.x"
    );
}

#[test]
fn pull_requests_url() {
    assert_eq!(
        GitHubClient::pull_requests_url(API_URL, &remote(), 3),
        "https://api.github.com/repos/orhun/git-cliff/pulls?per_page=100&page=3&state=closed"
    );
}

#[test]
fn pull_requests_url_sorted() {
    assert_eq!(
        GitHubClient::pull_requests_url_sorted(API_URL, &remote(), 3, None),
        "https://api.github.com/repos/orhun/git-cliff/pulls?per_page=100&page=3&state=closed\
         &sort=updated&direction=desc"
    );
    assert_eq!(
        GitHubClient::pull_requests_url_sorted(
            API_URL,
            &remote(),
            3,
            Some("2024-01-01T00:00:00+02:00")
        ),
        "https://api.github.com/repos/orhun/git-cliff/pulls?per_page=100&page=3&state=closed\
         &sort=updated&direction=desc&since=2024-01-01T00%3A00%3A00%2B02%3A00"
    );
}

#[test]
fn commits_url_since() {
    assert_eq!(
        GitHubClient::commits_url_since(
            API_URL,
            &remote(),
            Some("main"),
            1,
            Some("2024-01-01T00:00:00Z")
        ),
        "https://api.github.com/repos/orhun/git-cliff/commits?per_page=100&page=1&sha=main\
         &since=2024-01-01T00%3A00%3A00Z"
    );
    assert_eq!(
        GitHubClient::commits_url_since(API_URL, &remote(), None, 1, Some("a-b_c.d~e &%\u{1F47E}")),
        "https://api.github.com/repos/orhun/git-cliff/commits?per_page=100&page=1\
         &since=a-b_c.d~e%20%26%25%F0%9F%91%BE"
    );
    assert_eq!(
        GitHubClient::commits_url_since(API_URL, &remote(), Some("main"), 1, None),
        GitHubClient::commits_url(API_URL, &remote(), Some("main"), 1)
    );
}

#[test]
fn client_asks_the_public_api_unless_told_otherwise() {
    let client = GitHubClient::new(remote(), None);
    assert_eq!(client.api_url, "https://api.github.com");
    assert_eq!(client.remote(), remote());
    let client = GitHubClient::new(remote(), Some("http://host".to_string()));
    assert_eq!(client.api_url, "http://host");
}

#[test]
fn pages_have_different_urls() {
    let urls: Vec<String> = (0..25)
        .map(|page| GitHubClient::commits_url_since("", &remote(), Some("1"), page, Some("1")))
        .collect();
    for i in 0..urls.len() {
        for j in 0..i {
            assert_ne!(urls[i], urls[j]);
        }
    }
}

#[test]
fn numbers_are_written_in_decimal() {
    for n in [0, 7, 10, 99, 100, 1234567890, i32::MAX, -1, -10, i32::MIN] {
        let mut text = String::from("n=");
        push_integer(&mut text, n);
        assert_eq!(text, format!("n={n}"));
    }
    let mut text = String::new();
    push_decimal(&mut text, u64::MAX);
    assert_eq!(text, "18446744073709551615");
}

#[test]
fn text_order_is_that_of_strings() {
    let texts = [
        "",
        "a",
        "ab",
        "b",
        "2024-01-01T00:00:00Z",
        "2024-01-01T00:00:00.5Z",
        "2023-12-31T23:59:59Z",
        "\u{e9}",
        "\u{ffff}",
        "\u{10000}",
    ];
    for a in texts {
        for b in texts {
            assert_eq!(is_before(a, b), a < b);
        }
    }
}
