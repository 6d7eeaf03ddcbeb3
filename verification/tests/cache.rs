use git_cliff_core::remote::cache::{
    CacheFile, CacheRecord, CachedCommit, CachedPullRequest, GitHubCache,
};
use git_cliff_core::remote::clock::{FIRST_NANOSECOND, LAST_NANOSECOND, YEAR_ZERO_NANOSECOND};
use git_cliff_core::remote::github::{
    GitHubCommit, GitHubCommitAuthor, GitHubCommitDetails, GitHubCommitDetailsAuthor,
    GitHubPullRequest, PullRequestLabel,
};
use std::path::Path;

fn commit(sha: &str, login: Option<&str>, date: Option<&str>) -> GitHubCommit {
    GitHubCommit {
        sha: sha.to_string(),
        author: login.map(|login| GitHubCommitAuthor {
            login: Some(login.to_string()),
        }),
        commit: date.map(|date| GitHubCommitDetails {
            author: GitHubCommitDetailsAuthor {
                date: date.to_string(),
            },
        }),
    }
}

fn pull_request(number: i64, title: &str, labels: &[&str]) -> GitHubPullRequest {
    GitHubPullRequest {
        number,
        title: Some(title.to_string()),
        merge_commit_sha: Some(format!("merge-{number}")),
        labels: labels
            .iter()
            .map(|name| PullRequestLabel {
                name: name.to_string(),
            })
            .collect(),
        updated_at: Some("2024-01-01T00:00:00Z".to_string()),
    }
}

#[test]
fn test_cache_round_trip() {
    let mut cache = GitHubCache::default();
    cache.commits.insert(
        "abc123".to_string(),
        CachedCommit {
            sha: "abc123".to_string(),
            author_login: Some("user1".to_string()),
            date: Some("2024-01-01T00:00:00Z".to_string()),
        },
    );
    cache.pull_requests.insert(
        1,
        CachedPullRequest {
            number: 1,
            title: Some("Test PR".to_string()),
            merge_commit_sha: Some("def456".to_string()),
            labels: vec!["bug".to_string()],
            updated_at: Some("2024-01-01T00:00:00Z".to_string()),
        },
    );
    cache.update_timestamp();

    let saved = cache.to_record();

    let loaded = GitHubCache::load(CacheFile::Parsed(saved));
    assert_eq!(loaded.commits.len(), 1);
    assert_eq!(loaded.pull_requests.len(), 1);
    assert!(loaded.last_updated.is_some());

    assert_eq!(loaded.last_updated, cache.last_updated);
    let commit = loaded.commits.get("abc123").unwrap();
    assert_eq!(commit.sha, "abc123");
    assert_eq!(commit.author_login.as_deref(), Some("user1"));
    assert_eq!(commit.date.as_deref(), Some("2024-01-01T00:00:00Z"));
    let pull_request = &loaded.pull_requests[&1];
    assert_eq!(pull_request.number, 1);
    assert_eq!(pull_request.title.as_deref(), Some("Test PR"));
    assert_eq!(pull_request.merge_commit_sha.as_deref(), Some("def456"));
    assert_eq!(pull_request.labels, vec!["bug".to_string()]);
    assert_eq!(
        pull_request.updated_at.as_deref(),
        Some("2024-01-01T00:00:00Z")
    );
}

#[test]
fn test_empty_cache() {
    let cache = GitHubCache::load(CacheFile::Missing);
    assert!(cache.is_empty());
    assert!(cache.last_updated.is_none());
}

#[test]
fn broken_cache_files_load_as_empty() {
    for file in [
        CacheFile::Unopenable,
        CacheFile::Unreadable,
        CacheFile::Unparsable,
    ] {
        let cache = GitHubCache::load(file);
        assert!(cache.is_empty());
        assert_eq!(cache.stats(), (0, 0));
        assert_eq!(cache.get_since_timestamp(), None);
    }
}

#[test]
fn cache_path_lies_in_the_git_directory() {
    assert_eq!(
        GitHubCache::cache_path(Path::new("/repo/.git")),
        Path::new("/repo/.git/git-cliff-core/github_cache.json")
    );
    assert_eq!(
        GitHubCache::cache_path(Path::new("../x/./.git/")),
        Path::new("../x/./.git/git-cliff-core/github_cache.json")
    );
    assert_eq!(
        GitHubCache::cache_path(Path::new("")),
        Path::new("git-cliff-core/github_cache.json")
    );
}

#[test]
fn last_entry_of_a_record_wins() {
    let entry = |login: &str| CachedCommit {
        sha: "a".to_string(),
        author_login: Some(login.to_string()),
        date: None,
    };
    let cache = GitHubCache::load(CacheFile::Parsed(CacheRecord {
        last_updated: Some("then".to_string()),
        commits: vec![
            ("a".to_string(), entry("first")),
            ("b".to_string(), entry("other key")),
            ("a".to_string(), entry("last")),
        ],
        pull_requests: Vec::new(),
    }));
    assert_eq!(cache.stats(), (2, 0));
    assert!(!cache.is_empty());
    assert_eq!(cache.get_since_timestamp(), Some("then"));
    assert_eq!(
        cache.commits.get("a").unwrap().author_login.as_deref(),
        Some("last")
    );
    assert_eq!(
        cache.commits.get("b").unwrap().author_login.as_deref(),
        Some("other key")
    );
    assert!(cache.commits.get("c").is_none());
}

#[test]
fn update_is_recorded_in_rfc3339() {
    let mut cache = GitHubCache::default();
    cache.update_timestamp_at(1_626_610_479_000_000_000);
    assert_eq!(cache.get_since_timestamp(), Some("2021-07-18T12:14:39Z"));
    cache.update_timestamp_at(1_626_610_479_120_000_000);
    assert_eq!(cache.get_since_timestamp(), Some("2021-07-18T12:14:39.12Z"));
    cache.update_timestamp_at(0);
    assert_eq!(cache.get_since_timestamp(), Some("1970-01-01T00:00:00Z"));
    cache.update_timestamp_at(YEAR_ZERO_NANOSECOND);
    assert_eq!(cache.get_since_timestamp(), Some("0000-01-01T00:00:00Z"));
    cache.update_timestamp_at(LAST_NANOSECOND);
    assert_eq!(
        cache.get_since_timestamp(),
        Some("9999-12-31T23:59:59.999999999Z")
    );
}

#[test]
fn update_before_the_year_zero_is_recorded_as_empty() {
    let mut cache = GitHubCache::default();
    cache.update_timestamp_at(YEAR_ZERO_NANOSECOND - 1);
    assert_eq!(cache.get_since_timestamp(), Some(""));
    cache.update_timestamp_at(FIRST_NANOSECOND);
    assert_eq!(cache.get_since_timestamp(), Some(""));
}

#[test]
fn update_to_now_keeps_the_entries() {
    let mut cache = GitHubCache::default();
    cache.merge_commits(&vec![commit("a", None, None)]);
    cache.update_timestamp();
    let recorded = cache.get_since_timestamp().unwrap().to_string();
    assert!(recorded.as_str() > "2024-01-01T00:00:00Z");
    assert!(recorded.ends_with('Z'));
    assert_eq!(cache.stats(), (1, 0));
}

#[test]
fn missing_text_is_recorded_as_empty() {
    let mut cache = GitHubCache::default();
    cache.set_timestamp(Some("now".to_string()));
    assert_eq!(cache.get_since_timestamp(), Some("now"));
    cache.set_timestamp(None);
    assert_eq!(cache.get_since_timestamp(), Some(""));
}

#[test]
fn merged_commits_replace_and_add() {
    let mut cache = GitHubCache::default();
    cache.merge_commits(&vec![
        commit("a", Some("ann"), Some("2024-01-01T00:00:00Z")),
        commit("b", None, None),
    ]);
    cache.merge_commits(&vec![
        commit("b", Some("bob"), None),
        commit("c", None, None),
        commit("b", Some("eve"), None),
    ]);
    assert_eq!(cache.stats(), (3, 0));
    assert_eq!(
        cache.commits.get("a").unwrap().author_login.as_deref(),
        Some("ann")
    );
    assert_eq!(
        cache.commits.get("b").unwrap().author_login.as_deref(),
        Some("eve")
    );

    let mut shas: Vec<String> = cache.remote_commits().iter().map(|c| c.id()).collect();
    shas.sort();
    assert_eq!(shas, vec!["a".to_string(), "b".to_string(), "c".to_string()]);
}

#[test]
fn merging_again_changes_nothing() {
    let commits = vec![commit("a", Some("ann"), None), commit("b", None, None)];
    let pull_requests = vec![pull_request(1, "one", &["x"]), pull_request(2, "two", &[])];
    let mut cache = GitHubCache::default();
    cache.merge_commits(&commits);
    cache.merge_pull_requests(&pull_requests);
    let mut again = cache.clone();
    again.merge_commits(&commits);
    again.merge_pull_requests(&pull_requests);
    assert_eq!(again.stats(), (2, 2));
    assert_eq!(again.remote_commits(), cache.remote_commits());
    let sorted = |cache: &GitHubCache| {
        let mut all = cache.remote_pull_requests();
        all.sort_by_key(|pull_request| pull_request.number());
        all
    };
    assert_eq!(sorted(&again), sorted(&cache));
}

#[test]
fn merging_in_batches_is_merging_at_once() {
    let first = vec![commit("a", Some("ann"), None), commit("b", None, None)];
    let second = vec![commit("b", Some("bob"), None), commit("c", None, None)];
    let mut in_batches = GitHubCache::default();
    in_batches.merge_commits(&first);
    in_batches.merge_commits(&second);
    let mut all = first;
    all.extend(second);
    let mut at_once = GitHubCache::default();
    at_once.merge_commits(&all);
    assert_eq!(in_batches.remote_commits(), at_once.remote_commits());
}

#[test]
fn merged_pull_requests_replace_and_add() {
    let mut cache = GitHubCache::default();
    cache.merge_pull_requests(&vec![
        pull_request(1, "one", &["a", "b"]),
        pull_request(2, "two", &[]),
    ]);
    cache.merge_pull_requests(&vec![pull_request(2, "changed", &["c"])]);
    assert_eq!(cache.stats(), (0, 2));
    let mut all = cache.remote_pull_requests();
    all.sort_by_key(|pull_request| pull_request.number());
    assert_eq!(
        all,
        vec![
            pull_request(1, "one", &["a", "b"]),
            pull_request(2, "changed", &["c"]),
        ]
    );
}

#[test]
fn commit_comes_back_from_the_cache() {
    let whole = commit("a", Some("ann"), Some("2024-01-01T00:00:00Z"));
    assert_eq!(CachedCommit::from_commit(&whole).to_commit(), whole);
    let bare = commit("b", None, None);
    assert_eq!(CachedCommit::from_commit(&bare).to_commit(), bare);

    let nameless = GitHubCommit {
        sha: "c".to_string(),
        author: Some(GitHubCommitAuthor { login: None }),
        commit: None,
    };
    let back = CachedCommit::from_commit(&nameless).to_commit();
    assert_eq!(back.author, None);
    assert_eq!(back.username(), nameless.username());
    assert_eq!(back.id(), nameless.id());
}

#[test]
fn pull_request_comes_back_from_the_cache() {
    let whole = pull_request(7, "seven", &["a", "b", "a"]);
    assert_eq!(
        CachedPullRequest::from_pull_request(&whole).to_pull_request(),
        whole
    );
    let bare = GitHubPullRequest::default();
    assert_eq!(
        CachedPullRequest::from_pull_request(&bare).to_pull_request(),
        bare
    );
}
