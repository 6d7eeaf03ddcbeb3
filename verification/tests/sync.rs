use git_cliff_core::remote::cache::GitHubCache;
use git_cliff_core::remote::github::{GitHubClient, GitHubCommit, GitHubPullRequest, Remote};
use git_cliff_core::remote::save::{SaveEvent, SaveStep};
use git_cliff_core::remote::sync::{CacheSync, SyncStage};

fn client() -> GitHubClient {
    GitHubClient::new(
        Remote {
            owner: "o".to_string(),
            repo: "r".to_string(),
        },
        Some("api".to_string()),
    )
}

fn commit(sha: &str) -> GitHubCommit {
    GitHubCommit {
        sha: sha.to_string(),
        ..GitHubCommit::default()
    }
}

fn pull_request(number: i64, updated_at: &str) -> GitHubPullRequest {
    GitHubPullRequest {
        number,
        updated_at: Some(updated_at.to_string()),
        ..GitHubPullRequest::default()
    }
}

fn shas(commits: &[GitHubCommit]) -> Vec<String> {
    let mut shas: Vec<String> = commits.iter().map(|c| c.id()).collect();
    shas.sort();
    shas
}

fn numbers(pull_requests: &[GitHubPullRequest]) -> Vec<i64> {
    let mut numbers: Vec<i64> = pull_requests.iter().map(|p| p.number()).collect();
    numbers.sort();
    numbers
}

#[test]
fn update_fetches_merges_and_records() {
    let mut cache = GitHubCache::default();
    cache.merge_commits(&vec![commit("old")]);
    cache.merge_pull_requests(&vec![pull_request(1, "2023")]);
    cache.set_timestamp(Some("2024".to_string()));

    let sync = CacheSync::new(cache, Some("main".to_string()));
    assert_eq!(sync.stage(), SyncStage::Commits);
    assert_eq!(
        sync.url(&client()).as_deref(),
        Some("api/repos/o/r/commits?per_page=100&page=0&sha=main&since=2024")
    );
    let sync = sync
        .accept_commits::<String>(Ok(vec![commit("new")]))
        .ok()
        .unwrap();
    assert_eq!(sync.page(), 1);
    let sync = sync.accept_commits::<String>(Ok(Vec::new())).ok().unwrap();

    assert_eq!(sync.stage(), SyncStage::PullRequests);
    assert_eq!(
        sync.url(&client()).as_deref(),
        Some("api/repos/o/r/pulls?per_page=100&page=0&state=closed&sort=updated&direction=desc")
    );
    let page = vec![
        pull_request(3, "2025"),
        pull_request(1, "2024"),
        pull_request(2, "2023"),
    ];
    let sync = sync.accept_pull_requests::<String>(Ok(page)).ok().unwrap();

    assert_eq!(sync.stage(), SyncStage::Merged);
    assert_eq!(sync.url(&client()), None);
    let synced = sync.finish_at(1_626_610_479_000_000_000);
    assert_eq!(synced.cache.stats(), (2, 2));
    assert_eq!(
        synced.cache.get_since_timestamp(),
        Some("2021-07-18T12:14:39Z")
    );
    assert_eq!(
        shas(&synced.commits),
        vec!["new".to_string(), "old".to_string()]
    );
    assert_eq!(numbers(&synced.pull_requests), vec![1, 3]);
    let first = synced
        .pull_requests
        .iter()
        .find(|p| p.number() == 1)
        .unwrap();
    assert_eq!(first.updated_at.as_deref(), Some("2024"));
}

#[test]
fn first_run_asks_for_everything() {
    let sync = CacheSync::new(GitHubCache::default(), None);
    assert_eq!(
        sync.url(&client()).as_deref(),
        Some("api/repos/o/r/commits?per_page=100&page=0")
    );
    let sync = sync.accept_commits::<String>(Ok(Vec::new())).ok().unwrap();
    let sync = sync
        .accept_pull_requests::<String>(Ok(vec![pull_request(1, "1")]))
        .ok()
        .unwrap();
    assert_eq!(sync.stage(), SyncStage::PullRequests);
    assert_eq!(sync.page(), 1);
    let sync = sync
        .accept_pull_requests::<String>(Ok(Vec::new()))
        .ok()
        .unwrap();
    let synced = sync.finish();
    assert!(synced.commits.is_empty());
    assert_eq!(numbers(&synced.pull_requests), vec![1]);

    let since = synced.cache.get_since_timestamp().unwrap().to_string();
    let next = CacheSync::new(synced.cache, None);
    let url = next.url(&client()).unwrap();
    assert_eq!(
        url,
        GitHubClient::commits_url_since("api", &client().remote(), None, 0, Some(since.as_str()))
    );
}

#[test]
fn update_fails_with_the_first_error() {
    let sync = CacheSync::new(GitHubCache::default(), None);
    assert_eq!(sync.accept_commits(Err("down")).err(), Some("down"));

    let sync = CacheSync::new(GitHubCache::default(), None);
    let sync = sync.accept_commits::<&str>(Ok(Vec::new())).ok().unwrap();
    assert_eq!(sync.accept_pull_requests(Err("gone")).err(), Some("gone"));
}

#[test]
fn checked_update_takes_what_it_can_count() {
    let mut cache = GitHubCache::default();
    cache.set_timestamp(Some("2024-01-01T00:00:00Z".to_string()));
    let sync = CacheSync::new(cache, None);
    let sync = sync.accept_commits::<String>(Ok(Vec::new())).ok().unwrap();
    let page = vec![pull_request(1, "2023-12-31T23:30:00-01:00")];
    let sync = sync
        .checked_accept_pull_requests::<String>(Ok(page))
        .unwrap()
        .ok()
        .unwrap();
    assert_eq!(sync.stage(), SyncStage::PullRequests);
    assert_eq!(sync.page(), 1);
    let page = vec![pull_request(2, "2023-12-31T23:59:59Z")];
    let sync = sync
        .checked_accept_pull_requests::<String>(Ok(page))
        .unwrap()
        .ok()
        .unwrap();
    assert_eq!(sync.stage(), SyncStage::Merged);
    assert_eq!(numbers(&sync.finish().pull_requests), vec![1]);

    let sync = CacheSync::new(GitHubCache::default(), None);
    let sync = sync.accept_commits::<&str>(Ok(Vec::new())).ok().unwrap();
    assert_eq!(
        sync.checked_accept_pull_requests(Err("gone"))
            .unwrap()
            .err(),
        Some("gone")
    );
}

#[test]
fn saving_goes_step_by_step() {
    let step = SaveStep::first();
    assert!(matches!(step, SaveStep::CreateDirectories));
    let step = step
        .next::<String>(Ok(SaveEvent::DirectoriesCreated))
        .unwrap();
    assert!(matches!(step, SaveStep::Serialize));
    let step = step
        .next::<String>(Ok(SaveEvent::Serialized("{}".to_string())))
        .unwrap();
    assert!(matches!(&step, SaveStep::CreateFile(contents) if contents == "{}"));
    let step = step.next::<String>(Ok(SaveEvent::FileCreated)).unwrap();
    assert!(matches!(&step, SaveStep::Write(contents) if contents == "{}"));
    let step = step.next::<String>(Ok(SaveEvent::Written)).unwrap();
    assert!(matches!(step, SaveStep::Saved));
}

#[test]
fn failed_step_fails_the_save() {
    assert_eq!(
        SaveStep::first().next(Err("no permission")).err(),
        Some("no permission")
    );
    let step = SaveStep::Serialize;
    assert_eq!(step.next(Err("not text")).err(), Some("not text"));
}

#[test]
fn other_event_changes_nothing() {
    let step = SaveStep::first()
        .next::<String>(Ok(SaveEvent::FileCreated))
        .unwrap();
    assert!(matches!(step, SaveStep::CreateDirectories));
}
