use fedi_sleuth::download::ConcurrencyGauge;
use fedi_sleuth::download::DownloadService;
use fedi_sleuth::download::ProgressTracker;
use fedi_sleuth::errors::DownloadError;
use fedi_sleuth::errors::SearchError;
use fedi_sleuth::models::AppSettings;
use fedi_sleuth::models::Platform;
use fedi_sleuth::models::PlatformSearchResults;
use fedi_sleuth::models::SearchContext;
use fedi_sleuth::models::SearchResult;
use fedi_sleuth::models::SearchType;
use fedi_sleuth::orchestrator::PlatformDecision;
use fedi_sleuth::orchestrator::PlatformSelection;
use fedi_sleuth::orchestrator::SearchSummary;
use fedi_sleuth::orchestrator::assemble_groups;
use fedi_sleuth::orchestrator::decide_platform;
use fedi_sleuth::orchestrator::disabled_group;
use fedi_sleuth::orchestrator::group_from_outcome;
use fedi_sleuth::orchestrator::skipped_group;
use fedi_sleuth::orchestrator::sort_results_desc;
use fedi_sleuth::orchestrator::status_message;
use fedi_sleuth::orchestrator::summarize_groups;
use fedi_sleuth::timeutil::Timestamp;

// 2024-06-01T12:00:00Z
const NOW: i64 = 1717243200;

fn result(id: &str, created_at: i64, urls: &[&str]) -> SearchResult {
    SearchResult {
        platform: Platform::Pixelfed,
        id: id.to_string(),
        author: "alice".to_string(),
        content: "hello".to_string(),
        created_at,
        media_urls: urls.iter().map(|u| u.to_string()).collect(),
        media_types: urls.iter().map(|_| "image".to_string()).collect(),
        media_count: urls.len() as u32,
        likes: 0,
        shares: 0,
        url: "https://pix.example/p/1".to_string(),
    }
}

fn settings() -> AppSettings {
    let mut s = AppSettings::default();
    s.download.base_path = "./downloads".to_string();
    s.download.organize_by_date = true;
    s.download.max_concurrent = 1;
    s
}

#[test]
fn platform_decisions() {
    assert_eq!(decide_platform(false, true), PlatformDecision::Skip);
    assert_eq!(decide_platform(false, false), PlatformDecision::Skip);
    assert_eq!(decide_platform(true, false), PlatformDecision::Disabled);
    assert_eq!(decide_platform(true, true), PlatformDecision::Run);
}

#[test]
fn selection_follows_settings() {
    let mut s = AppSettings::default();
    s.api.mastodon.enabled = true;
    let sel = PlatformSelection::from_settings(&s);
    assert!(!sel.pixelfed);
    assert!(sel.mastodon);
    assert!(!sel.bluesky);
    assert!(sel.any());
    let none = PlatformSelection { pixelfed: false, mastodon: false, bluesky: false };
    assert!(!none.any());
}

#[test]
fn results_are_sorted_newest_first() {
    let v = vec![result("a", 10, &[]), result("b", 30, &[]), result("c", 20, &[])];
    let sorted = sort_results_desc(v);
    let ids: Vec<&str> = sorted.iter().map(|r| r.id.as_str()).collect();
    assert_eq!(ids, vec!["b", "c", "a"]);
}

#[test]
fn sorting_keeps_results_with_equal_timestamps() {
    let v = vec![result("a", 10, &[]), result("b", 10, &[]), result("c", 5, &[])];
    let sorted = sort_results_desc(v);
    assert_eq!(sorted.len(), 3);
    assert_eq!(sorted[2].id, "c");
    let first_two: Vec<&str> = sorted[..2].iter().map(|r| r.id.as_str()).collect();
    assert!(first_two.contains(&"a") && first_two.contains(&"b"));
}

#[test]
fn one_failure_never_suppresses_other_groups() {
    // one platform disabled, two enabled; one enabled platform times out
    let disabled = disabled_group(
        Platform::Pixelfed,
        "Pixelfed".to_string(),
    );
    let timed_out = group_from_outcome(
        Platform::Mastodon,
        "Mastodon".to_string(),
        Err(SearchError::Timeout { query: "sunset".to_string() }),
    );
    let mut r1 = result("p1", 20, &[]);
    r1.platform = Platform::Bluesky;
    let mut r2 = result("p2", 30, &[]);
    r2.platform = Platform::Bluesky;
    let ok = group_from_outcome(Platform::Bluesky, "Bluesky".to_string(), Ok(vec![r1, r2]));
    let groups = assemble_groups(disabled, timed_out, ok);
    assert_eq!(groups.len(), 3);
    assert_eq!(groups[0].platform, Platform::Pixelfed);
    assert_eq!(groups[1].platform, Platform::Mastodon);
    assert_eq!(groups[2].platform, Platform::Bluesky);
    assert_eq!(groups[0].error.as_deref(), Some("Disabled in settings"));
    assert!(groups[0].results.is_empty());
    let msg = groups[1].error.as_deref().expect("timeout is an error group");
    assert!(msg.starts_with("Request timed out while fetching 'sunset'"), "got {}", msg);
    assert!(groups[1].results.is_empty());
    assert!(groups[2].error.is_none());
    assert_eq!(groups[2].results.len(), 2);
    assert_eq!(groups[2].results[0].id, "p2");

    let summary = summarize_groups(&groups);
    assert_eq!(
        summary,
        SearchSummary { total_posts: 2, successful_platforms: 1, error_platforms: 2 }
    );
    assert_eq!(status_message(&summary), "Fetched 2 posts");
}

#[test]
fn skipped_groups_and_empty_summaries() {
    let groups = vec![skipped_group(Platform::Mastodon, "Mastodon".to_string())];
    assert_eq!(groups[0].error.as_deref(), Some("Skipped (not selected)"));
    let summary = summarize_groups(&groups);
    assert_eq!(summary.total_posts, 0);
    assert_eq!(status_message(&summary), "No posts found");
}

#[test]
fn empty_batch_fails_with_no_results() {
    let service = DownloadService::new(settings());
    let groups = vec![PlatformSearchResults::error(
        Platform::Pixelfed,
        "P".to_string(),
        "down".to_string(),
    )];
    let e = service
        .plan_downloads(None, groups, Timestamp::from_unix(NOW))
        .err()
        .expect("no results");
    assert!(matches!(e, DownloadError::NoResults));
}

#[test]
fn batch_without_media_fails_with_no_media() {
    let service = DownloadService::new(settings());
    let groups = vec![PlatformSearchResults::success(
        Platform::Pixelfed,
        "P".to_string(),
        vec![result("p1", 10, &[])],
    )];
    let e = service
        .plan_downloads(None, groups, Timestamp::from_unix(NOW))
        .err()
        .expect("no media");
    assert!(matches!(e, DownloadError::NoMedia));
}

#[test]
fn single_file_batch_plans_exactly_one_file() {
    let service = DownloadService::new(settings());
    let groups = vec![PlatformSearchResults::success(
        Platform::Pixelfed,
        "P".to_string(),
        vec![result("p1", 10, &["https://cdn.example/a/img.jpg"])],
    )];
    let ctx = SearchContext::new("#sunset".to_string(), SearchType::Hashtag, 30);
    let plan = service
        .plan_downloads(Some(&ctx), groups, Timestamp::from_unix(NOW))
        .expect("plannable batch");
    assert_eq!(plan.total_files, 1);
    assert_eq!(plan.tasks.len(), 1);
    assert_eq!(plan.root, "./downloads/2024-06-01/hashtag-sunset-30d-120000");
    assert_eq!(
        plan.tasks[0].dest_path,
        "./downloads/2024-06-01/hashtag-sunset-30d-120000/Pixelfed/p1_001.jpg"
    );
}

#[test]
fn error_groups_are_dropped_from_the_batch() {
    let service = DownloadService::new(settings());
    let groups = vec![
        PlatformSearchResults::error(Platform::Mastodon, "M".to_string(), "down".to_string()),
        PlatformSearchResults::success(
            Platform::Pixelfed,
            "P".to_string(),
            vec![result("p1", 10, &["https://cdn.example/a/img.jpg"])],
        ),
    ];
    let plan = service
        .plan_downloads(None, groups, Timestamp::from_unix(NOW))
        .expect("plannable batch");
    assert_eq!(plan.total_files, 1);
    assert_eq!(plan.root, "./downloads/2024-06-01/search-any-120000");
}

#[test]
fn four_file_batch_under_cap_one_runs_sequentially() {
    // two results with 2 media URLs each, max_concurrent = 1
    let service = DownloadService::new(settings());
    let groups = vec![PlatformSearchResults::success(
        Platform::Pixelfed,
        "P".to_string(),
        vec![
            result("p1", 10, &["https://c.example/1.jpg", "https://c.example/2.png"]),
            result("p2", 20, &["https://c.example/3.jpg", "https://c.example/4.webm"]),
        ],
    )];
    let ctx = SearchContext::new("@alice".to_string(), SearchType::User, 7);
    let plan = service
        .plan_downloads(Some(&ctx), groups, Timestamp::from_unix(NOW))
        .expect("plannable batch");
    assert_eq!(plan.total_files, 4);
    assert_eq!(plan.max_concurrent, 1);
    let names: Vec<&str> = plan.tasks.iter().map(|t| t.dest_path.as_str()).collect();
    assert_eq!(
        names,
        vec![
            "./downloads/2024-06-01/user-alice-7d-120000/Pixelfed/p1_001.jpg",
            "./downloads/2024-06-01/user-alice-7d-120000/Pixelfed/p1_002.png",
            "./downloads/2024-06-01/user-alice-7d-120000/Pixelfed/p2_001.jpg",
            "./downloads/2024-06-01/user-alice-7d-120000/Pixelfed/p2_002.webm",
        ]
    );

    // run the batch model sequentially under a one-permit gauge
    let mut gauge = ConcurrencyGauge::new(plan.max_concurrent);
    let mut progress = ProgressTracker::new(plan.total_files);
    let mut fractions: Vec<(usize, usize)> = Vec::new();
    for _task in &plan.tasks {
        assert!(gauge.try_acquire());
        assert!(!gauge.try_acquire(), "a second transfer must not start under cap 1");
        gauge.release();
        progress.record(true);
        fractions.push(progress.fraction());
    }
    assert!(progress.is_finished());
    assert_eq!(fractions, vec![(1, 4), (2, 4), (3, 4), (4, 4)]);
    assert_eq!(progress.fraction(), (4, 4));
}

#[test]
fn failed_files_degrade_progress_but_finish_the_batch() {
    let mut progress = ProgressTracker::new(3);
    progress.record(true);
    progress.record(false);
    progress.record(true);
    assert!(progress.is_finished());
    assert_eq!(progress.fraction(), (2, 3));
}

#[test]
fn gauge_counts_permits_up_to_the_cap() {
    let mut gauge = ConcurrencyGauge::new(3);
    assert!(gauge.try_acquire());
    assert!(gauge.try_acquire());
    assert!(gauge.try_acquire());
    assert!(!gauge.try_acquire());
    gauge.release();
    assert!(gauge.try_acquire());
    assert_eq!(gauge.active, 3);
    assert_eq!(gauge.cap, 3);
}

#[test]
fn concurrency_cap_is_never_zero() {
    let mut s = settings();
    s.download.max_concurrent = 0;
    let service = DownloadService::new(s);
    let groups = vec![PlatformSearchResults::success(
        Platform::Pixelfed,
        "P".to_string(),
        vec![result("p1", 10, &["https://cdn.example/a/img.jpg"])],
    )];
    let plan = service
        .plan_downloads(None, groups, Timestamp::from_unix(NOW))
        .expect("plannable batch");
    assert_eq!(plan.max_concurrent, 1);
}

#[test]
fn flat_layout_without_date_folder() {
    let mut s = settings();
    s.download.organize_by_date = false;
    s.download.base_path = "/tmp/media/".to_string();
    let service = DownloadService::new(s);
    let groups = vec![PlatformSearchResults::success(
        Platform::Bluesky,
        "B".to_string(),
        vec![{
            let mut r = result("at", 10, &["https://cdn.example/clip.mp4"]);
            r.platform = Platform::Bluesky;
            r
        }],
    )];
    let plan = service
        .plan_downloads(None, groups, Timestamp::from_unix(NOW))
        .expect("plannable batch");
    assert_eq!(plan.root, "/tmp/media/search-any-120000");
    assert_eq!(plan.tasks[0].dest_path, "/tmp/media/search-any-120000/bsky/at_001.mp4");
}
