use fedi_sleuth::models::AppSettings;
use fedi_sleuth::models::PixelfedAccount;
use fedi_sleuth::models::PixelfedMediaAttachment;
use fedi_sleuth::models::PixelfedPost;
use fedi_sleuth::models::SearchType;
use fedi_sleuth::timeline::MastodonService;
use fedi_sleuth::timeline::PixelfedService;
use fedi_sleuth::timeline::TimelineSearch;
use fedi_sleuth::timeline::TimelineStart;
use fedi_sleuth::timeutil::Timestamp;

// 2024-06-01T12:00:00Z; a 30-day window puts the cutoff at
// 2024-05-02T12:00:00Z (unix 1714651200).
const NOW: i64 = 1717243200;

fn mastodon_settings() -> AppSettings {
    let mut s = AppSettings::default();
    s.api.mastodon.enabled = true;
    s.api.mastodon.access_token = Some("token".to_string());
    s
}

fn post(id: &str, created_at: Option<&str>) -> PixelfedPost {
    PixelfedPost {
        id: id.to_string(),
        account: PixelfedAccount {
            id: "acct".to_string(),
            username: Some("alice".to_string()),
            display_name: Some("Alice".to_string()),
            url: None,
        },
        content: Some("<p>hello</p>".to_string()),
        created_at: created_at.map(|s| s.to_string()),
        media_attachments: Vec::new(),
        favourites_count: Some(2),
        reblogs_count: Some(1),
        url: Some("https://m.example/@alice/1".to_string()),
    }
}

fn start_hashtag(query: &str) -> TimelineSearch {
    let service = MastodonService::new(&mastodon_settings());
    match service
        .start_search(query, SearchType::Hashtag, 30, Timestamp::from_unix(NOW))
        .expect("search should start")
    {
        TimelineStart::Hashtag(s) => s,
        TimelineStart::User(_) => panic!("hashtag search expected"),
    }
}

#[test]
fn missing_token_fails_before_any_fetch() {
    let mut settings = mastodon_settings();
    settings.api.mastodon.access_token = None;
    let service = MastodonService::new(&settings);
    let r = service.start_search("#x", SearchType::Hashtag, 30, Timestamp::from_unix(NOW));
    let e = r.err().expect("authentication should be required");
    assert_eq!(
        e.message(),
        "Authentication required. Please enable OAuth in Settings and sign in."
    );
}

#[test]
fn hashtag_page_urls_carry_the_cursor() {
    let search = start_hashtag("#sunset");
    assert_eq!(
        search.next_page_url().as_deref(),
        Some("https://mastodon.social/api/v1/timelines/tag/sunset?limit=40")
    );
    assert_eq!(search.bearer_token(), "token");
}

#[test]
fn user_search_resolves_the_handle_first() {
    let service = MastodonService::new(&mastodon_settings());
    let start = service
        .start_search("@user@remote.social", SearchType::User, 30, Timestamp::from_unix(NOW))
        .expect("search should start");
    let resolution = match start {
        TimelineStart::User(a) => a,
        TimelineStart::Hashtag(_) => panic!("user search expected"),
    };
    assert_eq!(
        resolution.request_url(),
        "https://mastodon.social/api/v2/search?q=user%40remote.social&type=accounts&resolve=true&limit=1"
    );
    let machine = resolution
        .on_accounts(&vec!["42".to_string()])
        .expect("one account resolves");
    assert_eq!(
        machine.next_page_url().as_deref(),
        Some("https://mastodon.social/api/v1/accounts/42/statuses?limit=40")
    );
}

#[test]
fn unresolved_handle_is_a_not_found_error() {
    let service = MastodonService::new(&mastodon_settings());
    let start = service
        .start_search("@ghost", SearchType::User, 30, Timestamp::from_unix(NOW))
        .expect("search should start");
    let resolution = match start {
        TimelineStart::User(a) => a,
        TimelineStart::Hashtag(_) => panic!("user search expected"),
    };
    let e = resolution.on_accounts(&Vec::new()).err().expect("no account");
    assert_eq!(
        e.message(),
        "User 'ghost' not found on https://mastodon.social. Try searching directly on their home instance."
    );
}

#[test]
fn three_pages_stop_on_the_first_old_post() {
    // 3 pages; the last post of page 3 is older than the cutoff, the
    // other 124 are not, so the count is 3*40+4 and page 4 is never
    // fetched.
    let mut search = start_hashtag("#sunset");
    let mut page1 = Vec::new();
    for i in 0..40 {
        page1.push(post(&format!("a{}", i), Some("2024-05-20T00:00:00Z")));
    }
    let mut page2 = Vec::new();
    for i in 0..40 {
        page2.push(post(&format!("b{}", i), Some("2024-05-10T08:30:00Z")));
    }
    let mut page3 = Vec::new();
    for i in 0..44 {
        page3.push(post(&format!("c{}", i), Some("2024-05-03T00:00:00Z")));
    }
    page3.push(post("c44", Some("2024-04-01T00:00:00Z")));

    assert!(search.wants_page());
    search.on_page(&page1);
    assert!(search.wants_page());
    let second_url = search.next_page_url().expect("second page wanted");
    assert!(second_url.ends_with("&max_id=a39"), "got {}", second_url);
    search.on_page(&page2);
    assert!(search.wants_page());
    search.on_page(&page3);
    assert!(!search.wants_page());
    assert_eq!(search.pages_fetched, 3);
    let results = search.into_results();
    assert_eq!(results.len(), 124);
    for r in &results {
        assert!(r.created_at >= 1714651200, "{} is older than the cutoff", r.id);
    }
}

#[test]
fn old_posts_are_excluded_but_the_page_is_drained() {
    let mut search = start_hashtag("#x");
    let page = vec![
        post("new1", Some("2024-05-20T00:00:00Z")),
        post("old", Some("2024-04-01T00:00:00Z")),
        post("new2", Some("2024-05-21T00:00:00Z")),
    ];
    search.on_page(&page);
    assert!(!search.wants_page());
    let results = search.into_results();
    let ids: Vec<&str> = results.iter().map(|r| r.id.as_str()).collect();
    assert_eq!(ids, vec!["new1", "new2"]);
}

#[test]
fn unparseable_timestamps_skip_the_item_not_the_page() {
    let mut search = start_hashtag("#x");
    let page = vec![
        post("good", Some("2024-05-20T00:00:00Z")),
        post("bad", Some("not a date")),
        post("none", None),
        post("empty", Some("")),
        post("", Some("2024-05-20T00:00:00Z")),
        post("good2", Some("2024-05-22T09:15:30+00:00")),
    ];
    search.on_page(&page);
    let results = search.into_results();
    let ids: Vec<&str> = results.iter().map(|r| r.id.as_str()).collect();
    assert_eq!(ids, vec!["good", "good2"]);
}

#[test]
fn empty_page_ends_the_search() {
    let mut search = start_hashtag("#x");
    search.on_page(&Vec::new());
    assert!(!search.wants_page());
    assert!(search.into_results().is_empty());
}

#[test]
fn page_with_no_accepted_post_ends_the_search() {
    let mut search = start_hashtag("#x");
    let page = vec![post("bad1", Some("nope")), post("bad2", None)];
    search.on_page(&page);
    assert!(!search.wants_page());
}

#[test]
fn repeated_cursor_ends_the_search() {
    let mut search = start_hashtag("#x");
    let page = vec![post("same", Some("2024-05-20T00:00:00Z"))];
    search.on_page(&page);
    assert!(search.wants_page());
    search.on_page(&page);
    assert!(!search.wants_page());
    assert_eq!(search.into_results().len(), 2);
}

#[test]
fn pagination_never_exceeds_the_page_bound() {
    let mut search = start_hashtag("#endless");
    let mut fetches = 0u32;
    let mut serial = 0u32;
    while search.next_page_url().is_some() {
        // the upstream never runs dry: every page has one fresh post
        serial += 1;
        let page = vec![post(&format!("p{}", serial), Some("2024-05-20T00:00:00Z"))];
        search.on_page(&page);
        fetches += 1;
        assert!(fetches <= 200, "runaway pagination");
    }
    assert_eq!(fetches, 120);
    assert_eq!(search.into_results().len(), 120);
}

#[test]
fn converted_posts_carry_stripped_content_and_media() {
    let mut search = start_hashtag("#x");
    let mut p = post("m1", Some("2024-05-20T00:00:00Z"));
    p.content = Some("<p>Sun &amp; sea <b>today</b></p>".to_string());
    p.media_attachments = vec![
        PixelfedMediaAttachment {
            id: "1".to_string(),
            media_type: Some("image".to_string()),
            url: Some(" https://cdn.example/a.jpg ".to_string()),
            preview_url: None,
        },
        PixelfedMediaAttachment {
            id: "2".to_string(),
            media_type: None,
            url: Some("   ".to_string()),
            preview_url: None,
        },
        PixelfedMediaAttachment {
            id: "3".to_string(),
            media_type: Some("video".to_string()),
            url: None,
            preview_url: Some("https://cdn.example/thumb.jpg".to_string()),
        },
    ];
    search.on_page(&vec![p]);
    let results = search.into_results();
    assert_eq!(results.len(), 1);
    let r = &results[0];
    assert_eq!(r.content, "Sun &amp; sea today");
    assert_eq!(r.author, "Alice");
    assert_eq!(r.media_urls, vec!["https://cdn.example/a.jpg"]);
    assert_eq!(r.media_types, vec!["image"]);
    assert_eq!(r.media_count, 1);
    assert_eq!(r.likes, 2);
    assert_eq!(r.shares, 1);
    assert_eq!(r.created_at, 1716163200);
    assert_eq!(r.url, "https://m.example/@alice/1");
}

#[test]
fn post_without_url_gets_the_fallback() {
    let mut search = start_hashtag("#x");
    let mut p = post("77", Some("2024-05-20T00:00:00Z"));
    p.url = None;
    p.account.display_name = None;
    search.on_page(&vec![p]);
    let results = search.into_results();
    assert_eq!(results[0].author, "alice");
    assert_eq!(results[0].url, "https://mastodon.social/@alice/77");
}

#[test]
fn pixelfed_service_uses_its_own_settings() {
    let mut settings = AppSettings::default();
    settings.api.pixelfed.enabled = true;
    settings.api.pixelfed.instance_url = "pix.example/".to_string();
    settings.api.pixelfed.access_token = Some("ptok".to_string());
    let service = PixelfedService::new(&settings);
    assert!(service.is_enabled());
    assert!(service.is_authenticated());
    assert_eq!(service.instance_url(), "https://pix.example");
    let start = service
        .start_search("#art", SearchType::Hashtag, 7, Timestamp::from_unix(NOW))
        .expect("search should start");
    let search = match start {
        TimelineStart::Hashtag(s) => s,
        TimelineStart::User(_) => panic!("hashtag search expected"),
    };
    assert_eq!(
        search.next_page_url().as_deref(),
        Some("https://pix.example/api/v1/timelines/tag/art?limit=40")
    );
}
