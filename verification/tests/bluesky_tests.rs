use fedi_sleuth::bluesky::BlueskyEmbed;
use fedi_sleuth::bluesky::BlueskyPost;
use fedi_sleuth::bluesky::BlueskySearch;
use fedi_sleuth::bluesky::BlueskyService;
use fedi_sleuth::models::AppSettings;
use fedi_sleuth::models::SearchType;
use fedi_sleuth::timeutil::Timestamp;

// 2024-06-01T12:00:00Z; a 30-day window puts the cutoff at
// 2024-05-02T12:00:00Z (unix 1714651200).
const NOW: i64 = 1717243200;

fn bluesky_settings() -> AppSettings {
    let mut s = AppSettings::default();
    s.api.bluesky.enabled = true;
    s.api.bluesky.handle = " alice.bsky.social ".to_string();
    s.api.bluesky.app_password = "app-pass".to_string();
    s
}

fn bsky_post(uri: &str, created_at: Option<&str>, embed: Option<BlueskyEmbed>) -> BlueskyPost {
    BlueskyPost {
        uri: uri.to_string(),
        author_handle: "alice.bsky.social".to_string(),
        author_display_name: Some("Alice".to_string()),
        text: Some("  sky today  ".to_string()),
        created_at: created_at.map(|s| s.to_string()),
        indexed_at: None,
        embed,
        like_count: Some(5),
        repost_count: None,
    }
}

fn start_user_search() -> BlueskySearch {
    let service = BlueskyService::new(&bluesky_settings());
    let pending = service
        .start_search("@alice.bsky.social", SearchType::User, 30, Timestamp::from_unix(NOW))
        .expect("search should start");
    assert_eq!(pending.identifier(), "alice.bsky.social");
    assert_eq!(pending.password(), "app-pass");
    assert_eq!(
        pending.session_url(),
        "https://bsky.social/xrpc/com.atproto.server.createSession"
    );
    pending.on_session("jwt-token".to_string())
}

#[test]
fn disabled_account_fails_before_any_call() {
    let mut settings = bluesky_settings();
    settings.api.bluesky.enabled = false;
    let service = BlueskyService::new(&settings);
    let e = service
        .start_search("x", SearchType::User, 30, Timestamp::from_unix(NOW))
        .err()
        .expect("disabled");
    assert_eq!(e.message(), "Bluesky is disabled. Enable it in Settings and provide credentials.");
}

#[test]
fn blank_credentials_fail_before_any_call() {
    let mut settings = bluesky_settings();
    settings.api.bluesky.app_password = "   ".to_string();
    let service = BlueskyService::new(&settings);
    let e = service
        .start_search("x", SearchType::User, 30, Timestamp::from_unix(NOW))
        .err()
        .expect("missing credentials");
    assert_eq!(
        e.message(),
        "Bluesky handle or app password missing. Update Settings with valid credentials."
    );
}

#[test]
fn bluesky_is_authenticated_with_usable_credentials() {
    let service = BlueskyService::new(&bluesky_settings());
    assert!(service.is_enabled());
    assert!(service.is_authenticated());
    assert_eq!(service.instance_url(), "https://bsky.social");
    let mut bare = bluesky_settings();
    bare.api.bluesky.handle = String::new();
    assert!(!BlueskyService::new(&bare).is_authenticated());
}

#[test]
fn author_feed_urls_carry_the_cursor() {
    let mut search = start_user_search();
    assert_eq!(search.bearer_token(), "jwt-token");
    assert_eq!(
        search.next_page_url().as_deref(),
        Some("https://bsky.social/xrpc/app.bsky.feed.getAuthorFeed?actor=alice.bsky.social&limit=30")
    );
    let page = vec![bsky_post("at://did:plc:x/app.bsky.feed.post/1", Some("2024-05-20T00:00:00Z"), None)];
    search.on_page(&page, Some("cur1".to_string()));
    assert_eq!(
        search.next_page_url().as_deref(),
        Some("https://bsky.social/xrpc/app.bsky.feed.getAuthorFeed?actor=alice.bsky.social&limit=30&cursor=cur1")
    );
}

#[test]
fn hashtag_search_restores_the_hash_mark() {
    let service = BlueskyService::new(&bluesky_settings());
    let pending = service
        .start_search("#sunset", SearchType::Hashtag, 30, Timestamp::from_unix(NOW))
        .expect("search should start");
    let search = pending.on_session("jwt".to_string());
    assert_eq!(
        search.next_page_url().as_deref(),
        Some("https://bsky.social/xrpc/app.bsky.feed.searchPosts?q=%23sunset&limit=30")
    );
}

#[test]
fn converted_bluesky_posts_use_the_web_url() {
    let mut search = start_user_search();
    let page = vec![bsky_post(
        "at://did:plc:xyz/app.bsky.feed.post/3k44",
        Some("2024-05-20T00:00:00Z"),
        None,
    )];
    search.on_page(&page, None);
    let results = search.into_results();
    assert_eq!(results.len(), 1);
    let r = &results[0];
    assert_eq!(r.id, "at://did:plc:xyz/app.bsky.feed.post/3k44");
    assert_eq!(r.url, "https://bsky.app/profile/alice.bsky.social/post/3k44");
    assert_eq!(r.author, "Alice");
    assert_eq!(r.content, "sky today");
    assert_eq!(r.likes, 5);
    assert_eq!(r.shares, 0);
}

#[test]
fn indexed_at_is_the_timestamp_fallback() {
    let mut search = start_user_search();
    let mut p = bsky_post("at://x/post/1", None, None);
    p.indexed_at = Some("2024-05-20T00:00:00Z".to_string());
    search.on_page(&vec![p], None);
    let results = search.into_results();
    assert_eq!(results.len(), 1);
    assert_eq!(results[0].created_at, 1716163200);
}

#[test]
fn embed_union_yields_parallel_media_lists() {
    let mut search = start_user_search();
    let images = BlueskyEmbed::Images {
        fullsizes: vec![
            "https://cdn.bsky.app/img1.jpg".to_string(),
            "  ".to_string(),
            " https://cdn.bsky.app/img2.jpg ".to_string(),
        ],
    };
    let wrapped = BlueskyEmbed::RecordWithMedia { media: Box::new(images) };
    let page = vec![bsky_post("at://x/post/9", Some("2024-05-20T00:00:00Z"), Some(wrapped))];
    search.on_page(&page, None);
    let results = search.into_results();
    let r = &results[0];
    assert_eq!(
        r.media_urls,
        vec!["https://cdn.bsky.app/img1.jpg", "https://cdn.bsky.app/img2.jpg"]
    );
    assert_eq!(r.media_types, vec!["image", "image"]);
    assert_eq!(r.media_count, 2);
}

#[test]
fn external_and_video_embeds_are_single_entries() {
    let mut search = start_user_search();
    let page = vec![
        bsky_post(
            "at://x/post/10",
            Some("2024-05-20T00:00:00Z"),
            Some(BlueskyEmbed::External { uri: "https://example.org/story".to_string() }),
        ),
        bsky_post(
            "at://x/post/11",
            Some("2024-05-20T00:00:00Z"),
            Some(BlueskyEmbed::Video { playlist: "https://video.bsky.app/pl.m3u8".to_string() }),
        ),
        bsky_post("at://x/post/12", Some("2024-05-20T00:00:00Z"), Some(BlueskyEmbed::Other)),
    ];
    search.on_page(&page, None);
    let results = search.into_results();
    assert_eq!(results[0].media_urls, vec!["https://example.org/story"]);
    assert_eq!(results[0].media_types, vec!["external"]);
    assert_eq!(results[1].media_urls, vec!["https://video.bsky.app/pl.m3u8"]);
    assert_eq!(results[1].media_types, vec!["video"]);
    assert!(results[2].media_urls.is_empty());
}

#[test]
fn old_bluesky_post_ends_the_search() {
    let mut search = start_user_search();
    let page = vec![
        bsky_post("at://x/post/1", Some("2024-05-20T00:00:00Z"), None),
        bsky_post("at://x/post/2", Some("2024-04-01T00:00:00Z"), None),
    ];
    search.on_page(&page, Some("more".to_string()));
    assert!(!search.wants_page());
    assert_eq!(search.into_results().len(), 1);
}

#[test]
fn missing_cursor_ends_the_search() {
    let mut search = start_user_search();
    let page = vec![bsky_post("at://x/post/1", Some("2024-05-20T00:00:00Z"), None)];
    search.on_page(&page, None);
    assert!(!search.wants_page());
}

#[test]
fn stalled_cursor_ends_the_search() {
    let mut search = start_user_search();
    let page = vec![bsky_post("at://x/post/1", Some("2024-05-20T00:00:00Z"), None)];
    search.on_page(&page, Some("c1".to_string()));
    assert!(search.wants_page());
    search.on_page(&page, Some("c1".to_string()));
    assert!(!search.wants_page());
}

#[test]
fn bluesky_pagination_never_exceeds_the_page_bound() {
    let mut search = start_user_search();
    let mut fetches = 0u32;
    let mut serial = 0u32;
    while search.next_page_url().is_some() {
        serial += 1;
        let page = vec![bsky_post(
            &format!("at://x/post/{}", serial),
            Some("2024-05-20T00:00:00Z"),
            None,
        )];
        search.on_page(&page, Some(format!("c{}", serial)));
        fetches += 1;
        assert!(fetches <= 200, "runaway pagination");
    }
    assert_eq!(fetches, 120);
    assert_eq!(search.into_results().len(), 120);
}
