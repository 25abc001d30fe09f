use fedi_sleuth::download::generate_filename;
use fedi_sleuth::errors::DownloadError;
use fedi_sleuth::errors::SearchError;
use fedi_sleuth::models::Platform;
use fedi_sleuth::text::strip_html_tags;
use fedi_sleuth::text::strip_leading_char;
use fedi_sleuth::text::strip_trailing_char;
use fedi_sleuth::text::trim_text;
use fedi_sleuth::text::u64_to_padded_string;
use fedi_sleuth::text::u64_to_string;
use fedi_sleuth::timeline::normalize_instance_url;

#[test]
fn html_tags_are_removed_and_text_trimmed() {
    assert_eq!(strip_html_tags("<p>Hello <b>world</b></p>"), "Hello world");
    assert_eq!(strip_html_tags("no tags"), "no tags");
    assert_eq!(strip_html_tags("  padded  "), "padded");
    assert_eq!(strip_html_tags("<br/>"), "");
    assert_eq!(strip_html_tags("a <em>b</em> c"), "a b c");
}

#[test]
fn unclosed_tag_is_kept() {
    assert_eq!(strip_html_tags("a < b"), "a < b");
    assert_eq!(strip_html_tags("2 <3 and 4> 1"), "2  1");
}

#[test]
fn leading_and_trailing_strips() {
    assert_eq!(strip_leading_char("@@user", '@'), "user");
    assert_eq!(strip_leading_char("user", '@'), "user");
    assert_eq!(strip_trailing_char("https://x///", '/'), "https://x");
    assert_eq!(trim_text("\t a b \n"), "a b");
}

#[test]
fn decimal_rendering_and_padding() {
    assert_eq!(u64_to_string(0), "0");
    assert_eq!(u64_to_string(120), "120");
    assert_eq!(u64_to_padded_string(7, 3), "007");
    assert_eq!(u64_to_padded_string(42, 3), "042");
    assert_eq!(u64_to_padded_string(1234, 3), "1234");
}

#[test]
fn filenames_use_ordinal_and_extension() {
    assert_eq!(generate_filename("post1", 0, "https://cdn.example/a/img.jpg"), "post1_001.jpg");
    assert_eq!(generate_filename("post1", 1, "https://cdn.example/a/clip.mp4"), "post1_002.mp4");
    assert_eq!(generate_filename("post1", 10, "https://cdn.example/a/pic.png"), "post1_011.png");
}

#[test]
fn missing_extension_defaults_to_jpg() {
    assert_eq!(generate_filename("p", 0, "https://cdn.example/media/raw"), "p_001.jpg");
    assert_eq!(generate_filename("p", 0, "https://cdn.example/media/.hidden"), "p_001.jpg");
}

#[test]
fn instance_urls_are_normalized() {
    assert_eq!(normalize_instance_url("mastodon.social"), "https://mastodon.social");
    assert_eq!(normalize_instance_url(" mastodon.social "), "https://mastodon.social");
    assert_eq!(normalize_instance_url("https://pix.example/"), "https://pix.example");
    assert_eq!(normalize_instance_url("http://local.test//"), "http://local.test");
}

#[test]
fn search_error_messages() {
    let auth = SearchError::AuthenticationRequired { platform: Platform::Mastodon };
    assert_eq!(
        auth.message(),
        "Authentication required. Please enable OAuth in Settings and sign in."
    );
    let bauth = SearchError::AuthenticationRequired { platform: Platform::Bluesky };
    assert_eq!(
        bauth.message(),
        "Bluesky handle or app password missing. Update Settings with valid credentials."
    );
    let disabled = SearchError::Disabled { platform: Platform::Bluesky };
    assert_eq!(
        disabled.message(),
        "Bluesky is disabled. Enable it in Settings and provide credentials."
    );
    let nf = SearchError::UserNotFound {
        platform: Platform::Mastodon,
        query: "alice".to_string(),
        instance: "https://m.example".to_string(),
    };
    assert_eq!(
        nf.message(),
        "User 'alice' not found on https://m.example. Try searching directly on their home instance."
    );
    let pnf = SearchError::UserNotFound {
        platform: Platform::Pixelfed,
        query: "alice".to_string(),
        instance: "https://pix.example".to_string(),
    };
    assert_eq!(
        pnf.message(),
        "User 'alice' not found. If this is a remote user, their instance may not be federated with https://pix.example. Try searching for them directly on their home instance."
    );
    let net = SearchError::NetworkError { detail: "refused".to_string() };
    assert_eq!(net.message(), "Network error: refused");
    let http = SearchError::HttpError { status: 404, body: "gone".to_string() };
    assert_eq!(http.message(), "Request failed: HTTP 404. Response: gone");
    let dec = SearchError::DecodeError { detail: "bad json".to_string() };
    assert_eq!(dec.message(), "Failed to decode response: bad json");
    let to = SearchError::Timeout { query: "sunset".to_string() };
    assert_eq!(
        to.message(),
        "Request timed out while fetching 'sunset'. This query may have too many posts. Try searching for a less popular hashtag or a specific user instead."
    );
}

#[test]
fn download_error_messages() {
    assert_eq!(DownloadError::NoResults.message(), "No results to download");
    assert_eq!(DownloadError::NoMedia.message(), "No media attachments to download");
    let dir = DownloadError::DirectoryCreateFailed { detail: "denied".to_string() };
    assert_eq!(dir.message(), "Failed to create download directory: denied");
}
