//! Data model: platforms, settings, search context and per-platform search
//! results.  Every type that crosses the search or download pipeline carries
//! a well-formedness spec that the pipeline functions establish and
//! preserve.

use vstd::prelude::*;

verus! {

use vstd::string::StrSliceExecFns;
use vstd::string::StringExecFns;

use crate::text::spec_at_replaced;
use crate::text::spec_strip_leading;
use crate::text::replace_at_marks;
use crate::text::strip_leading_char;

// ---------------------------------------------------------------------------
// Platform
// ---------------------------------------------------------------------------

/// Platform identifier: the closed set of federated networks searched.
#[derive(Clone, Copy, Debug, PartialEq, Eq, Hash, Structural)]
pub enum Platform {
    Pixelfed,
    Mastodon,
    Bluesky,
}

/// The display name of a platform.
pub open spec fn spec_platform_name(p: Platform) -> Seq<char> {
    match p {
        Platform::Pixelfed => "Pixelfed"@,
        Platform::Mastodon => "Mastodon"@,
        Platform::Bluesky => "Bluesky"@,
    }
}

/// The emoji marker of a platform.
pub open spec fn spec_platform_emoji(p: Platform) -> Seq<char> {
    match p {
        Platform::Pixelfed => "\u{1F7E3}"@,
        Platform::Mastodon => "\u{1F418}"@,
        Platform::Bluesky => "\u{1F98B}"@,
    }
}

/// The on-disk folder name of a platform.
pub open spec fn spec_platform_folder(p: Platform) -> Seq<char> {
    match p {
        Platform::Pixelfed => "Pixelfed"@,
        Platform::Mastodon => "Mastodon"@,
        Platform::Bluesky => "bsky"@,
    }
}

impl Platform {
    /// The platform's display name.
    pub fn name(&self) -> (r: &'static str)
        ensures
            r@ == spec_platform_name(*self),
    {
        match self {
            Platform::Pixelfed => "Pixelfed",
            Platform::Mastodon => "Mastodon",
            Platform::Bluesky => "Bluesky",
        }
    }

    /// The platform's emoji marker, used in status labels.
    pub fn emoji(&self) -> (r: &'static str)
        ensures
            r@ == spec_platform_emoji(*self),
    {
        match self {
            Platform::Pixelfed => "\u{1F7E3}",
            Platform::Mastodon => "\u{1F418}",
            Platform::Bluesky => "\u{1F98B}",
        }
    }

    /// The per-platform subdirectory name under a download root.
    pub fn folder_name(&self) -> (r: &'static str)
        ensures
            r@ == spec_platform_folder(*self),
    {
        match self {
            Platform::Pixelfed => "Pixelfed",
            Platform::Mastodon => "Mastodon",
            Platform::Bluesky => "bsky",
        }
    }
}

/// The label a platform is reported under: emoji, name, and for the two
/// Mastodon-compatible platforms the instance URL.
pub open spec fn spec_platform_display_name(p: Platform, instance_url: Seq<char>) -> Seq<char> {
    match p {
        Platform::Pixelfed => spec_platform_emoji(p) + " Pixelfed ("@ + instance_url + ")"@,
        Platform::Mastodon => spec_platform_emoji(p) + " Mastodon ("@ + instance_url + ")"@,
        Platform::Bluesky => spec_platform_emoji(p) + " Bluesky"@,
    }
}

/// A descriptive label for a platform, used in group labels and summaries.
pub fn platform_display_name(platform: Platform, instance_url: &str) -> (r: String)
    ensures
        r@ == spec_platform_display_name(platform, instance_url@),
{
    let mut out = String::new();
    out.append(platform.emoji());
    match platform {
        Platform::Pixelfed => {
            out.append(" Pixelfed (");
            out.append(instance_url);
            out.append(")");
        },
        Platform::Mastodon => {
            out.append(" Mastodon (");
            out.append(instance_url);
            out.append(")");
        },
        Platform::Bluesky => {
            out.append(" Bluesky");
        },
    }
    proof {
        assert(out@ =~= spec_platform_display_name(platform, instance_url@));
    }
    out
}

// ---------------------------------------------------------------------------
// Search type and context
// ---------------------------------------------------------------------------

/// Whether a search looks up a user's posts or a hashtag timeline.
#[derive(Clone, Copy, Debug, PartialEq, Eq, Structural)]
pub enum SearchType {
    User,
    Hashtag,
}

/// The sanitized query used in folder names: a user query has leading `@`
/// stripped and inner `@` replaced by `_at_`; a hashtag query has leading
/// `#` stripped.
pub open spec fn spec_folder_prefix(kind: SearchType, query: Seq<char>) -> Seq<char> {
    match kind {
        SearchType::User => spec_at_replaced(spec_strip_leading(query, '@')),
        SearchType::Hashtag => spec_strip_leading(query, '#'),
    }
}

impl SearchType {
    /// Sanitize `query` for use in a folder name.
    pub fn get_folder_prefix(&self, query: &str) -> (r: String)
        ensures
            r@ == spec_folder_prefix(*self, query@),
    {
        match self {
            SearchType::User => {
                let cleaned = strip_leading_char(query, '@');
                replace_at_marks(cleaned.as_str())
            },
            SearchType::Hashtag => strip_leading_char(query, '#'),
        }
    }
}

/// Context of one search invocation: query, kind and days-back window.
/// Immutable once a search starts.
#[derive(Clone, Debug)]
pub struct SearchContext {
    pub query: String,
    pub search_type: SearchType,
    pub days_back: u32,
}

impl SearchContext {
    /// Package a query, kind and window into a search context.
    pub fn new(query: String, search_type: SearchType, days_back: u32) -> (r: Self)
        ensures
            r.query@ == query@,
            r.search_type == search_type,
            r.days_back == days_back,
    {
        Self { query, search_type, days_back }
    }

    /// The sanitized query for folder naming.
    pub fn get_folder_name(&self) -> (r: String)
        ensures
            r@ == spec_folder_prefix(self.search_type, self.query@),
    {
        self.search_type.get_folder_prefix(self.query.as_str())
    }
}

// ---------------------------------------------------------------------------
// Settings
// ---------------------------------------------------------------------------

/// UI theme selection.
#[derive(Clone, Copy, Debug, PartialEq, Eq, Structural)]
pub enum Theme {
    Light,
    Dark,
    System,
}

impl Theme {
    /// The theme's stylesheet keyword.
    pub fn as_text(&self) -> (r: &'static str)
        ensures
            r@ == (match *self {
                Theme::Light => "light"@,
                Theme::Dark => "dark"@,
                Theme::System => "system"@,
            }),
    {
        match self {
            Theme::Light => "light",
            Theme::Dark => "dark",
            Theme::System => "system",
        }
    }
}

/// Appearance settings.
#[derive(Clone, Debug)]
pub struct AppearanceSettings {
    pub theme: Theme,
    pub accent_color: String,
}

impl Default for AppearanceSettings {
    fn default() -> (r: Self)
        ensures
            r.theme == Theme::System,
            r.accent_color@ == "#0078d4"@,
    {
        Self { theme: Theme::System, accent_color: String::from_str("#0078d4") }
    }
}

/// OAuth-style authentication settings for Pixelfed or Mastodon.
#[derive(Clone, Debug)]
pub struct PlatformAuth {
    pub enabled: bool,
    pub instance_url: String,
    pub app_name: String,
    pub client_id: String,
    pub client_secret: String,
    pub access_token: Option<String>,
}

/// Whether a platform with OAuth-style auth holds a usable token: enabled
/// and a non-empty access token present.
pub open spec fn spec_platform_auth_ok(a: PlatformAuth) -> bool {
    a.enabled && (a.access_token matches Some(t) && t@.len() > 0)
}

impl PlatformAuth {
    /// True only when the platform is enabled and a non-empty access token
    /// is present.
    pub fn is_authenticated(&self) -> (r: bool)
        ensures
            r == spec_platform_auth_ok(*self),
    {
        self.enabled && match &self.access_token {
            Some(t) => !t.as_str().is_empty(),
            None => false,
        }
    }
}

/// App-password authentication settings for Bluesky.
#[derive(Clone, Debug)]
pub struct BlueskyAuth {
    pub enabled: bool,
    pub handle: String,
    pub app_password: String,
    pub did: Option<String>,
    pub access_jwt: Option<String>,
    pub refresh_jwt: Option<String>,
}

/// Whether the Bluesky account holds a usable session token.
pub open spec fn spec_bluesky_auth_ok(a: BlueskyAuth) -> bool {
    a.enabled && (a.access_jwt matches Some(t) && t@.len() > 0)
}

impl BlueskyAuth {
    /// True only when Bluesky is enabled and a non-empty session token is
    /// present.
    pub fn is_authenticated(&self) -> (r: bool)
        ensures
            r == spec_bluesky_auth_ok(*self),
    {
        self.enabled && match &self.access_jwt {
            Some(t) => !t.as_str().is_empty(),
            None => false,
        }
    }
}

impl Default for BlueskyAuth {
    fn default() -> (r: Self)
        ensures
            !r.enabled,
            r.handle@.len() == 0,
            r.app_password@.len() == 0,
            r.did is None,
            r.access_jwt is None,
            r.refresh_jwt is None,
    {
        Self {
            enabled: false,
            handle: String::new(),
            app_password: String::new(),
            did: None,
            access_jwt: None,
            refresh_jwt: None,
        }
    }
}

/// Legacy single-platform API settings, kept for migration.
#[derive(Clone, Debug)]
pub struct LegacyApiSettings {
    pub use_oauth: bool,
    pub app_name: String,
    pub client_id: String,
    pub client_secret: String,
    pub access_token: Option<String>,
}

/// Per-platform API settings.
#[derive(Clone, Debug)]
pub struct ApiSettings {
    pub pixelfed: PlatformAuth,
    pub mastodon: PlatformAuth,
    pub bluesky: BlueskyAuth,
}

impl Default for ApiSettings {
    fn default() -> (r: Self)
        ensures
            !r.pixelfed.enabled,
            r.pixelfed.instance_url@ == "pixelfed.social"@,
            r.pixelfed.app_name@ == "Fedi Sleuth"@,
            r.pixelfed.client_id@.len() == 0,
            r.pixelfed.client_secret@.len() == 0,
            r.pixelfed.access_token is None,
            !r.mastodon.enabled,
            r.mastodon.instance_url@ == "mastodon.social"@,
            r.mastodon.app_name@ == "Fedi Sleuth"@,
            r.mastodon.client_id@.len() == 0,
            r.mastodon.client_secret@.len() == 0,
            r.mastodon.access_token is None,
            !r.bluesky.enabled,
    {
        Self {
            pixelfed: PlatformAuth {
                enabled: false,
                instance_url: String::from_str("pixelfed.social"),
                app_name: String::from_str("Fedi Sleuth"),
                client_id: String::new(),
                client_secret: String::new(),
                access_token: None,
            },
            mastodon: PlatformAuth {
                enabled: false,
                instance_url: String::from_str("mastodon.social"),
                app_name: String::from_str("Fedi Sleuth"),
                client_id: String::new(),
                client_secret: String::new(),
                access_token: None,
            },
            bluesky: BlueskyAuth::default(),
        }
    }
}

/// Download settings: destination root, concurrency cap and date layout.
#[derive(Clone, Debug)]
pub struct DownloadSettings {
    pub base_path: String,
    pub max_concurrent: u32,
    pub organize_by_date: bool,
}

impl Default for DownloadSettings {
    fn default() -> (r: Self)
        ensures
            r.base_path@ == "./downloads"@,
            r.max_concurrent == 3,
            r.organize_by_date,
    {
        Self {
            base_path: String::from_str("./downloads"),
            max_concurrent: 3,
            organize_by_date: true,
        }
    }
}

/// All persistent application settings.
#[derive(Clone, Debug)]
pub struct AppSettings {
    pub instance_url: String,
    pub appearance: AppearanceSettings,
    pub api: ApiSettings,
    pub download: DownloadSettings,
}

impl Default for AppSettings {
    fn default() -> (r: Self)
        ensures
            r.instance_url@ == "pixelfed.social"@,
            r.appearance.theme == Theme::System,
            !r.api.pixelfed.enabled,
            !r.api.mastodon.enabled,
            !r.api.bluesky.enabled,
            r.download.max_concurrent == 3,
    {
        Self {
            instance_url: String::from_str("pixelfed.social"),
            appearance: AppearanceSettings::default(),
            api: ApiSettings::default(),
            download: DownloadSettings::default(),
        }
    }
}

impl AppSettings {
    /// Migrate old single-platform settings to the multi-platform layout:
    /// the legacy credentials become the Pixelfed account, Mastodon starts
    /// disabled on its default instance, Bluesky starts unset.
    pub fn migrate_from_legacy(instance_url: String, old_api: LegacyApiSettings) -> (r: Self)
        ensures
            r.instance_url@ == instance_url@,
            r.api.pixelfed.enabled == old_api.use_oauth,
            r.api.pixelfed.instance_url@ == instance_url@,
            r.api.pixelfed.app_name@ == old_api.app_name@,
            r.api.pixelfed.client_id@ == old_api.client_id@,
            r.api.pixelfed.client_secret@ == old_api.client_secret@,
            r.api.pixelfed.access_token == old_api.access_token,
            !r.api.mastodon.enabled,
            r.api.mastodon.instance_url@ == "mastodon.social"@,
            r.api.mastodon.app_name@ == "Fedi Sleuth"@,
            r.api.mastodon.client_id@.len() == 0,
            r.api.mastodon.client_secret@.len() == 0,
            r.api.mastodon.access_token is None,
            !r.api.bluesky.enabled,
            r.appearance.theme == Theme::System,
            r.download.max_concurrent == 3,
    {
        let pixelfed_instance = instance_url.clone();
        Self {
            instance_url,
            appearance: AppearanceSettings::default(),
            api: ApiSettings {
                pixelfed: PlatformAuth {
                    enabled: old_api.use_oauth,
                    instance_url: pixelfed_instance,
                    app_name: old_api.app_name,
                    client_id: old_api.client_id,
                    client_secret: old_api.client_secret,
                    access_token: old_api.access_token,
                },
                mastodon: PlatformAuth {
                    enabled: false,
                    instance_url: String::from_str("mastodon.social"),
                    app_name: String::from_str("Fedi Sleuth"),
                    client_id: String::new(),
                    client_secret: String::new(),
                    access_token: None,
                },
                bluesky: BlueskyAuth::default(),
            },
            download: DownloadSettings::default(),
        }
    }
}

/// Top-level application state.
#[derive(Clone, Debug)]
pub struct AppState {
    pub settings: AppSettings,
}

impl Default for AppState {
    fn default() -> (r: Self)
        ensures
            r.settings.instance_url@ == "pixelfed.social"@,
    {
        Self { settings: AppSettings::default() }
    }
}

// ---------------------------------------------------------------------------
// Search results
// ---------------------------------------------------------------------------

/// One fetched post, reduced to the fields needed for display and
/// download.  `created_at` is a UTC unix timestamp in seconds.
#[derive(Clone, Debug)]
pub struct SearchResult {
    pub platform: Platform,
    pub id: String,
    pub author: String,
    pub content: String,
    pub created_at: i64,
    pub media_urls: Vec<String>,
    pub media_types: Vec<String>,
    pub media_count: u32,
    pub likes: u32,
    pub shares: u32,
    pub url: String,
}

impl SearchResult {
    /// Well-formedness: the media URL and type lists are parallel, and the
    /// media count is their shared length.
    pub open spec fn wf(self) -> bool {
        &&& self.media_urls@.len() == self.media_types@.len()
        &&& self.media_count == self.media_urls@.len()
    }
}

/// Results grouped by platform: either a list of posts (no error), or an
/// error text with no posts — never both.
#[derive(Clone, Debug)]
pub struct PlatformSearchResults {
    pub platform: Platform,
    pub label: String,
    pub results: Vec<SearchResult>,
    pub error: Option<String>,
}

impl PlatformSearchResults {
    /// Well-formedness: a group with an error holds no results; every
    /// result is itself well-formed and belongs to this group's platform.
    pub open spec fn wf(self) -> bool {
        &&& self.error is Some ==> self.results@.len() == 0
        &&& forall|i: int| 0 <= i < self.results@.len() ==> (#[trigger] self.results@[i]).wf()
    }

    /// Package a successful search outcome.
    pub fn success(platform: Platform, label: String, results: Vec<SearchResult>) -> (r: Self)
        requires
            forall|i: int| 0 <= i < results@.len() ==> (#[trigger] results@[i]).wf(),
        ensures
            r.wf(),
            r.platform == platform,
            r.label@ == label@,
            r.results@ == results@,
            r.error is None,
    {
        Self { platform, label, results, error: None }
    }

    /// Package a failed search outcome; the group carries no results.
    pub fn error(platform: Platform, label: String, error: String) -> (r: Self)
        ensures
            r.wf(),
            r.platform == platform,
            r.label@ == label@,
            r.results@.len() == 0,
            r.error matches Some(e) && e@ == error@,
    {
        Self { platform, label, results: Vec::new(), error: Some(error) }
    }

    /// Whether the group holds results rather than an error.
    pub fn is_success(&self) -> (r: bool)
        ensures
            r == (self.error is None),
    {
        self.error.is_none()
    }

    /// How many posts the group holds.
    pub fn count(&self) -> (r: usize)
        ensures
            r == self.results@.len(),
    {
        self.results.len()
    }
}

// ---------------------------------------------------------------------------
// Wire model of Mastodon-compatible posts
// ---------------------------------------------------------------------------

/// One media attachment of a Mastodon-compatible post, as decoded from the
/// wire.
#[derive(Clone, Debug)]
pub struct PixelfedMediaAttachment {
    pub id: String,
    pub media_type: Option<String>,
    pub url: Option<String>,
    pub preview_url: Option<String>,
}

/// The account block of a Mastodon-compatible post.
#[derive(Clone, Debug)]
pub struct PixelfedAccount {
    pub id: String,
    pub username: Option<String>,
    pub display_name: Option<String>,
    pub url: Option<String>,
}

/// One Mastodon-compatible post as decoded from the wire; all fields are
/// optional except the id and account.
#[derive(Clone, Debug)]
pub struct PixelfedPost {
    pub id: String,
    pub account: PixelfedAccount,
    pub content: Option<String>,
    pub created_at: Option<String>,
    pub media_attachments: Vec<PixelfedMediaAttachment>,
    pub favourites_count: Option<u32>,
    pub reblogs_count: Option<u32>,
    pub url: Option<String>,
}

/// Progress of a download batch.
#[derive(Clone, Debug)]
pub struct DownloadProgress {
    pub current: usize,
    pub total: usize,
    pub current_file: String,
}

} // verus!
