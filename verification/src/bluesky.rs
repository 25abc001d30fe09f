//! Search over the Bluesky ATProto API: app-password session setup,
//! opaque-cursor pagination with cutoff-date termination, and media
//! extraction from the tagged embed union.
//!
//! As with the Mastodon-compatible search, transport is the caller's: the
//! caller creates the session, fetches the URL the machine asks for, and
//! hands the decoded page back.

use vstd::prelude::*;

verus! {

use vstd::string::StrSliceExecFns;
use vstd::string::StringExecFns;

use crate::encoding::spec_url_encoded;
use crate::encoding::url_encode;
use crate::errors::SearchError;
use crate::models::AppSettings;
use crate::models::BlueskyAuth;
use crate::models::spec_bluesky_auth_ok;
use crate::models::Platform;
use crate::models::SearchResult;
use crate::models::SearchType;
use crate::text::last_path_component;
use crate::text::spec_last_component_start;
use crate::text::spec_strip_leading;
use crate::text::spec_trimmed;
use crate::text::strip_leading_char;
use crate::text::trim_text;
use crate::timeline::MAX_PAGE_FETCHES;
use crate::timeline::spec_cursor_stalled;
use crate::timeline::spec_opt_str_eq;
use crate::timeline::spec_opt_nonempty;
use crate::timeline::spec_views_of;
use crate::timeutil::Timestamp;
use crate::timeutil::cutoff_timestamp;
use crate::timeutil::parse_rfc3339_timestamp;
use crate::timeutil::spec_cutoff;
use crate::timeutil::spec_rfc3339_timestamp;

/// The ATProto API base this client talks to.
pub open spec fn spec_api_base() -> Seq<char> {
    "https://bsky.social"@
}

/// The web frontend base used for canonical post URLs.
pub open spec fn spec_web_base() -> Seq<char> {
    "https://bsky.app"@
}

// ---------------------------------------------------------------------------
// The embed union
// ---------------------------------------------------------------------------

/// The closed tagged union of post embeds this client reads, decoded from
/// the wire's `$type` discriminator.  `RecordWithMedia` wraps the media
/// embed of a quoted record; anything unrecognized is `Other`.
#[derive(Debug)]
pub enum BlueskyEmbed {
    Images { fullsizes: Vec<String> },
    External { uri: String },
    Video { playlist: String },
    RecordWithMedia { media: Box<BlueskyEmbed> },
    Other,
}

/// The trimmed, non-empty entries of a URL list.
pub open spec fn spec_kept_urls(urls: Seq<String>) -> Seq<Seq<char>>
    decreases urls.len(),
{
    if urls.len() == 0 {
        Seq::empty()
    } else {
        let t = spec_trimmed(urls[0]@);
        (if t.len() > 0 {
            seq![t]
        } else {
            Seq::<Seq<char>>::empty()
        }) + spec_kept_urls(urls.drop_first())
    }
}

/// The media URLs of an embed, in order: every usable image, the
/// external link, the video playlist, or whatever the wrapped media embed
/// yields.
pub open spec fn spec_embed_urls(e: BlueskyEmbed) -> Seq<Seq<char>>
    decreases e,
{
    match e {
        BlueskyEmbed::Images { fullsizes } => spec_kept_urls(fullsizes@),
        BlueskyEmbed::External { uri } => {
            let t = spec_trimmed(uri@);
            if t.len() > 0 {
                seq![t]
            } else {
                Seq::empty()
            }
        },
        BlueskyEmbed::Video { playlist } => {
            let t = spec_trimmed(playlist@);
            if t.len() > 0 {
                seq![t]
            } else {
                Seq::empty()
            }
        },
        BlueskyEmbed::RecordWithMedia { media } => spec_embed_urls(*media),
        BlueskyEmbed::Other => Seq::empty(),
    }
}

/// The media types parallel to `spec_embed_urls`.
pub open spec fn spec_embed_types(e: BlueskyEmbed) -> Seq<Seq<char>>
    decreases e,
{
    match e {
        BlueskyEmbed::Images { fullsizes } => Seq::new(
            spec_kept_urls(fullsizes@).len(),
            |i: int| "image"@,
        ),
        BlueskyEmbed::External { uri } => {
            let t = spec_trimmed(uri@);
            if t.len() > 0 {
                seq!["external"@]
            } else {
                Seq::empty()
            }
        },
        BlueskyEmbed::Video { playlist } => {
            let t = spec_trimmed(playlist@);
            if t.len() > 0 {
                seq!["video"@]
            } else {
                Seq::empty()
            }
        },
        BlueskyEmbed::RecordWithMedia { media } => spec_embed_types(*media),
        BlueskyEmbed::Other => Seq::empty(),
    }
}

proof fn lemma_kept_urls_snoc(urls: Seq<String>, u: String)
    ensures
        spec_kept_urls(urls.push(u)) == spec_kept_urls(urls) + (if spec_trimmed(u@).len() > 0 {
            seq![spec_trimmed(u@)]
        } else {
            Seq::<Seq<char>>::empty()
        }),
    decreases urls.len(),
{
    if urls.len() == 0 {
        assert(urls.push(u)[0] == u);
        assert(urls.push(u).drop_first() =~= Seq::<String>::empty());
        assert(spec_kept_urls(Seq::<String>::empty()) =~= Seq::<Seq<char>>::empty());
        assert(spec_kept_urls(urls) =~= Seq::<Seq<char>>::empty());
        assert(spec_kept_urls(urls.push(u)) =~= spec_kept_urls(urls) + (if spec_trimmed(
            u@,
        ).len() > 0 {
            seq![spec_trimmed(u@)]
        } else {
            Seq::<Seq<char>>::empty()
        }));
    } else {
        assert(urls.push(u)[0] == urls[0]);
        assert(urls.push(u).drop_first() =~= urls.drop_first().push(u));
        lemma_kept_urls_snoc(urls.drop_first(), u);
        assert(spec_kept_urls(urls.push(u)) =~= spec_kept_urls(urls) + (if spec_trimmed(
            u@,
        ).len() > 0 {
            seq![spec_trimmed(u@)]
        } else {
            Seq::<Seq<char>>::empty()
        }));
    }
}

/// Collect the (url, type) pairs of an embed, appending to the given
/// lists; recurses one wrapper at a time into `RecordWithMedia`.
fn extract_embed_media(e: &BlueskyEmbed, urls: &mut Vec<String>, types: &mut Vec<String>)
    ensures
        spec_views_of(final(urls)@) == spec_views_of(old(urls)@) + spec_embed_urls(*e),
        spec_views_of(final(types)@) == spec_views_of(old(types)@) + spec_embed_types(*e),
    decreases *e,
{
    match e {
        BlueskyEmbed::Images { fullsizes } => {
            let mut k: usize = 0;
            proof {
                assert(fullsizes@.subrange(0, 0) =~= Seq::<String>::empty());
                assert(spec_kept_urls(Seq::<String>::empty()) =~= Seq::<Seq<char>>::empty());
                assert(spec_views_of(urls@) =~~= spec_views_of(old(urls)@) + spec_kept_urls(
                    fullsizes@.subrange(0, 0),
                ));
                assert(spec_views_of(types@) =~~= spec_views_of(old(types)@) + Seq::new(
                    spec_kept_urls(fullsizes@.subrange(0, 0)).len(),
                    |i: int| "image"@,
                ));
            }
            while k < fullsizes.len()
                invariant
                    0 <= k <= fullsizes@.len(),
                    spec_views_of(urls@) == spec_views_of(old(urls)@) + spec_kept_urls(
                        fullsizes@.subrange(0, k as int),
                    ),
                    spec_views_of(types@) == spec_views_of(old(types)@) + Seq::new(
                        spec_kept_urls(fullsizes@.subrange(0, k as int)).len(),
                        |i: int| "image"@,
                    ),
                    urls@.subrange(0, old(urls)@.len() as int) == old(urls)@,
                    urls@.len() >= old(urls)@.len(),
                decreases fullsizes@.len() - k,
            {
                proof {
                    assert(fullsizes@.subrange(0, k as int).push(fullsizes@[k as int])
                        =~= fullsizes@.subrange(0, k + 1));
                    lemma_kept_urls_snoc(fullsizes@.subrange(0, k as int), fullsizes@[k as int]);
                }
                let t = trim_text(fullsizes[k].as_str());
                if !t.as_str().is_empty() {
                    let ghost ub = urls@;
                    let ghost tb = types@;
                    let ghost tv = t@;
                    urls.push(t);
                    let mut ty = String::new();
                    ty.append("image");
                    proof {
                        reveal_strlit("image");
                        assert(ty@ =~= "image"@);
                    }
                    types.push(ty);
                    proof {
                        assert(urls@ == ub.push(t));
                        assert(spec_views_of(urls@) =~~= spec_views_of(ub).push(tv));
                        assert(types@ == tb.push(ty));
                        assert(spec_views_of(types@) =~~= spec_views_of(tb).push("image"@));
                        assert(tv == spec_trimmed(fullsizes@[k as int]@));
                        assert(spec_views_of(urls@) =~~= spec_views_of(old(urls)@)
                            + spec_kept_urls(fullsizes@.subrange(0, k + 1)));
                        assert(spec_views_of(types@) =~~= spec_views_of(old(types)@) + Seq::new(
                            spec_kept_urls(fullsizes@.subrange(0, k + 1)).len(),
                            |i: int| "image"@,
                        ));
                        assert(urls@.subrange(0, old(urls)@.len() as int) =~= old(urls)@);
                    }
                } else {
                    proof {
                        assert(spec_views_of(urls@) =~~= spec_views_of(old(urls)@)
                            + spec_kept_urls(fullsizes@.subrange(0, k + 1)));
                        assert(spec_views_of(types@) =~~= spec_views_of(old(types)@) + Seq::new(
                            spec_kept_urls(fullsizes@.subrange(0, k + 1)).len(),
                            |i: int| "image"@,
                        ));
                    }
                }
                k = k + 1;
            }
            proof {
                assert(fullsizes@.subrange(0, fullsizes@.len() as int) =~= fullsizes@);
            }
        },
        BlueskyEmbed::External { uri } => {
            let t = trim_text(uri.as_str());
            if !t.as_str().is_empty() {
                urls.push(t);
                let mut ty = String::new();
                ty.append("external");
                types.push(ty);
                proof {
                    reveal_strlit("external");
                    assert(spec_views_of(urls@) =~~= spec_views_of(old(urls)@) + spec_embed_urls(
                        *e,
                    ));
                    assert(spec_views_of(types@) =~~= spec_views_of(old(types)@)
                        + spec_embed_types(*e));
                }
            } else {
                proof {
                    assert(spec_views_of(urls@) =~~= spec_views_of(old(urls)@) + spec_embed_urls(
                        *e,
                    ));
                    assert(spec_views_of(types@) =~~= spec_views_of(old(types)@)
                        + spec_embed_types(*e));
                }
            }
        },
        BlueskyEmbed::Video { playlist } => {
            let t = trim_text(playlist.as_str());
            if !t.as_str().is_empty() {
                urls.push(t);
                let mut ty = String::new();
                ty.append("video");
                types.push(ty);
                proof {
                    reveal_strlit("video");
                    assert(spec_views_of(urls@) =~~= spec_views_of(old(urls)@) + spec_embed_urls(
                        *e,
                    ));
                    assert(spec_views_of(types@) =~~= spec_views_of(old(types)@)
                        + spec_embed_types(*e));
                }
            } else {
                proof {
                    assert(spec_views_of(urls@) =~~= spec_views_of(old(urls)@) + spec_embed_urls(
                        *e,
                    ));
                    assert(spec_views_of(types@) =~~= spec_views_of(old(types)@)
                        + spec_embed_types(*e));
                }
            }
        },
        BlueskyEmbed::RecordWithMedia { media } => {
            extract_embed_media(media, urls, types);
        },
        BlueskyEmbed::Other => {
            proof {
                assert(spec_views_of(urls@) =~~= spec_views_of(old(urls)@) + spec_embed_urls(*e));
                assert(spec_views_of(types@) =~~= spec_views_of(old(types)@) + spec_embed_types(
                    *e,
                ));
            }
        },
    }
}

// ---------------------------------------------------------------------------
// The wire post and its conversion
// ---------------------------------------------------------------------------

/// One Bluesky post as decoded from the wire, reduced to the fields the
/// search reads.
#[derive(Debug)]
pub struct BlueskyPost {
    pub uri: String,
    pub author_handle: String,
    pub author_display_name: Option<String>,
    pub text: Option<String>,
    pub created_at: Option<String>,
    pub indexed_at: Option<String>,
    pub embed: Option<BlueskyEmbed>,
    pub like_count: Option<u32>,
    pub repost_count: Option<u32>,
}

/// The creation timestamp of a post: its record's `createdAt` when
/// present, else `indexedAt`, parsed as RFC 3339; `None` when the chosen
/// text is absent or does not parse.
pub open spec fn spec_post_timestamp(p: BlueskyPost) -> Option<i64> {
    match p.created_at {
        Some(s) => spec_rfc3339_timestamp(s@),
        None => match p.indexed_at {
            Some(s) => spec_rfc3339_timestamp(s@),
            None => None,
        },
    }
}

/// Whether a post is accepted: its timestamp parses and is not older
/// than the cutoff.
pub open spec fn spec_post_accepted(p: BlueskyPost, cutoff: i64) -> bool {
    spec_post_timestamp(p) matches Some(t) && t >= cutoff
}

/// Whether a post marks the end of the window.
pub open spec fn spec_post_old(p: BlueskyPost, cutoff: i64) -> bool {
    spec_post_timestamp(p) matches Some(t) && t < cutoff
}

/// The author shown for a post: the display name when non-empty, else
/// the handle.
pub open spec fn spec_post_author(p: BlueskyPost) -> Seq<char> {
    match spec_opt_nonempty(p.author_display_name) {
        Some(d) => d,
        None => p.author_handle@,
    }
}

/// The web URL of a post: the frontend profile path with the record key,
/// the last path component of the post's URI.
pub open spec fn spec_post_web_url(handle: Seq<char>, uri: Seq<char>) -> Seq<char> {
    spec_web_base() + "/profile/"@ + handle + "/post/"@ + uri.subrange(
        spec_last_component_start(uri),
        uri.len() as int,
    )
}

/// The embed's media URLs, empty when the post has no embed.
pub open spec fn spec_post_media_urls(p: BlueskyPost) -> Seq<Seq<char>> {
    match p.embed {
        Some(e) => spec_embed_urls(e),
        None => Seq::empty(),
    }
}

/// The embed's media types, empty when the post has no embed.
pub open spec fn spec_post_media_types(p: BlueskyPost) -> Seq<Seq<char>> {
    match p.embed {
        Some(e) => spec_embed_types(e),
        None => Seq::empty(),
    }
}

/// The timestamp of a post whose timestamp parses; 0 otherwise.
pub open spec fn spec_post_ts(p: BlueskyPost) -> i64 {
    match spec_post_timestamp(p) {
        Some(t) => t,
        None => 0i64,
    }
}

/// How a result is derived from an accepted post: the URI is the id, the
/// text is trimmed, media comes from the embed union, counts default to
/// zero, and the canonical URL points at the web frontend.
pub open spec fn spec_post_converted(r: SearchResult, p: BlueskyPost, t: i64) -> bool {
    &&& r.platform == Platform::Bluesky
    &&& r.id@ == p.uri@
    &&& r.author@ == spec_post_author(p)
    &&& r.content@ == spec_trimmed(
        match p.text {
            Some(s) => s@,
            None => Seq::empty(),
        },
    )
    &&& r.created_at == t
    &&& spec_views_of(r.media_urls@) == spec_post_media_urls(p)
    &&& spec_views_of(r.media_types@) == spec_post_media_types(p)
    &&& r.media_count == r.media_urls@.len()
    &&& r.likes == (match p.like_count {
        Some(n) => n,
        None => 0u32,
    })
    &&& r.shares == (match p.repost_count {
        Some(n) => n,
        None => 0u32,
    })
    &&& r.url@ == spec_post_web_url(p.author_handle@, p.uri@)
}

proof fn lemma_embed_media_parallel(e: BlueskyEmbed)
    ensures
        spec_embed_urls(e).len() == spec_embed_types(e).len(),
    decreases e,
{
    match e {
        BlueskyEmbed::RecordWithMedia { media } => {
            lemma_embed_media_parallel(*media);
        },
        _ => {},
    }
}

/// Convert an accepted post into a result.
fn convert_post(p: &BlueskyPost, t: i64) -> (r: SearchResult)
    requires
        p.embed matches Some(e) ==> spec_embed_urls(e).len() <= u32::MAX,
    ensures
        spec_post_converted(r, *p, t),
        r.wf(),
{
    let mut media_urls: Vec<String> = Vec::new();
    let mut media_types: Vec<String> = Vec::new();
    match &p.embed {
        Some(e) => {
            extract_embed_media(e, &mut media_urls, &mut media_types);
            proof {
                lemma_embed_media_parallel(*e);
            }
        },
        None => {},
    }
    let media_count = media_urls.len() as u32;
    let author = match &p.author_display_name {
        Some(d) => {
            if !d.as_str().is_empty() {
                d.clone()
            } else {
                p.author_handle.clone()
            }
        },
        None => p.author_handle.clone(),
    };
    let content = match &p.text {
        Some(s) => trim_text(s.as_str()),
        None => trim_text(""),
    };
    proof {
        reveal_strlit("");
        assert(""@ =~= Seq::<char>::empty());
    }
    let mut url = String::new();
    url.append("https://bsky.app");
    url.append("/profile/");
    url.append(p.author_handle.as_str());
    url.append("/post/");
    let rkey = last_path_component(p.uri.as_str());
    url.append(rkey.as_str());
    proof {
        assert(url@ =~= spec_post_web_url(p.author_handle@, p.uri@));
    }
    let likes = match &p.like_count {
        Some(n) => *n,
        None => 0,
    };
    let shares = match &p.repost_count {
        Some(n) => *n,
        None => 0,
    };
    proof {
        assert(spec_views_of(media_urls@).len() == media_urls@.len());
        assert(spec_views_of(media_types@).len() == media_types@.len());
        assert(spec_views_of(Seq::<String>::empty()) =~~= Seq::<Seq<char>>::empty());
    }
    SearchResult {
        platform: Platform::Bluesky,
        id: p.uri.clone(),
        author,
        content,
        created_at: t,
        media_urls,
        media_types,
        media_count,
        likes,
        shares,
        url,
    }
}

// ---------------------------------------------------------------------------
// Page relation
// ---------------------------------------------------------------------------

/// How a run of results is derived from a page of posts: accepted posts
/// are converted in page order, all others contribute nothing.
pub open spec fn spec_feed_rel(acc: Seq<SearchResult>, posts: Seq<BlueskyPost>, cutoff: i64) -> bool
    decreases posts.len(),
{
    if posts.len() == 0 {
        acc.len() == 0
    } else if spec_post_accepted(posts[0], cutoff) {
        &&& acc.len() > 0
        &&& spec_post_converted(acc[0], posts[0], spec_post_ts(posts[0]))
        &&& spec_feed_rel(acc.drop_first(), posts.drop_first(), cutoff)
    } else {
        spec_feed_rel(acc, posts.drop_first(), cutoff)
    }
}

/// How many posts of a page are accepted.
pub open spec fn spec_feed_accepted_count(posts: Seq<BlueskyPost>, cutoff: i64) -> nat
    decreases posts.len(),
{
    if posts.len() == 0 {
        0
    } else {
        (if spec_post_accepted(posts[0], cutoff) {
            1nat
        } else {
            0nat
        }) + spec_feed_accepted_count(posts.drop_first(), cutoff)
    }
}

/// Whether any post of the page is older than the cutoff.
pub open spec fn spec_feed_found_old(posts: Seq<BlueskyPost>, cutoff: i64) -> bool {
    exists|i: int| 0 <= i < posts.len() && spec_post_old(posts[i], cutoff)
}

proof fn lemma_feed_rel_snoc_accepted(
    acc: Seq<SearchResult>,
    posts: Seq<BlueskyPost>,
    r: SearchResult,
    p: BlueskyPost,
    cutoff: i64,
)
    requires
        spec_feed_rel(acc, posts, cutoff),
        spec_post_accepted(p, cutoff),
        spec_post_converted(r, p, spec_post_ts(p)),
    ensures
        spec_feed_rel(acc.push(r), posts.push(p), cutoff),
    decreases posts.len(),
{
    if posts.len() == 0 {
        assert(acc.len() == 0);
        assert(posts.push(p)[0] == p);
        assert(acc.push(r)[0] == r);
        assert(acc.push(r).drop_first() =~= Seq::<SearchResult>::empty());
        assert(posts.push(p).drop_first() =~= Seq::<BlueskyPost>::empty());
        assert(spec_feed_rel(Seq::<SearchResult>::empty(), Seq::<BlueskyPost>::empty(), cutoff));
        assert(spec_feed_rel(acc.push(r), posts.push(p), cutoff));
    } else {
        assert(posts.push(p)[0] == posts[0]);
        assert(posts.push(p).drop_first() =~= posts.drop_first().push(p));
        if spec_post_accepted(posts[0], cutoff) {
            assert(acc.len() > 0);
            assert(acc.push(r)[0] == acc[0]);
            assert(acc.push(r).drop_first() =~= acc.drop_first().push(r));
            lemma_feed_rel_snoc_accepted(acc.drop_first(), posts.drop_first(), r, p, cutoff);
        } else {
            lemma_feed_rel_snoc_accepted(acc, posts.drop_first(), r, p, cutoff);
        }
    }
}

proof fn lemma_feed_rel_snoc_skipped(
    acc: Seq<SearchResult>,
    posts: Seq<BlueskyPost>,
    p: BlueskyPost,
    cutoff: i64,
)
    requires
        spec_feed_rel(acc, posts, cutoff),
        !spec_post_accepted(p, cutoff),
    ensures
        spec_feed_rel(acc, posts.push(p), cutoff),
    decreases posts.len(),
{
    if posts.len() == 0 {
        assert(posts.push(p)[0] == p);
        assert(posts.push(p).drop_first() =~= Seq::<BlueskyPost>::empty());
        assert(spec_feed_rel(acc, Seq::<BlueskyPost>::empty(), cutoff));
        assert(spec_feed_rel(acc, posts.push(p), cutoff));
    } else {
        assert(posts.push(p)[0] == posts[0]);
        assert(posts.push(p).drop_first() =~= posts.drop_first().push(p));
        if spec_post_accepted(posts[0], cutoff) {
            assert(acc.len() > 0);
            lemma_feed_rel_snoc_skipped(acc.drop_first(), posts.drop_first(), p, cutoff);
        } else {
            lemma_feed_rel_snoc_skipped(acc, posts.drop_first(), p, cutoff);
        }
    }
}

proof fn lemma_feed_count_snoc(posts: Seq<BlueskyPost>, p: BlueskyPost, cutoff: i64)
    ensures
        spec_feed_accepted_count(posts.push(p), cutoff) == spec_feed_accepted_count(posts, cutoff)
            + (if spec_post_accepted(p, cutoff) {
            1nat
        } else {
            0nat
        }),
    decreases posts.len(),
{
    if posts.len() == 0 {
        assert(posts.push(p)[0] == p);
        assert(posts.push(p).drop_first() =~= Seq::<BlueskyPost>::empty());
        assert(spec_feed_accepted_count(Seq::<BlueskyPost>::empty(), cutoff) == 0);
        assert(spec_feed_accepted_count(posts, cutoff) == 0);
    } else {
        assert(posts.push(p)[0] == posts[0]);
        assert(posts.push(p).drop_first() =~= posts.drop_first().push(p));
        lemma_feed_count_snoc(posts.drop_first(), p, cutoff);
    }
}

proof fn lemma_feed_found_old_snoc(posts: Seq<BlueskyPost>, p: BlueskyPost, cutoff: i64)
    ensures
        spec_feed_found_old(posts.push(p), cutoff) == (spec_feed_found_old(posts, cutoff)
            || spec_post_old(p, cutoff)),
{
    if spec_feed_found_old(posts, cutoff) {
        let w = choose|i: int| 0 <= i < posts.len() && spec_post_old(posts[i], cutoff);
        assert(posts.push(p)[w] == posts[w]);
        assert(spec_feed_found_old(posts.push(p), cutoff));
    }
    if spec_post_old(p, cutoff) {
        assert(posts.push(p)[posts.len() as int] == p);
        assert(spec_feed_found_old(posts.push(p), cutoff));
    }
    if spec_feed_found_old(posts.push(p), cutoff) {
        let w = choose|i: int|
            0 <= i < posts.push(p).len() && spec_post_old(posts.push(p)[i], cutoff);
        if w < posts.len() {
            assert(posts.push(p)[w] == posts[w]);
            assert(spec_feed_found_old(posts, cutoff));
        } else {
            assert(posts.push(p)[w] == p);
        }
    }
}

// ---------------------------------------------------------------------------
// The pagination state machine
// ---------------------------------------------------------------------------

/// One Bluesky search in flight.  The caller fetches `next_page_url`
/// with `bearer_token`, decodes the page and its cursor, and hands both
/// to `on_page`.
pub struct BlueskySearch {
    pub kind: SearchType,
    pub subject: String,
    pub access_jwt: String,
    pub cutoff: i64,
    pub cursor: Option<String>,
    pub pages_fetched: u32,
    pub done: bool,
    pub results: Vec<SearchResult>,
}

impl BlueskySearch {
    /// Invariant: the page bound holds and every accumulated result is
    /// well-formed, tagged Bluesky, and no older than the cutoff.
    pub open spec fn wf(self) -> bool {
        &&& self.pages_fetched <= MAX_PAGE_FETCHES
        &&& forall|i: int|
            0 <= i < self.results@.len() ==> {
                &&& (#[trigger] self.results@[i]).wf()
                &&& self.results@[i].platform == Platform::Bluesky
                &&& self.results@[i].created_at >= self.cutoff
            }
    }

    /// Whether another page fetch is wanted.
    pub open spec fn spec_wants_page(self) -> bool {
        !self.done && self.pages_fetched < MAX_PAGE_FETCHES
    }

    /// Whether another page fetch is wanted.
    pub fn wants_page(&self) -> (r: bool)
        ensures
            r == self.spec_wants_page(),
    {
        !self.done && self.pages_fetched < MAX_PAGE_FETCHES
    }

    /// The URL of the next page: the author feed for a user search, the
    /// post search for a hashtag search (queried with its `#` restored),
    /// with the opaque cursor attached once one is held.
    pub open spec fn spec_page_url(self) -> Seq<char> {
        let base = match self.kind {
            SearchType::User => spec_api_base() + "/xrpc/app.bsky.feed.getAuthorFeed?actor="@
                + spec_url_encoded(self.subject@) + "&limit=30"@,
            SearchType::Hashtag => spec_api_base() + "/xrpc/app.bsky.feed.searchPosts?q="@
                + spec_url_encoded("#"@ + self.subject@) + "&limit=30"@,
        };
        match self.cursor {
            Some(c) => base + "&cursor="@ + spec_url_encoded(c@),
            None => base,
        }
    }

    /// The URL of the next page to fetch; `None` once the search has
    /// finished or the page bound is reached.
    pub fn next_page_url(&self) -> (r: Option<String>)
        ensures
            r is Some <==> self.spec_wants_page(),
            (r matches Some(u) ==> u@ == self.spec_page_url()),
    {
        if !self.wants_page() {
            return None;
        }
        let mut u = String::new();
        u.append("https://bsky.social");
        match self.kind {
            SearchType::User => {
                u.append("/xrpc/app.bsky.feed.getAuthorFeed?actor=");
                let enc = url_encode(self.subject.as_str());
                u.append(enc.as_str());
                u.append("&limit=30");
            },
            SearchType::Hashtag => {
                u.append("/xrpc/app.bsky.feed.searchPosts?q=");
                let mut q = String::new();
                q.append("#");
                q.append(self.subject.as_str());
                let enc = url_encode(q.as_str());
                u.append(enc.as_str());
                u.append("&limit=30");
            },
        }
        match &self.cursor {
            Some(c) => {
                u.append("&cursor=");
                let enc = url_encode(c.as_str());
                u.append(enc.as_str());
            },
            None => {},
        }
        proof {
            assert(u@ =~= self.spec_page_url());
        }
        Some(u)
    }

    /// The session token to authorize the fetch with.
    pub fn bearer_token(&self) -> (r: &str)
        ensures
            r@ == self.access_jwt@,
    {
        self.access_jwt.as_str()
    }

    /// Feed one fetched page and its next cursor into the search.  The
    /// whole page is drained; the search finishes on an empty page, on a
    /// post older than the cutoff, on a missing or stalled cursor, or on
    /// a page that yields no accepted post; otherwise the cursor advances
    /// to the one the response carried.
    pub fn on_page(&mut self, posts: &Vec<BlueskyPost>, next_cursor: Option<String>)
        requires
            old(self).wf(),
            old(self).spec_wants_page(),
            forall|i: int|
                0 <= i < posts@.len() ==> ((#[trigger] posts@[i]).embed matches Some(e)
                    ==> spec_embed_urls(e).len() <= u32::MAX),
        ensures
            final(self).wf(),
            final(self).kind == old(self).kind,
            final(self).subject == old(self).subject,
            final(self).access_jwt == old(self).access_jwt,
            final(self).cutoff == old(self).cutoff,
            final(self).pages_fetched == old(self).pages_fetched + 1,
            final(self).results@.len() >= old(self).results@.len(),
            final(self).results@.subrange(0, old(self).results@.len() as int) == old(
                self,
            ).results@,
            spec_feed_rel(
                final(self).results@.skip(old(self).results@.len() as int),
                posts@,
                old(self).cutoff,
            ),
            posts@.len() == 0 ==> final(self).done && final(self).cursor == old(self).cursor,
            spec_feed_found_old(posts@, old(self).cutoff) ==> final(self).done,
            (posts@.len() > 0 && !spec_feed_found_old(posts@, old(self).cutoff)) ==> (match
                next_cursor {
                None => final(self).done,
                Some(nc) => if spec_cursor_stalled(old(self).cursor, nc@) {
                    final(self).done
                } else {
                    &&& spec_opt_str_eq(final(self).cursor, Some(nc@))
                    &&& (spec_feed_accepted_count(posts@, old(self).cutoff) == 0
                        ==> final(self).done)
                    &&& (spec_feed_accepted_count(posts@, old(self).cutoff) > 0
                        ==> !final(self).done)
                },
            }),
    {
        let ghost pre = *self;
        self.pages_fetched = self.pages_fetched + 1;
        if posts.len() == 0 {
            self.done = true;
            proof {
                assert(self.results@.subrange(0, pre.results@.len() as int) =~= pre.results@);
                assert(self.results@.skip(pre.results@.len() as int) =~= Seq::<
                    SearchResult,
                >::empty());
                assert(spec_feed_rel(Seq::<SearchResult>::empty(), posts@, pre.cutoff));
            }
            return;
        }
        let mut found_old: bool = false;
        let mut accepted_any: bool = false;
        let mut k: usize = 0;
        proof {
            assert(posts@.subrange(0, 0) =~= Seq::<BlueskyPost>::empty());
            assert(self.results@.skip(pre.results@.len() as int) =~= Seq::<
                SearchResult,
            >::empty());
            assert(spec_feed_rel(
                Seq::<SearchResult>::empty(),
                Seq::<BlueskyPost>::empty(),
                pre.cutoff,
            ));
            assert(spec_feed_accepted_count(Seq::<BlueskyPost>::empty(), pre.cutoff) == 0);
            assert(self.results@.subrange(0, pre.results@.len() as int) =~= pre.results@);
        }
        while k < posts.len()
            invariant
                0 <= k <= posts@.len(),
                forall|i: int|
                    0 <= i < posts@.len() ==> ((#[trigger] posts@[i]).embed matches Some(e)
                        ==> spec_embed_urls(e).len() <= u32::MAX),
                pre.wf(),
                self.kind == pre.kind,
                self.subject == pre.subject,
                self.access_jwt == pre.access_jwt,
                self.cutoff == pre.cutoff,
                self.cursor == pre.cursor,
                self.done == pre.done,
                self.pages_fetched == pre.pages_fetched + 1,
                pre.pages_fetched < MAX_PAGE_FETCHES,
                self.results@.len() >= pre.results@.len(),
                self.results@.subrange(0, pre.results@.len() as int) == pre.results@,
                spec_feed_rel(
                    self.results@.skip(pre.results@.len() as int),
                    posts@.subrange(0, k as int),
                    pre.cutoff,
                ),
                found_old == spec_feed_found_old(posts@.subrange(0, k as int), pre.cutoff),
                accepted_any == (spec_feed_accepted_count(posts@.subrange(0, k as int), pre.cutoff)
                    > 0),
                forall|i: int|
                    0 <= i < self.results@.len() ==> {
                        &&& (#[trigger] self.results@[i]).wf()
                        &&& self.results@[i].platform == Platform::Bluesky
                        &&& self.results@[i].created_at >= pre.cutoff
                    },
            decreases posts@.len() - k,
        {
            let ghost prefix = posts@.subrange(0, k as int);
            let ghost post_g = posts@[k as int];
            proof {
                assert(prefix.push(post_g) =~= posts@.subrange(0, k + 1));
                lemma_feed_count_snoc(prefix, post_g, pre.cutoff);
                lemma_feed_found_old_snoc(prefix, post_g, pre.cutoff);
            }
            let p = &posts[k];
            let mut ts_o: Option<i64> = None;
            match &p.created_at {
                Some(s) => {
                    ts_o = parse_rfc3339_timestamp(s.as_str());
                },
                None => {
                    match &p.indexed_at {
                        Some(s) => {
                            ts_o = parse_rfc3339_timestamp(s.as_str());
                        },
                        None => {},
                    }
                },
            }
            proof {
                assert(ts_o == spec_post_timestamp(post_g));
            }
            match ts_o {
                Some(t) => {
                    if t < self.cutoff {
                        found_old = true;
                        proof {
                            assert(spec_post_old(post_g, pre.cutoff));
                            assert(!spec_post_accepted(post_g, pre.cutoff));
                            lemma_feed_rel_snoc_skipped(
                                self.results@.skip(pre.results@.len() as int),
                                prefix,
                                post_g,
                                pre.cutoff,
                            );
                        }
                    } else {
                        let r = convert_post(p, t);
                        let ghost before = self.results@;
                        proof {
                            assert(spec_post_accepted(post_g, pre.cutoff));
                            assert(spec_post_ts(post_g) == t);
                            lemma_feed_rel_snoc_accepted(
                                before.skip(pre.results@.len() as int),
                                prefix,
                                r,
                                post_g,
                                pre.cutoff,
                            );
                        }
                        accepted_any = true;
                        self.results.push(r);
                        proof {
                            assert(self.results@ == before.push(r));
                            assert(self.results@.skip(pre.results@.len() as int)
                                =~= before.skip(pre.results@.len() as int).push(r));
                            assert(self.results@.subrange(0, pre.results@.len() as int)
                                =~= pre.results@);
                        }
                    }
                },
                None => {
                    proof {
                        assert(!spec_post_accepted(post_g, pre.cutoff));
                        assert(!spec_post_old(post_g, pre.cutoff));
                        lemma_feed_rel_snoc_skipped(
                            self.results@.skip(pre.results@.len() as int),
                            prefix,
                            post_g,
                            pre.cutoff,
                        );
                    }
                },
            }
            k = k + 1;
        }
        proof {
            assert(posts@.subrange(0, posts@.len() as int) =~= posts@);
        }
        if found_old {
            self.done = true;
            return;
        }
        match next_cursor {
            Some(nc) => {
                let stalled = match &self.cursor {
                    Some(c) => *c == nc,
                    None => false,
                };
                if stalled {
                    self.done = true;
                } else {
                    self.cursor = Some(nc);
                    if !accepted_any {
                        self.done = true;
                    }
                }
            },
            None => {
                self.done = true;
            },
        }
    }

    /// The accumulated results, in arrival order.
    pub fn into_results(self) -> (r: Vec<SearchResult>)
        requires
            self.wf(),
        ensures
            r@ == self.results@,
            forall|i: int|
                0 <= i < r@.len() ==> {
                    &&& (#[trigger] r@[i]).wf()
                    &&& r@[i].platform == Platform::Bluesky
                    &&& r@[i].created_at >= self.cutoff
                },
    {
        self.results
    }
}

// ---------------------------------------------------------------------------
// The service
// ---------------------------------------------------------------------------

/// A search waiting for its ATProto session.  The caller posts the
/// trimmed credentials to `session_url` and hands the returned access
/// token to `on_session`.
pub struct BlueskyPending {
    pub kind: SearchType,
    pub subject: String,
    pub cutoff: i64,
    pub identifier: String,
    pub password: String,
}

impl BlueskyPending {
    /// The session-creation endpoint to post the credentials to.
    pub fn session_url(&self) -> (r: String)
        ensures
            r@ == spec_api_base() + "/xrpc/com.atproto.server.createSession"@,
    {
        let mut u = String::new();
        u.append("https://bsky.social");
        u.append("/xrpc/com.atproto.server.createSession");
        u
    }

    /// The account identifier to log in with.
    pub fn identifier(&self) -> (r: &str)
        ensures
            r@ == self.identifier@,
    {
        self.identifier.as_str()
    }

    /// The app password to log in with.
    pub fn password(&self) -> (r: &str)
        ensures
            r@ == self.password@,
    {
        self.password.as_str()
    }

    /// Start pagination with the session's access token.
    pub fn on_session(self, access_jwt: String) -> (r: BlueskySearch)
        ensures
            r.wf(),
            r.kind == self.kind,
            r.subject@ == self.subject@,
            r.access_jwt@ == access_jwt@,
            r.cutoff == self.cutoff,
            r.cursor is None,
            r.pages_fetched == 0,
            !r.done,
            r.results@.len() == 0,
    {
        BlueskySearch {
            kind: self.kind,
            subject: self.subject,
            access_jwt,
            cutoff: self.cutoff,
            cursor: None,
            pages_fetched: 0,
            done: false,
            results: Vec::new(),
        }
    }
}

/// Whether the Bluesky credentials allow a session: enabled, with a
/// non-blank handle and app password.
pub open spec fn spec_bluesky_usable(auth: BlueskyAuth) -> bool {
    &&& auth.enabled
    &&& spec_trimmed(auth.handle@).len() > 0
    &&& spec_trimmed(auth.app_password@).len() > 0
}

/// The Bluesky client: credentials from the settings.  Transport is the
/// caller's; every decision is made here.
pub struct BlueskyService {
    pub auth: BlueskyAuth,
}

impl BlueskyService {
    /// Build the client from the settings.
    pub fn new(settings: &AppSettings) -> (r: Self)
        ensures
            r.auth.enabled == settings.api.bluesky.enabled,
            r.auth.handle@ == settings.api.bluesky.handle@,
            r.auth.app_password@ == settings.api.bluesky.app_password@,
            r.auth.access_jwt == settings.api.bluesky.access_jwt,
    {
        let a = &settings.api.bluesky;
        let did = match &a.did {
            Some(s) => Some(s.clone()),
            None => None,
        };
        let access_jwt = match &a.access_jwt {
            Some(s) => Some(s.clone()),
            None => None,
        };
        let refresh_jwt = match &a.refresh_jwt {
            Some(s) => Some(s.clone()),
            None => None,
        };
        Self {
            auth: BlueskyAuth {
                enabled: a.enabled,
                handle: a.handle.clone(),
                app_password: a.app_password.clone(),
                did,
                access_jwt,
                refresh_jwt,
            },
        }
    }

    /// This client's platform tag.
    pub fn platform(&self) -> (r: Platform)
        ensures
            r == Platform::Bluesky,
    {
        Platform::Bluesky
    }

    /// Whether the account holds a session token or credentials that can
    /// obtain one.
    pub fn is_authenticated(&self) -> (r: bool)
        ensures
            r == (spec_bluesky_auth_ok(self.auth) || spec_bluesky_usable(
                self.auth,
            )),
    {
        if self.auth.is_authenticated() {
            return true;
        }
        if !self.auth.enabled {
            return false;
        }
        let h = trim_text(self.auth.handle.as_str());
        if h.as_str().is_empty() {
            return false;
        }
        let p = trim_text(self.auth.app_password.as_str());
        !p.as_str().is_empty()
    }

    /// Whether the platform is enabled in the settings.
    pub fn is_enabled(&self) -> (r: bool)
        ensures
            r == self.auth.enabled,
    {
        self.auth.enabled
    }

    /// The API base this client talks to.
    pub fn instance_url(&self) -> (r: &'static str)
        ensures
            r@ == spec_api_base(),
    {
        "https://bsky.social"
    }

    /// Start a search of the given kind: the platform must be enabled
    /// and the credentials non-blank; the query's leading `@` or `#` is
    /// stripped and the cutoff fixed at `now`.
    pub fn start_search(&self, query: &str, search_type: SearchType, days_back: u32, now: Timestamp)
        -> (r: Result<BlueskyPending, SearchError>)
        requires
            now.wf(),
        ensures
            spec_bluesky_usable(self.auth) <==> r is Ok,
            !self.auth.enabled <==> (r matches Err(e) && e matches SearchError::Disabled {
                platform: p } && p == Platform::Bluesky),
            (self.auth.enabled && !spec_bluesky_usable(self.auth)) <==> (r matches Err(e)
                && e matches SearchError::AuthenticationRequired { platform: p } && p
                == Platform::Bluesky),
            r matches Ok(pnd) ==> {
                &&& pnd.kind == search_type
                &&& pnd.subject@ == spec_strip_leading(
                    spec_trimmed(query@),
                    match search_type {
                        SearchType::User => '@',
                        SearchType::Hashtag => '#',
                    },
                )
                &&& pnd.cutoff == spec_cutoff(now, days_back)
                &&& pnd.identifier@ == spec_trimmed(self.auth.handle@)
                &&& pnd.password@ == spec_trimmed(self.auth.app_password@)
            },
    {
        if !self.auth.enabled {
            return Err(SearchError::Disabled { platform: Platform::Bluesky });
        }
        let identifier = trim_text(self.auth.handle.as_str());
        let password = trim_text(self.auth.app_password.as_str());
        if identifier.as_str().is_empty() || password.as_str().is_empty() {
            return Err(SearchError::AuthenticationRequired { platform: Platform::Bluesky });
        }
        let trimmed = trim_text(query);
        let subject = match search_type {
            SearchType::User => strip_leading_char(trimmed.as_str(), '@'),
            SearchType::Hashtag => strip_leading_char(trimmed.as_str(), '#'),
        };
        let cutoff = cutoff_timestamp(now, days_back);
        Ok(BlueskyPending { kind: search_type, subject, cutoff, identifier, password })
    }
}

} // verus!
