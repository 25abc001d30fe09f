//! Search over the Mastodon-compatible REST API that Pixelfed and
//! Mastodon share: handle resolution, bounded cursor pagination with
//! cutoff-date termination, and conversion of wire posts into results.
//!
//! Network transport is not done here.  A search is a state machine: the
//! caller asks for the next URL to fetch, performs the fetch, and hands
//! the decoded page back; every decision in between is verified.

use vstd::prelude::*;

verus! {

use vstd::string::StrSliceExecFns;
use vstd::string::StringExecFns;

use crate::encoding::spec_url_encoded;
use crate::encoding::url_encode;
use crate::errors::SearchError;
use crate::models::AppSettings;
use crate::models::PixelfedAccount;
use crate::models::PixelfedMediaAttachment;
use crate::models::PixelfedPost;
use crate::models::Platform;
use crate::models::SearchResult;
use crate::models::SearchType;
use crate::text::contains_char;
use crate::text::has_prefix;
use crate::text::spec_contains_char;
use crate::text::spec_has_prefix;
use crate::text::spec_strip_leading;
use crate::text::spec_strip_tags;
use crate::text::spec_strip_trailing;
use crate::text::spec_trimmed;
use crate::text::strip_html_tags;
use crate::text::strip_leading_char;
use crate::text::strip_trailing_char;
use crate::text::trim_text;
use crate::timeutil::parse_rfc3339_timestamp;
use crate::timeutil::spec_cutoff;
use crate::timeutil::spec_rfc3339_timestamp;
use crate::timeutil::Timestamp;
use crate::timeutil::cutoff_timestamp;

/// The hard bound on page fetches of one search: a circuit breaker
/// against feeds that never run dry.
pub const MAX_PAGE_FETCHES: u32 = 120;

/// The views of a sequence of strings.
pub open spec fn spec_views_of(v: Seq<String>) -> Seq<Seq<char>> {
    v.map_values(|s: String| s@)
}

// ---------------------------------------------------------------------------
// Item classification
// ---------------------------------------------------------------------------

/// The content of an optional string when present and non-empty.
pub open spec fn spec_opt_nonempty(o: Option<String>) -> Option<Seq<char>> {
    match o {
        Some(s) => if s@.len() > 0 {
            Some(s@)
        } else {
            None
        },
        None => None,
    }
}

/// The creation timestamp of a wire post: its non-empty `created_at` text
/// parsed as RFC 3339, `None` when absent, empty or unparseable.
pub open spec fn spec_item_timestamp(p: PixelfedPost) -> Option<i64> {
    match spec_opt_nonempty(p.created_at) {
        Some(s) => spec_rfc3339_timestamp(s),
        None => None,
    }
}

/// Whether a wire post is accepted into the results: it has an id, its
/// timestamp parses, and it is not older than the cutoff.
pub open spec fn spec_item_accepted(p: PixelfedPost, cutoff: i64) -> bool {
    p.id@.len() > 0 && (spec_item_timestamp(p) matches Some(t) && t >= cutoff)
}

/// Whether a wire post marks the end of the window: it has an id, its
/// timestamp parses, and it is older than the cutoff.
pub open spec fn spec_item_old(p: PixelfedPost, cutoff: i64) -> bool {
    p.id@.len() > 0 && (spec_item_timestamp(p) matches Some(t) && t < cutoff)
}

/// The display name of a post's account: its display name when non-empty,
/// else its username when non-empty, else `Unknown`.
pub open spec fn spec_account_name(a: PixelfedAccount) -> Seq<char> {
    match spec_opt_nonempty(a.display_name) {
        Some(d) => d,
        None => match spec_opt_nonempty(a.username) {
            Some(u) => u,
            None => "Unknown"@,
        },
    }
}

/// Resolve the display name of a post's account.
fn account_name(a: &PixelfedAccount) -> (r: String)
    ensures
        r@ == spec_account_name(*a),
{
    match &a.display_name {
        Some(d) => {
            if !d.as_str().is_empty() {
                return d.clone();
            }
        },
        None => {},
    }
    match &a.username {
        Some(u) => {
            if !u.as_str().is_empty() {
                return u.clone();
            }
        },
        None => {},
    }
    let mut out = String::new();
    out.append("Unknown");
    out
}

// ---------------------------------------------------------------------------
// Media extraction
// ---------------------------------------------------------------------------

/// The downloadable URL of an attachment: its `url` trimmed, when present
/// and non-empty after trimming.
pub open spec fn spec_attachment_url(m: PixelfedMediaAttachment) -> Option<Seq<char>> {
    match m.url {
        Some(u) => {
            let t = spec_trimmed(u@);
            if t.len() > 0 {
                Some(t)
            } else {
                None
            }
        },
        None => None,
    }
}

/// The media type recorded for a kept attachment: its type text, or empty.
pub open spec fn spec_attachment_type(m: PixelfedMediaAttachment) -> Seq<char> {
    match m.media_type {
        Some(t) => t@,
        None => Seq::empty(),
    }
}

/// The URLs of the attachments that carry a usable URL, in order.
pub open spec fn spec_media_urls(ms: Seq<PixelfedMediaAttachment>) -> Seq<Seq<char>>
    decreases ms.len(),
{
    if ms.len() == 0 {
        Seq::empty()
    } else {
        let rest = spec_media_urls(ms.drop_first());
        match spec_attachment_url(ms[0]) {
            Some(u) => seq![u] + rest,
            None => rest,
        }
    }
}

/// The types of the attachments that carry a usable URL, in order.
pub open spec fn spec_media_types(ms: Seq<PixelfedMediaAttachment>) -> Seq<Seq<char>>
    decreases ms.len(),
{
    if ms.len() == 0 {
        Seq::empty()
    } else {
        let rest = spec_media_types(ms.drop_first());
        match spec_attachment_url(ms[0]) {
            Some(u) => seq![spec_attachment_type(ms[0])] + rest,
            None => rest,
        }
    }
}

proof fn lemma_media_snoc(ms: Seq<PixelfedMediaAttachment>, m: PixelfedMediaAttachment)
    ensures
        spec_media_urls(ms.push(m)) == spec_media_urls(ms) + (match spec_attachment_url(m) {
            Some(u) => seq![u],
            None => Seq::<Seq<char>>::empty(),
        }),
        spec_media_types(ms.push(m)) == spec_media_types(ms) + (match spec_attachment_url(m) {
            Some(u) => seq![spec_attachment_type(m)],
            None => Seq::<Seq<char>>::empty(),
        }),
    decreases ms.len(),
{
    if ms.len() == 0 {
        assert(ms.push(m)[0] == m);
        assert(ms.push(m).drop_first() =~= Seq::<PixelfedMediaAttachment>::empty());
        assert(spec_media_urls(Seq::<PixelfedMediaAttachment>::empty())
            =~= Seq::<Seq<char>>::empty());
        assert(spec_media_types(Seq::<PixelfedMediaAttachment>::empty())
            =~= Seq::<Seq<char>>::empty());
        assert(spec_media_urls(ms) =~= Seq::<Seq<char>>::empty());
        match spec_attachment_url(m) {
            Some(u) => {
                assert(spec_media_urls(ms.push(m)) =~= seq![u]);
                assert(spec_media_urls(ms) + seq![u] =~= seq![u]);
                assert(spec_media_types(ms.push(m)) =~= seq![spec_attachment_type(m)]);
                assert(spec_media_types(ms) + seq![spec_attachment_type(m)] =~= seq![
                    spec_attachment_type(m),
                ]);
            },
            None => {
                assert(spec_media_urls(ms.push(m)) =~= Seq::<Seq<char>>::empty());
                assert(spec_media_urls(ms) + Seq::<Seq<char>>::empty() =~= Seq::<
                    Seq<char>,
                >::empty());
                assert(spec_media_types(ms.push(m)) =~= Seq::<Seq<char>>::empty());
                assert(spec_media_types(ms) + Seq::<Seq<char>>::empty() =~= Seq::<
                    Seq<char>,
                >::empty());
            },
        }
    } else {
        let tail = ms.drop_first();
        assert(ms.push(m).drop_first() =~= tail.push(m));
        lemma_media_snoc(tail, m);
        match spec_attachment_url(ms[0]) {
            Some(u) => {
                assert(spec_media_urls(ms.push(m)) =~= seq![u] + spec_media_urls(tail.push(m)));
                assert(spec_media_urls(ms) =~= seq![u] + spec_media_urls(tail));
                match spec_attachment_url(m) {
                    Some(w) => {
                        assert(spec_media_urls(ms.push(m)) =~= spec_media_urls(ms) + seq![w]);
                        assert(spec_media_types(ms.push(m)) =~= spec_media_types(ms) + seq![
                            spec_attachment_type(m),
                        ]);
                    },
                    None => {
                        assert(spec_media_urls(ms.push(m)) =~= spec_media_urls(ms) + Seq::<
                            Seq<char>,
                        >::empty());
                        assert(spec_media_types(ms.push(m)) =~= spec_media_types(ms) + Seq::<
                            Seq<char>,
                        >::empty());
                    },
                }
            },
            None => {
                assert(spec_media_urls(ms.push(m)) =~= spec_media_urls(tail.push(m)));
                assert(spec_media_urls(ms) =~= spec_media_urls(tail));
                match spec_attachment_url(m) {
                    Some(w) => {
                        assert(spec_media_urls(ms.push(m)) =~= spec_media_urls(ms) + seq![w]);
                        assert(spec_media_types(ms.push(m)) =~= spec_media_types(ms) + seq![
                            spec_attachment_type(m),
                        ]);
                    },
                    None => {
                        assert(spec_media_urls(ms.push(m)) =~= spec_media_urls(ms) + Seq::<
                            Seq<char>,
                        >::empty());
                        assert(spec_media_types(ms.push(m)) =~= spec_media_types(ms) + Seq::<
                            Seq<char>,
                        >::empty());
                    },
                }
            },
        }
    }
}

/// Collect the usable (url, type) pairs of a post's attachments, in
/// order.  The two lists are parallel.
fn extract_media(ms: &Vec<PixelfedMediaAttachment>) -> (r: (Vec<String>, Vec<String>))
    ensures
        spec_views_of(r.0@) == spec_media_urls(ms@),
        spec_views_of(r.1@) == spec_media_types(ms@),
        r.0@.len() == r.1@.len(),
{
    let mut urls: Vec<String> = Vec::new();
    let mut types: Vec<String> = Vec::new();
    let mut k: usize = 0;
    proof {
        assert(ms@.subrange(0, 0) =~= Seq::<PixelfedMediaAttachment>::empty());
        assert(spec_views_of(urls@) =~= spec_media_urls(ms@.subrange(0, 0)));
        assert(spec_views_of(types@) =~= spec_media_types(ms@.subrange(0, 0)));
    }
    while k < ms.len()
        invariant
            0 <= k <= ms@.len(),
            spec_views_of(urls@) == spec_media_urls(ms@.subrange(0, k as int)),
            spec_views_of(types@) == spec_media_types(ms@.subrange(0, k as int)),
            urls@.len() == types@.len(),
        decreases ms@.len() - k,
    {
        let m = &ms[k];
        proof {
            assert(ms@.subrange(0, k as int).push(ms@[k as int]) =~= ms@.subrange(0, k + 1));
            lemma_media_snoc(ms@.subrange(0, k as int), ms@[k as int]);
        }
        match &m.url {
            Some(u) => {
                let t = trim_text(u.as_str());
                if !t.as_str().is_empty() {
                    urls.push(t);
                    let ty = match &m.media_type {
                        Some(ty) => ty.clone(),
                        None => String::new(),
                    };
                    types.push(ty);
                    proof {
                        assert(spec_views_of(urls@) =~= spec_media_urls(
                            ms@.subrange(0, k + 1),
                        ));
                        assert(spec_views_of(types@) =~= spec_media_types(
                            ms@.subrange(0, k + 1),
                        ));
                    }
                } else {
                    proof {
                        assert(spec_attachment_url(ms@[k as int]) is None);
                        assert(spec_views_of(urls@) =~= spec_media_urls(
                            ms@.subrange(0, k + 1),
                        ));
                        assert(spec_views_of(types@) =~= spec_media_types(
                            ms@.subrange(0, k + 1),
                        ));
                    }
                }
            },
            None => {
                proof {
                    assert(spec_views_of(urls@) =~= spec_media_urls(ms@.subrange(0, k + 1)));
                    assert(spec_views_of(types@) =~= spec_media_types(ms@.subrange(0, k + 1)));
                }
            },
        }
        k = k + 1;
    }
    proof {
        assert(ms@.subrange(0, ms@.len() as int) =~= ms@);
    }
    (urls, types)
}

proof fn lemma_media_urls_len(ms: Seq<PixelfedMediaAttachment>)
    ensures
        spec_media_urls(ms).len() <= ms.len(),
    decreases ms.len(),
{
    if ms.len() > 0 {
        lemma_media_urls_len(ms.drop_first());
    }
}

// ---------------------------------------------------------------------------
// Post conversion
// ---------------------------------------------------------------------------

/// The username used in a fallback post URL: the account's username with
/// leading `@` stripped when that leaves text, else `unknown`.
pub open spec fn spec_fallback_username(a: PixelfedAccount) -> Seq<char> {
    match a.username {
        Some(u) => {
            let s = spec_strip_leading(u@, '@');
            if s.len() > 0 {
                s
            } else {
                "unknown"@
            }
        },
        None => "unknown"@,
    }
}

/// The canonical URL synthesized for a post that carries none:
/// `{instance}/@{username}/{id}`.
pub open spec fn spec_fallback_post_url(instance: Seq<char>, p: PixelfedPost) -> Seq<char> {
    spec_strip_trailing(instance, '/') + "/@"@ + spec_fallback_username(p.account) + "/"@ + p.id@
}

fn fallback_post_url(instance: &str, p: &PixelfedPost) -> (r: String)
    ensures
        r@ == spec_fallback_post_url(instance@, *p),
{
    let mut out = strip_trailing_char(instance, '/');
    out.append("/@");
    match &p.account.username {
        Some(u) => {
            let s = strip_leading_char(u.as_str(), '@');
            if !s.as_str().is_empty() {
                out.append(s.as_str());
            } else {
                out.append("unknown");
            }
        },
        None => {
            out.append("unknown");
        },
    }
    out.append("/");
    out.append(p.id.as_str());
    proof {
        assert(out@ =~= spec_fallback_post_url(instance@, *p));
    }
    out
}

/// The timestamp of a post whose timestamp parses; 0 otherwise.
pub open spec fn spec_ts(p: PixelfedPost) -> i64 {
    match spec_item_timestamp(p) {
        Some(t) => t,
        None => 0i64,
    }
}

/// How a result is derived from an accepted wire post: identity and
/// author carried over, HTML stripped from the content, media reduced to
/// the usable (url, type) pairs, counts defaulted to zero, and the post
/// URL synthesized when the wire carries none.
pub open spec fn spec_is_converted(
    r: SearchResult,
    p: PixelfedPost,
    t: i64,
    platform: Platform,
    instance: Seq<char>,
) -> bool {
    &&& r.platform == platform
    &&& r.id@ == p.id@
    &&& r.author@ == spec_account_name(p.account)
    &&& r.content@ == spec_trimmed(
        spec_strip_tags(
            match p.content {
                Some(c) => c@,
                None => Seq::empty(),
            },
        ),
    )
    &&& r.created_at == t
    &&& spec_views_of(r.media_urls@) == spec_media_urls(p.media_attachments@)
    &&& spec_views_of(r.media_types@) == spec_media_types(p.media_attachments@)
    &&& r.media_count == r.media_urls@.len()
    &&& r.likes == (match p.favourites_count {
        Some(n) => n,
        None => 0u32,
    })
    &&& r.shares == (match p.reblogs_count {
        Some(n) => n,
        None => 0u32,
    })
    &&& r.url@ == (match p.url {
        Some(u) => u@,
        None => spec_fallback_post_url(instance, p),
    })
}

/// Convert an accepted wire post into a result.
fn convert_post(p: &PixelfedPost, t: i64, platform: Platform, instance: &str) -> (r: SearchResult)
    requires
        p.media_attachments@.len() <= u32::MAX,
    ensures
        spec_is_converted(r, *p, t, platform, instance@),
        r.wf(),
{
    let (media_urls, media_types) = extract_media(&p.media_attachments);
    proof {
        lemma_media_urls_len(p.media_attachments@);
    }
    let media_count = media_urls.len() as u32;
    let author = account_name(&p.account);
    let content = match &p.content {
        Some(c) => strip_html_tags(c.as_str()),
        None => strip_html_tags(""),
    };
    proof {
        reveal_strlit("");
        assert(""@ =~= Seq::<char>::empty());
    }
    let url = match &p.url {
        Some(u) => u.clone(),
        None => fallback_post_url(instance, p),
    };
    let likes = match &p.favourites_count {
        Some(n) => *n,
        None => 0,
    };
    let shares = match &p.reblogs_count {
        Some(n) => *n,
        None => 0,
    };
    SearchResult {
        platform,
        id: p.id.clone(),
        author,
        content,
        created_at: t,
        media_urls,
        media_types,
        media_count,
        likes,
        shares,
        url,
    }
}

// ---------------------------------------------------------------------------
// Page relation
// ---------------------------------------------------------------------------

/// How a run of results is derived from a page of wire posts: accepted
/// posts are converted in page order, all others contribute nothing.
pub open spec fn spec_page_rel(
    acc: Seq<SearchResult>,
    posts: Seq<PixelfedPost>,
    cutoff: i64,
    platform: Platform,
    instance: Seq<char>,
) -> bool
    decreases posts.len(),
{
    if posts.len() == 0 {
        acc.len() == 0
    } else if spec_item_accepted(posts[0], cutoff) {
        &&& acc.len() > 0
        &&& spec_is_converted(acc[0], posts[0], spec_ts(posts[0]), platform, instance)
        &&& spec_page_rel(acc.drop_first(), posts.drop_first(), cutoff, platform, instance)
    } else {
        spec_page_rel(acc, posts.drop_first(), cutoff, platform, instance)
    }
}

/// How many posts of a page are accepted.
pub open spec fn spec_accepted_count(posts: Seq<PixelfedPost>, cutoff: i64) -> nat
    decreases posts.len(),
{
    if posts.len() == 0 {
        0
    } else {
        (if spec_item_accepted(posts[0], cutoff) {
            1nat
        } else {
            0nat
        }) + spec_accepted_count(posts.drop_first(), cutoff)
    }
}

/// Whether any post of the page is older than the cutoff.
pub open spec fn spec_page_found_old(posts: Seq<PixelfedPost>, cutoff: i64) -> bool {
    exists|i: int| 0 <= i < posts.len() && spec_item_old(posts[i], cutoff)
}

/// The id of the last accepted post of the page, the next cursor.
pub open spec fn spec_last_accepted_id(posts: Seq<PixelfedPost>, cutoff: i64) -> Option<Seq<char>>
    decreases posts.len(),
{
    if posts.len() == 0 {
        None
    } else if spec_item_accepted(posts.last(), cutoff) {
        Some(posts.last().id@)
    } else {
        spec_last_accepted_id(posts.drop_last(), cutoff)
    }
}

proof fn lemma_page_rel_snoc_accepted(
    acc: Seq<SearchResult>,
    posts: Seq<PixelfedPost>,
    r: SearchResult,
    p: PixelfedPost,
    cutoff: i64,
    platform: Platform,
    instance: Seq<char>,
)
    requires
        spec_page_rel(acc, posts, cutoff, platform, instance),
        spec_item_accepted(p, cutoff),
        spec_is_converted(r, p, spec_ts(p), platform, instance),
    ensures
        spec_page_rel(acc.push(r), posts.push(p), cutoff, platform, instance),
    decreases posts.len(),
{
    if posts.len() == 0 {
        assert(acc.len() == 0);
        assert(posts.push(p)[0] == p);
        assert(acc.push(r)[0] == r);
        assert(acc.push(r).drop_first() =~= Seq::<SearchResult>::empty());
        assert(posts.push(p).drop_first() =~= Seq::<PixelfedPost>::empty());
        assert(spec_page_rel(
            Seq::<SearchResult>::empty(),
            Seq::<PixelfedPost>::empty(),
            cutoff,
            platform,
            instance,
        ));
        assert(spec_page_rel(acc.push(r), posts.push(p), cutoff, platform, instance));
    } else {
        assert(posts.push(p)[0] == posts[0]);
        assert(posts.push(p).drop_first() =~= posts.drop_first().push(p));
        if spec_item_accepted(posts[0], cutoff) {
            assert(acc.len() > 0);
            assert(acc.push(r)[0] == acc[0]);
            assert(acc.push(r).drop_first() =~= acc.drop_first().push(r));
            lemma_page_rel_snoc_accepted(
                acc.drop_first(),
                posts.drop_first(),
                r,
                p,
                cutoff,
                platform,
                instance,
            );
        } else {
            lemma_page_rel_snoc_accepted(acc, posts.drop_first(), r, p, cutoff, platform, instance);
        }
    }
}

proof fn lemma_page_rel_snoc_skipped(
    acc: Seq<SearchResult>,
    posts: Seq<PixelfedPost>,
    p: PixelfedPost,
    cutoff: i64,
    platform: Platform,
    instance: Seq<char>,
)
    requires
        spec_page_rel(acc, posts, cutoff, platform, instance),
        !spec_item_accepted(p, cutoff),
    ensures
        spec_page_rel(acc, posts.push(p), cutoff, platform, instance),
    decreases posts.len(),
{
    if posts.len() == 0 {
        assert(posts.push(p)[0] == p);
        assert(posts.push(p).drop_first() =~= Seq::<PixelfedPost>::empty());
        assert(spec_page_rel(acc, Seq::<PixelfedPost>::empty(), cutoff, platform, instance));
        assert(spec_page_rel(acc, posts.push(p), cutoff, platform, instance));
    } else {
        assert(posts.push(p)[0] == posts[0]);
        assert(posts.push(p).drop_first() =~= posts.drop_first().push(p));
        if spec_item_accepted(posts[0], cutoff) {
            assert(acc.len() > 0);
            lemma_page_rel_snoc_skipped(
                acc.drop_first(),
                posts.drop_first(),
                p,
                cutoff,
                platform,
                instance,
            );
        } else {
            lemma_page_rel_snoc_skipped(acc, posts.drop_first(), p, cutoff, platform, instance);
        }
    }
}

proof fn lemma_accepted_count_snoc(posts: Seq<PixelfedPost>, p: PixelfedPost, cutoff: i64)
    ensures
        spec_accepted_count(posts.push(p), cutoff) == spec_accepted_count(posts, cutoff) + (
        if spec_item_accepted(p, cutoff) {
            1nat
        } else {
            0nat
        }),
    decreases posts.len(),
{
    if posts.len() == 0 {
        assert(posts.push(p)[0] == p);
        assert(posts.push(p).drop_first() =~= Seq::<PixelfedPost>::empty());
        assert(spec_accepted_count(Seq::<PixelfedPost>::empty(), cutoff) == 0);
        assert(spec_accepted_count(posts, cutoff) == 0);
    } else {
        assert(posts.push(p)[0] == posts[0]);
        assert(posts.push(p).drop_first() =~= posts.drop_first().push(p));
        lemma_accepted_count_snoc(posts.drop_first(), p, cutoff);
    }
}

proof fn lemma_count_pos_last_some(posts: Seq<PixelfedPost>, cutoff: i64)
    requires
        spec_accepted_count(posts, cutoff) > 0,
    ensures
        spec_last_accepted_id(posts, cutoff) is Some,
    decreases posts.len(),
{
    if posts.len() > 0 {
        if spec_item_accepted(posts.last(), cutoff) {
        } else {
            let q = posts.drop_last();
            assert(q.push(posts.last()) =~= posts);
            lemma_accepted_count_snoc(q, posts.last(), cutoff);
            lemma_count_pos_last_some(q, cutoff);
        }
    }
}

/// Whether an optional owned cursor and an optional cursor text agree.
pub open spec fn spec_opt_str_eq(a: Option<String>, b: Option<Seq<char>>) -> bool {
    match (a, b) {
        (Some(x), Some(y)) => x@ == y,
        (None, None) => true,
        _ => false,
    }
}

/// Whether the next cursor would repeat the previous one: a progress
/// stall.
pub open spec fn spec_cursor_stalled(prev: Option<String>, next: Seq<char>) -> bool {
    match prev {
        Some(m) => m@ == next,
        None => false,
    }
}

/// The outcome of cursor extraction after a page that accepted posts:
/// on a stall the search finishes with nothing changed; otherwise it
/// continues with the cursor advanced to `next`.
pub open spec fn spec_cursor_outcome(
    prev: Option<String>,
    next: Option<Seq<char>>,
    done: bool,
    max_id: Option<String>,
) -> bool {
    match next {
        Some(id) => if spec_cursor_stalled(prev, id) {
            done
        } else {
            !done && spec_opt_str_eq(max_id, Some(id))
        },
        None => false,
    }
}

// ---------------------------------------------------------------------------
// The pagination state machine
// ---------------------------------------------------------------------------

/// One Mastodon-compatible timeline search in flight.  The caller fetches
/// `next_page_url` with `bearer_token`, decodes the page, and hands it to
/// `on_page`; when `wants_page` turns false the accumulated results are
/// taken with `into_results`.
pub struct TimelineSearch {
    pub platform: Platform,
    pub instance_url: String,
    pub access_token: String,
    pub cutoff: i64,
    pub base_url: String,
    pub max_id: Option<String>,
    pub pages_fetched: u32,
    pub done: bool,
    pub results: Vec<SearchResult>,
}

impl TimelineSearch {
    /// Invariant: the page bound holds and every accumulated result is
    /// well-formed, belongs to this search's platform, and is no older
    /// than the cutoff.
    pub open spec fn wf(self) -> bool {
        &&& self.pages_fetched <= MAX_PAGE_FETCHES
        &&& forall|i: int|
            0 <= i < self.results@.len() ==> {
                &&& (#[trigger] self.results@[i]).wf()
                &&& self.results@[i].platform == self.platform
                &&& self.results@[i].created_at >= self.cutoff
            }
    }

    /// Whether another page fetch is wanted: the search has not finished
    /// and the hard page bound is not reached.
    pub open spec fn spec_wants_page(self) -> bool {
        !self.done && self.pages_fetched < MAX_PAGE_FETCHES
    }

    /// Whether another page fetch is wanted.
    pub fn wants_page(&self) -> (r: bool)
        ensures
            r == self.spec_wants_page(),
    {
        !self.done && self.pages_fetched < MAX_PAGE_FETCHES
    }

    /// The URL of the next page: the base URL, with the `max_id` cursor
    /// attached once one is held.
    pub open spec fn spec_page_url(self) -> Seq<char> {
        match self.max_id {
            Some(id) => self.base_url@ + (if spec_contains_char(self.base_url@, '?') {
                "&"@
            } else {
                "?"@
            }) + "max_id="@ + id@,
            None => self.base_url@,
        }
    }

    /// The URL of the next page to fetch; `None` once the search has
    /// finished or the page bound is reached.
    pub fn next_page_url(&self) -> (r: Option<String>)
        ensures
            r is Some <==> self.spec_wants_page(),
            (r matches Some(u) ==> u@ == self.spec_page_url()),
    {
        if !self.wants_page() {
            return None;
        }
        match &self.max_id {
            Some(id) => {
                let mut u = self.base_url.clone();
                if contains_char(self.base_url.as_str(), '?') {
                    u.append("&");
                } else {
                    u.append("?");
                }
                u.append("max_id=");
                u.append(id.as_str());
                proof {
                    assert(u@ =~= self.spec_page_url());
                }
                Some(u)
            },
            None => Some(self.base_url.clone()),
        }
    }

    /// The bearer token to authorize the fetch with.
    pub fn bearer_token(&self) -> (r: &str)
        ensures
            r@ == self.access_token@,
    {
        self.access_token.as_str()
    }

    /// Feed one fetched page into the search.  Accepted posts are
    /// converted and appended in page order; the whole page is drained
    /// even when an old post appears in it.  The search finishes on an
    /// empty page, on a post older than the cutoff, on a page that yields
    /// no accepted post, or on a cursor stall; otherwise the cursor
    /// advances to the last accepted post's id.
    pub fn on_page(&mut self, posts: &Vec<PixelfedPost>)
        requires
            old(self).wf(),
            old(self).spec_wants_page(),
            forall|i: int|
                0 <= i < posts@.len() ==> (#[trigger] posts@[i]).media_attachments@.len()
                    <= u32::MAX,
        ensures
            final(self).wf(),
            final(self).platform == old(self).platform,
            final(self).instance_url == old(self).instance_url,
            final(self).access_token == old(self).access_token,
            final(self).cutoff == old(self).cutoff,
            final(self).base_url == old(self).base_url,
            final(self).pages_fetched == old(self).pages_fetched + 1,
            final(self).results@.len() >= old(self).results@.len(),
            final(self).results@.subrange(0, old(self).results@.len() as int) == old(
                self,
            ).results@,
            spec_page_rel(
                final(self).results@.skip(old(self).results@.len() as int),
                posts@,
                old(self).cutoff,
                old(self).platform,
                old(self).instance_url@,
            ),
            posts@.len() == 0 ==> final(self).done && final(self).max_id == old(self).max_id,
            spec_page_found_old(posts@, old(self).cutoff) ==> final(self).done,
            (posts@.len() > 0 && !spec_page_found_old(posts@, old(self).cutoff)
                && spec_accepted_count(posts@, old(self).cutoff) == 0) ==> final(self).done,
            (posts@.len() > 0 && !spec_page_found_old(posts@, old(self).cutoff)
                && spec_accepted_count(posts@, old(self).cutoff) > 0) ==> spec_cursor_outcome(
                old(self).max_id,
                spec_last_accepted_id(posts@, old(self).cutoff),
                final(self).done,
                final(self).max_id,
            ),
    {
        let ghost pre = *self;
        self.pages_fetched = self.pages_fetched + 1;
        if posts.len() == 0 {
            self.done = true;
            proof {
                assert(self.results@.subrange(0, pre.results@.len() as int) =~= pre.results@);
                assert(self.results@.skip(pre.results@.len() as int) =~= Seq::<
                    SearchResult,
                >::empty());
                assert(spec_page_rel(
                    Seq::<SearchResult>::empty(),
                    posts@,
                    pre.cutoff,
                    pre.platform,
                    pre.instance_url@,
                ));
            }
            return;
        }
        let mut found_old: bool = false;
        let mut accepted_any: bool = false;
        let mut last_id: Option<String> = None;
        let mut k: usize = 0;
        proof {
            assert(posts@.subrange(0, 0) =~= Seq::<PixelfedPost>::empty());
            assert(self.results@.skip(pre.results@.len() as int) =~= Seq::<
                SearchResult,
            >::empty());
            assert(spec_page_rel(
                Seq::<SearchResult>::empty(),
                Seq::<PixelfedPost>::empty(),
                pre.cutoff,
                pre.platform,
                pre.instance_url@,
            ));
            assert(spec_accepted_count(Seq::<PixelfedPost>::empty(), pre.cutoff) == 0);
            assert(spec_last_accepted_id(Seq::<PixelfedPost>::empty(), pre.cutoff) is None);
            assert(self.results@.subrange(0, pre.results@.len() as int) =~= pre.results@);
        }
        while k < posts.len()
            invariant
                0 <= k <= posts@.len(),
                forall|i: int|
                    0 <= i < posts@.len() ==> (#[trigger] posts@[i]).media_attachments@.len()
                        <= u32::MAX,
                pre.wf(),
                self.platform == pre.platform,
                self.instance_url == pre.instance_url,
                self.access_token == pre.access_token,
                self.cutoff == pre.cutoff,
                self.base_url == pre.base_url,
                self.max_id == pre.max_id,
                self.done == pre.done,
                self.pages_fetched == pre.pages_fetched + 1,
                pre.pages_fetched < MAX_PAGE_FETCHES,
                self.results@.len() >= pre.results@.len(),
                self.results@.subrange(0, pre.results@.len() as int) == pre.results@,
                spec_page_rel(
                    self.results@.skip(pre.results@.len() as int),
                    posts@.subrange(0, k as int),
                    pre.cutoff,
                    pre.platform,
                    pre.instance_url@,
                ),
                found_old == spec_page_found_old(posts@.subrange(0, k as int), pre.cutoff),
                accepted_any == (spec_accepted_count(posts@.subrange(0, k as int), pre.cutoff)
                    > 0),
                spec_opt_str_eq(
                    last_id,
                    spec_last_accepted_id(posts@.subrange(0, k as int), pre.cutoff),
                ),
                forall|i: int|
                    0 <= i < self.results@.len() ==> {
                        &&& (#[trigger] self.results@[i]).wf()
                        &&& self.results@[i].platform == pre.platform
                        &&& self.results@[i].created_at >= pre.cutoff
                    },
            decreases posts@.len() - k,
        {
            let ghost prefix = posts@.subrange(0, k as int);
            let ghost post_g = posts@[k as int];
            proof {
                assert(prefix.push(post_g) =~= posts@.subrange(0, k + 1));
                lemma_accepted_count_snoc(prefix, post_g, pre.cutoff);
            }
            let p = &posts[k];
            let mut ts_o: Option<i64> = None;
            if !p.id.as_str().is_empty() {
                match &p.created_at {
                    Some(s) => {
                        if !s.as_str().is_empty() {
                            ts_o = parse_rfc3339_timestamp(s.as_str());
                        }
                    },
                    None => {},
                }
                proof {
                    assert(ts_o == spec_item_timestamp(post_g));
                }
                match ts_o {
                    Some(t) => {
                        if t < self.cutoff {
                            found_old = true;
                            proof {
                                assert(spec_item_old(post_g, pre.cutoff));
                                assert(!spec_item_accepted(post_g, pre.cutoff));
                                lemma_page_rel_snoc_skipped(
                                    self.results@.skip(pre.results@.len() as int),
                                    prefix,
                                    post_g,
                                    pre.cutoff,
                                    pre.platform,
                                    pre.instance_url@,
                                );
                                assert(spec_page_found_old(posts@.subrange(0, k + 1), pre.cutoff));
                                assert(posts@.subrange(0, k + 1).drop_last() =~= prefix);
                            }
                        } else {
                            let r = convert_post(p, t, self.platform, self.instance_url.as_str());
                            let ghost before = self.results@;
                            proof {
                                assert(spec_item_accepted(post_g, pre.cutoff));
                                assert(spec_ts(post_g) == t);
                                lemma_page_rel_snoc_accepted(
                                    before.skip(pre.results@.len() as int),
                                    prefix,
                                    r,
                                    post_g,
                                    pre.cutoff,
                                    pre.platform,
                                    pre.instance_url@,
                                );
                            }
                            accepted_any = true;
                            last_id = Some(p.id.clone());
                            self.results.push(r);
                            proof {
                                assert(self.results@ == before.push(r));
                                assert(self.results@.skip(pre.results@.len() as int)
                                    =~= before.skip(pre.results@.len() as int).push(r));
                                assert(self.results@.subrange(0, pre.results@.len() as int)
                                    =~= pre.results@);
                                assert(posts@.subrange(0, k + 1).last() == post_g);
                                assert(posts@.subrange(0, k + 1).drop_last() =~= prefix);
                            }
                        }
                    },
                    None => {
                        proof {
                            assert(!spec_item_accepted(post_g, pre.cutoff));
                            assert(!spec_item_old(post_g, pre.cutoff));
                            lemma_page_rel_snoc_skipped(
                                self.results@.skip(pre.results@.len() as int),
                                prefix,
                                post_g,
                                pre.cutoff,
                                pre.platform,
                                pre.instance_url@,
                            );
                            assert(posts@.subrange(0, k + 1).drop_last() =~= prefix);
                        }
                    },
                }
            } else {
                proof {
                    assert(!spec_item_accepted(post_g, pre.cutoff));
                    assert(!spec_item_old(post_g, pre.cutoff));
                    lemma_page_rel_snoc_skipped(
                        self.results@.skip(pre.results@.len() as int),
                        prefix,
                        post_g,
                        pre.cutoff,
                        pre.platform,
                        pre.instance_url@,
                    );
                    assert(posts@.subrange(0, k + 1).drop_last() =~= prefix);
                }
            }
            proof {
                lemma_found_old_snoc(prefix, post_g, pre.cutoff);
            }
            k = k + 1;
        }
        proof {
            assert(posts@.subrange(0, posts@.len() as int) =~= posts@);
        }
        if found_old {
            self.done = true;
        } else if !accepted_any {
            self.done = true;
        } else {
            proof {
                lemma_count_pos_last_some(posts@, pre.cutoff);
            }
            match last_id {
                Some(id) => {
                    let stalled = match &self.max_id {
                        Some(m) => *m == id,
                        None => false,
                    };
                    if stalled {
                        self.done = true;
                    } else {
                        self.max_id = Some(id);
                    }
                },
                None => {
                    // impossible: an accepted post always leaves a cursor
                    proof {
                        assert(false);
                    }
                },
            }
        }
    }

    /// The accumulated results, in arrival order.  Every result is
    /// well-formed, belongs to this search's platform, and is no older
    /// than the cutoff.
    pub fn into_results(self) -> (r: Vec<SearchResult>)
        requires
            self.wf(),
        ensures
            r@ == self.results@,
            forall|i: int|
                0 <= i < r@.len() ==> {
                    &&& (#[trigger] r@[i]).wf()
                    &&& r@[i].platform == self.platform
                    &&& r@[i].created_at >= self.cutoff
                },
    {
        self.results
    }
}

// ---------------------------------------------------------------------------
// URL construction and instance normalization
// ---------------------------------------------------------------------------

/// The normalized form of an instance URL: surrounding whitespace
/// removed, `https://` prepended when no scheme is given, trailing
/// slashes removed.
pub open spec fn spec_normalized_instance_url(raw: Seq<char>) -> Seq<char> {
    let t = spec_trimmed(raw);
    if spec_has_prefix(t, "http://"@) || spec_has_prefix(t, "https://"@) {
        spec_strip_trailing(t, '/')
    } else {
        "https://"@ + spec_strip_trailing(t, '/')
    }
}

/// Normalize an instance URL for use as a request base.
pub fn normalize_instance_url(raw: &str) -> (r: String)
    ensures
        r@ == spec_normalized_instance_url(raw@),
{
    let t = trim_text(raw);
    let stripped = strip_trailing_char(t.as_str(), '/');
    if has_prefix(t.as_str(), "http://") || has_prefix(t.as_str(), "https://") {
        stripped
    } else {
        let mut out = String::new();
        out.append("https://");
        out.append(stripped.as_str());
        out
    }
}

/// The account lookup URL: a remote-resolving search for at most one
/// account matching the handle.
pub open spec fn spec_account_search_url(instance: Seq<char>, query: Seq<char>) -> Seq<char> {
    instance + "/api/v2/search?q="@ + spec_url_encoded(query)
        + "&type=accounts&resolve=true&limit=1"@
}

/// The first-page URL of an account's statuses.
pub open spec fn spec_user_timeline_url(instance: Seq<char>, user_id: Seq<char>) -> Seq<char> {
    instance + "/api/v1/accounts/"@ + user_id + "/statuses?limit=40"@
}

/// The first-page URL of a hashtag timeline.
pub open spec fn spec_tag_timeline_url(instance: Seq<char>, tag: Seq<char>) -> Seq<char> {
    instance + "/api/v1/timelines/tag/"@ + tag + "?limit=40"@
}

fn account_search_url(instance: &str, query: &str) -> (r: String)
    ensures
        r@ == spec_account_search_url(instance@, query@),
{
    let mut out = String::new();
    out.append(instance);
    out.append("/api/v2/search?q=");
    let enc = url_encode(query);
    out.append(enc.as_str());
    out.append("&type=accounts&resolve=true&limit=1");
    proof {
        assert(out@ =~= spec_account_search_url(instance@, query@));
    }
    out
}

fn user_timeline_url(instance: &str, user_id: &str) -> (r: String)
    ensures
        r@ == spec_user_timeline_url(instance@, user_id@),
{
    let mut out = String::new();
    out.append(instance);
    out.append("/api/v1/accounts/");
    out.append(user_id);
    out.append("/statuses?limit=40");
    proof {
        assert(out@ =~= spec_user_timeline_url(instance@, user_id@));
    }
    out
}

fn tag_timeline_url(instance: &str, tag: &str) -> (r: String)
    ensures
        r@ == spec_tag_timeline_url(instance@, tag@),
{
    let mut out = String::new();
    out.append(instance);
    out.append("/api/v1/timelines/tag/");
    out.append(tag);
    out.append("?limit=40");
    proof {
        assert(out@ =~= spec_tag_timeline_url(instance@, tag@));
    }
    out
}

// ---------------------------------------------------------------------------
// Handle resolution
// ---------------------------------------------------------------------------

/// A user search waiting for its handle to resolve to an account id.  The
/// caller fetches `request_url` with `bearer_token` and hands the decoded
/// account ids to `on_accounts`.
pub struct AccountResolution {
    pub platform: Platform,
    pub instance_url: String,
    pub access_token: String,
    pub cutoff: i64,
    pub query: String,
    pub search_url: String,
}

impl AccountResolution {
    /// The account lookup URL to fetch.
    pub fn request_url(&self) -> (r: &str)
        ensures
            r@ == self.search_url@,
    {
        self.search_url.as_str()
    }

    /// The bearer token to authorize the fetch with.
    pub fn bearer_token(&self) -> (r: &str)
        ensures
            r@ == self.access_token@,
    {
        self.access_token.as_str()
    }

    /// Resolve the fetched account ids.  No account means the user does
    /// not exist or is not federated: the search fails with a not-found
    /// error naming the query and the instance.  Otherwise pagination
    /// starts over the first account's statuses.
    pub fn on_accounts(self, account_ids: &Vec<String>) -> (r: Result<
        TimelineSearch,
        SearchError,
    >)
        ensures
            (account_ids@.len() > 0) <==> r is Ok,
            account_ids@.len() == 0 <==> (r matches Err(e) && (e matches
                SearchError::UserNotFound { platform, query, instance } && (platform
                == self.platform && query@ == self.query@
                && instance@ == self.instance_url@))),
            r matches Ok(s) ==> {
                &&& s.wf()
                &&& s.platform == self.platform
                &&& s.instance_url@ == self.instance_url@
                &&& s.access_token@ == self.access_token@
                &&& s.cutoff == self.cutoff
                &&& s.base_url@ == spec_user_timeline_url(
                    self.instance_url@,
                    account_ids@[0]@,
                )
                &&& s.max_id is None
                &&& s.pages_fetched == 0
                &&& !s.done
                &&& s.results@.len() == 0
            },
    {
        if account_ids.len() == 0 {
            return Err(
                SearchError::UserNotFound {
                    platform: self.platform,
                    query: self.query,
                    instance: self.instance_url,
                },
            );
        }
        let base_url = user_timeline_url(self.instance_url.as_str(), account_ids[0].as_str());
        Ok(
            TimelineSearch {
                platform: self.platform,
                instance_url: self.instance_url,
                access_token: self.access_token,
                cutoff: self.cutoff,
                base_url,
                max_id: None,
                pages_fetched: 0,
                done: false,
                results: Vec::new(),
            },
        )
    }
}

/// How a fresh timeline search over `base` looks.
pub open spec fn spec_fresh_search(
    s: TimelineSearch,
    platform: Platform,
    instance: Seq<char>,
    token: Seq<char>,
    cutoff: i64,
    base: Seq<char>,
) -> bool {
    &&& s.wf()
    &&& s.platform == platform
    &&& s.instance_url@ == instance
    &&& s.access_token@ == token
    &&& s.cutoff == cutoff
    &&& s.base_url@ == base
    &&& s.max_id is None
    &&& s.pages_fetched == 0
    &&& !s.done
    &&& s.results@.len() == 0
}

// ---------------------------------------------------------------------------
// The two Mastodon-compatible services
// ---------------------------------------------------------------------------

/// Start a user search: require a token, strip the leading `@` from the
/// handle, fix the cutoff, and build the account lookup.
fn start_user_search(
    platform: Platform,
    instance_url: &String,
    access_token: &Option<String>,
    username: &str,
    days_back: u32,
    now: Timestamp,
) -> (r: Result<AccountResolution, SearchError>)
    requires
        now.wf(),
    ensures
        (spec_opt_nonempty(*access_token) is Some) <==> r is Ok,
        (spec_opt_nonempty(*access_token) is None) <==> (r matches Err(e) && e matches
            SearchError::AuthenticationRequired { platform: p } && p == platform),
        r matches Ok(a) ==> {
            &&& a.platform == platform
            &&& a.instance_url@ == instance_url@
            &&& spec_opt_nonempty(*access_token) matches Some(t) && a.access_token@ == t
            &&& a.cutoff == spec_cutoff(now, days_back)
            &&& a.query@ == spec_strip_leading(username@, '@')
            &&& a.search_url@ == spec_account_search_url(
                instance_url@,
                spec_strip_leading(username@, '@'),
            )
        },
{
    let token = match access_token {
        Some(t) => {
            if t.as_str().is_empty() {
                return Err(SearchError::AuthenticationRequired { platform });
            }
            t.clone()
        },
        None => {
            return Err(SearchError::AuthenticationRequired { platform });
        },
    };
    let query = strip_leading_char(username, '@');
    let cutoff = cutoff_timestamp(now, days_back);
    let search_url = account_search_url(instance_url.as_str(), query.as_str());
    Ok(
        AccountResolution {
            platform,
            instance_url: instance_url.clone(),
            access_token: token,
            cutoff,
            query,
            search_url,
        },
    )
}

/// Start a hashtag search: require a token, strip the leading `#`, fix
/// the cutoff, and point pagination at the tag timeline.
fn start_hashtag_search(
    platform: Platform,
    instance_url: &String,
    access_token: &Option<String>,
    hashtag: &str,
    days_back: u32,
    now: Timestamp,
) -> (r: Result<TimelineSearch, SearchError>)
    requires
        now.wf(),
    ensures
        (spec_opt_nonempty(*access_token) is Some) <==> r is Ok,
        (spec_opt_nonempty(*access_token) is None) <==> (r matches Err(e) && e matches
            SearchError::AuthenticationRequired { platform: p } && p == platform),
        r matches Ok(s) ==> (spec_opt_nonempty(*access_token) matches Some(t)
            && spec_fresh_search(
            s,
            platform,
            instance_url@,
            t,
            spec_cutoff(now, days_back),
            spec_tag_timeline_url(instance_url@, spec_strip_leading(hashtag@, '#')),
        )),
{
    let token = match access_token {
        Some(t) => {
            if t.as_str().is_empty() {
                return Err(SearchError::AuthenticationRequired { platform });
            }
            t.clone()
        },
        None => {
            return Err(SearchError::AuthenticationRequired { platform });
        },
    };
    let tag = strip_leading_char(hashtag, '#');
    let cutoff = cutoff_timestamp(now, days_back);
    let base_url = tag_timeline_url(instance_url.as_str(), tag.as_str());
    Ok(
        TimelineSearch {
            platform,
            instance_url: instance_url.clone(),
            access_token: token,
            cutoff,
            base_url,
            max_id: None,
            pages_fetched: 0,
            done: false,
            results: Vec::new(),
        },
    )
}

/// The start of a timeline search: a user search must resolve its handle
/// first; a hashtag search paginates at once.
pub enum TimelineStart {
    User(AccountResolution),
    Hashtag(TimelineSearch),
}

/// The Mastodon client: instance, token and enabled flag from the
/// settings.  Transport is the caller's; every decision is made here.
pub struct MastodonService {
    pub instance_url: String,
    pub access_token: Option<String>,
    pub enabled: bool,
}

impl MastodonService {
    /// Build the client from the settings: the instance URL is
    /// normalized, token and enabled flag are carried over.
    pub fn new(settings: &AppSettings) -> (r: Self)
        ensures
            r.instance_url@ == spec_normalized_instance_url(settings.api.mastodon.instance_url@),
            r.access_token == settings.api.mastodon.access_token,
            r.enabled == settings.api.mastodon.enabled,
    {
        Self {
            instance_url: normalize_instance_url(settings.api.mastodon.instance_url.as_str()),
            access_token: settings.api.mastodon.access_token.clone(),
            enabled: settings.api.mastodon.enabled,
        }
    }

    /// This client's platform tag.
    pub fn platform(&self) -> (r: Platform)
        ensures
            r == Platform::Mastodon,
    {
        Platform::Mastodon
    }

    /// Whether a non-empty access token is held.
    pub fn is_authenticated(&self) -> (r: bool)
        ensures
            r == (spec_opt_nonempty(self.access_token) is Some),
    {
        match &self.access_token {
            Some(t) => !t.as_str().is_empty(),
            None => false,
        }
    }

    /// Whether the platform is enabled in the settings.
    pub fn is_enabled(&self) -> (r: bool)
        ensures
            r == self.enabled,
    {
        self.enabled
    }

    /// The normalized instance URL.
    pub fn instance_url(&self) -> (r: &str)
        ensures
            r@ == self.instance_url@,
    {
        self.instance_url.as_str()
    }

    /// Start a search of the given kind; `now` fixes the cutoff date for
    /// the whole search.
    pub fn start_search(&self, query: &str, search_type: SearchType, days_back: u32, now: Timestamp)
        -> (r: Result<TimelineStart, SearchError>)
        requires
            now.wf(),
        ensures
            (spec_opt_nonempty(self.access_token) is Some) <==> r is Ok,
            (spec_opt_nonempty(self.access_token) is None) <==> (r matches Err(e) && e matches
                SearchError::AuthenticationRequired { platform: p } && p == Platform::Mastodon),
            r matches Ok(TimelineStart::User(_)) ==> search_type == SearchType::User,
            r matches Ok(TimelineStart::Hashtag(_)) ==> search_type == SearchType::Hashtag,
            (r matches Ok(TimelineStart::User(a)) ==> {
                &&& a.platform == Platform::Mastodon
                &&& a.instance_url@ == self.instance_url@
                &&& (spec_opt_nonempty(self.access_token) matches Some(t) && a.access_token@
                    == t)
                &&& a.cutoff == spec_cutoff(now, days_back)
                &&& a.query@ == spec_strip_leading(query@, '@')
                &&& a.search_url@ == spec_account_search_url(
                    self.instance_url@,
                    spec_strip_leading(query@, '@'),
                )
            }),
            (r matches Ok(TimelineStart::Hashtag(s)) ==> (spec_opt_nonempty(self.access_token)
                matches Some(t) && spec_fresh_search(
                s,
                Platform::Mastodon,
                self.instance_url@,
                t,
                spec_cutoff(now, days_back),
                spec_tag_timeline_url(self.instance_url@, spec_strip_leading(query@, '#')),
            ))),
    {
        match search_type {
            SearchType::User => {
                let a = start_user_search(
                    Platform::Mastodon,
                    &self.instance_url,
                    &self.access_token,
                    query,
                    days_back,
                    now,
                )?;
                Ok(TimelineStart::User(a))
            },
            SearchType::Hashtag => {
                let s = start_hashtag_search(
                    Platform::Mastodon,
                    &self.instance_url,
                    &self.access_token,
                    query,
                    days_back,
                    now,
                )?;
                Ok(TimelineStart::Hashtag(s))
            },
        }
    }
}

/// The Pixelfed client: the same Mastodon-compatible REST contract,
/// tagged with the Pixelfed platform and fed from the Pixelfed settings.
pub struct PixelfedService {
    pub instance_url: String,
    pub access_token: Option<String>,
    pub enabled: bool,
}

impl PixelfedService {
    /// Build the client from the settings: the instance URL is
    /// normalized, token and enabled flag are carried over.
    pub fn new(settings: &AppSettings) -> (r: Self)
        ensures
            r.instance_url@ == spec_normalized_instance_url(settings.api.pixelfed.instance_url@),
            r.access_token == settings.api.pixelfed.access_token,
            r.enabled == settings.api.pixelfed.enabled,
    {
        Self {
            instance_url: normalize_instance_url(settings.api.pixelfed.instance_url.as_str()),
            access_token: settings.api.pixelfed.access_token.clone(),
            enabled: settings.api.pixelfed.enabled,
        }
    }

    /// This client's platform tag.
    pub fn platform(&self) -> (r: Platform)
        ensures
            r == Platform::Pixelfed,
    {
        Platform::Pixelfed
    }

    /// Whether a non-empty access token is held.
    pub fn is_authenticated(&self) -> (r: bool)
        ensures
            r == (spec_opt_nonempty(self.access_token) is Some),
    {
        match &self.access_token {
            Some(t) => !t.as_str().is_empty(),
            None => false,
        }
    }

    /// Whether the platform is enabled in the settings.
    pub fn is_enabled(&self) -> (r: bool)
        ensures
            r == self.enabled,
    {
        self.enabled
    }

    /// The normalized instance URL.
    pub fn instance_url(&self) -> (r: &str)
        ensures
            r@ == self.instance_url@,
    {
        self.instance_url.as_str()
    }

    /// Start a search of the given kind; `now` fixes the cutoff date for
    /// the whole search.
    pub fn start_search(&self, query: &str, search_type: SearchType, days_back: u32, now: Timestamp)
        -> (r: Result<TimelineStart, SearchError>)
        requires
            now.wf(),
        ensures
            (spec_opt_nonempty(self.access_token) is Some) <==> r is Ok,
            (spec_opt_nonempty(self.access_token) is None) <==> (r matches Err(e) && e matches
                SearchError::AuthenticationRequired { platform: p } && p == Platform::Pixelfed),
            r matches Ok(TimelineStart::User(_)) ==> search_type == SearchType::User,
            r matches Ok(TimelineStart::Hashtag(_)) ==> search_type == SearchType::Hashtag,
            (r matches Ok(TimelineStart::User(a)) ==> {
                &&& a.platform == Platform::Pixelfed
                &&& a.instance_url@ == self.instance_url@
                &&& (spec_opt_nonempty(self.access_token) matches Some(t) && a.access_token@
                    == t)
                &&& a.cutoff == spec_cutoff(now, days_back)
                &&& a.query@ == spec_strip_leading(query@, '@')
                &&& a.search_url@ == spec_account_search_url(
                    self.instance_url@,
                    spec_strip_leading(query@, '@'),
                )
            }),
            (r matches Ok(TimelineStart::Hashtag(s)) ==> (spec_opt_nonempty(self.access_token)
                matches Some(t) && spec_fresh_search(
                s,
                Platform::Pixelfed,
                self.instance_url@,
                t,
                spec_cutoff(now, days_back),
                spec_tag_timeline_url(self.instance_url@, spec_strip_leading(query@, '#')),
            ))),
    {
        match search_type {
            SearchType::User => {
                let a = start_user_search(
                    Platform::Pixelfed,
                    &self.instance_url,
                    &self.access_token,
                    query,
                    days_back,
                    now,
                )?;
                Ok(TimelineStart::User(a))
            },
            SearchType::Hashtag => {
                let s = start_hashtag_search(
                    Platform::Pixelfed,
                    &self.instance_url,
                    &self.access_token,
                    query,
                    days_back,
                    now,
                )?;
                Ok(TimelineStart::Hashtag(s))
            },
        }
    }
}

proof fn lemma_found_old_snoc(posts: Seq<PixelfedPost>, p: PixelfedPost, cutoff: i64)
    ensures
        spec_page_found_old(posts.push(p), cutoff) == (spec_page_found_old(posts, cutoff)
            || spec_item_old(p, cutoff)),
{
    if spec_page_found_old(posts, cutoff) {
        let w = choose|i: int| 0 <= i < posts.len() && spec_item_old(posts[i], cutoff);
        assert(posts.push(p)[w] == posts[w]);
        assert(spec_page_found_old(posts.push(p), cutoff));
    }
    if spec_item_old(p, cutoff) {
        assert(posts.push(p)[posts.len() as int] == p);
        assert(spec_page_found_old(posts.push(p), cutoff));
    }
    if spec_page_found_old(posts.push(p), cutoff) {
        let w = choose|i: int|
            0 <= i < posts.push(p).len() && spec_item_old(posts.push(p)[i], cutoff);
        if w < posts.len() {
            assert(posts.push(p)[w] == posts[w]);
            assert(spec_page_found_old(posts, cutoff));
        } else {
            assert(posts.push(p)[w] == p);
        }
    }
}

} // verus!
