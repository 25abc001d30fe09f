//! Federated social media search and bulk media download.
//!
//! The crate searches Pixelfed, Mastodon and Bluesky for posts by a user
//! handle or a hashtag within a time window, and plans the download of all
//! attached media under a concurrency bound.  All decision logic lives here,
//! verified; network transport is driven by a thin unverified shell that
//! feeds pages and download outcomes back into the state machines of this
//! crate.

pub mod bluesky;
pub mod download;
pub mod encoding;
pub mod errors;
pub mod models;
pub mod orchestrator;
pub mod text;
pub mod timeline;
pub mod timeutil;

use vstd::prelude::*;

verus! {

/// Clamp a days-back window to the accepted range of 1 to 3650 days.
///
/// An out-of-range request is normalized, never rejected: the search
/// proceeds with the nearest bound.
pub fn clamp_days_back(days_back: u32) -> (r: u32)
    ensures
        r == spec_clamp_days_back(days_back),
{
    if days_back < 1 {
        1
    } else if days_back > 3650 {
        3650
    } else {
        days_back
    }
}

/// The effective days-back window: the requested value held to [1, 3650].
pub open spec fn spec_clamp_days_back(days_back: u32) -> u32 {
    if days_back < 1 {
        1u32
    } else if days_back > 3650 {
        3650u32
    } else {
        days_back
    }
}

/// Law: for every requested window the effective value lies in
/// [1, 3650]; a request already in range is used as it is, one outside
/// the range becomes the nearer bound.  A search is never rejected for an
/// out-of-range window, only normalized.
pub proof fn lemma_days_back_normalized(days_back: u32)
    ensures
        1 <= spec_clamp_days_back(days_back) <= 3650,
        1 <= days_back <= 3650 ==> spec_clamp_days_back(days_back) == days_back,
        days_back < 1 ==> spec_clamp_days_back(days_back) == 1,
        days_back > 3650 ==> spec_clamp_days_back(days_back) == 3650,
{
}

/// Law: no search returns a post older than its cutoff date.  Both
/// pagination machines keep this as an invariant, so it holds of every
/// result they ever hand out.
pub proof fn lemma_no_result_older_than_cutoff(
    s: timeline::TimelineSearch,
    b: bluesky::BlueskySearch,
)
    requires
        s.wf(),
        b.wf(),
    ensures
        forall|i: int|
            0 <= i < s.results@.len() ==> (#[trigger] s.results@[i]).created_at >= s.cutoff,
        forall|i: int|
            0 <= i < b.results@.len() ==> (#[trigger] b.results@[i]).created_at >= b.cutoff,
{
}

/// Law: pagination fetches at most 120 pages, whatever the upstream API
/// returns.  A machine asks for a page only while `spec_wants_page`
/// holds, which requires fewer than 120 fetches so far, and its
/// invariant caps the count at 120.
pub proof fn lemma_pagination_bounded(s: timeline::TimelineSearch, b: bluesky::BlueskySearch)
    requires
        s.wf(),
        b.wf(),
    ensures
        s.pages_fetched <= timeline::MAX_PAGE_FETCHES,
        b.pages_fetched <= timeline::MAX_PAGE_FETCHES,
        s.spec_wants_page() ==> s.pages_fetched < timeline::MAX_PAGE_FETCHES,
        b.spec_wants_page() ==> b.pages_fetched < timeline::MAX_PAGE_FETCHES,
{
}

/// Law: in every well-formed result the media URL and media type lists
/// are parallel, and the media count is their shared length.
pub proof fn lemma_media_lists_parallel(r: models::SearchResult)
    requires
        r.wf(),
    ensures
        r.media_urls@.len() == r.media_types@.len(),
        r.media_count == r.media_urls@.len(),
{
}

} // verus!
