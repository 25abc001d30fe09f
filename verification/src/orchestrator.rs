//! Search orchestration: decide per platform whether to run, sort each
//! platform's results newest-first, package successes and failures into
//! result groups, and derive the summary counts.  One platform's failure
//! never suppresses another's results: every outcome becomes a group.

use vstd::prelude::*;

verus! {

use vstd::multiset::Multiset;
use vstd::seq_lib::group_to_multiset_ensures;
use vstd::string::StringExecFns;

use crate::errors::SearchError;
use crate::errors::spec_search_error_message;
use crate::models::AppSettings;
use crate::models::Platform;
use crate::models::PlatformSearchResults;
use crate::models::SearchResult;
use crate::text::spec_decimal;
use crate::text::u64_to_string;

// ---------------------------------------------------------------------------
// Platform selection
// ---------------------------------------------------------------------------

/// Which platforms one search runs against.
#[derive(Clone, Copy, Debug, PartialEq, Eq, Structural)]
pub struct PlatformSelection {
    pub pixelfed: bool,
    pub mastodon: bool,
    pub bluesky: bool,
}

impl PlatformSelection {
    /// The default selection: each platform's enabled flag.
    pub fn from_settings(settings: &AppSettings) -> (r: Self)
        ensures
            r.pixelfed == settings.api.pixelfed.enabled,
            r.mastodon == settings.api.mastodon.enabled,
            r.bluesky == settings.api.bluesky.enabled,
    {
        Self {
            pixelfed: settings.api.pixelfed.enabled,
            mastodon: settings.api.mastodon.enabled,
            bluesky: settings.api.bluesky.enabled,
        }
    }

    /// Whether any platform is selected.
    pub fn any(&self) -> (r: bool)
        ensures
            r == (self.pixelfed || self.mastodon || self.bluesky),
    {
        self.pixelfed || self.mastodon || self.bluesky
    }
}

/// What the orchestrator does with one platform.
#[derive(Clone, Copy, Debug, PartialEq, Eq, Structural)]
pub enum PlatformDecision {
    /// Not selected by the caller: a skipped group, no call.
    Skip,
    /// Selected but disabled in the settings: a disabled group, no call.
    Disabled,
    /// Selected and enabled: the platform is searched.
    Run,
}

/// Decide what to do with one platform from the caller's selection and
/// the settings' enabled flag.
pub fn decide_platform(selected: bool, enabled: bool) -> (r: PlatformDecision)
    ensures
        r == (if !selected {
            PlatformDecision::Skip
        } else if !enabled {
            PlatformDecision::Disabled
        } else {
            PlatformDecision::Run
        }),
{
    if !selected {
        PlatformDecision::Skip
    } else if !enabled {
        PlatformDecision::Disabled
    } else {
        PlatformDecision::Run
    }
}

// ---------------------------------------------------------------------------
// Sorting by recency
// ---------------------------------------------------------------------------

/// Newest first: timestamps never increase along the sequence.
pub open spec fn spec_sorted_desc(s: Seq<SearchResult>) -> bool {
    forall|i: int, j: int| 0 <= i < j < s.len() ==> s[i].created_at >= s[j].created_at
}

/// Sort results newest-first.  The output holds exactly the input's
/// results (as a multiset), ordered by `created_at` descending.
pub fn sort_results_desc(results: Vec<SearchResult>) -> (r: Vec<SearchResult>)
    ensures
        spec_sorted_desc(r@),
        r@.to_multiset() == results@.to_multiset(),
        r@.len() == results@.len(),
        forall|x: SearchResult| r@.contains(x) <==> results@.contains(x),
{
    broadcast use group_to_multiset_ensures;

    let ghost orig = results@;
    let mut rest = results;
    let mut out: Vec<SearchResult> = Vec::new();
    proof {
        assert(out@.to_multiset().add(rest@.to_multiset()) =~= orig.to_multiset());
    }
    while rest.len() > 0
        invariant
            out@.to_multiset().add(rest@.to_multiset()) == orig.to_multiset(),
            out@.len() + rest@.len() == orig.len(),
            spec_sorted_desc(out@),
            forall|i: int, j: int|
                0 <= i < out@.len() && 0 <= j < rest@.len() ==> out@[i].created_at
                    >= rest@[j].created_at,
        decreases rest@.len(),
    {
        let mut best: usize = 0;
        let mut k: usize = 1;
        while k < rest.len()
            invariant
                rest@.len() > 0,
                0 <= best < rest@.len(),
                1 <= k <= rest@.len(),
                forall|j: int| 0 <= j < k ==> rest@[best as int].created_at >= rest@[j].created_at,
            decreases rest@.len() - k,
        {
            if rest[k].created_at > rest[best].created_at {
                best = k;
            }
            k = k + 1;
        }
        let ghost rest_before = rest@;
        let ghost out_before = out@;
        let x = rest.remove(best);
        out.push(x);
        proof {
            rest_before.to_multiset_ensures();
            out_before.to_multiset_ensures();
            assert(x == rest_before[best as int]);
            assert(rest_before.contains(x));
            assert(rest@ == rest_before.remove(best as int));
            assert(rest_before.remove(best as int).to_multiset() =~= rest_before.to_multiset()
                .remove(x));
            assert(rest@.to_multiset() == rest_before.to_multiset().remove(x));
            assert(out@ == out_before.push(x));
            assert(out_before.push(x).to_multiset() =~= out_before.to_multiset().insert(x));
            assert(out@.to_multiset() == out_before.to_multiset().insert(x));
            assert(out@.to_multiset().add(rest@.to_multiset()) =~= orig.to_multiset());
            // order: x is a maximum of what remained
            assert(forall|j: int|
                0 <= j < rest@.len() ==> x.created_at >= rest@[j].created_at) by {
                assert(forall|j: int|
                    0 <= j < rest_before.len() ==> x.created_at >= rest_before[j].created_at);
            }
            assert(forall|i: int|
                0 <= i < out_before.len() ==> out@[i] == out_before[i]);
            assert(out@[out@.len() - 1] == x);
        }
    }
    proof {
        assert(rest@.to_multiset() =~= Multiset::<SearchResult>::empty());
        assert(out@.to_multiset() =~= orig.to_multiset());
        assert(forall|x: SearchResult| out@.contains(x) <==> orig.contains(x)) by {
            assert(forall|x: SearchResult|
                #[trigger] out@.contains(x) ==> out@.to_multiset().count(x) > 0);
            assert(forall|x: SearchResult|
                #[trigger] orig.contains(x) ==> orig.to_multiset().count(x) > 0);
            assert(forall|x: SearchResult|
                out@.to_multiset().count(x) > 0 ==> #[trigger] out@.contains(x));
            assert(forall|x: SearchResult|
                orig.to_multiset().count(x) > 0 ==> #[trigger] orig.contains(x));
        }
    }
    out
}

// ---------------------------------------------------------------------------
// Group assembly
// ---------------------------------------------------------------------------

/// The group for a platform the caller did not select.
pub fn skipped_group(platform: Platform, label: String) -> (r: PlatformSearchResults)
    ensures
        r.wf(),
        r.platform == platform,
        r.label@ == label@,
        r.results@.len() == 0,
        r.error matches Some(e) && e@ == "Skipped (not selected)"@,
{
    let mut msg = String::new();
    msg.append("Skipped (not selected)");
    PlatformSearchResults::error(platform, label, msg)
}

/// The group for a selected platform that is disabled in the settings.
pub fn disabled_group(platform: Platform, label: String) -> (r: PlatformSearchResults)
    ensures
        r.wf(),
        r.platform == platform,
        r.label@ == label@,
        r.results@.len() == 0,
        r.error matches Some(e) && e@ == "Disabled in settings"@,
{
    let mut msg = String::new();
    msg.append("Disabled in settings");
    PlatformSearchResults::error(platform, label, msg)
}

/// Package one platform's search outcome as a group: a success is sorted
/// newest-first and carries no error; a failure carries the error's
/// rendered message and no results.
pub fn group_from_outcome(
    platform: Platform,
    label: String,
    outcome: Result<Vec<SearchResult>, SearchError>,
) -> (r: PlatformSearchResults)
    requires
        outcome matches Ok(res) ==> forall|i: int|
            0 <= i < res@.len() ==> (#[trigger] res@[i]).wf(),
    ensures
        r.wf(),
        r.platform == platform,
        r.label@ == label@,
        (r.error is None) == (outcome is Ok),
        outcome matches Ok(res) ==> {
            &&& spec_sorted_desc(r.results@)
            &&& r.results@.to_multiset() == res@.to_multiset()
            &&& r.results@.len() == res@.len()
        },
        outcome matches Err(e) ==> (r.error matches Some(m) && m@ == spec_search_error_message(
            e,
        ) && r.results@.len() == 0),
{
    match outcome {
        Ok(res) => {
            let ghost res_view = res@;
            let sorted = sort_results_desc(res);
            proof {
                assert(forall|i: int| 0 <= i < sorted@.len() ==> (#[trigger] sorted@[i]).wf())
                    by {
                    assert(forall|i: int|
                        0 <= i < sorted@.len() ==> sorted@.contains(#[trigger] sorted@[i]));
                    assert(forall|x: SearchResult|
                        res_view.contains(x) ==> exists|j: int|
                            0 <= j < res_view.len() && res_view[j] == x);
                }
            }
            PlatformSearchResults::success(platform, label, sorted)
        },
        Err(e) => {
            let msg = e.message();
            PlatformSearchResults::error(platform, label, msg)
        },
    }
}

/// Assemble the outcome of one search: exactly one group per platform,
/// in the fixed order Pixelfed, Mastodon, Bluesky.  Every platform's
/// outcome appears — a failure never suppresses another platform's
/// group — and the sequence is rebuilt wholesale on each search.
pub fn assemble_groups(
    pixelfed: PlatformSearchResults,
    mastodon: PlatformSearchResults,
    bluesky: PlatformSearchResults,
) -> (r: Vec<PlatformSearchResults>)
    requires
        pixelfed.platform == Platform::Pixelfed,
        mastodon.platform == Platform::Mastodon,
        bluesky.platform == Platform::Bluesky,
    ensures
        r@.len() == 3,
        r@[0] == pixelfed,
        r@[1] == mastodon,
        r@[2] == bluesky,
        r@[0].platform == Platform::Pixelfed,
        r@[1].platform == Platform::Mastodon,
        r@[2].platform == Platform::Bluesky,
{
    let mut groups: Vec<PlatformSearchResults> = Vec::new();
    groups.push(pixelfed);
    groups.push(mastodon);
    groups.push(bluesky);
    groups
}

// ---------------------------------------------------------------------------
// Summary
// ---------------------------------------------------------------------------

/// The total number of posts across groups.
pub open spec fn spec_total_posts(gs: Seq<PlatformSearchResults>) -> nat
    decreases gs.len(),
{
    if gs.len() == 0 {
        0
    } else {
        gs[0].results@.len() + spec_total_posts(gs.drop_first())
    }
}

/// How many groups carry results rather than an error.
pub open spec fn spec_success_count(gs: Seq<PlatformSearchResults>) -> nat
    decreases gs.len(),
{
    if gs.len() == 0 {
        0
    } else {
        (if gs[0].error is None {
            1nat
        } else {
            0nat
        }) + spec_success_count(gs.drop_first())
    }
}

/// How many groups carry an error.
pub open spec fn spec_error_count(gs: Seq<PlatformSearchResults>) -> nat
    decreases gs.len(),
{
    if gs.len() == 0 {
        0
    } else {
        (if gs[0].error is Some {
            1nat
        } else {
            0nat
        }) + spec_error_count(gs.drop_first())
    }
}

proof fn lemma_summary_snoc(gs: Seq<PlatformSearchResults>, g: PlatformSearchResults)
    ensures
        spec_total_posts(gs.push(g)) == spec_total_posts(gs) + g.results@.len(),
        spec_success_count(gs.push(g)) == spec_success_count(gs) + (if g.error is None {
            1nat
        } else {
            0nat
        }),
        spec_error_count(gs.push(g)) == spec_error_count(gs) + (if g.error is Some {
            1nat
        } else {
            0nat
        }),
    decreases gs.len(),
{
    if gs.len() == 0 {
        assert(gs.push(g)[0] == g);
        assert(gs.push(g).drop_first() =~= Seq::<PlatformSearchResults>::empty());
        assert(spec_total_posts(Seq::<PlatformSearchResults>::empty()) == 0);
        assert(spec_success_count(Seq::<PlatformSearchResults>::empty()) == 0);
        assert(spec_error_count(Seq::<PlatformSearchResults>::empty()) == 0);
        assert(spec_total_posts(gs) == 0);
        assert(spec_success_count(gs) == 0);
        assert(spec_error_count(gs) == 0);
    } else {
        assert(gs.push(g)[0] == gs[0]);
        assert(gs.push(g).drop_first() =~= gs.drop_first().push(g));
        lemma_summary_snoc(gs.drop_first(), g);
    }
}

/// The metadata the orchestrator reports after a search: counts only,
/// not part of the result groups.
#[derive(Clone, Copy, Debug, PartialEq, Eq, Structural)]
pub struct SearchSummary {
    pub total_posts: usize,
    pub successful_platforms: usize,
    pub error_platforms: usize,
}

/// Count posts, successful platforms and errored platforms across the
/// groups of one search.
pub fn summarize_groups(groups: &Vec<PlatformSearchResults>) -> (r: SearchSummary)
    requires
        spec_total_posts(groups@) <= usize::MAX,
        groups@.len() <= usize::MAX,
    ensures
        r.total_posts == spec_total_posts(groups@),
        r.successful_platforms == spec_success_count(groups@),
        r.error_platforms == spec_error_count(groups@),
{
    let mut total: usize = 0;
    let mut successes: usize = 0;
    let mut errors: usize = 0;
    let mut k: usize = 0;
    proof {
        assert(groups@.subrange(0, 0) =~= Seq::<PlatformSearchResults>::empty());
        assert(spec_total_posts(Seq::<PlatformSearchResults>::empty()) == 0);
        assert(spec_success_count(Seq::<PlatformSearchResults>::empty()) == 0);
        assert(spec_error_count(Seq::<PlatformSearchResults>::empty()) == 0);
    }
    while k < groups.len()
        invariant
            0 <= k <= groups@.len(),
            spec_total_posts(groups@) <= usize::MAX,
            groups@.len() <= usize::MAX,
            total == spec_total_posts(groups@.subrange(0, k as int)),
            successes == spec_success_count(groups@.subrange(0, k as int)),
            errors == spec_error_count(groups@.subrange(0, k as int)),
            successes + errors == k,
        decreases groups@.len() - k,
    {
        proof {
            assert(groups@.subrange(0, k as int).push(groups@[k as int]) =~= groups@.subrange(
                0,
                k + 1,
            ));
            lemma_summary_snoc(groups@.subrange(0, k as int), groups@[k as int]);
            lemma_total_posts_prefix(groups@, k as int);
        }
        let g = &groups[k];
        total = total + g.results.len();
        if g.error.is_none() {
            successes = successes + 1;
        } else {
            errors = errors + 1;
        }
        k = k + 1;
    }
    proof {
        assert(groups@.subrange(0, groups@.len() as int) =~= groups@);
    }
    SearchSummary { total_posts: total, successful_platforms: successes, error_platforms: errors }
}

proof fn lemma_total_posts_prefix(gs: Seq<PlatformSearchResults>, k: int)
    requires
        0 <= k < gs.len(),
    ensures
        spec_total_posts(gs.subrange(0, k + 1)) <= spec_total_posts(gs),
    decreases gs.len() - k,
{
    if k + 1 == gs.len() {
        assert(gs.subrange(0, k + 1) =~= gs);
    } else {
        lemma_total_posts_prefix(gs, k + 1);
        lemma_summary_snoc(gs.subrange(0, k + 1), gs[k + 1]);
        assert(gs.subrange(0, k + 1).push(gs[k + 1]) =~= gs.subrange(0, k + 2));
    }
}

/// The status line of a finished search: the total fetched, or a plain
/// no-results note.
pub fn status_message(summary: &SearchSummary) -> (r: String)
    ensures
        summary.total_posts > 0 ==> r@ == "Fetched "@ + spec_decimal(
            summary.total_posts as int,
        ) + " posts"@,
        summary.total_posts == 0 ==> r@ == "No posts found"@,
{
    let mut out = String::new();
    if summary.total_posts > 0 {
        out.append("Fetched ");
        let n = u64_to_string(summary.total_posts as u64);
        out.append(n.as_str());
        out.append(" posts");
        proof {
            assert(out@ =~= "Fetched "@ + spec_decimal(summary.total_posts as int) + " posts"@);
        }
    } else {
        out.append("No posts found");
    }
    out
}

} // verus!
