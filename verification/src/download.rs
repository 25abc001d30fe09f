//! The download pipeline's verified core: flattening result groups,
//! deriving the deterministic destination layout and task list, the
//! progress accounting, and the concurrency gauge that models the
//! semaphore bound.  The network transfer itself is the caller's; it
//! executes exactly the tasks planned here.

use vstd::prelude::*;

verus! {

use vstd::string::StrSliceExecFns;
use vstd::string::StringExecFns;

use crate::errors::DownloadError;
use crate::models::AppSettings;
use crate::models::Platform;
use crate::models::PlatformSearchResults;
use crate::models::SearchContext;
use crate::models::SearchResult;
use crate::models::SearchType;
use crate::models::spec_folder_prefix;
use crate::models::spec_platform_folder;
use crate::text::spec_decimal;
use crate::text::spec_padded_decimal;
use crate::text::spec_strip_trailing;
use crate::text::spec_url_extension;
use crate::text::strip_trailing_char;
use crate::text::u64_to_padded_string;
use crate::text::u64_to_string;
use crate::text::url_extension_or_jpg;
use crate::timeutil::Timestamp;
use crate::timeutil::format_date;
use crate::timeutil::format_time_of_day;
use crate::timeutil::spec_date_string;
use crate::timeutil::spec_time_of_day_string;

// ---------------------------------------------------------------------------
// Flattening
// ---------------------------------------------------------------------------

/// The results of the groups without an error, concatenated in group
/// order.  Groups with an error are dropped.
pub open spec fn spec_flattened(gs: Seq<PlatformSearchResults>) -> Seq<SearchResult>
    decreases gs.len(),
{
    if gs.len() == 0 {
        Seq::empty()
    } else if gs[0].error is None {
        gs[0].results@ + spec_flattened(gs.drop_first())
    } else {
        spec_flattened(gs.drop_first())
    }
}

proof fn lemma_flattened_snoc(gs: Seq<PlatformSearchResults>, g: PlatformSearchResults)
    ensures
        spec_flattened(gs.push(g)) == spec_flattened(gs) + (if g.error is None {
            g.results@
        } else {
            Seq::<SearchResult>::empty()
        }),
    decreases gs.len(),
{
    if gs.len() == 0 {
        assert(gs.push(g)[0] == g);
        assert(gs.push(g).drop_first() =~= Seq::<PlatformSearchResults>::empty());
        assert(spec_flattened(Seq::<PlatformSearchResults>::empty()) =~= Seq::<
            SearchResult,
        >::empty());
        assert(spec_flattened(gs) =~= Seq::<SearchResult>::empty());
        assert(spec_flattened(gs.push(g)) =~= spec_flattened(gs) + (if g.error is None {
            g.results@
        } else {
            Seq::<SearchResult>::empty()
        }));
    } else {
        assert(gs.push(g)[0] == gs[0]);
        assert(gs.push(g).drop_first() =~= gs.drop_first().push(g));
        lemma_flattened_snoc(gs.drop_first(), g);
        assert(spec_flattened(gs.push(g)) =~= spec_flattened(gs) + (if g.error is None {
            g.results@
        } else {
            Seq::<SearchResult>::empty()
        }));
    }
}

/// Concatenate the results of the error-free groups, in group order.
pub fn flatten_groups(groups: Vec<PlatformSearchResults>) -> (r: Vec<SearchResult>)
    ensures
        r@ == spec_flattened(groups@),
{
    let ghost orig = groups@;
    let mut groups = groups;
    let mut results: Vec<SearchResult> = Vec::new();
    proof {
        assert(orig.subrange(0, 0) =~= Seq::<PlatformSearchResults>::empty());
        assert(spec_flattened(Seq::<PlatformSearchResults>::empty()) =~= Seq::<
            SearchResult,
        >::empty());
        assert(groups@ =~= orig.skip(0));
    }
    while groups.len() > 0
        invariant
            groups@.len() <= orig.len(),
            groups@ == orig.skip(orig.len() - groups@.len()),
            results@ == spec_flattened(orig.subrange(0, orig.len() - groups@.len())),
        decreases groups@.len(),
    {
        let ghost k = orig.len() - groups@.len();
        let mut g = groups.remove(0);
        proof {
            assert(orig.skip(k as int)[0] == orig[k as int]);
            assert(g == orig[k as int]);
            assert(groups@ =~= orig.skip(k + 1));
            assert(orig.subrange(0, k as int).push(g) =~= orig.subrange(0, k + 1));
            lemma_flattened_snoc(orig.subrange(0, k as int), g);
        }
        if g.error.is_none() {
            let ghost rb = results@;
            results.append(&mut g.results);
            proof {
                assert(results@ =~= spec_flattened(orig.subrange(0, k + 1)));
            }
        } else {
            proof {
                assert(results@ + Seq::<SearchResult>::empty() =~= results@);
                assert(results@ =~= spec_flattened(orig.subrange(0, k + 1)));
            }
        }
    }
    proof {
        assert(orig.subrange(0, orig.len() as int) =~= orig);
    }
    results
}

/// The total number of media files across results: the sum of their
/// media URL counts, the denominator of the batch's progress.
pub open spec fn spec_total_media(rs: Seq<SearchResult>) -> nat
    decreases rs.len(),
{
    if rs.len() == 0 {
        0
    } else {
        rs[0].media_urls@.len() + spec_total_media(rs.drop_first())
    }
}

proof fn lemma_total_media_snoc(rs: Seq<SearchResult>, r: SearchResult)
    ensures
        spec_total_media(rs.push(r)) == spec_total_media(rs) + r.media_urls@.len(),
    decreases rs.len(),
{
    if rs.len() == 0 {
        assert(rs.push(r)[0] == r);
        assert(rs.push(r).drop_first() =~= Seq::<SearchResult>::empty());
        assert(spec_total_media(Seq::<SearchResult>::empty()) == 0);
        assert(spec_total_media(rs) == 0);
    } else {
        assert(rs.push(r)[0] == rs[0]);
        assert(rs.push(r).drop_first() =~= rs.drop_first().push(r));
        lemma_total_media_snoc(rs.drop_first(), r);
    }
}

// ---------------------------------------------------------------------------
// Filenames and destination paths
// ---------------------------------------------------------------------------

/// The file name of one media download: the post id, the 1-based media
/// ordinal zero-padded to three digits, and the URL's extension with
/// `jpg` as the fallback.
pub open spec fn spec_filename(post_id: Seq<char>, media_index: int, url: Seq<char>) -> Seq<char> {
    post_id + "_"@ + spec_padded_decimal(media_index + 1, 3) + "."@ + (
    match spec_url_extension(url) {
        Some(e) => e,
        None => "jpg"@,
    })
}

/// Build the file name of one media download.
pub fn generate_filename(post_id: &str, media_index: usize, url: &str) -> (r: String)
    requires
        media_index < usize::MAX,
    ensures
        r@ == spec_filename(post_id@, media_index as int, url@),
{
    let mut out = String::new();
    out.append(post_id);
    out.append("_");
    let ordinal = u64_to_padded_string((media_index + 1) as u64, 3);
    out.append(ordinal.as_str());
    out.append(".");
    let ext = url_extension_or_jpg(url);
    out.append(ext.as_str());
    proof {
        assert(out@ =~= spec_filename(post_id@, media_index as int, url@));
    }
    out
}

/// One planned media download, derived deterministically from a result.
#[derive(Clone, Debug)]
pub struct DownloadTask {
    pub platform: Platform,
    pub result_id: String,
    pub media_index: usize,
    pub url: String,
    pub dest_path: String,
}

/// How one task is derived from a result's media entry: the destination
/// joins the batch root, the platform folder, and the generated file
/// name.
pub open spec fn spec_is_task(
    t: DownloadTask,
    r: SearchResult,
    j: int,
    root: Seq<char>,
) -> bool {
    &&& t.platform == r.platform
    &&& t.result_id@ == r.id@
    &&& t.media_index == j
    &&& t.url@ == r.media_urls@[j]@
    &&& t.dest_path@ == root + "/"@ + spec_platform_folder(r.platform) + "/"@ + spec_filename(
        r.id@,
        j,
        r.media_urls@[j]@,
    )
}

/// How a task list is derived from results: one task per media entry,
/// result by result, in order.
pub open spec fn spec_tasks_rel(
    tasks: Seq<DownloadTask>,
    results: Seq<SearchResult>,
    root: Seq<char>,
) -> bool
    decreases results.len(),
{
    if results.len() == 0 {
        tasks.len() == 0
    } else {
        let m = results[0].media_urls@.len() as int;
        &&& tasks.len() >= m
        &&& forall|j: int| 0 <= j < m ==> spec_is_task(#[trigger] tasks[j], results[0], j, root)
        &&& spec_tasks_rel(tasks.skip(m), results.drop_first(), root)
    }
}

proof fn lemma_tasks_rel_snoc(
    tasks: Seq<DownloadTask>,
    results: Seq<SearchResult>,
    fresh: Seq<DownloadTask>,
    r: SearchResult,
    root: Seq<char>,
)
    requires
        spec_tasks_rel(tasks, results, root),
        fresh.len() == r.media_urls@.len(),
        forall|j: int| 0 <= j < fresh.len() ==> spec_is_task(#[trigger] fresh[j], r, j, root),
    ensures
        spec_tasks_rel(tasks + fresh, results.push(r), root),
    decreases results.len(),
{
    if results.len() == 0 {
        assert(tasks.len() == 0);
        assert(tasks + fresh =~= fresh);
        assert(results.push(r)[0] == r);
        assert(results.push(r).drop_first() =~= Seq::<SearchResult>::empty());
        let m = r.media_urls@.len() as int;
        assert((tasks + fresh).skip(m) =~= Seq::<DownloadTask>::empty());
        assert(spec_tasks_rel(Seq::<DownloadTask>::empty(), Seq::<SearchResult>::empty(), root));
        assert(spec_tasks_rel(tasks + fresh, results.push(r), root));
    } else {
        let m = results[0].media_urls@.len() as int;
        assert(results.push(r)[0] == results[0]);
        assert(results.push(r).drop_first() =~= results.drop_first().push(r));
        assert((tasks + fresh).skip(m) =~= tasks.skip(m) + fresh);
        lemma_tasks_rel_snoc(tasks.skip(m), results.drop_first(), fresh, r, root);
        assert(forall|j: int|
            0 <= j < m ==> spec_is_task(#[trigger] (tasks + fresh)[j], results[0], j, root)) by {
            assert(forall|j: int| 0 <= j < m ==> (tasks + fresh)[j] == tasks[j]);
        }
        assert(spec_tasks_rel(tasks + fresh, results.push(r), root));
    }
}

// ---------------------------------------------------------------------------
// The batch root
// ---------------------------------------------------------------------------

/// The folder name of one batch: kind and sanitized query with the
/// days-back window, or the generic fallback when no context is given,
/// followed by the start time.
pub open spec fn spec_batch_folder(ctx: Option<SearchContext>, ts: i64) -> Seq<char> {
    (match ctx {
        Some(c) => (match c.search_type {
            SearchType::User => "user-"@,
            SearchType::Hashtag => "hashtag-"@,
        }) + spec_folder_prefix(c.search_type, c.query@) + "-"@ + spec_decimal(
            c.days_back as int,
        ) + "d"@,
        None => "search-any"@,
    }) + "-"@ + spec_time_of_day_string(ts)
}

/// The root directory of one batch: the base path (trailing slashes
/// dropped), the date folder when organizing by date, and the batch
/// folder.
pub open spec fn spec_download_root(
    base: Seq<char>,
    organize_by_date: bool,
    ctx: Option<SearchContext>,
    ts: i64,
) -> Seq<char> {
    spec_strip_trailing(base, '/') + (if organize_by_date {
        "/"@ + spec_date_string(ts)
    } else {
        Seq::empty()
    }) + "/"@ + spec_batch_folder(ctx, ts)
}

// ---------------------------------------------------------------------------
// The plan
// ---------------------------------------------------------------------------

/// A fully planned batch: where to create directories, what to fetch,
/// and how many files the progress denominator counts.
pub struct DownloadPlan {
    pub root: String,
    pub tasks: Vec<DownloadTask>,
    pub total_files: usize,
    pub max_concurrent: usize,
}

/// The download pipeline, configured from the settings.
pub struct DownloadService {
    pub settings: AppSettings,
}

impl DownloadService {
    /// Keep the settings for planning.
    pub fn new(settings: AppSettings) -> (r: Self)
        ensures
            r.settings == settings,
    {
        Self { settings }
    }

    /// Plan one batch.  Groups with an error are dropped; a batch with
    /// no remaining result fails with `NoResults`, one with results but
    /// no media URL fails with `NoMedia`; every other batch is planned —
    /// those are the only two ways planning fails.  The plan lists one
    /// task per media entry under a deterministic root, and the
    /// concurrency cap is the configured value, at least 1.
    pub fn plan_downloads(
        &self,
        context: Option<&SearchContext>,
        groups: Vec<PlatformSearchResults>,
        now: Timestamp,
    ) -> (r: Result<DownloadPlan, DownloadError>)
        requires
            now.wf(),
            forall|i: int| 0 <= i < groups@.len() ==> (#[trigger] groups@[i]).wf(),
        ensures
            (spec_flattened(groups@).len() > 0 && spec_total_media(spec_flattened(groups@))
                > 0) <==> r is Ok,
            r matches Err(e) ==> (e is NoResults || e is NoMedia),
            (spec_flattened(groups@).len() == 0) <==> (r matches Err(e) && e is NoResults),
            (spec_flattened(groups@).len() > 0 && spec_total_media(spec_flattened(groups@))
                == 0) <==> (r matches Err(e) && e is NoMedia),
            r matches Ok(plan) ==> {
                &&& plan.root@ == spec_download_root(
                    self.settings.download.base_path@,
                    self.settings.download.organize_by_date,
                    match context {
                        Some(c) => Some(*c),
                        None => None,
                    },
                    now.secs,
                )
                &&& spec_tasks_rel(plan.tasks@, spec_flattened(groups@), plan.root@)
                &&& plan.total_files == plan.tasks@.len()
                &&& plan.total_files == spec_total_media(spec_flattened(groups@))
                &&& plan.total_files > 0
                &&& plan.max_concurrent == (if self.settings.download.max_concurrent < 1 {
                    1usize
                } else {
                    self.settings.download.max_concurrent as usize
                })
            },
    {
        let ghost gs = groups@;
        let ghost wf_held = forall|i: int| 0 <= i < gs.len() ==> (#[trigger] gs[i]).wf();
        proof {
            lemma_flattened_wf(gs);
        }
        let results = flatten_groups(groups);
        if results.len() == 0 {
            return Err(DownloadError::NoResults);
        }
        let root = self.build_root(context, now);
        let mut tasks: Vec<DownloadTask> = Vec::new();
        let mut i: usize = 0;
        proof {
            assert(results@.subrange(0, 0) =~= Seq::<SearchResult>::empty());
            assert(spec_total_media(Seq::<SearchResult>::empty()) == 0);
            assert(spec_tasks_rel(
                Seq::<DownloadTask>::empty(),
                Seq::<SearchResult>::empty(),
                root@,
            ));
        }
        while i < results.len()
            invariant
                0 <= i <= results@.len(),
                forall|n: int| 0 <= n < results@.len() ==> (#[trigger] results@[n]).wf(),
                spec_tasks_rel(tasks@, results@.subrange(0, i as int), root@),
                tasks@.len() == spec_total_media(results@.subrange(0, i as int)),
            decreases results@.len() - i,
        {
            let ghost prefix = results@.subrange(0, i as int);
            let ghost res_g = results@[i as int];
            let ghost base_len = tasks@.len();
            let ghost old_prefix = tasks@.subrange(0, base_len as int);
            proof {
                assert(old_prefix =~= tasks@);
            }
            let r = &results[i];
            let mut j: usize = 0;
            while j < r.media_urls.len()
                invariant
                    0 <= j <= r.media_urls@.len(),
                    *r == results@[i as int],
                    res_g == results@[i as int],
                    prefix == results@.subrange(0, i as int),
                    0 <= i < results@.len(),
                    forall|n: int| 0 <= n < results@.len() ==> (#[trigger] results@[n]).wf(),
                    tasks@.len() == base_len + j,
                    tasks@.subrange(0, base_len as int) == old_prefix,
                    forall|jj: int|
                        0 <= jj < j ==> spec_is_task(
                            #[trigger] tasks@[base_len + jj],
                            results@[i as int],
                            jj,
                            root@,
                        ),
                    spec_tasks_rel(old_prefix, results@.subrange(0, i as int), root@),
                    base_len == spec_total_media(results@.subrange(0, i as int)),
                decreases r.media_urls@.len() - j,
            {
                let ghost tasks_before = tasks@;
                let url = r.media_urls[j].clone();
                let filename = generate_filename(r.id.as_str(), j, url.as_str());
                let mut dest = root.clone();
                dest.append("/");
                dest.append(r.platform.folder_name());
                dest.append("/");
                dest.append(filename.as_str());
                let task = DownloadTask {
                    platform: r.platform,
                    result_id: r.id.clone(),
                    media_index: j,
                    url,
                    dest_path: dest,
                };
                proof {
                    assert(*r == res_g);
                    assert(j < res_g.media_urls@.len());
                    assert(url@ == res_g.media_urls@[j as int]@);
                    assert(filename@ == spec_filename(
                        res_g.id@,
                        j as int,
                        res_g.media_urls@[j as int]@,
                    ));
                    assert(task.dest_path@ =~= root@ + "/"@ + spec_platform_folder(
                        res_g.platform,
                    ) + "/"@ + spec_filename(res_g.id@, j as int, res_g.media_urls@[j as int]@));
                    assert(spec_is_task(task, res_g, j as int, root@));
                }
                tasks.push(task);
                proof {
                    assert(tasks@ == tasks_before.push(task));
                    assert(tasks@.subrange(0, base_len as int) =~= tasks_before.subrange(
                        0,
                        base_len as int,
                    ));
                    assert(forall|jj: int|
                        0 <= jj < j ==> #[trigger] tasks@[base_len + jj] == tasks_before[base_len
                            + jj]);
                    assert(tasks@[base_len + j] == task);
                }
                j = j + 1;
            }
            proof {
                assert(prefix.push(res_g) =~= results@.subrange(0, i + 1));
                lemma_total_media_snoc(prefix, res_g);
                let fresh = tasks@.skip(base_len as int);
                assert(fresh.len() == res_g.media_urls@.len());
                assert(forall|jj: int|
                    0 <= jj < fresh.len() ==> spec_is_task(
                        #[trigger] fresh[jj],
                        res_g,
                        jj,
                        root@,
                    )) by {
                    assert(forall|jj: int|
                        0 <= jj < fresh.len() ==> fresh[jj] == tasks@[base_len + jj]);
                }
                assert(tasks@.subrange(0, base_len as int) == old_prefix);
                lemma_tasks_rel_snoc(old_prefix, prefix, fresh, res_g, root@);
                assert(old_prefix + fresh =~= tasks@);
            }
            i = i + 1;
        }
        proof {
            assert(results@.subrange(0, results@.len() as int) =~= results@);
        }
        let total_files = tasks.len();
        if total_files == 0 {
            return Err(DownloadError::NoMedia);
        }
        let max_concurrent = if self.settings.download.max_concurrent < 1 {
            1
        } else {
            self.settings.download.max_concurrent as usize
        };
        Ok(DownloadPlan { root, tasks, total_files, max_concurrent })
    }

    /// Build the batch root path from the settings, the context and the
    /// start time.
    fn build_root(&self, context: Option<&SearchContext>, now: Timestamp) -> (r: String)
        requires
            now.wf(),
        ensures
            r@ == spec_download_root(
                self.settings.download.base_path@,
                self.settings.download.organize_by_date,
                match context {
                    Some(c) => Some(*c),
                    None => None,
                },
                now.secs,
            ),
    {
        let mut root = strip_trailing_char(self.settings.download.base_path.as_str(), '/');
        if self.settings.download.organize_by_date {
            root.append("/");
            let date = format_date(now);
            root.append(date.as_str());
        }
        root.append("/");
        match context {
            Some(c) => {
                match c.search_type {
                    SearchType::User => {
                        root.append("user-");
                    },
                    SearchType::Hashtag => {
                        root.append("hashtag-");
                    },
                }
                let prefix = c.get_folder_name();
                root.append(prefix.as_str());
                root.append("-");
                let days = u64_to_string(c.days_back as u64);
                root.append(days.as_str());
                root.append("d");
            },
            None => {
                root.append("search-any");
            },
        }
        root.append("-");
        let hms = format_time_of_day(now);
        root.append(hms.as_str());
        proof {
            assert(root@ =~= spec_download_root(
                self.settings.download.base_path@,
                self.settings.download.organize_by_date,
                match context {
                    Some(c) => Some(*c),
                    None => None,
                },
                now.secs,
            ));
        }
        root
    }
}

proof fn lemma_flattened_wf(gs: Seq<PlatformSearchResults>)
    requires
        forall|i: int| 0 <= i < gs.len() ==> (#[trigger] gs[i]).wf(),
    ensures
        forall|i: int|
            0 <= i < spec_flattened(gs).len() ==> (#[trigger] spec_flattened(gs)[i]).wf(),
    decreases gs.len(),
{
    if gs.len() > 0 {
        let tail = gs.drop_first();
        assert(forall|i: int| 0 <= i < tail.len() ==> (#[trigger] tail[i]).wf()) by {
            assert(forall|i: int| 0 <= i < tail.len() ==> tail[i] == gs[i + 1]);
        }
        lemma_flattened_wf(tail);
        let rest = spec_flattened(tail);
        let all = spec_flattened(gs);
        if gs[0].error is None {
            assert(all == gs[0].results@ + rest);
            assert forall|i: int| 0 <= i < all.len() implies (#[trigger] all[i]).wf() by {
                if i < gs[0].results@.len() {
                    assert(all[i] == gs[0].results@[i]);
                    assert(gs[0].wf());
                } else {
                    assert(all[i] == rest[i - gs[0].results@.len()]);
                }
            }
        } else {
            assert(all == rest);
        }
    }
}

// ---------------------------------------------------------------------------
// Progress accounting
// ---------------------------------------------------------------------------

/// The batch's shared progress state: how many tasks have finished, how
/// many of those succeeded, and the fixed denominator.
#[derive(Clone, Copy, Debug, PartialEq, Eq, Structural)]
pub struct ProgressTracker {
    pub finished: usize,
    pub succeeded: usize,
    pub total: usize,
}

impl ProgressTracker {
    /// Invariant: successes never exceed finished tasks, finished tasks
    /// never exceed the denominator.
    pub open spec fn wf(self) -> bool {
        self.succeeded <= self.finished <= self.total
    }

    /// Start a batch of `total` files with nothing finished.
    pub fn new(total: usize) -> (r: Self)
        ensures
            r.wf(),
            r.finished == 0,
            r.succeeded == 0,
            r.total == total,
    {
        Self { finished: 0, succeeded: 0, total }
    }

    /// Record one finished task.  The success count grows only on
    /// success and never decreases; both counters stay within the
    /// denominator.
    pub fn record(&mut self, success: bool)
        requires
            old(self).wf(),
            old(self).finished < old(self).total,
        ensures
            final(self).wf(),
            final(self).total == old(self).total,
            final(self).finished == old(self).finished + 1,
            final(self).succeeded == old(self).succeeded + (if success {
                1int
            } else {
                0int
            }),
            final(self).succeeded >= old(self).succeeded,
    {
        self.finished = self.finished + 1;
        if success {
            self.succeeded = self.succeeded + 1;
        }
    }

    /// The progress fraction reported after the last recorded task:
    /// successes over the denominator.
    pub fn fraction(&self) -> (r: (usize, usize))
        ensures
            r.0 == self.succeeded,
            r.1 == self.total,
    {
        (self.succeeded, self.total)
    }

    /// Whether every task of the batch has finished.
    pub fn is_finished(&self) -> (r: bool)
        ensures
            r == (self.finished == self.total),
    {
        self.finished == self.total
    }
}

/// Law: the number of completed files never exceeds the batch's total,
/// so every reported fraction lies in [0, 1].
pub proof fn lemma_progress_within_bounds(t: ProgressTracker)
    requires
        t.wf(),
    ensures
        t.succeeded <= t.total,
        t.finished <= t.total,
{
}

// ---------------------------------------------------------------------------
// The concurrency gauge
// ---------------------------------------------------------------------------

/// The model of the batch's counting semaphore: how many downloads are
/// in flight against the configured cap.  A permit must be acquired
/// before a transfer starts and is released when it ends, however it
/// ends.
#[derive(Clone, Copy, Debug, PartialEq, Eq, Structural)]
pub struct ConcurrencyGauge {
    pub active: usize,
    pub cap: usize,
}

impl ConcurrencyGauge {
    /// Invariant: in-flight transfers never exceed the cap.
    pub open spec fn wf(self) -> bool {
        self.active <= self.cap && self.cap >= 1
    }

    /// A gauge for `cap` simultaneous transfers.
    pub fn new(cap: usize) -> (r: Self)
        requires
            cap >= 1,
        ensures
            r.wf(),
            r.active == 0,
            r.cap == cap,
    {
        Self { active: 0, cap }
    }

    /// Take a permit if one is free.
    pub fn try_acquire(&mut self) -> (r: bool)
        requires
            old(self).wf(),
        ensures
            final(self).wf(),
            final(self).cap == old(self).cap,
            r ==> final(self).active == old(self).active + 1,
            !r ==> final(self).active == old(self).active && old(self).active == old(self).cap,
    {
        if self.active < self.cap {
            self.active = self.active + 1;
            true
        } else {
            false
        }
    }

    /// Return a permit.
    pub fn release(&mut self)
        requires
            old(self).wf(),
            old(self).active > 0,
        ensures
            final(self).wf(),
            final(self).cap == old(self).cap,
            final(self).active == old(self).active - 1,
    {
        self.active = self.active - 1;
    }
}

/// Law: under the gauge's invariant, at no point do more transfers hold
/// a permit than the configured cap.
pub proof fn lemma_concurrency_bounded(g: ConcurrencyGauge)
    requires
        g.wf(),
    ensures
        g.active <= g.cap,
{
}

} // verus!
