//! Deployment jobs: one per theme and locale, their progress through the layers of
//! the theme, and the aggregation of their results.
//!
//! A job's copying and the external build tool are run by the caller; every decision
//! along the way (which layer next, where it goes, when to stop, what the outcome is)
//! is made here.

use vstd::prelude::*;

use std::sync::atomic::{AtomicU64, Ordering};
use std::sync::Arc;
use std::time::Duration;

use crate::copier::saturated;
use crate::error::DeployError;
use crate::scanner::{FileSource, SourceView};
use crate::text::{join_path, path_join, str_eq};
use crate::theme::{LocaleCode, Theme, ThemeType};

verus! {

/// A deployment job: one theme in one locale. Jobs of one theme share it.
#[derive(Debug, Clone)]
pub struct DeployJob {
    /// The theme to deploy.
    pub theme: Arc<Theme>,
    /// The locale to deploy it for.
    pub locale: LocaleCode,
}

/// The outcome of a job.
#[derive(Debug)]
pub enum DeployStatus {
    /// The files were copied.
    Success,
    /// The job failed.
    Failed(DeployError),
    /// The run was cancelled.
    Cancelled,
    /// The job was handed to the external build tool, which succeeded.
    Delegated,
}

/// The result of a job.
#[derive(Debug)]
pub struct DeployResult {
    /// The job.
    pub job: DeployJob,
    /// Its outcome.
    pub status: DeployStatus,
    /// Number of files it copied.
    pub file_count: u64,
    /// How long it took.
    pub duration: Duration,
}

/// A counter shared by the workers of a run, padded to a whole 64-byte cache line so
/// that counters updated by different workers never share a line.
pub struct CacheAlignedAtomic(pub AtomicU64, [u64; 7]);

impl CacheAlignedAtomic {
    /// A counter starting at `val`.
    pub fn new(val: u64) -> Self {
        CacheAlignedAtomic(AtomicU64::new(val), [0u64; 7])
    }
}

/// The counters of a run: files copied, bytes copied, failed jobs.
pub struct DeployStats {
    /// Files copied by all jobs.
    pub files_copied: CacheAlignedAtomic,
    /// Bytes copied by all jobs.
    pub bytes_copied: CacheAlignedAtomic,
    /// Jobs that failed while copying.
    pub errors: CacheAlignedAtomic,
}

impl DeployStats {
    /// Counters at zero.
    pub fn new() -> Self {
        DeployStats {
            files_copied: CacheAlignedAtomic::new(0),
            bytes_copied: CacheAlignedAtomic::new(0),
            errors: CacheAlignedAtomic::new(0),
        }
    }
}

impl Default for DeployStats {
    fn default() -> Self {
        DeployStats::new()
    }
}

/// The output directory of a theme in a locale:
/// `root/pub/static/{area}/{vendor}/{name}/{locale}`.
pub open spec fn output_path_spec(root: Seq<char>, theme: Theme, locale: Seq<char>) -> Seq<char> {
    path_join(
        path_join(
            path_join(path_join(path_join(path_join(root, "pub"@), "static"@), theme.area.name_of()), theme.vendor@),
            theme.name@,
        ),
        locale,
    )
}

/// The output directory of `theme` in `locale` under `magento_root`.
pub fn output_path_for_theme(magento_root: &str, theme: &Theme, locale: &LocaleCode) -> (r: String)
    ensures
        r@ == output_path_spec(magento_root@, *theme, locale@),
{
    let p = join_path(magento_root, "pub");
    let p = join_path(p.as_str(), "static");
    let p = join_path(p.as_str(), theme.area.as_str());
    let p = join_path(p.as_str(), theme.vendor.as_str());
    let p = join_path(p.as_str(), theme.name.as_str());
    join_path(p.as_str(), locale.as_str())
}

/// Relies on `Arc::clone`: a new handle on the same theme.
#[verifier::external_body]
fn share_theme(t: &Arc<Theme>) -> (r: Arc<Theme>)
    ensures
        r == *t,
{
    Arc::clone(t)
}

/// The job at row `i`, column `j` of a matrix of `width` columns stored row by row.
pub open spec fn matrix_entry(jobs: Seq<DeployJob>, width: int, i: int, j: int) -> DeployJob {
    jobs[i * width + j]
}

/// Row `a` of a matrix ends before row `i` begins when `a < i`.
proof fn lemma_matrix_index(a: int, b: int, i: int, w: int)
    requires
        0 <= a < i,
        0 <= b < w,
    ensures
        0 <= a * w + b < i * w,
{
    assert(0 <= a * w + b < i * w) by (nonlinear_arith)
        requires
            0 <= a < i,
            0 <= b < w,
    ;
}

/// Every theme paired with every locale: the job of theme `i` and locale `j` stands at
/// `i * locales.len() + j`. The jobs of one theme share one copy of it.
pub fn job_matrix(themes: &[Theme], locales: &[LocaleCode]) -> (r: Vec<DeployJob>)
    requires
        themes@.len() * locales@.len() <= usize::MAX,
    ensures
        r@.len() == themes@.len() * locales@.len(),
        forall|i: int, j: int|
            0 <= i < themes@.len() && 0 <= j < locales@.len() ==> {
                let job = #[trigger] matrix_entry(r@, locales@.len() as int, i, j);
                *job.theme == themes@[i] && job.locale == locales@[j]
            },
{
    let w = locales.len();
    let mut jobs: Vec<DeployJob> = Vec::new();
    let mut i: usize = 0;
    while i < themes.len()
        invariant
            w == locales@.len(),
            i <= themes@.len(),
            themes@.len() * w <= usize::MAX,
            jobs@.len() == i * w,
            forall|a: int, b: int|
                0 <= a < i && 0 <= b < w ==> {
                    let job = #[trigger] matrix_entry(jobs@, w as int, a, b);
                    *job.theme == themes@[a] && job.locale == locales@[b]
                },
        decreases themes@.len() - i,
    {
        let shared = Arc::new(themes[i].clone());
        let ghost base = jobs@;
        assert((i as int) * w + w == (i + 1) * w) by (nonlinear_arith);
        assert((i + 1) * w <= themes@.len() * w) by (nonlinear_arith)
            requires
                i + 1 <= themes@.len(),
        ;
        let mut j: usize = 0;
        while j < w
            invariant
                w == locales@.len(),
                j <= w,
                i < themes@.len(),
                (i + 1) * w <= usize::MAX,
                i * w + w == (i + 1) * w,
                *shared == themes@[i as int],
                jobs@.len() == i * w + j,
                jobs@.subrange(0, i * w) == base,
                base.len() == i * w,
                forall|b: int| 0 <= b < j ==> {
                    let job = #[trigger] jobs@[i * w + b];
                    *job.theme == themes@[i as int] && job.locale == locales@[b]
                },
            decreases w - j,
        {
            let job = DeployJob { theme: share_theme(&shared), locale: locales[j].clone() };
            let ghost before = jobs@;
            jobs.push(job);
            assert(jobs@.subrange(0, i * w) =~= before.subrange(0, i * w));
            assert(jobs@[i * w + j] == job);
            j = j + 1;
        }
        assert forall|a: int, b: int| 0 <= a < i + 1 && 0 <= b < w implies {
            let job = #[trigger] matrix_entry(jobs@, w as int, a, b);
            *job.theme == themes@[a] && job.locale == locales@[b]
        } by {
            if a < i {
                lemma_matrix_index(a, b, i as int, w as int);
                assert(jobs@[a * w + b] == jobs@.subrange(0, i * w)[a * w + b]);
                assert(matrix_entry(base, w as int, a, b) == base[a * w + b]);
            } else {
                assert(a * w + b == i * w + b);
            }
        }
        i = i + 1;
    }
    jobs
}

/// The outcome counts as a success: copied or delegated.
pub open spec fn is_success(s: DeployStatus) -> bool {
    s is Success || s is Delegated
}

/// Gathers the results of a run: all of them, whether any succeeded (copied or
/// delegated), and whether any failed. Cancelled jobs count as neither.
pub fn collect_results(results: Vec<DeployResult>) -> (r: (Vec<DeployResult>, bool, bool))
    ensures
        r.0 == results,
        r.1 == exists|i: int| 0 <= i < results@.len() && is_success(#[trigger] results@[i].status),
        r.2 == exists|i: int| 0 <= i < results@.len() && (#[trigger] results@[i].status) is Failed,
{
    let mut has_success = false;
    let mut has_failure = false;
    let mut i: usize = 0;
    while i < results.len()
        invariant
            i <= results@.len(),
            has_success == exists|k: int| 0 <= k < i && is_success(#[trigger] results@[k].status),
            has_failure == exists|k: int| 0 <= k < i && (#[trigger] results@[k].status) is Failed,
        decreases results@.len() - i,
    {
        match &results[i].status {
            DeployStatus::Success => {
                has_success = true;
            },
            DeployStatus::Delegated => {
                has_success = true;
            },
            DeployStatus::Failed(_) => {
                has_failure = true;
            },
            DeployStatus::Cancelled => {},
        }
        i = i + 1;
    }
    (results, has_success, has_failure)
}

/// Exit status of a run cancelled before it completed.
pub const EXIT_INTERRUPTED: u8 = 130;

/// Exit status of a run in which nothing succeeded and something failed.
pub const EXIT_TOTAL_FAILURE: u8 = 2;

/// Exit status of a run in which some jobs succeeded and some failed.
pub const EXIT_PARTIAL_FAILURE: u8 = 1;

/// The exit status of a run: interrupted, total failure, partial failure, or success.
pub fn exit_status(cancelled: bool, has_success: bool, has_failure: bool) -> (r: u8)
    ensures
        r == (if cancelled {
            EXIT_INTERRUPTED
        } else if has_failure && !has_success {
            EXIT_TOTAL_FAILURE
        } else if has_failure {
            EXIT_PARTIAL_FAILURE
        } else {
            0
        }),
{
    if cancelled {
        EXIT_INTERRUPTED
    } else if has_failure && !has_success {
        EXIT_TOTAL_FAILURE
    } else if has_failure {
        EXIT_PARTIAL_FAILURE
    } else {
        0
    }
}

/// `t` is named by one of `filters`.
pub open spec fn is_selected(t: Theme, filters: Seq<String>) -> bool {
    exists|k: int| 0 <= k < filters.len() && (#[trigger] filters[k])@ == t.code_view()
}

/// The themes of `all` that `filters` names, in order; all of them without filters.
pub open spec fn selected_themes(all: Seq<Theme>, filters: Option<Vec<String>>) -> Seq<Theme>
    decreases all.len(),
{
    if all.len() == 0 {
        seq![]
    } else {
        let rest = selected_themes(all.drop_last(), filters);
        match filters {
            Some(f) => if is_selected(all.last(), f@) {
                rest.push(all.last())
            } else {
                rest
            },
            None => rest.push(all.last()),
        }
    }
}

/// Whether one of `filters` is the full name of `t`.
fn named_by(t: &Theme, filters: &Vec<String>) -> (r: bool)
    ensures
        r == is_selected(*t, filters@),
{
    let name = t.full_name();
    let mut k: usize = 0;
    while k < filters.len()
        invariant
            k <= filters@.len(),
            name@ == t.code_view(),
            forall|j: int| 0 <= j < k ==> (#[trigger] filters@[j])@ != t.code_view(),
        decreases filters@.len() - k,
    {
        if str_eq(filters[k].as_str(), name.as_str()) {
            return true;
        }
        k = k + 1;
    }
    false
}

/// The themes to deploy: those of `all` whose full name is among `filters`, or all
/// of them when there are no filters.
pub fn select_themes(all: &[Theme], filters: &Option<Vec<String>>) -> (r: Vec<Theme>)
    ensures
        r@ == selected_themes(all@, *filters),
{
    let mut out: Vec<Theme> = Vec::new();
    let mut i: usize = 0;
    while i < all.len()
        invariant
            i <= all@.len(),
            out@ == selected_themes(all@.subrange(0, i as int), *filters),
        decreases all@.len() - i,
    {
        assert(all@.subrange(0, i + 1).drop_last() =~= all@.subrange(0, i as int));
        let take = match filters {
            Some(f) => named_by(&all[i], f),
            None => true,
        };
        if take {
            out.push(all[i].clone());
        }
        i = i + 1;
    }
    assert(all@.subrange(0, i as int) =~= all@);
    out
}

/// Whether the job of `theme` is handed to the external build tool.
pub fn delegates(theme: &Theme) -> (r: bool)
    ensures
        r == (theme.theme_type == ThemeType::Luma),
{
    theme.theme_type == ThemeType::Luma
}

/// The external build tool under `magento_root`: `bin/magento`.
pub fn magento_bin(magento_root: &str) -> (r: String)
    ensures
        r@ == path_join(path_join(magento_root@, "bin"@), "magento"@),
{
    let b = join_path(magento_root, "bin");
    join_path(b.as_str(), "magento")
}

/// The arguments of the external build tool for a job:
/// `setup:static-content:deploy --area {area} --theme {Vendor/name} {locale}`.
pub fn delegation_args(theme: &Theme, locale: &LocaleCode) -> (r: Vec<String>)
    ensures
        r@.len() == 6,
        r@[0]@ == "setup:static-content:deploy"@,
        r@[1]@ == "--area"@,
        r@[2]@ == theme.area.name_of(),
        r@[3]@ == "--theme"@,
        r@[4]@ == theme.code_view(),
        r@[5]@ == locale@,
{
    vec![
        String::from_str("setup:static-content:deploy"),
        String::from_str("--area"),
        String::from_str(theme.area.as_str()),
        String::from_str("--theme"),
        theme.full_name(),
        locale.to_string(),
    ]
}

/// What the external build tool reported.
#[derive(Debug)]
pub struct ToolOutput {
    /// Whether it exited successfully.
    pub success: bool,
    /// Its exit code, if it exited with one.
    pub code: Option<i32>,
    /// What it wrote to its error stream.
    pub stderr: String,
}

/// The outcome of a delegated job from what running the tool gave: success is
/// `Delegated`; an unsuccessful exit fails with its code (-1 without one) and error
/// output; a tool that could not be started fails with that I/O error.
pub open spec fn delegated_status(result: Result<ToolOutput, std::io::Error>) -> DeployStatus {
    match result {
        Ok(o) => if o.success {
            DeployStatus::Delegated
        } else {
            DeployStatus::Failed(
                DeployError::MagentoFailed {
                    code: match o.code {
                        Some(c) => c,
                        None => -1i32,
                    },
                    stderr: o.stderr,
                },
            )
        },
        Err(e) => DeployStatus::Failed(DeployError::Io(e)),
    }
}

/// The outcome of a delegated job; see [`delegated_status`].
pub fn delegation_status(result: Result<ToolOutput, std::io::Error>) -> (r: DeployStatus)
    ensures
        r == delegated_status(result),
{
    match result {
        Ok(o) => {
            if o.success {
                DeployStatus::Delegated
            } else {
                let code = match o.code {
                    Some(c) => c,
                    None => -1,
                };
                DeployStatus::Failed(DeployError::MagentoFailed { code, stderr: o.stderr })
            }
        },
        Err(e) => DeployStatus::Failed(DeployError::Io(e)),
    }
}

/// The result of a job handed to the external build tool: its outcome, and no file
/// counted, since the tool does its own copying out of this library's sight.
pub fn delegated_result(result: Result<ToolOutput, std::io::Error>) -> (r: (DeployStatus, u64))
    ensures
        r == (delegated_status(result), 0u64),
{
    (delegation_status(result), 0)
}

/// One layer to copy: a source directory and where its files go.
#[derive(Debug)]
pub struct LayerCopy {
    /// The directory to copy from.
    pub src: String,
    /// The directory to copy into.
    pub dest: String,
}

/// The directory a layer is copied from and the one it is copied into: module layers
/// go to a subdirectory named after the module, the others to `output` itself.
pub open spec fn layer_target(output: Seq<char>, s: SourceView) -> (Seq<char>, Seq<char>) {
    match s {
        SourceView::ThemeWeb { path, .. } => (path, output),
        SourceView::Library { path } => (path, output),
        SourceView::VendorModule { module, path } => (
            path,
            if module.len() == 0 {
                output
            } else {
                path_join(output, module)
            },
        ),
        SourceView::ThemeModuleOverride { module, path, .. } => (
            path,
            if module.len() == 0 {
                output
            } else {
                path_join(output, module)
            },
        ),
    }
}

/// `output/module`, or `output` for an empty module name.
fn module_dest(output: &str, module: &String) -> (r: String)
    ensures
        r@ == (if module@.len() == 0 {
            output@
        } else {
            path_join(output@, module@)
        }),
{
    if module.as_str().unicode_len() == 0 {
        String::from_str(output)
    } else {
        join_path(output, module.as_str())
    }
}

/// The copy of one layer into the output directory `output`.
pub fn layer_copy(output: &str, source: &FileSource) -> (r: LayerCopy)
    ensures
        (r.src@, r.dest@) == layer_target(output@, source@),
{
    match source {
        FileSource::ThemeWeb { path, .. } => LayerCopy { src: path.clone(), dest: String::from_str(output) },
        FileSource::Library { path } => LayerCopy { src: path.clone(), dest: String::from_str(output) },
        FileSource::VendorModule { module, path } => LayerCopy {
            src: path.clone(),
            dest: module_dest(output, module),
        },
        FileSource::ThemeModuleOverride { module, path, .. } => LayerCopy {
            src: path.clone(),
            dest: module_dest(output, module),
        },
    }
}

/// The copies of all layers, in priority order, into the output directory `output`.
pub fn plan_layers(output: &str, sources: &Vec<FileSource>) -> (r: Vec<LayerCopy>)
    ensures
        r@.len() == sources@.len(),
        forall|k: int|
            0 <= k < r@.len() ==> ((#[trigger] r@[k]).src@, r@[k].dest@) == layer_target(
                output@,
                sources@[k]@,
            ),
{
    let mut out: Vec<LayerCopy> = Vec::new();
    let mut i: usize = 0;
    while i < sources.len()
        invariant
            i <= sources@.len(),
            out@.len() == i,
            forall|k: int|
                0 <= k < i ==> ((#[trigger] out@[k]).src@, out@[k].dest@) == layer_target(
                    output@,
                    sources@[k]@,
                ),
        decreases sources@.len() - i,
    {
        out.push(layer_copy(output, &sources[i]));
        i = i + 1;
    }
    out
}

/// The progress of a job that copies layers: the layers in priority order, the next
/// one to copy, the files copied so far, and the outcome once the job has ended.
#[derive(Debug)]
pub struct JobRun {
    /// The layers, highest priority first.
    pub layers: Vec<LayerCopy>,
    /// Index of the next layer to copy.
    pub next: usize,
    /// Files copied so far.
    pub files: u64,
    /// The outcome, once the job has ended.
    pub outcome: Option<DeployStatus>,
}

impl JobRun {
    /// The next layer is one of the layers, or just past the last.
    pub open spec fn wf(&self) -> bool {
        self.next <= self.layers@.len()
    }

    /// The run after looking at the cancellation flag before the next layer: an ended
    /// run stays as it is; otherwise cancellation ends it as cancelled, and having no
    /// layer left ends it as a success.
    pub open spec fn polled(self, cancelled: bool) -> JobRun {
        if self.outcome is Some {
            self
        } else if cancelled {
            JobRun { outcome: Some(DeployStatus::Cancelled), ..self }
        } else if self.next >= self.layers@.len() {
            JobRun { outcome: Some(DeployStatus::Success), ..self }
        } else {
            self
        }
    }

    /// The run after its current layer was copied with `result`: a copy adds its files
    /// (saturating) and moves on; a cancelled copy ends the run as cancelled; any other
    /// error ends it as failed with that error.
    pub open spec fn after_layer(self, result: Result<(u64, u64), DeployError>) -> JobRun {
        match result {
            Ok((files, _)) => JobRun {
                next: (self.next + 1) as usize,
                files: saturated((self.files + files) as nat),
                ..self
            },
            Err(DeployError::Cancelled) => JobRun { outcome: Some(DeployStatus::Cancelled), ..self },
            Err(e) => JobRun { outcome: Some(DeployStatus::Failed(e)), ..self },
        }
    }

    /// A run over `layers` that has copied nothing yet.
    pub fn new(layers: Vec<LayerCopy>) -> (r: JobRun)
        ensures
            r == (JobRun { layers, next: 0, files: 0, outcome: None }),
            r.wf(),
    {
        JobRun { layers, next: 0, files: 0, outcome: None }
    }

    /// Looks at the cancellation flag before the next layer, and gives that layer
    /// unless the run has ended.
    pub fn next_layer(&mut self, cancelled: bool) -> (r: Option<LayerCopy>)
        requires
            old(self).wf(),
        ensures
            *final(self) == old(self).polled(cancelled),
            final(self).wf(),
            r is Some <==> final(self).outcome is None,
            r matches Some(l) ==> l == old(self).layers@[old(self).next as int],
    {
        if self.outcome.is_some() {
            return None;
        }
        if cancelled {
            self.outcome = Some(DeployStatus::Cancelled);
            return None;
        }
        if self.next >= self.layers.len() {
            self.outcome = Some(DeployStatus::Success);
            return None;
        }
        let l = &self.layers[self.next];
        Some(LayerCopy { src: l.src.clone(), dest: l.dest.clone() })
    }

    /// Records the result of copying the current layer, and adds what it copied, or
    /// the failure, to the run's counters.
    pub fn layer_done(&mut self, result: Result<(u64, u64), DeployError>, stats: &DeployStats)
        requires
            old(self).wf(),
            old(self).outcome is None,
            old(self).next < old(self).layers@.len(),
        ensures
            *final(self) == old(self).after_layer(result),
            final(self).wf(),
    {
        match result {
            Ok((files, bytes)) => {
                self.files = if self.files > u64::MAX - files {
                    u64::MAX
                } else {
                    self.files + files
                };
                proof {
                    assert(self.next < self.layers.len());
                }
                self.next = self.next + 1;
                stats.files_copied.0.fetch_add(files, Ordering::Relaxed);
                stats.bytes_copied.0.fetch_add(bytes, Ordering::Relaxed);
            },
            Err(DeployError::Cancelled) => {
                self.outcome = Some(DeployStatus::Cancelled);
            },
            Err(e) => {
                stats.errors.0.fetch_add(1, Ordering::Relaxed);
                self.outcome = Some(DeployStatus::Failed(e));
            },
        }
    }

    /// Whether the run has ended.
    pub fn is_finished(&self) -> (r: bool)
        ensures
            r == self.outcome is Some,
    {
        self.outcome.is_some()
    }

    /// The outcome of an ended run and the number of files it copied.
    pub fn finish(self) -> (r: (DeployStatus, u64))
        requires
            self.outcome is Some,
        ensures
            r == (self.outcome->0, self.files),
    {
        let files = self.files;
        match self.outcome {
            Some(s) => (s, files),
            None => (DeployStatus::Success, files),
        }
    }
}

/// A job cancelled before its first layer ends cancelled, with no file copied; a job
/// that has ended is left as it is by a cancellation that comes later.
pub proof fn lemma_cancellation(layers: Vec<LayerCopy>, run: JobRun, cancelled: bool)
    ensures
        ({
            let p = (JobRun { layers, next: 0, files: 0, outcome: None }).polled(true);
            p.outcome == Some(DeployStatus::Cancelled) && p.files == 0 && p.next == 0
        }),
        run.outcome is Some ==> run.polled(cancelled) == run,
{
}

} // verus!
