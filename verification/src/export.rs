//! The export engine: work partitioning and per-item success accounting.

use vstd::prelude::*;
use crate::args::ImageFormat;
use crate::group::{OutputMomentSpec, OutputRealmojiSpec};
use crate::parser::BerealBTSData;
use crate::text::{spec_join_path, join_path};
use crate::time::DateTime;

verus! {

/// Caption metadata attached to a converted image.
#[derive(Debug)]
pub struct ImageMetadata {
    pub caption: Option<String>,
    pub time_taken: DateTime,
}

impl Clone for ImageMetadata {
    fn clone(&self) -> (r: Self)
        ensures
            r == *self,
    {
        ImageMetadata {
            caption: match &self.caption {
                Some(c) => Some(c.clone()),
                None => None,
            },
            time_taken: self.time_taken,
        }
    }
}

/// Spec-level image of `ImageMetadata`.
pub struct MetadataModel {
    pub caption: Option<Seq<char>>,
    pub time_taken: DateTime,
}

impl View for ImageMetadata {
    type V = MetadataModel;

    open spec fn view(&self) -> MetadataModel {
        MetadataModel {
            caption: match self.caption {
                Some(c) => Some(c@),
                None => None,
            },
            time_taken: self.time_taken,
        }
    }
}

/// One low-level file operation of an export item.
#[derive(Debug)]
pub enum ExportJobSpec {
    ImageConvert {
        /// filename WITHOUT the extension
        output_file_name: String,
        /// image to convert
        original_image_path: String,
        output_format: ImageFormat,
        metadata: Option<ImageMetadata>,
    },
    Copy {
        /// where to copy to, WITHOUT file extension (taken from the original)
        output_file_name: String,
        /// where to copy from
        original_path: String,
    },
}

/// Spec-level image of `ExportJobSpec`.
pub enum JobModel {
    ImageConvert {
        output_file_name: Seq<char>,
        original_image_path: Seq<char>,
        output_format: ImageFormat,
        metadata: Option<MetadataModel>,
    },
    Copy { output_file_name: Seq<char>, original_path: Seq<char> },
}

impl View for ExportJobSpec {
    type V = JobModel;

    open spec fn view(&self) -> JobModel {
        match self {
            ExportJobSpec::ImageConvert { output_file_name, original_image_path, output_format, metadata } => {
                JobModel::ImageConvert {
                    output_file_name: output_file_name@,
                    original_image_path: original_image_path@,
                    output_format: *output_format,
                    metadata: match metadata {
                        Some(m) => Some(m@),
                        None => None,
                    },
                }
            },
            ExportJobSpec::Copy { output_file_name, original_path } => {
                JobModel::Copy {
                    output_file_name: output_file_name@,
                    original_path: original_path@,
                }
            },
        }
    }
}

/// The parameters one export run shares across all of its workers.
pub struct ExportParameters {
    pub input_path: String,
    pub image_format: ImageFormat,
    pub desc_prefix: String,
    pub desc_suffix: String,
    pub disable_metadata: bool,
}

/// The caption text actually written into metadata: an empty caption stays
/// empty, any other is wrapped in the configured prefix and suffix.
pub open spec fn spec_effective_caption(caption: Seq<char>, prefix: Seq<char>, suffix: Seq<char>) -> Seq<char> {
    if caption.len() == 0 {
        caption
    } else {
        prefix + caption + suffix
    }
}

/// The capability every exportable item offers: its jobs and its output
/// folder, both pure functions of the item and the shared inputs, stated by
/// the two spec methods.
pub trait ExportJobGenerator {
    type ParamExportsT;

    type ParamFolderT;

    /// The jobs this item expands into.
    spec fn spec_jobs(&self, inputs: &Self::ParamExportsT) -> Seq<JobModel>;

    /// The folder this item's outputs are written to.
    spec fn spec_output_folder(&self, inputs: &Self::ParamFolderT) -> Seq<char>;

    fn get_export_jobs(&self, inputs: &Self::ParamExportsT) -> (r: Vec<ExportJobSpec>)
        ensures
            r@.map_values(|j: ExportJobSpec| j@) == self.spec_jobs(inputs),
    ;

    fn get_output_folder(&self, inputs: &Self::ParamFolderT) -> (r: String)
        ensures
            r@ == self.spec_output_folder(inputs),
    ;
}

impl ExportJobGenerator for OutputMomentSpec {
    type ParamExportsT = ExportParameters;

    type ParamFolderT = String;

    open spec fn spec_jobs(&self, params: &ExportParameters) -> Seq<JobModel> {
        let meta = if params.disable_metadata {
            None
        } else {
            Some(
                MetadataModel {
                    caption: match self.moment.caption {
                        Some(v) => Some(
                            spec_effective_caption(v@, params.desc_prefix@, params.desc_suffix@),
                        ),
                        None => None,
                    },
                    time_taken: self.moment.naive_time_taken,
                },
            )
        };
        let base = seq![
            JobModel::ImageConvert {
                output_file_name: self.file_name_prefix@ + "_camera_front"@,
                original_image_path: spec_join_path(
                    params.input_path@,
                    self.moment.front_camera_path@,
                ),
                output_format: params.image_format,
                metadata: meta,
            },
            JobModel::ImageConvert {
                output_file_name: self.file_name_prefix@ + "_camera_back"@,
                original_image_path: spec_join_path(
                    params.input_path@,
                    self.moment.back_camera_path@,
                ),
                output_format: params.image_format,
                metadata: meta,
            },
        ];
        match self.moment.behind_the_scenes {
            Some(BerealBTSData::Video { path }) => base.push(
                JobModel::Copy {
                    output_file_name: self.file_name_prefix@ + "_BTS"@,
                    original_path: spec_join_path(params.input_path@, path@),
                },
            ),
            None => base,
        }
    }

    open spec fn spec_output_folder(&self, output_folder_path: &String) -> Seq<char> {
        spec_join_path(output_folder_path@, self.folder@)
    }

    fn get_export_jobs(&self, params: &ExportParameters) -> (r: Vec<ExportJobSpec>) {
        let metadata = ImageMetadata {
            caption: match &self.moment.caption {
                Some(v) => Some(
                    if v.as_str().is_empty() {
                        v.clone()
                    } else {
                        let mut c = params.desc_prefix.clone();
                        c.append(v.as_str());
                        c.append(params.desc_suffix.as_str());
                        c
                    },
                ),
                None => None,
            },
            time_taken: self.moment.naive_time_taken,
        };
        let meta = if params.disable_metadata {
            None
        } else {
            Some(metadata)
        };
        let meta2 = match &meta {
            Some(m) => Some(m.clone()),
            None => None,
        };
        let mut front_name = self.file_name_prefix.clone();
        front_name.append("_camera_front");
        let mut back_name = self.file_name_prefix.clone();
        back_name.append("_camera_back");
        let mut result: Vec<ExportJobSpec> = Vec::new();
        result.push(
            ExportJobSpec::ImageConvert {
                output_file_name: front_name,
                original_image_path: join_path(
                    params.input_path.as_str(),
                    self.moment.front_camera_path.as_str(),
                ),
                output_format: params.image_format,
                metadata: meta2,
            },
        );
        result.push(
            ExportJobSpec::ImageConvert {
                output_file_name: back_name,
                original_image_path: join_path(
                    params.input_path.as_str(),
                    self.moment.back_camera_path.as_str(),
                ),
                output_format: params.image_format,
                metadata: meta,
            },
        );
        match &self.moment.behind_the_scenes {
            Some(BerealBTSData::Video { path }) => {
                let mut bts_name = self.file_name_prefix.clone();
                bts_name.append("_BTS");
                result.push(
                    ExportJobSpec::Copy {
                        output_file_name: bts_name,
                        original_path: join_path(params.input_path.as_str(), path.as_str()),
                    },
                );
            },
            None => {},
        }
        proof {
            assert(result@.map_values(|j: ExportJobSpec| j@) =~~= self.spec_jobs(params));
        }
        result
    }

    fn get_output_folder(&self, output_folder_path: &String) -> (r: String) {
        join_path(output_folder_path.as_str(), self.folder.as_str())
    }
}

impl ExportJobGenerator for OutputRealmojiSpec {
    type ParamExportsT = ExportParameters;

    type ParamFolderT = String;

    open spec fn spec_jobs(&self, params: &ExportParameters) -> Seq<JobModel> {
        seq![
            JobModel::ImageConvert {
                output_file_name: self.file_name_prefix@,
                original_image_path: spec_join_path(params.input_path@, self.image_file@),
                output_format: params.image_format,
                metadata: None,
            },
        ]
    }

    open spec fn spec_output_folder(&self, output_folder: &String) -> Seq<char> {
        spec_join_path(output_folder@, self.folder@)
    }

    fn get_export_jobs(&self, params: &ExportParameters) -> (r: Vec<ExportJobSpec>) {
        let mut result: Vec<ExportJobSpec> = Vec::new();
        result.push(
            ExportJobSpec::ImageConvert {
                output_file_name: self.file_name_prefix.clone(),
                original_image_path: join_path(
                    params.input_path.as_str(),
                    self.image_file.as_str(),
                ),
                output_format: params.image_format,
                metadata: None,
            },
        );
        proof {
            assert(result@.map_values(|j: ExportJobSpec| j@) =~~= self.spec_jobs(params));
        }
        result
    }

    fn get_output_folder(&self, output_folder: &String) -> (r: String) {
        join_path(output_folder.as_str(), self.folder.as_str())
    }
}

/// The extension the written file carries for a target image format: the
/// format's own extension, or — when the bytes are kept — the source's
/// extension, with a placeholder when the source has none.
pub open spec fn spec_image_target_extension(format: ImageFormat, source_path: Seq<char>) -> Seq<
    char,
> {
    match format {
        ImageFormat::Jpeg => "jpeg"@,
        ImageFormat::Jpg => "jpg"@,
        ImageFormat::Png => "png"@,
        ImageFormat::Unchanged => match crate::text::spec_extension_of(source_path) {
            Some(e) => e,
            None => "unknown"@,
        },
    }
}

/// Resolve the extension the written image file carries.
pub fn image_target_extension(format: &ImageFormat, source_path: &str) -> (r: String)
    ensures
        r@ == spec_image_target_extension(*format, source_path@),
{
    match format {
        ImageFormat::Jpeg => "jpeg".to_owned(),
        ImageFormat::Jpg => "jpg".to_owned(),
        ImageFormat::Png => "png".to_owned(),
        ImageFormat::Unchanged => match crate::text::extension_of(source_path) {
            Some(e) => e,
            None => "unknown".to_owned(),
        },
    }
}

/// The full relative path a job writes to: the output folder joined with the
/// output file name carrying the resolved extension.
pub open spec fn spec_target_file_path(folder: Seq<char>, name: Seq<char>, ext: Seq<char>) -> Seq<
    char,
> {
    spec_join_path(folder, name + "."@ + ext)
}

/// Build the path a job writes to.
pub fn target_file_path(output_folder: &str, file_name_no_ext: &str, ext: &str) -> (r: String)
    ensures
        r@ == spec_target_file_path(output_folder@, file_name_no_ext@, ext@),
{
    let mut name = file_name_no_ext.to_owned();
    name.append(".");
    name.append(ext);
    proof {
        reveal_strlit(".");
        assert(name@ =~= file_name_no_ext@ + "."@ + ext@);
    }
    join_path(output_folder, name.as_str())
}

/// Where a copy job writes to: the output file name with the source's own
/// extension — a source without an extension cannot name its target, so the
/// job fails.
pub open spec fn spec_copy_target(
    original_path: Seq<char>,
    output_folder: Seq<char>,
    name: Seq<char>,
) -> Option<Seq<char>> {
    match crate::text::spec_extension_of(original_path) {
        Some(e) => Some(spec_target_file_path(output_folder, name, e)),
        None => None,
    }
}

/// Resolve the target path of a copy job, if the source has an extension.
pub fn copy_target_path(original_path: &str, output_folder: &str, output_file_name_no_ext: &str) -> (r:
    Option<String>)
    ensures
        r is Some <==> spec_copy_target(original_path@, output_folder@, output_file_name_no_ext@)
            is Some,
        r is Some ==> r->Some_0@ == spec_copy_target(
            original_path@,
            output_folder@,
            output_file_name_no_ext@,
        )->Some_0,
{
    match crate::text::extension_of(original_path) {
        Some(ext) => Some(target_file_path(output_folder, output_file_name_no_ext, ext.as_str())),
        None => None,
    }
}

/// Number of worker tasks for `cpus` execution units and a parallelism
/// percentage in 0..=100: `max(1, min(cpus, floor(percent/100 * cpus)))`.
pub open spec fn spec_worker_count(percent: int, cpus: int) -> int {
    let candidate = (percent * cpus) / 100;
    let capped = if candidate < cpus {
        candidate
    } else {
        cpus
    };
    if capped < 1 {
        1
    } else {
        capped
    }
}

/// Ceiling division, the size of a chunk that spreads `items` over `workers`.
pub open spec fn spec_chunk_size(items: int, workers: int) -> int
    recommends
        workers >= 1,
{
    (items + workers - 1) / workers
}

/// Effective worker count from the CPU count and the user's parallelism
/// percentage.
pub fn worker_count(paralelism_percent: u8, cpus: usize) -> (r: usize)
    requires
        paralelism_percent <= 100,
        cpus >= 1,
    ensures
        r == spec_worker_count(paralelism_percent as int, cpus as int),
        1 <= r <= cpus,
{
    let p = paralelism_percent as usize;
    // cpus * p / 100 without overflow: split cpus into hundreds and remainder.
    let q = cpus / 100;
    let rem = cpus % 100;
    proof {
        lemma_scaled_floor(cpus as int, p as int, q as int, rem as int);
        assert(rem * p <= 9900) by (nonlinear_arith)
            requires
                0 <= rem < 100 && 0 <= p <= 100,
        ;
    }
    let candidate = q * p + (rem * p) / 100;
    let capped = if candidate < cpus {
        candidate
    } else {
        cpus
    };
    if capped < 1 {
        1
    } else {
        capped
    }
}

/// `floor(c*p/100)` computed as `(c/100)*p + ((c%100)*p)/100`.
proof fn lemma_scaled_floor(c: int, p: int, q: int, rem: int)
    requires
        0 <= p <= 100,
        c >= 0,
        q == c / 100,
        rem == c % 100,
    ensures
        q * p + (rem * p) / 100 == (p * c) / 100,
        q * p + (rem * p) / 100 <= c,
{
    vstd::arithmetic::div_mod::lemma_fundamental_div_mod(c, 100);
    assert(p * c == rem * p + (q * p) * 100) by (nonlinear_arith)
        requires
            c == 100 * q + rem,
    ;
    assert((rem * p) / 100 + q * p == (rem * p + (q * p) * 100) / 100) by {
        vstd::arithmetic::div_mod::lemma_hoist_over_denominator(rem * p, q * p, 100);
    }
    assert(rem * p <= rem * 100) by (nonlinear_arith)
        requires
            0 <= rem && p <= 100,
    ;
    assert((rem * p) / 100 <= rem) by {
        vstd::arithmetic::div_mod::lemma_div_multiples_vanish(rem, 100);
        vstd::arithmetic::div_mod::lemma_div_is_ordered(rem * p, rem * 100, 100);
    }
    assert(q * p <= q * 100) by (nonlinear_arith)
        requires
            0 <= q && p <= 100,
    ;
}

/// Relies on num_cpus::get: the number of logical CPUs, documented to be at
/// least 1.
#[verifier::external_body]
fn detected_cpus() -> (r: usize)
    ensures
        1 <= r,
{
    num_cpus::get()
}

/// Chunk size for the machine this runs on: `ceil(work_items / w)` where `w`
/// is the worker count derived from the detected CPUs and the parallelism
/// percentage.
pub fn calculate_chunk_size(paralelism_percent: u8, work_items: usize) -> (r: usize)
    requires
        paralelism_percent <= 100,
    ensures
        exists|cpus: int|
            1 <= cpus && r == spec_chunk_size(
                work_items as int,
                spec_worker_count(paralelism_percent as int, cpus),
            ),
        work_items > 0 ==> r >= 1,
        work_items == 0 ==> r == 0,
{
    let cpus = detected_cpus();
    let workers = worker_count(paralelism_percent, cpus);
    let r = chunk_size_for(work_items, workers);
    proof {
        assert(1 <= cpus as int && r == spec_chunk_size(
            work_items as int,
            spec_worker_count(paralelism_percent as int, cpus as int),
        ));
    }
    r
}

/// Size of the contiguous chunk each worker receives: `ceil(items / workers)`;
/// zero when there is no work.
pub fn chunk_size_for(work_items: usize, workers: usize) -> (r: usize)
    requires
        workers >= 1,
    ensures
        r == spec_chunk_size(work_items as int, workers as int),
        work_items > 0 ==> r >= 1,
        work_items == 0 ==> r == 0,
{
    if work_items == 0 {
        proof {
            vstd::arithmetic::div_mod::lemma_basic_div(workers - 1, workers as int);
        }
        0
    } else {
        let r = (work_items - 1) / workers + 1;
        proof {
            vstd::arithmetic::div_mod::lemma_div_plus_one(work_items - 1, workers as int);
        }
        r
    }
}

/// Split the index range `0..len` into chunks of `chunk_size` (the last chunk
/// may be shorter). An empty input yields no chunks at all.
pub fn chunk_bounds(len: usize, chunk_size: usize) -> (r: Vec<(usize, usize)>)
    requires
        chunk_size >= 1 || len == 0,
    ensures
        len == 0 ==> r@.len() == 0,
        len > 0 ==> r@.len() == spec_chunk_size(len as int, chunk_size as int),
        forall|i: int|
            0 <= i < r@.len() ==> ((#[trigger] r@[i]).0 == i * chunk_size && r@[i].1
                == vstd::math::min(len as int, (i + 1) * chunk_size)),
{
    let mut bounds: Vec<(usize, usize)> = Vec::new();
    let mut start: usize = 0;
    proof {
        assert(0int * (chunk_size as int) == 0) by (nonlinear_arith);
    }
    while start < len
        invariant
            chunk_size >= 1 || len == 0,
            start <= len,
            start == vstd::math::min(len as int, bounds@.len() * chunk_size),
            forall|i: int|
                0 <= i < bounds@.len() ==> ((#[trigger] bounds@[i]).0 == i * chunk_size
                    && bounds@[i].1 == vstd::math::min(len as int, (i + 1) * chunk_size)),
            forall|i: int| 0 <= i < bounds@.len() ==> (#[trigger] bounds@[i]).0 < bounds@[i].1,
            len == 0 ==> bounds@.len() == 0,
        decreases len - start,
    {
        let end = if len - start > chunk_size {
            start + chunk_size
        } else {
            len
        };
        proof {
            let k = bounds@.len() as int;
            assert(start == k * chunk_size);
            assert((k + 1) * chunk_size == k * chunk_size + chunk_size) by (nonlinear_arith);
            assert(end == vstd::math::min(len as int, (k + 1) * chunk_size));
        }
        bounds.push((start, end));
        start = end;
    }
    proof {
        let k = bounds@.len() as int;
        let cs = chunk_size as int;
        let n = len as int;
        if len > 0 {
            // start == len and start == min(len, k*cs), so k*cs >= len; the
            // last pushed chunk began strictly below len, so (k-1)*cs < len.
            assert(k * cs >= n);
            assert(k >= 1);
            assert(bounds@[k - 1].0 == (k - 1) * cs);
            assert(bounds@[k - 1].0 < bounds@[k - 1].1 <= n);
            lemma_ceil_characterization(n, cs, k);
        }
    }
    bounds
}

/// `k` is `ceil(n/cs)` exactly when `(k-1)*cs < n <= k*cs`.
proof fn lemma_ceil_characterization(n: int, cs: int, k: int)
    requires
        cs >= 1,
        (k - 1) * cs < n,
        n <= k * cs,
    ensures
        k == spec_chunk_size(n, cs),
{
    let x = n + cs - 1;
    // (k-1)*cs < n means n >= (k-1)*cs + 1, so x >= k*cs, i.e. x = k*cs + r
    // with 0 <= r: then x/cs == k by the division characterization.
    assert((k - 1) * cs == k * cs - cs) by (nonlinear_arith);
    let r = x - k * cs;
    assert(0 <= r < cs);
    vstd::arithmetic::div_mod::lemma_fundamental_div_mod_converse_div(x, cs, k, r);
}

/// Total number of items covered by a list of chunk boundaries.
pub open spec fn total_span(bounds: Seq<(usize, usize)>) -> int
    decreases bounds.len(),
{
    if bounds.len() == 0 {
        0
    } else {
        total_span(bounds.drop_last()) + bounds.last().1 - bounds.last().0
    }
}

/// The chunk an item index belongs to.
pub open spec fn chunk_index_of(idx: int, chunk_size: int) -> int
    recommends
        chunk_size >= 1,
{
    idx / chunk_size
}

/// Every chunk of `chunk_bounds` lies inside `0..len`, consecutive chunks
/// meet exactly, and together they span every item exactly once: the chunk
/// sizes add up to `len`, and each index belongs to chunk `idx / chunk_size`
/// and to no other.
pub proof fn lemma_chunks_cover(bounds: Seq<(usize, usize)>, len: int, chunk_size: int)
    requires
        chunk_size >= 1,
        0 <= len,
        bounds.len() == if len == 0 {
            0int
        } else {
            spec_chunk_size(len, chunk_size)
        },
        forall|i: int|
            0 <= i < bounds.len() ==> ((#[trigger] bounds[i]).0 == i * chunk_size && bounds[i].1
                == vstd::math::min(len, (i + 1) * chunk_size)),
    ensures
        total_span(bounds) == len,
        forall|idx: int|
            #![trigger chunk_index_of(idx, chunk_size)]
            0 <= idx < len ==> (0 <= chunk_index_of(idx, chunk_size) < bounds.len() && bounds[
                chunk_index_of(idx, chunk_size)].0 <= idx < bounds[chunk_index_of(
                idx,
                chunk_size,
            )].1),
        forall|idx: int, i: int|
            #![trigger bounds[i], chunk_index_of(idx, chunk_size)]
            0 <= idx < len && 0 <= i < bounds.len() && i != chunk_index_of(idx, chunk_size) ==> !(
            bounds[i].0 <= idx < bounds[i].1),
{
    lemma_total_span_prefix(bounds, len, chunk_size, bounds.len() as int);
    if len > 0 {
        let k = bounds.len() as int;
        assert(k == spec_chunk_size(len, chunk_size));
        lemma_chunk_count_spans(len, chunk_size);
        assert(total_span(bounds.take(k)) == vstd::math::min(len, k * chunk_size));
        assert(bounds.take(k) =~= bounds);
    }
    assert forall|idx: int|
        #![trigger chunk_index_of(idx, chunk_size)]
        0 <= idx < len implies (0 <= chunk_index_of(idx, chunk_size) < bounds.len() && bounds[
        chunk_index_of(idx, chunk_size)].0 <= idx < bounds[chunk_index_of(idx, chunk_size)].1) by {
        let c = idx / chunk_size;
        vstd::arithmetic::div_mod::lemma_fundamental_div_mod(idx, chunk_size);
        vstd::arithmetic::div_mod::lemma_mod_bound(idx, chunk_size);
        assert(idx == chunk_size * c + idx % chunk_size);
        assert(chunk_size * c == c * chunk_size) by (nonlinear_arith);
        assert((c + 1) * chunk_size == c * chunk_size + chunk_size) by (nonlinear_arith);
        assert(c * chunk_size <= idx < (c + 1) * chunk_size);
        // c < bounds.len(): otherwise idx >= bounds.len()*chunk_size >= len.
        lemma_chunk_count_spans(len, chunk_size);
        if c >= bounds.len() {
            assert(c * chunk_size >= bounds.len() * chunk_size) by (nonlinear_arith)
                requires
                    c >= bounds.len() && chunk_size >= 1,
            ;
        }
        assert(0 <= c < bounds.len());
    }
    assert forall|idx: int, i: int|
        #![trigger bounds[i], chunk_index_of(idx, chunk_size)]
        0 <= idx < len && 0 <= i < bounds.len() && i != chunk_index_of(idx, chunk_size) implies !(
    bounds[i].0 <= idx < bounds[i].1) by {
        if bounds[i].0 <= idx < bounds[i].1 {
            assert(i * chunk_size <= idx < (i + 1) * chunk_size);
            assert((i + 1) * chunk_size == i * chunk_size + chunk_size) by (nonlinear_arith);
            vstd::arithmetic::div_mod::lemma_fundamental_div_mod_converse_div(
                idx,
                chunk_size,
                i,
                idx - i * chunk_size,
            );
        }
    }
}

/// The chunk count times the chunk size reaches `len`.
proof fn lemma_chunk_count_spans(len: int, chunk_size: int)
    requires
        chunk_size >= 1,
        len > 0,
    ensures
        spec_chunk_size(len, chunk_size) * chunk_size >= len,
{
    let k = spec_chunk_size(len, chunk_size);
    let x = len + chunk_size - 1;
    vstd::arithmetic::div_mod::lemma_fundamental_div_mod(x, chunk_size);
    vstd::arithmetic::div_mod::lemma_mod_bound(x, chunk_size);
    assert(x == k * chunk_size + x % chunk_size);
}

/// The first `j` chunks together cover `min(len, j*chunk_size)` items.
proof fn lemma_total_span_prefix(bounds: Seq<(usize, usize)>, len: int, chunk_size: int, j: int)
    requires
        chunk_size >= 1,
        0 <= len,
        0 <= j <= bounds.len(),
        bounds.len() == if len == 0 {
            0int
        } else {
            spec_chunk_size(len, chunk_size)
        },
        forall|i: int|
            0 <= i < bounds.len() ==> ((#[trigger] bounds[i]).0 == i * chunk_size && bounds[i].1
                == vstd::math::min(len, (i + 1) * chunk_size)),
    ensures
        total_span(bounds.take(j)) == vstd::math::min(len, j * chunk_size),
    decreases j,
{
    if j == 0 {
        assert(bounds.take(0) =~= Seq::empty());
    } else {
        lemma_total_span_prefix(bounds, len, chunk_size, j - 1);
        assert(bounds.take(j).drop_last() =~= bounds.take(j - 1));
        assert(bounds.take(j).last() == bounds[j - 1]);
        // chunk j-1 starts strictly below len: j-1 < ceil(len/chunk_size).
        let prev = (j - 1) * chunk_size;
        assert(j * chunk_size == (j - 1) * chunk_size + chunk_size) by (nonlinear_arith);
        lemma_start_below_len(len, chunk_size, j - 1);
        assert(prev < len);
    }
}

/// Chunks with an index below the chunk count start strictly below `len`.
proof fn lemma_start_below_len(len: int, chunk_size: int, i: int)
    requires
        chunk_size >= 1,
        len > 0,
        0 <= i < spec_chunk_size(len, chunk_size),
    ensures
        i * chunk_size < len,
{
    assert(i * chunk_size < len) by {
        if i * chunk_size >= len {
            // then ceil(len/chunk_size) <= i, against i < ceil(len/chunk_size)
            assert(len + chunk_size - 1 <= (i + 1) * chunk_size - 1) by (nonlinear_arith)
                requires
                    i * chunk_size >= len,
            ;
            vstd::arithmetic::div_mod::lemma_div_is_ordered(
                len + chunk_size - 1,
                (i + 1) * chunk_size - 1,
                chunk_size,
            );
            assert((i + 1) * chunk_size - 1 == i * chunk_size + (chunk_size - 1))
                by (nonlinear_arith);
            vstd::arithmetic::div_mod::lemma_fundamental_div_mod_converse_div(
                (i + 1) * chunk_size - 1,
                chunk_size,
                i,
                chunk_size - 1,
            );
        }
    }
}

/// An item is fully exported exactly when every one of its jobs succeeded.
pub open spec fn all_true(s: Seq<bool>) -> bool {
    forall|i: int| 0 <= i < s.len() ==> s[i]
}

/// Fold one item's job outcomes into the item's own outcome: success means
/// every job succeeded; an item with no jobs is vacuously successful.
pub fn item_success(job_outcomes: &Vec<bool>) -> (r: bool)
    ensures
        r == all_true(job_outcomes@),
{
    let mut i: usize = 0;
    while i < job_outcomes.len()
        invariant
            0 <= i <= job_outcomes@.len(),
            forall|j: int| 0 <= j < i ==> job_outcomes@[j],
        decreases job_outcomes@.len() - i,
    {
        if !job_outcomes[i] {
            return false;
        }
        i += 1;
    }
    true
}

/// Number of items whose every job succeeded.
pub open spec fn count_successful(s: Seq<Vec<bool>>) -> int
    decreases s.len(),
{
    if s.len() == 0 {
        0
    } else {
        count_successful(s.drop_last()) + if all_true(s.last()@) {
            1int
        } else {
            0int
        }
    }
}

/// Fold every item's job outcomes into the count of fully exported items.
pub fn fold_item_outcomes(job_outcomes: &Vec<Vec<bool>>) -> (r: usize)
    ensures
        r == count_successful(job_outcomes@),
        r <= job_outcomes@.len(),
{
    proof {
        lemma_count_successful_bound(job_outcomes@, job_outcomes@.len() as int);
    }
    let mut count: usize = 0;
    let mut i: usize = 0;
    while i < job_outcomes.len()
        invariant
            0 <= i <= job_outcomes@.len(),
            count == count_successful(job_outcomes@.take(i as int)),
            count <= i,
        decreases job_outcomes@.len() - i,
    {
        proof {
            assert(job_outcomes@.take(i + 1).drop_last() =~= job_outcomes@.take(i as int));
            assert(job_outcomes@.take(i + 1).last() == job_outcomes@[i as int]);
        }
        if item_success(&job_outcomes[i]) {
            count += 1;
        }
        i += 1;
    }
    proof {
        assert(job_outcomes@.take(job_outcomes@.len() as int) =~= job_outcomes@);
    }
    count
}

/// The count of fully exported items never exceeds the item count.
proof fn lemma_count_successful_bound(s: Seq<Vec<bool>>, j: int)
    requires
        0 <= j <= s.len(),
    ensures
        0 <= count_successful(s.take(j)) <= j,
    decreases j,
{
    if j == 0 {
        assert(s.take(0) =~= Seq::empty());
    } else {
        lemma_count_successful_bound(s, j - 1);
        assert(s.take(j).drop_last() =~= s.take(j - 1));
    }
}

/// An item with any failing job contributes nothing to the count of fully
/// exported items: removing it leaves the count unchanged. The jobs around
/// the failing one are still performed — only the item's own success is
/// withdrawn.
pub proof fn lemma_failing_item_not_counted(s: Seq<Vec<bool>>, i: int)
    requires
        0 <= i < s.len(),
        !all_true(s[i]@),
    ensures
        count_successful(s) == count_successful(s.remove(i)),
    decreases s.len(),
{
    if i == s.len() - 1 {
        assert(s.remove(i) =~= s.drop_last());
    } else {
        lemma_failing_item_not_counted(s.drop_last(), i);
        assert(s.remove(i).drop_last() =~= s.drop_last().remove(i));
        assert(s.remove(i).last() == s.last());
    }
}

/// The two states of the progress reporter: it keeps polling the shared
/// counters until every worker has finished, then stops for good.
pub enum ReporterState {
    Polling,
    Done,
}

/// One decision of the reporter loop: the reporter is done exactly when the
/// finished-worker counter has reached the total worker count. With zero
/// workers it is done immediately.
pub fn reporter_step(finished_workers: usize, total_workers: usize) -> (r: ReporterState)
    ensures
        r is Done <==> finished_workers == total_workers,
{
    if finished_workers == total_workers {
        ReporterState::Done
    } else {
        ReporterState::Polling
    }
}

} // verus!
