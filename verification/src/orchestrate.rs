//! Per-file orchestration decisions: which directory entries a batch run
//! takes, where each entry's output goes, and what remains to be done once
//! the generator has answered. The shell performs the resulting actions —
//! writing the timestamps file or calling the render module — and feeds
//! the statistics back for the final report.

use vstd::prelude::*;

verus! {

use crate::cuts::{Cut, GeneratorStats, cut_lines, format_cut_lines};
use crate::options::{Options, Platform, automatic_path, path_sep, derive_automatic_path,
    joined_output_path, is_video_mime};

/// One directory entry as the shell listed it: its full path, its bare file
/// name, whether it is a regular file, and its sniffed media type.
pub struct DirEntry {
    pub path: String,
    pub name: String,
    pub is_file: bool,
    pub mime: String,
}

/// Whether a batch run processes an entry: a regular file whose sniffed
/// type names a video.
pub open spec fn entry_selected(e: DirEntry) -> bool {
    e.is_file && e.mime@.len() >= 5 && e.mime@.take(5) == "video"@
}

/// The entries a batch run processes, in directory order.
pub open spec fn video_entries(s: Seq<DirEntry>) -> Seq<DirEntry>
    decreases s.len(),
{
    if s.len() == 0 {
        Seq::empty()
    } else if entry_selected(s.last()) {
        video_entries(s.drop_last()).push(s.last())
    } else {
        video_entries(s.drop_last())
    }
}

/// Keep exactly the entries a batch run processes.
pub fn select_video_files(entries: Vec<DirEntry>) -> (r: Vec<DirEntry>)
    ensures
        r@ == video_entries(entries@),
{
    let ghost orig = entries@;
    let mut rest = entries;
    let mut out: Vec<DirEntry> = Vec::new();
    let ghost mut k: int = 0;
    proof {
        assert(rest@ =~= orig.skip(0));
        assert(out@ =~= video_entries(orig.take(0)));
    }
    while rest.len() > 0
        invariant
            0 <= k <= orig.len(),
            rest@ == orig.skip(k),
            out@ == video_entries(orig.take(k)),
        decreases rest@.len(),
    {
        let e = rest.remove(0);
        proof {
            assert(e == orig[k]);
            assert(rest@ =~= orig.skip(k + 1));
            assert(orig.take(k + 1).drop_last() =~= orig.take(k));
            assert(orig.take(k + 1).last() == orig[k]);
        }
        if e.is_file && is_video_mime(&e.mime) {
            out.push(e);
        }
        proof {
            assert(out@ =~= video_entries(orig.take(k + 1)));
            k = k + 1;
        }
    }
    proof {
        assert(orig.take(k) =~= orig);
    }
    out
}

/// The output path for one selected entry of a batch run: under the named
/// output directory when one was given, else derived from the entry itself.
pub fn entry_output_path(entry: &DirEntry, options: &Options, platform: Platform) -> (r: String)
    ensures
        options.output@.len() > 0 ==> r@ == options.output@ + seq![path_sep(platform)]
            + entry.name@,
        options.output@.len() == 0 ==> r@ == automatic_path(entry.path@, options.tsonly),
{
    if !options.output.as_str().is_empty() {
        joined_output_path(&options.output, &entry.name, platform)
    } else {
        derive_automatic_path(&entry.path, options.tsonly)
    }
}

/// What the shell does with one input once the generator has answered.
pub enum WorkAction {
    /// Write this content — the whole timestamps file — at this path.
    WriteTimestamps { path: String, content: String },
    /// Call the render module with the host-owned cuts.
    Render { input: String, output: String, cuts: Vec<Cut> },
}

/// Decide the rest of a run: a timestamps-only run writes the formatted
/// cut list to the output path; any other run hands the host-owned cuts to
/// the render module, with the run's input and output paths.
pub fn plan_work(options: &Options, cuts: Vec<Cut>) -> (r: WorkAction)
    ensures
        options.tsonly ==> (r matches WorkAction::WriteTimestamps { path, content } && path@
            == options.output@ && content@ == cut_lines(cuts@)),
        !options.tsonly ==> (r matches WorkAction::Render { input, output, cuts: c } && input@
            == options.input@ && output@ == options.output@ && c@ == cuts@),
{
    if options.tsonly {
        let content = format_cut_lines(&cuts);
        WorkAction::WriteTimestamps { path: options.output.clone(), content }
    } else {
        WorkAction::Render {
            input: options.input.clone(),
            output: options.output.clone(),
            cuts,
        }
    }
}

/// One row of the final report.
pub struct SummaryRow {
    pub input: String,
    pub output: String,
    pub stats: GeneratorStats,
}

/// The report rows of a single-file run: exactly one, carrying that file's
/// paths and its generation statistics.
pub fn process_single_file(options: &Options, stats: GeneratorStats) -> (rows: Vec<SummaryRow>)
    ensures
        rows@.len() == 1,
        rows@[0].input@ == options.input@,
        rows@[0].output@ == options.output@,
        rows@[0].stats == stats,
{
    let mut rows: Vec<SummaryRow> = Vec::new();
    rows.push(SummaryRow { input: options.input.clone(), output: options.output.clone(), stats });
    rows
}

} // verus!
