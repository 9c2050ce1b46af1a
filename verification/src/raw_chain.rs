//! The fallback chain for camera RAW sources: an ordered sequence of
//! external strategies, each tried only after the previous produced no
//! usable output, under strict per-stage deadlines. The chain owns every
//! decision; the caller runs the external tools and reports what happened.
//! Stages are strictly sequential with no backtracking; a chain always ends,
//! either converted or with the source reported unsupported.

use vstd::prelude::*;

verus! {

/// How many external RAW conversions may run at once.
pub const RAW_GATE_CAP: usize = 4;

/// Poll interval in milliseconds, used both while waiting for a gate slot
/// and while watching an external process against its deadline.
pub const POLL_INTERVAL_MS: u64 = 100;

/// The wall-clock deadline of every deadline-bounded stage, milliseconds.
pub const STAGE_TIMEOUT_MS: u64 = 30000;

/// The strategy the chain is currently attempting, or how it ended.
#[derive(Clone, Copy, PartialEq, Eq, Structural, Debug)]
pub enum ChainState {
    /// Ask the conversion utility for the embedded preview, best effort.
    Preview,
    /// One-call format conversion under a deadline.
    Direct,
    /// Thumbnail generator into a scratch directory, then convert.
    Thumbnail,
    /// Drive the image-handling scripting host.
    Scripting,
    /// A stage produced the output file.
    Converted,
    /// Every strategy is exhausted: the source's RAW type is unsupported.
    Unsupported,
}

/// What the caller observed after performing one stage's external work.
pub enum StageReport {
    /// Preview extraction: whether the output file now exists, and its
    /// dimensions when it does.
    Preview { output_exists: bool, width: u32, height: u32 },
    /// Direct conversion: whether the deadline expired (the process was
    /// then killed), how it exited, and whether the output file exists.
    Direct { timed_out: bool, exit_success: bool, output_exists: bool },
    /// Thumbnail fallback: whether either probed candidate file appeared
    /// and whether its conversion produced the output file.
    Thumbnail { candidate_found: bool, output_exists: bool },
    /// Scripting host: whether the deadline expired, whether the script
    /// reported success, and whether the output file exists.
    Scripting { timed_out: bool, script_success: bool, output_exists: bool },
}

/// Which stage a report belongs to.
pub open spec fn report_stage(r: StageReport) -> ChainState {
    match r {
        StageReport::Preview { .. } => ChainState::Preview,
        StageReport::Direct { .. } => ChainState::Direct,
        StageReport::Thumbnail { .. } => ChainState::Thumbnail,
        StageReport::Scripting { .. } => ChainState::Scripting,
    }
}

/// Whether a report means its stage produced usable output. A timed-out
/// process is treated as failed however it exited; the thumbnail stage is
/// judged by its probed files alone.
pub open spec fn stage_succeeded(r: StageReport) -> bool {
    match r {
        StageReport::Preview { output_exists, .. } => output_exists,
        StageReport::Direct { timed_out, exit_success, output_exists } => !timed_out
            && exit_success && output_exists,
        StageReport::Thumbnail { candidate_found, output_exists } => candidate_found
            && output_exists,
        StageReport::Scripting { timed_out, script_success, output_exists } => !timed_out
            && script_success && output_exists,
    }
}

/// The stage tried after `s` when `s` produced nothing usable.
pub open spec fn next_stage(s: ChainState) -> ChainState {
    match s {
        ChainState::Preview => ChainState::Direct,
        ChainState::Direct => ChainState::Thumbnail,
        ChainState::Thumbnail => ChainState::Scripting,
        ChainState::Scripting => ChainState::Unsupported,
        ChainState::Converted => ChainState::Converted,
        ChainState::Unsupported => ChainState::Unsupported,
    }
}

/// How far along the chain a state is; both ends rank last.
pub open spec fn stage_rank(s: ChainState) -> int {
    match s {
        ChainState::Preview => 0,
        ChainState::Direct => 1,
        ChainState::Thumbnail => 2,
        ChainState::Scripting => 3,
        ChainState::Converted => 4,
        ChainState::Unsupported => 4,
    }
}

/// A state still waiting on external work.
pub open spec fn is_running(s: ChainState) -> bool {
    s != ChainState::Converted && s != ChainState::Unsupported
}

/// Advances the chain by one stage report: success ends the chain as
/// converted; anything else moves to the next strategy, the last one to the
/// terminal failure. No report ever moves the chain backwards.
pub fn chain_step(state: ChainState, report: &StageReport) -> (r: ChainState)
    requires
        is_running(state),
        report_stage(*report) == state,
    ensures
        r == (if stage_succeeded(*report) {
            ChainState::Converted
        } else {
            next_stage(state)
        }),
        stage_rank(r) > stage_rank(state),
{
    let ok: bool = match report {
        StageReport::Preview { output_exists, .. } => *output_exists,
        StageReport::Direct { timed_out, exit_success, output_exists } => !*timed_out
            && *exit_success && *output_exists,
        StageReport::Thumbnail { candidate_found, output_exists } => *candidate_found
            && *output_exists,
        StageReport::Scripting { timed_out, script_success, output_exists } => !*timed_out
            && *script_success && *output_exists,
    };
    if ok {
        ChainState::Converted
    } else {
        match state {
            ChainState::Preview => ChainState::Direct,
            ChainState::Direct => ChainState::Thumbnail,
            ChainState::Thumbnail => ChainState::Scripting,
            _ => ChainState::Unsupported,
        }
    }
}

/// The deadline of one stage's external process: the preview extraction is
/// fire-and-forget, every later stage is killed after the fixed timeout.
pub fn stage_timeout_ms(s: ChainState) -> (r: Option<u64>)
    ensures
        s == ChainState::Preview ==> r is None,
        s == ChainState::Direct || s == ChainState::Thumbnail || s == ChainState::Scripting
            ==> r == Some(STAGE_TIMEOUT_MS),
{
    match s {
        ChainState::Preview => None,
        ChainState::Direct => Some(STAGE_TIMEOUT_MS),
        ChainState::Thumbnail => Some(STAGE_TIMEOUT_MS),
        ChainState::Scripting => Some(STAGE_TIMEOUT_MS),
        _ => None,
    }
}

/// Whether a polled process has outlived its deadline and must be killed.
pub fn deadline_expired(elapsed_ms: u64, timeout_ms: u64) -> (r: bool)
    ensures
        r == (elapsed_ms > timeout_ms),
{
    elapsed_ms > timeout_ms
}

/// Whether an extracted preview needs the follow-up rescale-in-place call:
/// exactly when its longest edge exceeds the cap.
pub fn preview_needs_rescale(width: u32, height: u32, max_dim: u32) -> (r: bool)
    ensures
        r == (width > max_dim || height > max_dim),
{
    width > max_dim || height > max_dim
}

/// Law: a stage whose external process ran past its deadline never ends the
/// chain as converted there; the killed stage counts as failed and the
/// chain moves to the next strategy, or to the terminal failure after the
/// last one — it never hangs on the stage.
pub proof fn lemma_timeout_moves_on(state: ChainState, report: StageReport)
    requires
        is_running(state),
        report_stage(report) == state,
        (report matches StageReport::Direct { timed_out, .. } && timed_out) || (report
            matches StageReport::Scripting { timed_out, .. } && timed_out),
    ensures
        !stage_succeeded(report),
        stage_rank(next_stage(state)) > stage_rank(state),
{
}

/// Law: every report strictly advances the chain, so any run of the chain
/// finishes — converted or unsupported — after at most four reports, with
/// no backtracking once a later stage has started.
pub proof fn lemma_chain_terminates(state: ChainState, report: StageReport)
    requires
        is_running(state),
        report_stage(report) == state,
    ensures
        stage_rank(if stage_succeeded(report) {
            ChainState::Converted
        } else {
            next_stage(state)
        }) > stage_rank(state),
        stage_rank(state) <= 3,
{
}

} // verus!
