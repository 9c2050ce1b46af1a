use image_compressor::batch::{run_batch, BatchState, JobOutcome, ProgressEvent};
use image_compressor::collect;
use image_compressor::config::{derive_output_path, ProcessConfig, ProcessMode};
use image_compressor::dims::compute_target_dims;
use image_compressor::limiter::Limiter;
use image_compressor::raw_chain::{
    chain_step, deadline_expired, preview_needs_rescale, stage_timeout_ms, ChainState,
    StageReport, POLL_INTERVAL_MS, RAW_GATE_CAP, STAGE_TIMEOUT_MS,
};

fn ob(s: &str) -> Vec<u8> {
    s.as_bytes().to_vec()
}

#[test]
fn limiter_caps_at_four() {
    let mut l = Limiter::new(RAW_GATE_CAP);
    for _ in 0..4 {
        assert!(l.try_acquire());
        assert!(l.active <= l.cap);
    }
    assert!(!l.try_acquire());
    assert_eq!(l.active, 4);
    l.release();
    assert!(l.try_acquire());
    assert!(!l.try_acquire());
}

#[test]
fn limiter_holds_bound_under_contention() {
    // Many more jobs than slots: however the acquisitions and releases
    // interleave, the holder count never passes the cap.
    let mut l = Limiter::new(4);
    let mut held: usize = 0;
    for round in 0..50 {
        if l.try_acquire() {
            held += 1;
        }
        assert!(l.active <= l.cap);
        assert_eq!(l.active, held);
        if round % 3 == 2 && held > 0 {
            l.release();
            held -= 1;
        }
        assert!(l.active <= 4);
    }
}

#[test]
fn batch_counts_sum_at_finish() {
    let jobs: Vec<(Vec<u8>, JobOutcome)> = vec![
        (ob("a.jpg"), JobOutcome::Success(ob("d/a_hd.jpg"))),
        (ob("b.jpg"), JobOutcome::Failure(ob("decode failure"))),
        (ob("c.png"), JobOutcome::Success(ob("d/c_hd.jpg"))),
        (ob("e.png"), JobOutcome::Failure(ob("write failure"))),
    ];
    let events = run_batch(jobs);
    match events.first().unwrap() {
        ProgressEvent::BatchStarted { total } => assert_eq!(*total, 4),
        _ => panic!("first event must announce the batch"),
    }
    match events.last().unwrap() {
        ProgressEvent::BatchFinished { completed, failed, first_output_dir } => {
            assert_eq!(*completed, 2);
            assert_eq!(*failed, 2);
            assert_eq!(completed + failed, 4);
            assert_eq!(first_output_dir.as_ref().unwrap(), &ob("d/"));
        },
        _ => panic!("last event must finish the batch"),
    }
}

#[test]
fn batch_empty_finishes_immediately() {
    let events = run_batch(Vec::new());
    assert_eq!(events.len(), 1);
    match &events[0] {
        ProgressEvent::BatchFinished { completed, failed, first_output_dir } => {
            assert_eq!((*completed, *failed), (0, 0));
            assert!(first_output_dir.is_none());
        },
        _ => panic!("an empty batch finishes at once"),
    }
}

#[test]
fn batch_failure_reports_error_then_finish() {
    let (mut st, start_events) = BatchState::start(2);
    assert!(matches!(start_events[0], ProgressEvent::BatchStarted { total: 2 }));
    let evs = st.record(ob("b.dng"), JobOutcome::Failure(ob("unsupported")));
    assert_eq!(evs.len(), 2);
    assert!(matches!(&evs[0], ProgressEvent::JobError { message } if message == &ob("unsupported")));
    match &evs[1] {
        ProgressEvent::JobFinished { completed, failed, file_name } => {
            assert_eq!((*completed, *failed), (0, 1));
            assert_eq!(file_name, &ob("b.dng"));
        },
        _ => panic!("a resolved job is reported"),
    }
    let evs = st.record(ob("a.jpg"), JobOutcome::Success(ob("out/a.jpg")));
    assert_eq!(evs.len(), 1);
    match st.finish() {
        ProgressEvent::BatchFinished { completed, failed, first_output_dir } => {
            assert_eq!((completed, failed), (1, 1));
            assert_eq!(first_output_dir.unwrap(), ob("out/"));
        },
        _ => panic!("finish closes the batch"),
    }
}

#[test]
fn batch_first_output_directory_wins_once() {
    let (mut st, _) = BatchState::start(2);
    st.record(ob("a.jpg"), JobOutcome::Success(ob("one/a.jpg")));
    st.record(ob("b.jpg"), JobOutcome::Success(ob("two/b.jpg")));
    match st.finish() {
        ProgressEvent::BatchFinished { first_output_dir, .. } => {
            assert_eq!(first_output_dir.unwrap(), ob("one/"));
        },
        _ => panic!("finish closes the batch"),
    }
}

#[test]
fn chain_timeout_proceeds_to_next_stage() {
    let next = chain_step(
        ChainState::Direct,
        &StageReport::Direct { timed_out: true, exit_success: true, output_exists: true },
    );
    assert_eq!(next, ChainState::Thumbnail);
    let last = chain_step(
        ChainState::Scripting,
        &StageReport::Scripting { timed_out: true, script_success: true, output_exists: true },
    );
    assert_eq!(last, ChainState::Unsupported);
}

#[test]
fn chain_success_ends_converted() {
    let done = chain_step(
        ChainState::Preview,
        &StageReport::Preview { output_exists: true, width: 800, height: 600 },
    );
    assert_eq!(done, ChainState::Converted);
    let done = chain_step(
        ChainState::Thumbnail,
        &StageReport::Thumbnail { candidate_found: true, output_exists: true },
    );
    assert_eq!(done, ChainState::Converted);
    let done = chain_step(
        ChainState::Direct,
        &StageReport::Direct { timed_out: false, exit_success: true, output_exists: true },
    );
    assert_eq!(done, ChainState::Converted);
}

#[test]
fn chain_exhaustion_is_unsupported() {
    let mut s = ChainState::Preview;
    s = chain_step(s, &StageReport::Preview { output_exists: false, width: 0, height: 0 });
    s = chain_step(s, &StageReport::Direct { timed_out: false, exit_success: false, output_exists: false });
    s = chain_step(s, &StageReport::Thumbnail { candidate_found: false, output_exists: false });
    s = chain_step(s, &StageReport::Scripting { timed_out: false, script_success: true, output_exists: false });
    assert_eq!(s, ChainState::Unsupported);
}

#[test]
fn chain_deadlines_and_gate_constants() {
    assert_eq!(stage_timeout_ms(ChainState::Preview), None);
    assert_eq!(stage_timeout_ms(ChainState::Direct), Some(30000));
    assert_eq!(stage_timeout_ms(ChainState::Thumbnail), Some(30000));
    assert_eq!(stage_timeout_ms(ChainState::Scripting), Some(30000));
    assert!(deadline_expired(STAGE_TIMEOUT_MS + 1, STAGE_TIMEOUT_MS));
    assert!(!deadline_expired(STAGE_TIMEOUT_MS, STAGE_TIMEOUT_MS));
    assert_eq!(RAW_GATE_CAP, 4);
    assert_eq!(POLL_INTERVAL_MS, 100);
}

#[test]
fn preview_rescale_only_past_cap() {
    assert!(preview_needs_rescale(5000, 3000, 4096));
    assert!(preview_needs_rescale(3000, 5000, 4096));
    assert!(!preview_needs_rescale(4096, 4096, 4096));
}

#[test]
fn end_to_end_hd_scenario() {
    // Inputs a.jpg (6000x4000), b.dng, b.jpg under HD settings: the RAW
    // file is suppressed by its JPEG sibling, a.jpg shrinks to 4096x2731
    // and lands beside its source with the mode suffix, and the batch
    // closes with two completions and no failures.
    let files: Vec<Vec<u8>> = vec![ob("d/a.jpg"), ob("d/b.dng"), ob("d/b.jpg")];
    let dispatched = collect::finalize_collection(&files);
    assert_eq!(dispatched, vec![ob("d/a.jpg"), ob("d/b.jpg")]);

    assert_eq!(compute_target_dims(6000, 4000, 4096), (4096, 2731));

    let cfg = ProcessConfig {
        mode: ProcessMode::HD,
        max_dim: 4096,
        quality: 95,
        target_kb: 5000,
        output_dir: None,
        overwrite: false,
        keep_original_name: false,
    };
    assert_eq!(derive_output_path(&ob("d/a.jpg"), &cfg), ob("d/a_hd.jpg"));

    let jobs: Vec<(Vec<u8>, JobOutcome)> = vec![
        (ob("a.jpg"), JobOutcome::Success(ob("d/a_hd.jpg"))),
        (ob("b.jpg"), JobOutcome::Success(ob("d/b_hd.jpg"))),
    ];
    let events = run_batch(jobs);
    match events.last().unwrap() {
        ProgressEvent::BatchFinished { completed, failed, .. } => {
            assert_eq!((*completed, *failed), (2, 0));
        },
        _ => panic!("last event must finish the batch"),
    }
}
