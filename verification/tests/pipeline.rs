use rustris::log_buffer::LogBufferManager;
use rustris::pipeline::{LogStreamer, CHANNEL_CAPACITY, TICK_INTERVAL_MS};

#[test]
fn constants_match_design() {
    assert_eq!(CHANNEL_CAPACITY, 1000);
    assert_eq!(TICK_INTERVAL_MS, 100);
}

#[test]
fn scenario_backpressure_no_line_dropped() {
    // a slow batcher and a reader pushing more lines than the channel holds:
    // the reader suspends (the offer is rejected) until the next drain, and
    // no line is lost
    let mut registry = LogBufferManager::new();
    let handle = registry.get_or_create("busy");
    let mut pipe = LogStreamer::with_channel_capacity("busy".to_string(), handle, 2);

    assert!(pipe.offer_line("l1".to_string()));
    assert!(pipe.offer_line("l2".to_string()));
    // channel full: the reader must wait for a drain and retry
    assert!(!pipe.offer_line("l3".to_string()));

    let note = pipe.tick(&mut registry).expect("non-empty drain emits one payload");
    assert_eq!(note.lines, vec!["l1".to_string(), "l2".to_string()]);
    assert_eq!(note.total_lines, 2);

    // the drain made room: the retried line is accepted now
    assert!(pipe.offer_line("l3".to_string()));
    pipe.end_of_stream();
    let note = pipe.tick(&mut registry).expect("final drain emits the last payload");
    assert_eq!(note.lines, vec!["l3".to_string()]);
    assert_eq!(note.total_lines, 3);

    assert_eq!(registry.buffer(handle).total_lines_ever(), 3);
    assert_eq!(registry.buffer(handle).get_all(), "l1\nl2\nl3");
}

#[test]
fn scenario_two_pipelines_one_buffer() {
    // two pipelines sharing one buffer each append one line in the same
    // tick window; both lines land, in whichever relative order
    let mut registry = LogBufferManager::new();
    let handle = registry.get_or_create("game");
    let mut out_pipe = LogStreamer::new("game".to_string(), handle);
    let mut err_pipe = LogStreamer::new("game".to_string(), handle);

    assert!(out_pipe.offer_line("from stdout".to_string()));
    assert!(err_pipe.offer_line("from stderr".to_string()));
    out_pipe.tick(&mut registry).expect("stdout batch emitted");
    err_pipe.tick(&mut registry).expect("stderr batch emitted");

    let buf = registry.buffer(handle);
    assert_eq!(buf.total_lines_ever(), 2);
    let snapshot = buf.get_all();
    assert!(snapshot.contains("from stdout"));
    assert!(snapshot.contains("from stderr"));
}

#[test]
fn empty_tick_emits_nothing() {
    let mut registry = LogBufferManager::new();
    let handle = registry.get_or_create("quiet");
    let mut pipe = LogStreamer::new("quiet".to_string(), handle);
    assert!(pipe.tick(&mut registry).is_none());
    assert_eq!(registry.buffer(handle).total_lines_ever(), 0);
}

#[test]
fn payload_carries_slug_and_running_total() {
    let mut registry = LogBufferManager::new();
    let handle = registry.get_or_create("slug-x");
    let mut pipe = LogStreamer::new("slug-x".to_string(), handle);

    assert!(pipe.offer_line("a".to_string()));
    let note = pipe.tick(&mut registry).unwrap();
    assert_eq!(note.slug, "slug-x");
    assert_eq!(note.total_lines, 1);

    assert!(pipe.offer_line("b".to_string()));
    assert!(pipe.offer_line("c".to_string()));
    let note = pipe.tick(&mut registry).unwrap();
    assert_eq!(note.slug, "slug-x");
    assert_eq!(note.lines, vec!["b".to_string(), "c".to_string()]);
    assert_eq!(note.total_lines, 3);
}

#[test]
fn pipeline_survives_session_removal() {
    // removing the session does not stop a pipeline already bound to it
    let mut registry = LogBufferManager::new();
    let handle = registry.get_or_create("gone");
    let mut pipe = LogStreamer::new("gone".to_string(), handle);
    registry.remove("gone");
    assert!(registry.get("gone").is_none());
    assert!(pipe.offer_line("still flowing".to_string()));
    let note = pipe.tick(&mut registry).unwrap();
    assert_eq!(note.total_lines, 1);
    assert!(registry.buffer(handle).get_all().contains("still flowing"));
}

#[test]
fn eof_with_drained_channel_closes_pipeline() {
    let mut registry = LogBufferManager::new();
    let handle = registry.get_or_create("ending");
    let mut pipe = LogStreamer::new("ending".to_string(), handle);
    assert!(pipe.offer_line("last words".to_string()));
    pipe.end_of_stream();
    // the final tick still delivers what was pending, then closes
    let note = pipe.tick(&mut registry).unwrap();
    assert_eq!(note.lines, vec!["last words".to_string()]);
    assert_eq!(registry.buffer(handle).get_all(), "last words");
}
