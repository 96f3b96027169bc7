use rustris::log_buffer::{LogBuffer, LogBufferManager, MAX_LOG_LINES};

fn lines(items: &[&str]) -> Vec<String> {
    items.iter().map(|s| s.to_string()).collect()
}

#[test]
fn scenario_small_capacity_eviction() {
    // capacity 5; batches ["a"], ["b","c"], ["d","e","f"] in order
    let mut buf = LogBuffer::with_capacity(5);
    buf.append_lines(lines(&["a"]));
    buf.append_lines(lines(&["b", "c"]));
    buf.append_lines(lines(&["d", "e", "f"]));
    assert_eq!(buf.total_lines_ever(), 6);
    assert_eq!(buf.len(), 5);
    assert_eq!(buf.get_all(), "b\nc\nd\ne\nf");
}

#[test]
fn scenario_capacity_boundary() {
    // default capacity; one more line than fits, appended one at a time
    let mut buf = LogBuffer::new();
    for i in 1..=(MAX_LOG_LINES + 1) {
        buf.append_lines(vec![format!("line{}", i)]);
    }
    assert_eq!(buf.total_lines_ever(), MAX_LOG_LINES + 1);
    assert_eq!(buf.len(), MAX_LOG_LINES);
    let snapshot = buf.get_all();
    let first = snapshot.lines().next().unwrap();
    let last = snapshot.lines().last().unwrap();
    assert_eq!(first, "line2");
    assert_eq!(last, format!("line{}", MAX_LOG_LINES + 1));
}

#[test]
fn total_emitted_monotonic() {
    let mut buf = LogBuffer::with_capacity(2);
    let mut previous = buf.total_lines_ever();
    for batch in [
        lines(&["a"]),
        lines(&[]),
        lines(&["b", "c", "d"]),
        lines(&["e"]),
    ] {
        buf.append_lines(batch);
        let current = buf.total_lines_ever();
        assert!(current >= previous);
        previous = current;
    }
    assert_eq!(previous, 5);
}

#[test]
fn ring_length_matches_min() {
    let mut buf = LogBuffer::with_capacity(3);
    assert_eq!(buf.len(), 0);
    buf.append_lines(lines(&["a", "b"]));
    assert_eq!(buf.len(), 2); // below capacity: all retained
    buf.append_lines(lines(&["c", "d"]));
    assert_eq!(buf.len(), 3); // at capacity from now on
    assert_eq!(buf.total_lines_ever(), 4);
    assert_eq!(buf.get_all(), "b\nc\nd");
}

#[test]
fn empty_append_is_noop() {
    let mut buf = LogBuffer::with_capacity(5);
    buf.append_lines(lines(&["a"]));
    buf.append_lines(Vec::new());
    assert_eq!(buf.total_lines_ever(), 1);
    assert_eq!(buf.get_all(), "a");
}

#[test]
fn empty_buffer_snapshot_is_empty() {
    let buf = LogBuffer::new();
    assert_eq!(buf.get_all(), "");
    assert_eq!(buf.total_lines_ever(), 0);
}

#[test]
fn scenario_shared_handles() {
    // getOrCreate twice from two call sites, append via the first handle,
    // snapshot via the second
    let mut registry = LogBufferManager::new();
    let h1 = registry.get_or_create("g1");
    let h2 = registry.get_or_create("g1");
    assert_eq!(h1, h2);
    registry.append_via(h1, lines(&["hello from h1"]));
    let snapshot = registry.buffer(h2).get_all();
    assert!(snapshot.contains("hello from h1"));
}

#[test]
fn get_absent_session() {
    let registry = LogBufferManager::new();
    assert!(registry.get("nope").is_none());
}

#[test]
fn get_finds_created_session() {
    let mut registry = LogBufferManager::new();
    let h = registry.get_or_create("slug-a");
    let found = registry.get("slug-a").unwrap();
    assert_eq!(h, found);
    assert!(registry.get("slug-b").is_none());
}

#[test]
fn post_removal_isolation() {
    // after remove(id), get(id) is absent, but a pipeline's handle still
    // appends to the same buffer
    let mut registry = LogBufferManager::new();
    let handle = registry.get_or_create("doomed");
    registry.append_via(handle, lines(&["before removal"]));
    registry.remove("doomed");
    assert!(registry.get("doomed").is_none());
    registry.append_via(handle, lines(&["after removal"]));
    let buf = registry.buffer(handle);
    assert_eq!(buf.total_lines_ever(), 2);
    let snapshot = buf.get_all();
    assert!(snapshot.contains("before removal"));
    assert!(snapshot.contains("after removal"));
}

#[test]
fn remove_then_recreate_makes_fresh_buffer() {
    let mut registry = LogBufferManager::new();
    let h1 = registry.get_or_create("session");
    registry.append_via(h1, lines(&["old content"]));
    registry.remove("session");
    let h2 = registry.get_or_create("session");
    assert_ne!(h1, h2);
    assert_eq!(registry.buffer(h2).total_lines_ever(), 0);
    // the old buffer is still reachable through the old handle
    assert_eq!(registry.buffer(h1).total_lines_ever(), 1);
}

#[test]
fn distinct_sessions_distinct_buffers() {
    let mut registry = LogBufferManager::new();
    let ha = registry.get_or_create("a");
    let hb = registry.get_or_create("b");
    assert_ne!(ha, hb);
    registry.append_via(ha, lines(&["only in a"]));
    assert_eq!(registry.buffer(hb).total_lines_ever(), 0);
    assert_eq!(registry.buffer(ha).total_lines_ever(), 1);
}
