use reve::workqueue::{WorkItem, WorkQueue, WorkStatus};

fn item(filename: &str, filepath: &str, height: i64, limit: i64) -> WorkItem {
    WorkItem {
        filename: filename.to_string(),
        filepath: filepath.to_string(),
        width: 640,
        height,
        duration_ms: 60_000,
        pixel_format: String::from("yuv420p"),
        display_aspect_ratio: String::from("4:3"),
        sample_aspect_ratio: String::from("1:1"),
        container: String::from("matroska"),
        size: 1024,
        folder_size: 4096,
        bitrate: 800_000,
        codec: String::from("h264"),
        resolution_limit: limit,
        status: WorkStatus::Pending,
        content_hash: String::from("SHA256=abc"),
    }
}

#[test]
fn discovery_splits_rows_by_resolution_ceiling() {
    let mut q = WorkQueue::new();
    assert!(q.upsert(item("a.mkv", "/in/a.mkv", 480, 480)));
    assert!(q.upsert(item("b.mkv", "/in/b.mkv", 360, 480)));
    assert!(q.upsert(item("c.mkv", "/in/c.mkv", 1080, 480)));
    assert_eq!(
        q.list_by_status(WorkStatus::Pending),
        vec!["/in/a.mkv", "/in/b.mkv"]
    );
    assert_eq!(q.list_by_status(WorkStatus::Skipped), vec!["/in/c.mkv"]);

    // A second discovery pass over the same root adds no rows.
    assert!(!q.upsert(item("a.mkv", "/in/a.mkv", 480, 480)));
    assert!(!q.upsert(item("b.mkv", "/in/b.mkv", 360, 480)));
    assert!(!q.upsert(item("c.mkv", "/in/c.mkv", 1080, 480)));
    assert_eq!(q.items.len(), 3);
    assert_eq!(q.list_by_status(WorkStatus::Pending).len(), 2);
    assert_eq!(q.list_by_status(WorkStatus::Skipped).len(), 1);
}

#[test]
fn stale_processing_rows_are_pending_again() {
    let mut q = WorkQueue::new();
    q.upsert(item("a.mkv", "/in/a.mkv", 480, 480));
    q.upsert(item("b.mkv", "/in/b.mkv", 360, 480));
    q.upsert(item("c.mkv", "/in/c.mkv", 240, 480));
    assert!(q.set_status("/in/a.mkv", WorkStatus::Processing));
    assert!(q.set_status("/in/b.mkv", WorkStatus::Processing));
    assert!(q.set_status("/in/c.mkv", WorkStatus::Done));

    // The next run resumes b.mkv: a.mkv's stale row is demoted, b.mkv's
    // kept, and the finished row untouched.
    q.recover_stale(Some("b.mkv"));
    assert_eq!(q.items[0].status, WorkStatus::Pending);
    assert_eq!(q.items[1].status, WorkStatus::Processing);
    assert_eq!(q.items[2].status, WorkStatus::Done);
}

#[test]
fn recovery_without_a_current_file_demotes_every_processing_row() {
    let mut q = WorkQueue::new();
    q.upsert(item("a.mkv", "/in/a.mkv", 480, 480));
    q.upsert(item("b.mkv", "/in/b.mkv", 360, 480));
    q.set_status("/in/a.mkv", WorkStatus::Processing);
    q.set_status("/in/b.mkv", WorkStatus::Processing);
    q.recover_stale(None);
    assert_eq!(q.items[0].status, WorkStatus::Pending);
    assert_eq!(q.items[1].status, WorkStatus::Pending);
}

#[test]
fn status_updates_find_rows_by_filepath() {
    let mut q = WorkQueue::new();
    q.upsert(item("a.mkv", "/in/a.mkv", 480, 480));
    assert!(q.set_status("/in/a.mkv", WorkStatus::Done));
    assert!(!q.set_status("/in/missing.mkv", WorkStatus::Done));
    assert_eq!(q.items[0].status, WorkStatus::Done);
    assert!(q.contains_filename("a.mkv"));
    assert!(!q.contains_filename("z.mkv"));
}
