use fm_core::fs::File;
use fm_core::mime::MimeKind;
use fm_core::preview::{
    produce, Event, FilesOp, Preview, PreviewData, ProducerInput, ProducerJob,
};
use fm_core::url::Url;

fn local(parts: &[&str]) -> Url {
    Url::local(parts.iter().map(|p| p.to_string()).collect())
}

#[test]
fn reset_flags_across_go() {
    let mut p = Preview::new();
    assert!(!p.reset());
    let path = local(&["tmp", "d"]);
    let job = p.go(&path, "inode/directory");
    assert_eq!(job.kind, MimeKind::Dir);
    assert_eq!(job.path, path);
    assert!(p.reset());
    assert!(!p.reset());
}

#[test]
fn go_replaces_in_flight_producer() {
    let mut p = Preview::new();
    let first = p.go(&local(&["a.txt"]), "text/plain");
    assert_eq!(first.kind, MimeKind::Text);
    let second = p.go(&local(&["b.txt"]), "text/plain");
    // The slot holds only the newest producer.
    assert_eq!(p.handle.as_ref().unwrap().path, second.path);
    assert_eq!(p.path, local(&["b.txt"]));
}

#[test]
fn folder_preview_emits_files_then_folder() {
    let path = local(&["tmp", "d"]);
    let items = vec![File::from_dummy(&local(&["tmp", "d", "x"]))];
    let job = ProducerJob { path: path.clone(), kind: MimeKind::Dir };
    let evs = produce(job, ProducerInput::Listing(Some(items)));
    assert_eq!(evs.len(), 2);
    match &evs[0] {
        Event::Files(FilesOp::Read(u, items)) => {
            assert_eq!(*u, path);
            assert_eq!(items.len(), 1);
        },
        _ => panic!("expected a Files event first"),
    }
    match &evs[1] {
        Event::Preview(u, PreviewData::Folder) => assert_eq!(*u, path),
        _ => panic!("expected a Folder preview"),
    }
}

#[test]
fn folder_preview_on_io_failure() {
    let path = local(&["tmp", "gone"]);
    let job = ProducerJob { path: path.clone(), kind: MimeKind::Dir };
    let evs = produce(job, ProducerInput::Listing(None));
    assert_eq!(evs.len(), 2);
    assert!(matches!(&evs[0], Event::Files(FilesOp::IOErr(u)) if *u == path));
    assert!(matches!(&evs[1], Event::Preview(_, PreviewData::Folder)));
}

#[test]
fn unsupported_mime_previews_empty() {
    let mut p = Preview::new();
    let path = local(&["x.bin"]);
    let job = p.go(&path, "application/x-random");
    assert_eq!(job.kind, MimeKind::Others);
    let evs = produce(job, ProducerInput::Outcome(None));
    assert_eq!(evs.len(), 1);
    assert!(matches!(&evs[0], Event::Preview(u, PreviewData::Empty) if *u == path));
}

#[test]
fn stale_result_is_filtered_by_selection() {
    let mut p = Preview::new();
    let a = local(&["a.txt"]);
    let b = local(&["b.txt"]);
    let _ = p.go(&a, "text/plain");
    let _ = p.go(&b, "text/plain");
    // The producer for a finishes late: its result is ignored.
    assert!(!p.complete(&a, PreviewData::Text("stale".to_string())));
    assert!(matches!(p.data, PreviewData::Empty));
    // The producer for b lands.
    assert!(p.complete(&b, PreviewData::Text("fresh".to_string())));
    assert!(matches!(&p.data, PreviewData::Text(t) if t == "fresh"));
    assert!(p.handle.is_none());
}

#[test]
fn producer_emits_exactly_one_preview() {
    let inputs = [
        (MimeKind::Dir, ProducerInput::Listing(Some(Vec::new()))),
        (MimeKind::Dir, ProducerInput::Listing(None)),
        (MimeKind::Text, ProducerInput::Outcome(Some(PreviewData::Text("t".to_string())))),
        (MimeKind::Image, ProducerInput::Outcome(None)),
        (MimeKind::Others, ProducerInput::Outcome(None)),
    ];
    for (kind, input) in inputs {
        let job = ProducerJob { path: local(&["p"]), kind };
        let evs = produce(job, input);
        let previews = evs.iter().filter(|e| matches!(e, Event::Preview(..))).count();
        assert_eq!(previews, 1);
    }
}

#[test]
fn json_preview_keeps_row_budget() {
    let out = Preview::json("{\n  \"a\": 1,\n  \"b\": 2\n}\n", 2);
    assert_eq!(out, "{\n  \"a\": 1,");
    let all = Preview::json("{\n}\n", 10);
    assert_eq!(all, "{\n}");
    // Carriage-return line endings read as single newlines.
    let crlf = Preview::json("{\r\n}\r\n", 10);
    assert_eq!(crlf, "{\n}");
}

#[test]
fn archive_preview_joins_first_names() {
    let names = vec!["a".to_string(), "b".to_string(), "c".to_string()];
    assert_eq!(Preview::archive(&names, 2), "a\nb");
    assert_eq!(Preview::archive(&names, 9), "a\nb\nc");
    assert_eq!(Preview::archive(&names, 0), "");
}

#[test]
fn cache_mapping_is_stable_and_collision_free() {
    let a = local(&["tmp", "v.mp4"]);
    assert_eq!(Preview::cache(&a), Preview::cache(&a));
    // Distinct paths that a naive join would conflate stay distinct.
    let tricky = local(&["tmp/v.mp4"]);
    assert_ne!(Preview::cache(&a), Preview::cache(&tricky));
    let banged = local(&["tmp!v.mp4"]);
    assert_ne!(Preview::cache(&a), Preview::cache(&banged));
    let remote = Url::remote("sftp".to_string(), vec!["tmp".to_string(), "v.mp4".to_string()]);
    assert_ne!(Preview::cache(&a), Preview::cache(&remote));
}

#[test]
fn video_runs_thumbnailer_only_on_cache_miss() {
    let path = local(&["tmp", "v.mp4"]);
    let (run, src) = Preview::video(&path, false);
    assert!(run);
    assert_eq!(src, Preview::cache(&path));
    let (run, _) = Preview::video(&path, true);
    assert!(!run);
    assert_eq!(Preview::image_source(&path, true), Preview::cache(&path));
    assert_eq!(Preview::image_source(&path, false), path);
}
