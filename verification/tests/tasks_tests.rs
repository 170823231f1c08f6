use fm_core::fs::File;
use fm_core::tasks::{
    pump_step, Files, OpenRule, OpenRules, Opener, SortBy, TaskOp, TaskRecord, Tasks,
    TasksProgress,
};
use fm_core::url::Url;

fn local(parts: &[&str]) -> Url {
    Url::local(parts.iter().map(|p| p.to_string()).collect())
}

fn record(name: &str, done: u64, total: u64, running: bool) -> TaskRecord {
    TaskRecord {
        id: 0,
        name: name.to_string(),
        bytes_done: done,
        bytes_total: total,
        items_done: 0,
        items_total: 1,
        running,
    }
}

#[test]
fn force_copy_self_to_self_enqueues_nothing() {
    let mut t = Tasks::start();
    // Source /tmp/a with destination /tmp: the joined target equals the
    // source, so the forced copy is skipped.
    let src = vec![local(&["tmp", "a"])];
    let dest = local(&["tmp"]);
    assert!(!t.file_copy(&src, &dest, true));
    assert_eq!(t.scheduler.queued.len(), 0);
}

#[test]
fn copy_enqueues_one_task_per_source() {
    let mut t = Tasks::start();
    let src = vec![local(&["tmp", "a"]), local(&["tmp", "b"])];
    let dest = local(&["backup"]);
    assert!(!t.file_copy(&src, &dest, false));
    assert_eq!(t.scheduler.queued.len(), 2);
    match &t.scheduler.queued[0] {
        TaskOp::FileCopy { from, to, force } => {
            assert_eq!(*from, local(&["tmp", "a"]));
            assert_eq!(*to, local(&["backup", "a"]));
            assert!(!*force);
        },
        _ => panic!("expected a copy task"),
    }
}

#[test]
fn cut_and_link_mirror_copy() {
    let mut t = Tasks::start();
    let src = vec![local(&["tmp", "a"])];
    let dest = local(&["backup"]);
    assert!(!t.file_cut(&src, &dest, false));
    assert!(!t.file_link(&src, &dest, true, false));
    assert_eq!(t.scheduler.queued.len(), 2);
    assert!(matches!(&t.scheduler.queued[0], TaskOp::FileCut { .. }));
    assert!(matches!(
        &t.scheduler.queued[1],
        TaskOp::FileLink { relative: true, .. }
    ));
}

#[test]
fn forced_remove_enqueues_each_target() {
    let mut t = Tasks::start();
    let targets = vec![local(&["a"]), local(&["b"])];
    assert!(!t.file_remove(targets, true, true));
    assert_eq!(t.scheduler.queued.len(), 2);
    assert!(matches!(&t.scheduler.queued[0], TaskOp::FileDelete { .. }));
    let mut t2 = Tasks::start();
    assert!(!t2.file_remove(vec![local(&["a"])], true, false));
    assert!(matches!(&t2.scheduler.queued[0], TaskOp::FileTrash { .. }));
}

#[test]
fn unforced_remove_waits_for_the_prompt() {
    let mut t = Tasks::start();
    assert!(!t.file_remove(vec![local(&["a"])], false, true));
    assert_eq!(t.scheduler.queued.len(), 0);
    assert!(!t.remove_confirmed(vec![local(&["a"])], true, "n"));
    assert_eq!(t.scheduler.queued.len(), 0);
    assert!(!t.remove_confirmed(vec![local(&["a"])], true, "Y"));
    assert_eq!(t.scheduler.queued.len(), 1);
    assert!(!t.remove_confirmed(vec![local(&["b"])], true, "y"));
    assert_eq!(t.scheduler.queued.len(), 2);
}

#[test]
fn precache_image_filters_by_kind() {
    let mut t = Tasks::start();
    let mapping = vec![
        (local(&["u1"]), "image/png".to_string()),
        (local(&["u2"]), "text/plain".to_string()),
        (local(&["u3"]), "image/jpeg".to_string()),
    ];
    assert!(!t.precache_image(&mapping));
    assert_eq!(t.scheduler.queued.len(), 1);
    match &t.scheduler.queued[0] {
        TaskOp::PrecacheImage { targets } => {
            assert_eq!(*targets, vec![local(&["u1"]), local(&["u3"])]);
        },
        _ => panic!("expected an image precache task"),
    }
}

#[test]
fn precache_image_without_matches_enqueues_nothing() {
    let mut t = Tasks::start();
    let mapping = vec![(local(&["u2"]), "text/plain".to_string())];
    assert!(!t.precache_image(&mapping));
    assert_eq!(t.scheduler.queued.len(), 0);
}

#[test]
fn precache_filter_is_monotone_in_memoized_entries() {
    let mapping = vec![
        (local(&["u1"]), "image/png".to_string()),
        (local(&["u3"]), "image/jpeg".to_string()),
    ];
    let mut widened = mapping.clone();
    widened.push((local(&["u2"]), "text/plain".to_string()));
    let mut a = Tasks::start();
    let mut b = Tasks::start();
    a.precache_image(&mapping);
    b.precache_image(&widened);
    // Adding an entry the filter rejects does not grow the enqueued set.
    match (&a.scheduler.queued[0], &b.scheduler.queued[0]) {
        (TaskOp::PrecacheImage { targets: ta }, TaskOp::PrecacheImage { targets: tb }) => {
            assert_eq!(*ta, *tb);
        },
        _ => panic!("expected image precache tasks"),
    }
}

#[test]
fn precache_video_and_pdf_filter_by_kind() {
    let mut t = Tasks::start();
    let mapping = vec![
        (local(&["v"]), "video/mp4".to_string()),
        (local(&["p"]), "application/pdf".to_string()),
    ];
    assert!(!t.precache_video(&mapping));
    assert!(!t.precache_pdf(&mapping));
    assert_eq!(t.scheduler.queued.len(), 2);
    assert!(matches!(&t.scheduler.queued[0], TaskOp::PrecacheVideo { .. }));
    assert!(matches!(&t.scheduler.queued[1], TaskOp::PrecachePdf { .. }));
}

#[test]
fn precache_mime_skips_memoized_and_directories() {
    let mut t = Tasks::start();
    let dir = {
        let mut f = File::from_dummy(&local(&["d"]));
        f.cha.kind.dir = true;
        f
    };
    let known = File::from_dummy(&local(&["known"]));
    let fresh = File::from_dummy(&local(&["fresh"]));
    let files = vec![dir, known, fresh];
    let memo = vec![(local(&["known"]), "text/plain".to_string())];
    assert!(!t.precache_mime(&files, &memo));
    assert_eq!(t.scheduler.queued.len(), 1);
    match &t.scheduler.queued[0] {
        TaskOp::PrecacheMime { targets } => assert_eq!(*targets, vec![local(&["fresh"])]),
        _ => panic!("expected a mime precache task"),
    }
}

#[test]
fn precache_size_only_when_sorting_by_size() {
    let mut t = Tasks::start();
    let mut d = File::from_dummy(&local(&["d"]));
    d.cha.kind.dir = true;
    let by_name = Files { files: vec![d], sizes: Vec::new(), sort_by: SortBy::Natural };
    assert!(!t.precache_size(&by_name));
    assert_eq!(t.scheduler.queued.len(), 0);
    let mut d2 = File::from_dummy(&local(&["d"]));
    d2.cha.kind.dir = true;
    let by_size = Files { files: vec![d2], sizes: Vec::new(), sort_by: SortBy::Size };
    assert!(!t.precache_size(&by_size));
    assert_eq!(t.scheduler.queued.len(), 1);
    assert!(matches!(&t.scheduler.queued[0], TaskOp::PrecacheSize { .. }));
}

#[test]
fn progress_is_deterministic_and_aggregates() {
    let table = vec![record("a", 10, 100, true), record("b", 5, 50, false)];
    let p1 = TasksProgress::from(&table);
    let p2 = TasksProgress::from(&table);
    assert_eq!(p1, p2);
    assert_eq!(p1.bytes_done, 15);
    assert_eq!(p1.bytes_total, 150);
    assert_eq!(p1.items_total, 2);
    assert_eq!(p1.active, 1);
}

#[test]
fn progress_sums_saturate() {
    let table = vec![record("a", u64::MAX, u64::MAX, true), record("b", 1, 1, true)];
    let p = TasksProgress::from(&table);
    assert_eq!(p.bytes_done, u64::MAX);
    assert_eq!(p.bytes_total, u64::MAX);
}

#[test]
fn pump_coalesces_mutations_between_polls() {
    let mut table: Vec<TaskRecord> = Vec::new();
    let last = TasksProgress::default();
    // Two table mutations between polls: one poll, at most one emission.
    table.push(record("a", 0, 10, true));
    table.push(record("b", 0, 20, true));
    let emitted = pump_step(&table, &last);
    assert!(emitted.is_some());
    let last = emitted.unwrap();
    // No mutation: the next poll emits nothing.
    assert!(pump_step(&table, &last).is_none());
}

#[test]
fn paginate_respects_the_limit() {
    let mut t = Tasks::start();
    for i in 0..30 {
        t.scheduler.running.push(record(&format!("t{i}"), 0, 1, true));
    }
    // 24 rows allow 17 summaries.
    let page = t.paginate(24);
    assert_eq!(page.len(), 17);
    assert_eq!(page[0].name, "t0");
    assert_eq!(t.len(), 30);
    // A short table is returned whole.
    let mut small = Tasks::start();
    small.scheduler.running.push(record("only", 0, 1, true));
    assert_eq!(small.paginate(24).len(), 1);
}

#[test]
fn file_open_groups_by_opener() {
    let mut t = Tasks::start();
    let rules = OpenRules {
        rules: vec![
            OpenRule {
                name: "*".to_string(),
                mime: "text/plain".to_string(),
                opener: Opener { run: "editor".to_string(), spread: true },
            },
            OpenRule {
                name: "*".to_string(),
                mime: "video/mp4".to_string(),
                opener: Opener { run: "player".to_string(), spread: false },
            },
        ],
    };
    let targets = vec![
        (local(&["a.txt"]), "text/plain".to_string()),
        (local(&["v1.mp4"]), "video/mp4".to_string()),
        (local(&["b.txt"]), "text/plain".to_string()),
        (local(&["v2.mp4"]), "video/mp4".to_string()),
        (local(&["x.bin"]), "application/x-random".to_string()),
    ];
    assert!(!t.file_open(&targets, &rules));
    // The spreading editor gets one invocation with both texts; the
    // player one invocation per video; the unclaimed target is dropped.
    assert_eq!(t.scheduler.queued.len(), 3);
    match &t.scheduler.queued[0] {
        TaskOp::ProcessOpen { run, args } => {
            assert_eq!(run, "editor");
            assert_eq!(*args, vec![local(&["a.txt"]), local(&["b.txt"])]);
        },
        _ => panic!("expected an open task"),
    }
    match &t.scheduler.queued[1] {
        TaskOp::ProcessOpen { run, args } => {
            assert_eq!(run, "player");
            assert_eq!(*args, vec![local(&["v1.mp4"])]);
        },
        _ => panic!("expected an open task"),
    }
    match &t.scheduler.queued[2] {
        TaskOp::ProcessOpen { run, args } => {
            assert_eq!(run, "player");
            assert_eq!(*args, vec![local(&["v2.mp4"])]);
        },
        _ => panic!("expected an open task"),
    }
}

#[test]
fn file_open_resolves_by_name_before_mime() {
    let mut t = Tasks::start();
    let rules = OpenRules {
        rules: vec![
            OpenRule {
                name: "Makefile".to_string(),
                mime: "*".to_string(),
                opener: Opener { run: "make".to_string(), spread: false },
            },
            OpenRule {
                name: "*".to_string(),
                mime: "text/plain".to_string(),
                opener: Opener { run: "editor".to_string(), spread: false },
            },
        ],
    };
    let targets = vec![
        (local(&["proj", "Makefile"]), "text/plain".to_string()),
        (local(&["proj", "notes.txt"]), "text/plain".to_string()),
    ];
    assert!(!t.file_open(&targets, &rules));
    assert_eq!(t.scheduler.queued.len(), 2);
    assert!(matches!(&t.scheduler.queued[0], TaskOp::ProcessOpen { run, .. } if run == "make"));
    assert!(matches!(&t.scheduler.queued[1], TaskOp::ProcessOpen { run, .. } if run == "editor"));
}

#[test]
fn file_open_with_spread_batches_arguments() {
    let mut t = Tasks::start();
    let spread = Opener { run: "editor".to_string(), spread: true };
    let args = vec![local(&["a"]), local(&["b"])];
    assert!(!t.file_open_with(&spread, &args));
    assert_eq!(t.scheduler.queued.len(), 1);
    let single = Opener { run: "player".to_string(), spread: false };
    assert!(!t.file_open_with(&single, &args));
    assert_eq!(t.scheduler.queued.len(), 3);
}
