//! The pipeline: classification of one firing into upload operations, the
//! folder path rewriting, and the per-backup tick machine's single-flight
//! and dump-release guarantees.

use bacup::pipeline::{
    plan_input_ok, plan_uploads, LocalEntry, Phase, TickAction, TickEvent, TickMachine, UploadOp,
};
use bacup::remotes::remote::folder_remote_paths;

fn entry(path: &str, is_dir: bool) -> LocalEntry {
    LocalEntry { path: String::from(path), is_dir }
}

#[test]
fn empty_listing_is_a_no_op() {
    let plan = plan_uploads(&Vec::new(), true, &String::from("/backups"));
    assert_eq!(plan.len(), 0);
}

#[test]
fn single_file_goes_by_name() {
    let entries = vec![entry("/data/app/notes.txt", false)];
    let plan = plan_uploads(&entries, false, &String::from("/backups"));
    assert_eq!(plan.len(), 1);
    assert!(matches!(
        &plan[0],
        UploadOp::File { local, remote }
            if local == "/data/app/notes.txt" && remote == "/backups/notes.txt"
    ));

    let plan = plan_uploads(&entries, true, &String::from("/backups"));
    assert!(matches!(
        &plan[0],
        UploadOp::FileCompressed { local, remote }
            if local == "/data/app/notes.txt" && remote == "/backups/notes.txt"
    ));
}

#[test]
fn single_directory_becomes_an_archive() {
    let entries = vec![entry("/srv/site", true)];
    let plan = plan_uploads(&entries, false, &String::from("/sites/site"));
    assert!(matches!(
        &plan[0],
        UploadOp::FolderCompressed { local, remote }
            if local == "/srv/site" && remote == "/sites/site/site"
    ));
}

#[test]
fn several_files_mirror_or_collapse() {
    let entries = vec![
        entry("/data/app", true),
        entry("/data/app/a.txt", false),
        entry("/data/app/docs/b.txt", false),
    ];
    assert!(plan_input_ok(&entries));

    // Uncompressed: the folder is mirrored as it stands.
    let plan = plan_uploads(&entries, false, &String::from("/"));
    assert_eq!(plan.len(), 1);
    assert!(matches!(
        &plan[0],
        UploadOp::Folder { locals, remote }
            if locals.len() == 3 && remote == "/"
    ));

    // Compressed: the tree collapses to its common prefix.
    let plan = plan_uploads(&entries, true, &String::from("/backups"));
    assert!(matches!(
        &plan[0],
        UploadOp::FolderCompressed { local, remote }
            if local == "/data" && remote == "/backups/data"
    ));
}

#[test]
fn listings_violating_the_source_contract_are_refused() {
    let stray = vec![entry("/data/app/a.txt", false), entry("/elsewhere/b.txt", false)];
    assert!(!plan_input_ok(&stray));
    let relative = vec![entry("data/app/a.txt", false)];
    assert!(!plan_input_ok(&relative));
}

#[test]
fn folder_paths_are_rewritten_under_the_prefix() {
    let locals = vec![String::from("/data/app/a.txt"), String::from("/data/app/docs/b.txt")];
    let dests = folder_remote_paths(&locals, &String::from("/var/backups"));
    assert_eq!(dests, vec![
        String::from("/var/backups/a.txt"),
        String::from("/var/backups/docs/b.txt"),
    ]);
    for d in &dests {
        assert!(d.starts_with("/var/backups/"));
    }
    // A single path is already the artifact: its remainder is empty, so it
    // lands at the base itself (written with the joining separator).
    let one = vec![String::from("/data/app/a.txt")];
    assert_eq!(folder_remote_paths(&one, &String::from("/var/backups")), vec![String::from(
        "/var/backups/"
    )]);
}

#[test]
fn single_flight_per_backup() {
    let mut m = TickMachine::new(false, String::from("/backups"), None);
    let acts = m.step(TickEvent::FireDue);
    assert_eq!(acts.len(), 1);
    assert!(matches!(acts[0], TickAction::Dump));
    // A second fire while the tick is in flight is dropped.
    let acts = m.step(TickEvent::FireDue);
    assert_eq!(acts.len(), 1);
    assert!(matches!(acts[0], TickAction::SkipFire));
    assert!(matches!(m.phase, Phase::Dumping));
}

#[test]
fn a_full_tick_releases_the_dump_and_retains() {
    let mut m = TickMachine::new(true, String::from("/backups"), Some(3));
    let acts = m.step(TickEvent::FireDue);
    assert!(matches!(acts[0], TickAction::Dump));
    let acts = m.step(TickEvent::DumpDone(Ok(Some(String::from("/work/main-dump.sql")))));
    assert!(matches!(acts[0], TickAction::List));
    let listing = vec![entry("/work/main-dump.sql", false)];
    let acts = m.step(TickEvent::Listed(listing));
    assert_eq!(acts.len(), 1);
    assert!(matches!(
        &acts[0],
        TickAction::Upload(UploadOp::FileCompressed { local, remote })
            if local == "/work/main-dump.sql" && remote == "/backups/main-dump.sql"
    ));
    let acts = m.step(TickEvent::UploadDone(true));
    assert!(matches!(&acts[0], TickAction::Enumerate(d) if d == "/backups"));
    let names = vec![
        String::from("2025-01-01-02.30-main-dump.sql.gz"),
        String::from("2025-02-01-02.30-main-dump.sql.gz"),
        String::from("2025-03-01-02.30-main-dump.sql.gz"),
        String::from("2025-04-01-02.30-main-dump.sql.gz"),
    ];
    let acts = m.step(TickEvent::Enumerated(Some(names)));
    assert_eq!(acts.len(), 2);
    assert!(matches!(
        &acts[0],
        TickAction::Delete(n) if n == "2025-01-01-02.30-main-dump.sql.gz"
    ));
    assert!(matches!(
        &acts[1],
        TickAction::ReleaseDump(p) if p == "/work/main-dump.sql"
    ));
    assert!(matches!(m.phase, Phase::Idle));
}

#[test]
fn a_failed_tick_still_releases_the_dump() {
    let mut m = TickMachine::new(false, String::from("/backups"), None);
    m.step(TickEvent::FireDue);
    m.step(TickEvent::DumpDone(Ok(Some(String::from("/work/svc.dump")))));
    // The listing comes back empty: the tick is a no-op, but the dump is
    // still released.
    let acts = m.step(TickEvent::Listed(Vec::new()));
    assert_eq!(acts.len(), 1);
    assert!(matches!(&acts[0], TickAction::ReleaseDump(p) if p == "/work/svc.dump"));
    assert!(matches!(m.phase, Phase::Idle));

    // A failed dump leaves nothing to release.
    m.step(TickEvent::FireDue);
    let acts = m.step(TickEvent::DumpDone(Err(String::from("dump tool failed"))));
    assert_eq!(acts.len(), 0);
    assert!(matches!(m.phase, Phase::Idle));
}

#[test]
fn daily_folder_to_local_directory() {
    // A daily uncompressed folder backup: every file lands verbatim under
    // the destination root.
    assert_eq!(
        bacup::backup::Backup::parse_when("daily 03:15").unwrap(),
        "0 15 3 * * * *"
    );
    let entries = vec![
        entry("/data/app", true),
        entry("/data/app/a.cfg", false),
        entry("/data/app/logs/b.log", false),
    ];
    let plan = plan_uploads(&entries, false, &String::from("/"));
    let locals = match &plan[0] {
        UploadOp::Folder { locals, remote } => {
            assert_eq!(remote, "/");
            locals.clone()
        },
        _ => panic!("expected a folder upload"),
    };
    let dest = bacup::remotes::localhost::Localhost {
        name: String::from("backup"),
        path: String::from("/var/backups"),
    };
    let base = dest.target("/");
    let dests = folder_remote_paths(&locals, &base);
    assert_eq!(dests, vec![
        String::from("/var/backups/app"),
        String::from("/var/backups/app/a.cfg"),
        String::from("/var/backups/app/logs/b.log"),
    ]);
}
