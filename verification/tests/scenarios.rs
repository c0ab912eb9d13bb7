//! Whole-pipeline scenarios: a weekly compressed folder shipped to an object
//! bucket, and a monthly database dump shipped over a secure shell with
//! retention.

use bacup::backup::Backup;
use bacup::pipeline::{plan_uploads, LocalEntry, Phase, TickAction, TickEvent, TickMachine, UploadOp};
use bacup::remotes::aws::s3_key_of;
use bacup::remotes::remote::remote_archive_path;
use bacup::retention::retention_victims;
use bacup::services::postgresql::dump_file_name;
use bacup::timestamp::Timestamp;

#[test]
fn weekly_compressed_folder_to_object_bucket() {
    // The cadence compiles to Sunday four o'clock.
    assert_eq!(Backup::parse_when("weekly sun 04:00").unwrap(), "0 0 4 * * 7 *");

    // The folder collapses to one compressed tree.
    let entries = vec![LocalEntry { path: String::from("/srv/site"), is_dir: true }];
    let plan = plan_uploads(&entries, true, &String::from("/sites/site"));
    let remote = match &plan[0] {
        UploadOp::FolderCompressed { local, remote } => {
            assert_eq!(local, "/srv/site");
            remote.clone()
        },
        _ => panic!("expected a compressed folder upload"),
    };
    assert_eq!(remote, "/sites/site/site");

    // At 04:00 UTC that Sunday, the archive's bucket key is the stamped one.
    let ts = Timestamp { year: 2025, month: 1, day: 5, hour: 4, minute: 0 };
    let stamped = remote_archive_path("/sites/site", &ts);
    assert_eq!(s3_key_of(&stamped), "sites/2025-01-05-04.00-site.tar.gz");
}

#[test]
fn monthly_database_dump_with_retention() {
    // The cadence compiles to the first of the month, half past two.
    assert_eq!(Backup::parse_when("monthly 1 02:30").unwrap(), "0 30 2 1 * * *");

    // The dump artifact is named after the source.
    assert_eq!(dump_file_name("main"), "main-dump.sql");

    // One tick: dump, list, compressed upload, retention, release.
    let mut machine = TickMachine::new(true, String::from("/backups"), Some(3));
    machine.step(TickEvent::FireDue);
    machine.step(TickEvent::DumpDone(Ok(Some(String::from("/work/main-dump.sql")))));
    let listing = vec![LocalEntry { path: String::from("/work/main-dump.sql"), is_dir: false }];
    let acts = machine.step(TickEvent::Listed(listing));
    assert!(matches!(
        &acts[0],
        TickAction::Upload(UploadOp::FileCompressed { local, remote })
            if local == "/work/main-dump.sql" && remote == "/backups/main-dump.sql"
    ));
    let acts = machine.step(TickEvent::UploadDone(true));
    assert!(matches!(&acts[0], TickAction::Enumerate(d) if d == "/backups"));

    // Four stamped copies with keep_last three: the oldest goes.
    let names = vec![
        String::from("2025-01-01-02.30-main-dump.sql.gz"),
        String::from("2025-04-01-02.30-main-dump.sql.gz"),
        String::from("2025-03-01-02.30-main-dump.sql.gz"),
        String::from("2025-02-01-02.30-main-dump.sql.gz"),
    ];
    assert_eq!(
        retention_victims(&names, 3),
        vec![String::from("2025-01-01-02.30-main-dump.sql.gz")]
    );
    let acts = machine.step(TickEvent::Enumerated(Some(names)));
    assert!(matches!(
        &acts[0],
        TickAction::Delete(n) if n == "2025-01-01-02.30-main-dump.sql.gz"
    ));
    // The local dump file no longer exists after the tick: its release is
    // the tick's last action.
    assert!(matches!(
        &acts[1],
        TickAction::ReleaseDump(p) if p == "/work/main-dump.sql"
    ));
    assert!(matches!(machine.phase, Phase::Idle));
}
