//! Artifact naming: the stamped names of compressed uploads, their
//! determinism within a minute, the embedded-stamp parser, and key
//! normalization.

use bacup::remotes::aws::s3_key_of;
use bacup::remotes::localhost::Localhost;
use bacup::remotes::remote::{remote_archive_path, remote_compressed_file_path};
use bacup::timestamp::{read_stamp, stamp_chars, Timestamp};

fn minute() -> Timestamp {
    Timestamp { year: 2025, month: 1, day: 5, hour: 4, minute: 0 }
}

#[test]
fn archive_names_are_stamped() {
    let ts = minute();
    assert_eq!(remote_archive_path("/sites/site", &ts), "/sites/2025-01-05-04.00-site.tar.gz");
    assert_eq!(
        remote_compressed_file_path("/backups/main-dump.sql", &ts),
        "/backups/2025-01-05-04.00-main-dump.sql.gz"
    );
    // A bare name lands beside itself, stamped.
    assert_eq!(remote_compressed_file_path("Cargo.toml", &ts), "2025-01-05-04.00-Cargo.toml.gz");
    // The root's child keeps the root as its parent.
    assert_eq!(remote_archive_path("/site", &ts), "/2025-01-05-04.00-site.tar.gz");
}

#[test]
fn naming_is_deterministic_within_the_minute() {
    let ts = minute();
    let a = remote_archive_path("/srv/data", &ts);
    let b = remote_archive_path("/srv/data", &ts);
    assert_eq!(a, b);
    let c = remote_compressed_file_path("/srv/data/file.bin", &ts);
    let d = remote_compressed_file_path("/srv/data/file.bin", &ts);
    assert_eq!(c, d);
    // Another minute, another name.
    let later = Timestamp { minute: 1, ..ts };
    assert_ne!(a, remote_archive_path("/srv/data", &later));
}

#[test]
fn zero_padding_is_exact() {
    let ts = Timestamp { year: 33, month: 11, day: 3, hour: 0, minute: 9 };
    assert_eq!(remote_archive_path("/x/y", &ts), "/x/0033-11-03-00.09-y.tar.gz");
}

#[test]
fn bucket_keys_lose_their_leading_separators() {
    assert_eq!(s3_key_of("/sites/2025-01-05-04.00-site.tar.gz"), "sites/2025-01-05-04.00-site.tar.gz");
    assert_eq!(s3_key_of("plain/key"), "plain/key");
    assert_eq!(s3_key_of("///a"), "a");
    assert_eq!(s3_key_of("/"), "");
}

#[test]
fn localhost_targets_land_under_the_root() {
    let dest = Localhost { name: String::from("backup"), path: String::from("/var/backups") };
    assert_eq!(dest.name(), "backup");
    assert_eq!(dest.target("/app/data.txt"), "/var/backups/app/data.txt");
    assert_eq!(dest.target("relative.txt"), "/var/backups/relative.txt");
    let ts = minute();
    assert_eq!(
        dest.compressed_target("/app/data.txt", &ts),
        "/var/backups/app/2025-01-05-04.00-data.txt.gz"
    );
    assert_eq!(
        dest.relative_name("/var/backups/app/data.txt"),
        Some(String::from("app/data.txt"))
    );
    assert_eq!(dest.relative_name("/elsewhere/file"), None);
}

#[test]
fn stamps_read_back() {
    let ts = minute();
    let mut name = stamp_chars(&ts);
    name.push('-');
    for c in "site.tar.gz".chars() {
        name.push(c);
    }
    let back = read_stamp(&name).unwrap();
    assert_eq!(back, ts);
    let plain: Vec<char> = "site.tar.gz".chars().collect();
    assert!(read_stamp(&plain).is_none());
}
