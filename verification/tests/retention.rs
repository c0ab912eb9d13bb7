//! Retention: the oldest stamped artifacts beyond the keep count are chosen,
//! ties go lexicographically, and unstamped names are never touched.

use bacup::retention::retention_victims;

fn names(v: &[&str]) -> Vec<String> {
    v.iter().map(|s| String::from(*s)).collect()
}

#[test]
fn oldest_beyond_keep_are_chosen() {
    let listing = names(&[
        "2025-03-01-02.30-main-dump.sql.gz",
        "2025-01-01-02.30-main-dump.sql.gz",
        "2025-04-01-02.30-main-dump.sql.gz",
        "2025-02-01-02.30-main-dump.sql.gz",
    ]);
    let victims = retention_victims(&listing, 3);
    assert_eq!(victims, names(&["2025-01-01-02.30-main-dump.sql.gz"]));
    let victims = retention_victims(&listing, 1);
    assert_eq!(victims, names(&[
        "2025-01-01-02.30-main-dump.sql.gz",
        "2025-02-01-02.30-main-dump.sql.gz",
        "2025-03-01-02.30-main-dump.sql.gz",
    ]));
}

#[test]
fn at_or_under_keep_deletes_nothing() {
    let listing = names(&[
        "2025-03-01-02.30-a.gz",
        "2025-01-01-02.30-a.gz",
    ]);
    assert_eq!(retention_victims(&listing, 2).len(), 0);
    assert_eq!(retention_victims(&listing, 5).len(), 0);
    assert_eq!(retention_victims(&Vec::new(), 0).len(), 0);
}

#[test]
fn unstamped_names_are_never_touched() {
    let listing = names(&[
        "README",
        "2025-01-01-02.30-a.gz",
        "latest.gz",
        "2025-02-01-02.30-a.gz",
    ]);
    let victims = retention_victims(&listing, 1);
    assert_eq!(victims, names(&["2025-01-01-02.30-a.gz"]));
}

#[test]
fn equal_stamps_break_ties_by_name() {
    let listing = names(&[
        "2025-01-01-02.30-b.gz",
        "2025-01-01-02.30-a.gz",
        "2025-01-01-02.30-c.gz",
    ]);
    let victims = retention_victims(&listing, 1);
    assert_eq!(victims, names(&["2025-01-01-02.30-a.gz", "2025-01-01-02.30-b.gz"]));
}

#[test]
fn stamps_deeper_in_a_path_count() {
    let listing = names(&[
        "backups/2025-02-01-02.30-a.gz",
        "backups/2025-01-01-02.30-a.gz",
    ]);
    let victims = retention_victims(&listing, 1);
    assert_eq!(victims, names(&["backups/2025-01-01-02.30-a.gz"]));
}
