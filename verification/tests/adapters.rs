//! The adapters' verified decisions: configuration wiring, source argument
//! building, the secure-shell command texts, the version-control push
//! sequence, and the folder source's pattern validation.

use bacup::config::{BackupConfig, SshConfig, GitConfig, WiringError};
use bacup::config::validate_backup_wiring;
use bacup::remotes::git::Git;
use bacup::remotes::ssh;
use bacup::services::docker;
use bacup::services::folders::{Error as FolderError, Folder};
use bacup::services::postgresql;
use bacup::timestamp::Timestamp;

#[test]
fn missing_names_fail_with_the_available_ones() {
    let cfg = BackupConfig {
        what: String::from("postgres.missing"),
        where_to: String::from("localhost.backup"),
        when: String::from("daily 03:15"),
        remote_path: String::from("/"),
        compress: false,
        keep_last: None,
    };
    let services = vec![String::from("folders.home"), String::from("postgres.main")];
    let remotes = vec![String::from("localhost.backup")];
    match validate_backup_wiring(&cfg, &services, &remotes) {
        Err(WiringError::UnknownWhat { requested, available }) => {
            assert_eq!(requested, "postgres.missing");
            assert_eq!(available, services);
        },
        _ => panic!("expected the unknown source to be reported"),
    }

    let cfg = BackupConfig { what: String::from("postgres.main"), ..cfg };
    assert!(validate_backup_wiring(&cfg, &services, &remotes).is_ok());

    let cfg = BackupConfig { where_to: String::from("aws.missing"), ..cfg };
    match validate_backup_wiring(&cfg, &services, &remotes) {
        Err(WiringError::UnknownWhere { requested, available }) => {
            assert_eq!(requested, "aws.missing");
            assert_eq!(available, remotes);
        },
        _ => panic!("expected the unknown destination to be reported"),
    }
}

#[test]
fn version_control_pushes_the_snapshot_commit() {
    let git = Git {
        remote_name: String::from("repo"),
        config: GitConfig {
            host: String::from("example.net"),
            port: 22,
            username: String::from("backup"),
            private_key: String::from("/home/backup/.ssh/id"),
            repository: String::from("infra/snapshots"),
            branch: String::from("main"),
        },
        git_cmd: String::from("/usr/bin/git"),
    };
    assert_eq!(git.clone_url(), "ssh://backup@example.net:22/infra/snapshots");
    assert_eq!(git.clone_args(), vec!["clone", "ssh://backup@example.net:22/infra/snapshots", "--depth", "1"]);
    assert_eq!(git.repo_dir(), "snapshots");
    assert_eq!(git.dest_dir("/site/assets"), "snapshots/site/assets");
    let seq = git.push_sequence();
    assert_eq!(seq[0], vec!["switch", "-c", "main"]);
    assert_eq!(seq[1], vec!["pull", "origin", "main"]);
    assert_eq!(seq[2], vec!["add", ".", "-A"]);
    assert_eq!(seq[3], vec!["commit", "-m", "[bacup] snapshot"]);
    assert_eq!(seq[4], vec!["push", "origin", "main"]);
}

#[test]
fn repository_metadata_is_never_copied() {
    let git = Git {
        remote_name: String::from("repo"),
        config: GitConfig {
            host: String::from("example.net"),
            port: 22,
            username: String::from("backup"),
            private_key: String::from("/k"),
            repository: String::from("snapshots"),
            branch: String::from("main"),
        },
        git_cmd: String::from("git"),
    };
    let paths = vec![
        String::from("/work/site/index.html"),
        String::from("/work/site/.git"),
        String::from("/work/site/.git/config"),
        String::from("/work/site/data.gitignore-like"),
    ];
    let targets = git.copy_targets(&paths, "snapshots/site");
    assert_eq!(targets.len(), 2);
    assert_eq!(targets[0].0, "/work/site/index.html");
    assert_eq!(targets[0].1, "snapshots/site/index.html");
    assert_eq!(targets[1].0, "/work/site/data.gitignore-like");
}

#[test]
fn secure_shell_commands_are_exact() {
    let config = SshConfig {
        host: String::from("example.org"),
        port: 2222,
        username: String::from("backup"),
        private_key: String::from("/key"),
    };
    assert_eq!(ssh::connection_args(&config), vec!["-p2222", "backup@example.org"]);
    assert_eq!(ssh::find_command("/srv/backups"), "find /srv/backups/*");
    assert_eq!(ssh::rm_command("/srv/backups/old.gz"), "rm -r /srv/backups/old.gz");
    assert_eq!(ssh::stream_command("/srv/backups/new"), "cat > /srv/backups/new");
    let ts = Timestamp { year: 2025, month: 3, day: 1, hour: 2, minute: 30 };
    assert_eq!(
        ssh::compressed_stream_command("/srv/backups/main-dump.sql", &ts),
        "cat > /srv/backups/2025-03-01-02.30-main-dump.sql.gz "
    );
    assert_eq!(
        ssh::rsync_args(&config, "/data/app", "/srv/backups/app"),
        vec!["-az", "-e", "ssh -p 2222", "/data/app", "backup@example.org:/srv/backups/app", "--delete"]
    );
    assert_eq!(
        ssh::parse_listing("/srv/a.gz\n/srv/b.gz\n"),
        vec![String::from("/srv/a.gz"), String::from("/srv/b.gz")]
    );
}

#[test]
fn encrypted_keys_are_refused() {
    assert!(ssh::validate_private_key("/k", "plain ssh key material").is_ok());
    let encrypted = "Proc-Type: 4,ENCRYPTED\nDEK-Info: AES-128-CBC";
    assert!(ssh::validate_private_key("/k", encrypted).is_err());
    // One marker alone does not make a passphrase-protected key.
    assert!(ssh::validate_private_key("/k", "mentions ENCRYPTED only").is_ok());
}

#[test]
fn database_probe_reading() {
    assert!(postgresql::interpret_probe("db", "u", " 1 ", "").is_ok());
    assert!(postgresql::interpret_probe("db", "u", "0", "").is_err());
    assert!(postgresql::interpret_probe("db", "u", " 0 ", "").is_err());
    assert!(postgresql::interpret_probe("db", "u", "1", "connection refused").is_err());
    assert_eq!(postgresql::dump_file_name("main"), "main-dump.sql");
    assert_eq!(
        postgresql::db_exists_query("main"),
        "SELECT 1 FROM pg_database WHERE datname='main'"
    );
    assert_eq!(
        postgresql::connect_args("localhost", 5432, "postgres", "main"),
        vec!["--host", "localhost", "--port", "5432", "--username", "postgres", "--dbname", "main"]
    );
}

#[test]
fn container_arguments_are_exact() {
    assert_eq!(docker::probe_args(), vec!["run", "--rm", "hello-world"]);
    assert_eq!(
        docker::exec_args("maindb", "pg_dumpall -U postgres"),
        vec!["exec", "-t", "maindb", "pg_dumpall", "-U", "postgres"]
    );
    assert_eq!(docker::dump_file_name("svc"), "svc.dump");
}

#[test]
fn test_new_relative() {
    let relative = "relative";
    assert!(Folder::new(relative).is_err());
    assert_eq!(
        Folder::new(relative).err(),
        Some(FolderError::IsNotAbsolute(String::from(relative)))
    );
}

#[test]
fn wildcard_bases_are_validated() {
    // The fixed part before the wildcard must be absolute.
    assert!(Folder::new("data/**/*").is_err());
    match Folder::new("data/**/*").err().unwrap() {
        FolderError::IsNotAbsolute(p) => assert_eq!(p, "data/"),
        e => panic!("unexpected refusal: {:?}", e),
    }
    // A folder source over a directory that exists everywhere.
    let f = Folder::new("/").unwrap();
    assert_eq!(f.pattern, "/**/*");
    // A missing absolute base is reported as such.
    match Folder::new("/surely/not/present/anywhere99").err().unwrap() {
        FolderError::DoesNotExist(p) => assert_eq!(p, "/surely/not/present/anywhere99"),
        e => panic!("unexpected refusal: {:?}", e),
    }
}

#[test]
fn folder_dumps_carry_no_path() {
    let f = Folder { pattern: String::from("/tmp/**/*") };
    let d = f.dump().unwrap();
    assert!(d.path.is_none());
}

#[test]
fn secure_shell_failures_carry_over_to_version_control() {
    let e = ssh::Error::InvalidPrivateKey(String::from("protected"));
    assert!(matches!(
        bacup::remotes::git::from_ssh_error(e),
        bacup::remotes::git::Error::InvalidPrivateKey(m) if m == "protected"
    ));
    let e = ssh::Error::CommandNotFound(String::from("no shell"));
    assert!(matches!(
        bacup::remotes::git::from_ssh_error(e),
        bacup::remotes::git::Error::CommandNotFound(m) if m == "no shell"
    ));
    let e = ssh::Error::RuntimeError(String::from("broken pipe"));
    assert!(matches!(
        bacup::remotes::git::from_ssh_error(e),
        bacup::remotes::git::Error::RuntimeError(m) if m == "broken pipe"
    ));
}

#[test]
fn stamped_names_at_this_minute_are_stamped() {
    // The clock-driven names still parse back as stamped artifacts.
    let name = bacup::remotes::remote::remote_compressed_file_path_now("/backups/main-dump.sql");
    let base = name.rsplit('/').next().unwrap();
    let chars: Vec<char> = base.chars().collect();
    assert!(bacup::timestamp::read_stamp(&chars).is_some());
    assert!(base.ends_with("-main-dump.sql.gz"));
    let name = bacup::remotes::remote::remote_archive_path_now("/sites/site");
    assert!(name.ends_with("-site.tar.gz"));
}
