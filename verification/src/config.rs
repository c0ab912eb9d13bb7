//! The configuration document's data model: one section kind per remote and
//! service family, the backup entries that wire them together, and the check
//! that every entry's `what` and `where` name something that was configured.

use vstd::prelude::*;

verus! {

/// A version-control destination section.
#[derive(Clone, Debug)]
pub struct GitConfig {
    pub host: String,
    pub port: u16,
    pub username: String,
    pub private_key: String,
    pub repository: String,
    pub branch: String,
}

/// A secure-shell destination section.
#[derive(Clone, Debug)]
pub struct SshConfig {
    pub host: String,
    pub port: u16,
    pub username: String,
    pub private_key: String,
}

/// An object-bucket destination section.
#[derive(Clone, Debug)]
pub struct AwsConfig {
    pub region: String,
    pub endpoint: Option<String>,
    pub access_key: String,
    pub secret_key: String,
    pub force_path_style: Option<bool>,
}

/// A cloud-account section kept for configuration compatibility.
#[derive(Clone, Debug)]
pub struct GCloudConfig {
    pub service_account_path: String,
}

/// A relational-database source section.
#[derive(Clone, Debug)]
pub struct PostgreSqlConfig {
    pub username: String,
    pub db_name: String,
    pub host: Option<String>,
    pub port: Option<u16>,
}

/// A container-exec source section.
#[derive(Clone, Debug)]
pub struct DockerConfig {
    pub container_name: String,
    pub command: String,
}

/// A glob-folder source section.
#[derive(Clone, Debug)]
pub struct FoldersConfig {
    pub pattern: String,
}

/// One backup entry: what to back up, where to send it, when, and how.
#[derive(Clone, Debug)]
pub struct BackupConfig {
    pub what: String,
    pub where_to: String,
    pub when: String,
    pub remote_path: String,
    pub compress: bool,
    pub keep_last: Option<u32>,
}

/// A local-directory destination section.
#[derive(Clone, Debug)]
pub struct LocalhostConfig {
    pub path: String,
}

/// The whole configuration document: named sections per family, and the
/// backup entries that reference them.
#[derive(Debug)]
pub struct Config {
    pub aws: Option<Vec<(String, AwsConfig)>>,
    pub gcloud: Option<Vec<(String, GCloudConfig)>>,
    pub ssh: Option<Vec<(String, SshConfig)>>,
    pub git: Option<Vec<(String, GitConfig)>>,
    pub localhost: Option<Vec<(String, LocalhostConfig)>>,
    pub folders: Option<Vec<(String, FoldersConfig)>>,
    pub postgres: Option<Vec<(String, PostgreSqlConfig)>>,
    pub docker: Option<Vec<(String, DockerConfig)>>,
    pub backup: Vec<(String, BackupConfig)>,
}

/// A backup entry that names a source or destination nobody configured. The
/// error carries the names that would have been accepted.
#[derive(Debug)]
pub enum WiringError {
    UnknownWhat { requested: String, available: Vec<String> },
    UnknownWhere { requested: String, available: Vec<String> },
}

/// `name` occurs in `names`.
pub open spec fn name_listed(names: Seq<String>, name: Seq<char>) -> bool {
    exists|i: int| 0 <= i < names.len() && names[i]@ == name
}

/// Is `name` one of `names`, executably.
pub fn contains_name(names: &Vec<String>, name: &String) -> (r: bool)
    ensures
        r == name_listed(names@, name@),
{
    let mut i: usize = 0;
    while i < names.len()
        invariant
            i <= names@.len(),
            forall|j: int| 0 <= j < i ==> names@[j]@ != name@,
        decreases names@.len() - i,
    {
        if names[i] == *name {
            return true;
        }
        i = i + 1;
    }
    false
}

/// Checks one backup entry against the configured source and destination
/// names: accepted exactly when both its `what` and its `where` were
/// configured; a rejection names the offender and lists what is available.
pub fn validate_backup_wiring(cfg: &BackupConfig, services: &Vec<String>, remotes: &Vec<String>)
    -> (r: Result<(), WiringError>)
    ensures
        match r {
            Ok(()) => name_listed(services@, cfg.what@) && name_listed(remotes@, cfg.where_to@),
            Err(e) => match e {
                WiringError::UnknownWhat { requested, available } => {
                    &&& !name_listed(services@, cfg.what@)
                    &&& requested@ == cfg.what@
                    &&& same_names(available@, services@)
                },
                WiringError::UnknownWhere { requested, available } => {
                    &&& name_listed(services@, cfg.what@)
                    &&& !name_listed(remotes@, cfg.where_to@)
                    &&& requested@ == cfg.where_to@
                    &&& same_names(available@, remotes@)
                },
            },
        },
{
    if !contains_name(services, &cfg.what) {
        return Err(
            WiringError::UnknownWhat {
                requested: cfg.what.clone(),
                available: clone_names(services),
            },
        );
    }
    if !contains_name(remotes, &cfg.where_to) {
        return Err(
            WiringError::UnknownWhere {
                requested: cfg.where_to.clone(),
                available: clone_names(remotes),
            },
        );
    }
    Ok(())
}

/// The two lists hold the same names, in the same order.
pub open spec fn same_names(a: Seq<String>, b: Seq<String>) -> bool {
    a.len() == b.len() && forall|i: int| 0 <= i < a.len() ==> a[i]@ == #[trigger] b[i]@
}

/// Copies a list of names.
fn clone_names(names: &Vec<String>) -> (r: Vec<String>)
    ensures
        same_names(r@, names@),
{
    let mut out: Vec<String> = Vec::new();
    let mut i: usize = 0;
    while i < names.len()
        invariant
            i <= names@.len(),
            out@.len() == i,
            forall|j: int| 0 <= j < i ==> out@[j]@ == #[trigger] names@[j]@,
        decreases names@.len() - i,
    {
        out.push(names[i].clone());
        i = i + 1;
    }
    out
}

} // verus!
