//! The local-directory destination: artifacts are copied under a root that
//! must be an absolute, existing directory. All of its path arithmetic —
//! where a remote name lands under the root — is here; the copies themselves
//! are plain filesystem work done by the runtime at the computed targets.

use vstd::prelude::*;

verus! {

use crate::config::LocalhostConfig;
use crate::paths::{file_name_of, join, parent_of, strip_prefix, path_starts_with};
use crate::timestamp::Timestamp;

/// Why a local-directory destination is refused at construction.
#[derive(Debug)]
pub enum Error {
    IsNotAbsolute(String),
    DoesNotExist(String),
    IsNotAFolder(String),
}

/// A remote path is made relative before it is joined under the root: one
/// leading separator is dropped.
pub open spec fn rootless(remote: Seq<char>) -> Seq<char> {
    if remote.len() > 0 && remote[0] == '/' {
        remote.skip(1)
    } else {
        remote
    }
}

/// Where a remote name lands under a local root.
pub open spec fn local_target(root: Seq<char>, remote: Seq<char>) -> Seq<char> {
    join(root, rootless(remote))
}

/// A local-directory destination: the operator's name for it, and the
/// absolute directory artifacts are copied under.
#[derive(Clone, Debug)]
pub struct Localhost {
    pub name: String,
    pub path: String,
}

impl Localhost {
    /// Accepts the configured root only when it is absolute and the disk
    /// shows an existing directory there. A relative root is refused as
    /// such whatever the disk holds; the two existence errors can only name
    /// the root they probed.
    pub fn new(config: LocalhostConfig, name: &str) -> (r: Result<Localhost, Error>)
        ensures
            match r {
                Ok(l) => {
                    &&& config.path@.len() > 0 && config.path@[0] == '/'
                    &&& l.name@ == name@
                    &&& l.path@ == config.path@
                },
                Err(e) => match e {
                    Error::IsNotAbsolute(p) => !(config.path@.len() > 0 && config.path@[0] == '/')
                        && p@ == config.path@,
                    Error::DoesNotExist(p) => (config.path@.len() > 0 && config.path@[0] == '/')
                        && p@ == config.path@,
                    Error::IsNotAFolder(p) => (config.path@.len() > 0 && config.path@[0] == '/')
                        && p@ == config.path@,
                },
            },
    {
        let pc = crate::text::chars_of(config.path.as_str());
        if pc.len() == 0 || pc[0] != '/' {
            return Err(Error::IsNotAbsolute(config.path));
        }
        if !crate::probe::fs_exists(config.path.as_str()) {
            return Err(Error::DoesNotExist(config.path));
        }
        if !crate::probe::fs_is_dir(config.path.as_str()) {
            return Err(Error::IsNotAFolder(config.path));
        }
        Ok(Localhost { name: name.to_string(), path: config.path })
    }

    /// The symbolic name the operator gave this destination.
    pub fn name(&self) -> (r: String)
        ensures
            r@ == self.name@,
    {
        self.name.clone()
    }

    /// Where a remote name lands under this root.
    pub fn target(&self, remote_path: &str) -> (r: String)
        ensures
            r@ == local_target(self.path@, remote_path@),
    {
        let rc = crate::text::chars_of(remote_path);
        let rel: Vec<char> = if rc.len() > 0 && rc[0] == '/' {
            let v = crate::paths::sub_chars(&rc, 1, rc.len());
            proof {
                assert(rc@.subrange(1, rc@.len() as int) =~= rc@.skip(1));
            }
            v
        } else {
            crate::paths::sub_chars(&rc, 0, rc.len())
        };
        proof {
            if !(rc@.len() > 0 && rc@[0] == '/') {
                assert(rc@.subrange(0, rc@.len() as int) =~= rc@);
            }
        }
        let root = crate::text::chars_of(self.path.as_str());
        let out = crate::paths::join_chars(&root, &rel);
        crate::text::string_of(&out)
    }

    /// Where a compressed file lands under this root: the stamped name, in
    /// the directory the remote path addresses.
    pub fn compressed_target(&self, remote_path: &str, ts: &Timestamp) -> (r: String)
        requires
            ts.wf(),
        ensures
            r@ == local_target(self.path@, crate::remotes::remote::compressed_file_name(
                remote_path@,
                *ts,
            )),
    {
        let stamped = crate::remotes::remote::remote_compressed_file_path(remote_path, ts);
        self.target(stamped.as_str())
    }

    /// The name this destination reports for an entry it holds: the entry's
    /// path relative to the root, when it lies under it.
    pub fn relative_name(&self, entry: &str) -> (r: Option<String>)
        ensures
            match r {
                Some(v) => strip_prefix(entry@, self.path@) == Some(v@),
                None => strip_prefix(entry@, self.path@).is_none(),
            },
    {
        let ec = crate::text::chars_of(entry);
        let root = crate::text::chars_of(self.path.as_str());
        match crate::paths::strip_prefix_chars(&ec, &root) {
            Some(v) => Some(crate::text::string_of(&v)),
            None => None,
        }
    }
}

} // verus!
