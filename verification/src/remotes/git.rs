//! The version-control destination: uploads become a commit pushed to the
//! configured branch. The adapter's decisions — the clone address, the
//! working-copy directory, which paths are copied in (never the repository's
//! own metadata), and the exact command sequence ending in the snapshot
//! commit — are all here; running the commands is the runtime's work.

use vstd::prelude::*;

verus! {

use crate::config::GitConfig;
use crate::paths::{file_name_of, join};
use crate::text::{dec_nat, has_sub, match_at};

/// Why a version-control destination is refused or fails.
#[derive(Debug)]
pub enum Error {
    InvalidPrivateKey(String),
    CommandNotFound(String),
    RuntimeError(String),
    DoesNotExist(String),
}

/// Carries a secure-shell failure over, kind for kind: the dial check is
/// shared with the secure-shell destination.
pub fn from_ssh_error(e: crate::remotes::ssh::Error) -> (r: Error)
    ensures
        match e {
            crate::remotes::ssh::Error::InvalidPrivateKey(m) => r
                matches Error::InvalidPrivateKey(n) && n@ == m@,
            crate::remotes::ssh::Error::CommandNotFound(m) => r matches Error::CommandNotFound(n)
                && n@ == m@,
            crate::remotes::ssh::Error::RuntimeError(m) => r matches Error::RuntimeError(n) && n@
                == m@,
        },
{
    match e {
        crate::remotes::ssh::Error::InvalidPrivateKey(m) => Error::InvalidPrivateKey(m),
        crate::remotes::ssh::Error::CommandNotFound(m) => Error::CommandNotFound(m),
        crate::remotes::ssh::Error::RuntimeError(m) => Error::RuntimeError(m),
    }
}

/// The commit message every snapshot push carries.
pub open spec fn snapshot_message() -> Seq<char> {
    "[bacup] snapshot"@
}

/// A path names the repository's own metadata: some component is `.git`.
pub open spec fn has_git_component(p: Seq<char>) -> bool {
    ||| p == ".git"@
    ||| match_at(p, ".git/"@, 0)
    ||| p.len() >= 5 && match_at(p, "/.git"@, p.len() - 5)
    ||| has_sub(p, "/.git/"@)
}

/// Does some component of the path name the repository's own metadata.
pub fn is_git_path(p: &Vec<char>) -> (r: bool)
    ensures
        r == has_git_component(p@),
{
    proof {
        reveal_strlit(".git");
        reveal_strlit(".git/");
        reveal_strlit("/.git");
        reveal_strlit("/.git/");
    }
    let dot = crate::text::chars_of(".git");
    let head = crate::text::chars_of(".git/");
    let tail = crate::text::chars_of("/.git");
    let inner = crate::text::chars_of("/.git/");
    if crate::text::chars_eq(p, &dot) {
        return true;
    }
    if p.len() >= 5 {
        if crate::text::matches_at(p, &head, 0) {
            return true;
        }
        if crate::text::matches_at(p, &tail, p.len() - 5) {
            return true;
        }
    }
    if crate::text::contains_sub(p, &inner) {
        return true;
    }
    false
}

/// A version-control destination: the operator's name for it, its dial and
/// repository configuration, and the resolved tool path.
#[derive(Clone, Debug)]
pub struct Git {
    pub remote_name: String,
    pub config: GitConfig,
    pub git_cmd: String,
}

impl Git {
    /// The symbolic name the operator gave this destination.
    pub fn name(&self) -> (r: String)
        ensures
            r@ == self.remote_name@,
    {
        self.remote_name.clone()
    }

    /// The address the repository is cloned from:
    /// `ssh://user@host:port/repository`.
    pub fn clone_url(&self) -> (r: String)
        ensures
            r@ == "ssh://"@ + self.config.username@ + "@"@ + self.config.host@ + ":"@ + dec_nat(
                self.config.port as nat,
            ) + "/"@ + self.config.repository@,
    {
        let mut out = crate::text::chars_of("ssh://");
        let user = crate::text::chars_of(self.config.username.as_str());
        crate::text::push_all(&mut out, &user);
        let at = crate::text::chars_of("@");
        crate::text::push_all(&mut out, &at);
        let host = crate::text::chars_of(self.config.host.as_str());
        crate::text::push_all(&mut out, &host);
        let colon = crate::text::chars_of(":");
        crate::text::push_all(&mut out, &colon);
        crate::text::push_dec_u64(&mut out, self.config.port as u64);
        let slash = crate::text::chars_of("/");
        crate::text::push_all(&mut out, &slash);
        let repo = crate::text::chars_of(self.config.repository.as_str());
        crate::text::push_all(&mut out, &repo);
        proof {
            assert(out@ =~= "ssh://"@ + self.config.username@ + "@"@ + self.config.host@ + ":"@
                + dec_nat(self.config.port as nat) + "/"@ + self.config.repository@);
        }
        crate::text::string_of(&out)
    }

    /// The working copy's directory name: the repository path's last
    /// component.
    pub fn repo_dir(&self) -> (r: String)
        ensures
            r@ == file_name_of(self.config.repository@),
    {
        let rc = crate::text::chars_of(self.config.repository.as_str());
        let out = crate::paths::file_name_chars(&rc);
        crate::text::string_of(&out)
    }

    /// Where files land inside the working copy: the remote path, made
    /// relative, under the working copy's directory.
    pub fn dest_dir(&self, remote_path: &str) -> (r: String)
        requires
            remote_path@.len() > 0 && remote_path@[0] == '/',
        ensures
            r@ == join(file_name_of(self.config.repository@), remote_path@.skip(1)),
    {
        let repo = self.repo_dir();
        let rc = crate::text::chars_of(remote_path);
        let rel = crate::paths::sub_chars(&rc, 1, rc.len());
        proof {
            assert(rc@.subrange(1, rc@.len() as int) =~= rc@.skip(1));
        }
        let repoc = crate::text::chars_of(repo.as_str());
        let out = crate::paths::join_chars(&repoc, &rel);
        crate::text::string_of(&out)
    }

    /// The clone command's arguments: a shallow clone of the address.
    pub fn clone_args(&self) -> (r: Vec<String>)
        ensures
            r@.len() == 4,
            r@[0]@ == "clone"@,
            r@[1]@ == "ssh://"@ + self.config.username@ + "@"@ + self.config.host@ + ":"@ + dec_nat(
                self.config.port as nat,
            ) + "/"@ + self.config.repository@,
            r@[2]@ == "--depth"@,
            r@[3]@ == "1"@,
    {
        let mut out: Vec<String> = Vec::new();
        out.push(String::from_str("clone"));
        out.push(self.clone_url());
        out.push(String::from_str("--depth"));
        out.push(String::from_str("1"));
        out
    }

    /// The command sequence a snapshot push runs inside the working copy:
    /// switch to the branch, pull it, stage everything, commit the snapshot
    /// message, and push the branch.
    pub fn push_sequence(&self) -> (r: Vec<Vec<String>>)
        ensures
            r@.len() == 5,
            r@[0]@.len() == 3 && r@[0]@[0]@ == "switch"@ && r@[0]@[1]@ == "-c"@ && r@[0]@[2]@
                == self.config.branch@,
            r@[1]@.len() == 3 && r@[1]@[0]@ == "pull"@ && r@[1]@[1]@ == "origin"@ && r@[1]@[2]@
                == self.config.branch@,
            r@[2]@.len() == 3 && r@[2]@[0]@ == "add"@ && r@[2]@[1]@ == "."@ && r@[2]@[2]@ == "-A"@,
            r@[3]@.len() == 3 && r@[3]@[0]@ == "commit"@ && r@[3]@[1]@ == "-m"@ && r@[3]@[2]@
                == snapshot_message(),
            r@[4]@.len() == 3 && r@[4]@[0]@ == "push"@ && r@[4]@[1]@ == "origin"@ && r@[4]@[2]@
                == self.config.branch@,
    {
        let mut out: Vec<Vec<String>> = Vec::new();
        let mut c0: Vec<String> = Vec::new();
        c0.push(String::from_str("switch"));
        c0.push(String::from_str("-c"));
        c0.push(self.config.branch.clone());
        out.push(c0);
        let mut c1: Vec<String> = Vec::new();
        c1.push(String::from_str("pull"));
        c1.push(String::from_str("origin"));
        c1.push(self.config.branch.clone());
        out.push(c1);
        let mut c2: Vec<String> = Vec::new();
        c2.push(String::from_str("add"));
        c2.push(String::from_str("."));
        c2.push(String::from_str("-A"));
        out.push(c2);
        let mut c3: Vec<String> = Vec::new();
        c3.push(String::from_str("commit"));
        c3.push(String::from_str("-m"));
        c3.push(String::from_str("[bacup] snapshot"));
        out.push(c3);
        let mut c4: Vec<String> = Vec::new();
        c4.push(String::from_str("push"));
        c4.push(String::from_str("origin"));
        c4.push(self.config.branch.clone());
        out.push(c4);
        out
    }

    /// The paths a folder upload copies into the working copy: everything
    /// the source listed except the repository metadata, each named by its
    /// last component under the destination directory.
    pub fn copy_targets(&self, paths: &Vec<String>, dest: &str) -> (r: Vec<(String, String)>)
        ensures
            r@.len() == kept_paths(paths@).len(),
            forall|i: int|
                0 <= i < r@.len() ==> (#[trigger] r@[i]).0@ == kept_paths(paths@)[i] && r@[i].1@
                    == join(dest@, file_name_of(kept_paths(paths@)[i])),
    {
        let destc = crate::text::chars_of(dest);
        let mut out: Vec<(String, String)> = Vec::new();
        let mut i: usize = 0;
        while i < paths.len()
            invariant
                i <= paths@.len(),
                out@.len() == kept_paths(paths@.take(i as int)).len(),
                forall|j: int|
                    0 <= j < out@.len() ==> (#[trigger] out@[j]).0@ == kept_paths(
                        paths@.take(i as int),
                    )[j] && out@[j].1@ == join(dest@, file_name_of(
                        kept_paths(paths@.take(i as int))[j],
                    )),
                destc@ == dest@,
            decreases paths@.len() - i,
        {
            let ghost pre = kept_paths(paths@.take(i as int));
            let pc = crate::text::chars_of(paths[i].as_str());
            if !is_git_path(&pc) {
                let fname = crate::paths::file_name_chars(&pc);
                let tc = crate::paths::join_chars(&destc, &fname);
                out.push((paths[i].clone(), crate::text::string_of(&tc)));
            }
            proof {
                assert(paths@.take(i + 1 as int).drop_last() =~= paths@.take(i as int));
                assert(paths@.take(i + 1 as int).last() == paths@[i as int]);
            }
            i = i + 1;
        }
        proof {
            assert(paths@.take(paths@.len() as int) =~= paths@);
        }
        out
    }
}

/// The listed paths a snapshot keeps: those with no `.git` component, in
/// listing order.
pub open spec fn kept_paths(paths: Seq<String>) -> Seq<Seq<char>>
    decreases paths.len(),
{
    if paths.len() == 0 {
        seq![]
    } else {
        let rest = kept_paths(paths.drop_last());
        if has_git_component(paths.last()@) {
            rest
        } else {
            rest.push(paths.last()@)
        }
    }
}

} // verus!
