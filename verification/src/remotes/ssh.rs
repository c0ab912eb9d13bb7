//! The secure-shell destination: streaming uploads through a remote shell
//! and directory sync through an external sync tool. Everything the adapter
//! decides or composes — key validation, the argument lists, the remote
//! command texts, and the parsing of listings — is here; spawning the
//! processes is the runtime's work.

use vstd::prelude::*;

verus! {

use crate::config::SshConfig;
use crate::text::{dec_nat, has_sub, split_ws};
use crate::timestamp::Timestamp;

/// Why a secure-shell destination is refused or fails.
#[derive(Debug)]
pub enum Error {
    InvalidPrivateKey(String),
    CommandNotFound(String),
    RuntimeError(String),
}

/// An unencrypted private key: the two markers of a passphrase-protected
/// key are not both present.
pub open spec fn key_unencrypted(content: Seq<char>) -> bool {
    !(has_sub(content, "Proc-Type"@) && has_sub(content, "ENCRYPTED"@))
}

/// Accepts a private key's content only when it is not passphrase-protected.
pub fn validate_private_key(path: &str, content: &str) -> (r: Result<(), Error>)
    ensures
        match r {
            Ok(()) => key_unencrypted(content@),
            Err(e) => !key_unencrypted(content@) && e matches Error::InvalidPrivateKey(_),
        },
{
    let cc = crate::text::chars_of(content);
    let p1 = crate::text::chars_of("Proc-Type");
    let p2 = crate::text::chars_of("ENCRYPTED");
    if crate::text::contains_sub(&cc, &p1) && crate::text::contains_sub(&cc, &p2) {
        let mut msg = String::from_str("Private key ");
        msg.append(path);
        msg.append(
            " is encrypted with a passphrase. A key without passphrase is required",
        );
        Err(Error::InvalidPrivateKey(msg))
    } else {
        Ok(())
    }
}

/// The port option handed to the shell: `-p` and the decimal port.
pub open spec fn port_arg(port: u16) -> Seq<char> {
    "-p"@ + dec_nat(port as nat)
}

/// The login the shell dials: `user@host`.
pub open spec fn login_arg(username: Seq<char>, host: Seq<char>) -> Seq<char> {
    username + "@"@ + host
}

/// The connection arguments every remote command starts from: the port
/// option and the login.
pub fn connection_args(config: &SshConfig) -> (r: Vec<String>)
    ensures
        r@.len() == 2,
        r@[0]@ == port_arg(config.port),
        r@[1]@ == login_arg(config.username@, config.host@),
{
    let mut port: Vec<char> = crate::text::chars_of("-p");
    crate::text::push_dec_u64(&mut port, config.port as u64);
    proof {
        assert(port@ =~= port_arg(config.port));
    }
    let mut login = crate::text::chars_of(config.username.as_str());
    let at = crate::text::chars_of("@");
    crate::text::push_all(&mut login, &at);
    let host = crate::text::chars_of(config.host.as_str());
    crate::text::push_all(&mut login, &host);
    proof {
        assert(login@ =~= login_arg(config.username@, config.host@));
    }
    let mut out: Vec<String> = Vec::new();
    out.push(crate::text::string_of(&port));
    out.push(crate::text::string_of(&login));
    out
}

/// How the construction probe's output is read: an empty standard output
/// with the probe command echoed in the error stream still counts as a
/// reachable host (a restricted shell), and anything else defers to the
/// probe's exit status.
pub fn probe_reached_restricted_shell(stdout: &str, stderr: &str) -> (r: bool)
    ensures
        r == (stdout@.len() == 0 && has_sub(stderr@, "true"@)),
{
    let oc = crate::text::chars_of(stdout);
    let ec = crate::text::chars_of(stderr);
    let pat = crate::text::chars_of("true");
    oc.len() == 0 && crate::text::contains_sub(&ec, &pat)
}

/// The remote listing command: a recursive find under the remote path, so
/// full paths come back.
pub fn find_command(remote_path: &str) -> (r: String)
    ensures
        r@ == "find "@ + remote_path@ + "/*"@,
{
    let mut out = crate::text::chars_of("find ");
    let rc = crate::text::chars_of(remote_path);
    crate::text::push_all(&mut out, &rc);
    let star = crate::text::chars_of("/*");
    crate::text::push_all(&mut out, &star);
    proof {
        assert(out@ =~= "find "@ + remote_path@ + "/*"@);
    }
    crate::text::string_of(&out)
}

/// The remote removal command: a recursive remove of the remote path.
pub fn rm_command(remote_path: &str) -> (r: String)
    ensures
        r@ == "rm -r "@ + remote_path@,
{
    let mut out = crate::text::chars_of("rm -r ");
    let rc = crate::text::chars_of(remote_path);
    crate::text::push_all(&mut out, &rc);
    proof {
        assert(out@ =~= "rm -r "@ + remote_path@);
    }
    crate::text::string_of(&out)
}

/// The remote receive command a streamed upload pipes into.
pub fn stream_command(remote_path: &str) -> (r: String)
    ensures
        r@ == "cat > "@ + remote_path@,
{
    let mut out = crate::text::chars_of("cat > ");
    let rc = crate::text::chars_of(remote_path);
    crate::text::push_all(&mut out, &rc);
    proof {
        assert(out@ =~= "cat > "@ + remote_path@);
    }
    crate::text::string_of(&out)
}

/// The remote receive command of a compressed upload: the stamped name, with
/// the trailing blank the adapter has always sent.
pub fn compressed_stream_command(remote_path: &str, ts: &Timestamp) -> (r: String)
    requires
        ts.wf(),
    ensures
        r@ == "cat > "@ + crate::remotes::remote::compressed_file_name(remote_path@, *ts) + " "@,
{
    let stamped = crate::remotes::remote::remote_compressed_file_path(remote_path, ts);
    let mut out = crate::text::chars_of("cat > ");
    let rc = crate::text::chars_of(stamped.as_str());
    crate::text::push_all(&mut out, &rc);
    let blank = crate::text::chars_of(" ");
    crate::text::push_all(&mut out, &blank);
    proof {
        assert(out@ =~= "cat > "@ + crate::remotes::remote::compressed_file_name(
            remote_path@,
            *ts,
        ) + " "@);
    }
    crate::text::string_of(&out)
}

/// The sync tool's argument list for a folder upload: archive mode over the
/// dialed shell, from the local prefix to `user@host:remote`, pruning what
/// the source no longer has.
pub fn rsync_args(config: &SshConfig, local_prefix: &str, remote_path: &str) -> (r: Vec<String>)
    ensures
        r@.len() == 6,
        r@[0]@ == "-az"@,
        r@[1]@ == "-e"@,
        r@[2]@ == "ssh -p "@ + dec_nat(config.port as nat),
        r@[3]@ == local_prefix@,
        r@[4]@ == login_arg(config.username@, config.host@) + ":"@ + remote_path@,
        r@[5]@ == "--delete"@,
{
    let mut shell = crate::text::chars_of("ssh -p ");
    crate::text::push_dec_u64(&mut shell, config.port as u64);
    let mut dest = crate::text::chars_of(config.username.as_str());
    let at = crate::text::chars_of("@");
    crate::text::push_all(&mut dest, &at);
    let host = crate::text::chars_of(config.host.as_str());
    crate::text::push_all(&mut dest, &host);
    let colon = crate::text::chars_of(":");
    crate::text::push_all(&mut dest, &colon);
    let rc = crate::text::chars_of(remote_path);
    crate::text::push_all(&mut dest, &rc);
    proof {
        assert(dest@ =~= login_arg(config.username@, config.host@) + ":"@ + remote_path@);
    }
    let mut out: Vec<String> = Vec::new();
    out.push(String::from_str("-az"));
    out.push(String::from_str("-e"));
    out.push(crate::text::string_of(&shell));
    out.push(local_prefix.to_string());
    out.push(crate::text::string_of(&dest));
    out.push(String::from_str("--delete"));
    out
}

/// Reads a remote listing out of the find command's output: its
/// blank-separated words, each a full remote path.
pub fn parse_listing(output: &str) -> (r: Vec<String>)
    ensures
        r@.len() == split_ws(output@).len(),
        forall|i: int| 0 <= i < r@.len() ==> r@[i]@ == split_ws(output@)[i],
{
    let oc = crate::text::chars_of(output);
    let words = crate::text::split_whitespace_chars(&oc);
    let mut out: Vec<String> = Vec::new();
    let mut i: usize = 0;
    while i < words.len()
        invariant
            i <= words@.len(),
            out@.len() == i,
            forall|j: int| 0 <= j < words@.len() ==> words@[j]@ == split_ws(output@)[j],
            words@.len() == split_ws(output@).len(),
            forall|j: int| 0 <= j < i ==> out@[j]@ == split_ws(output@)[j],
        decreases words@.len() - i,
    {
        out.push(crate::text::string_of(&words[i]));
        i = i + 1;
    }
    out
}

/// A secure-shell destination: the operator's name for it, its dial
/// configuration, the two resolved tool paths, and the standing connection
/// arguments.
#[derive(Clone, Debug)]
pub struct Ssh {
    pub remote_name: String,
    pub config: SshConfig,
    pub ssh_cmd: String,
    pub rsync_cmd: String,
    pub ssh_args: Vec<String>,
}

impl Ssh {
    /// The symbolic name the operator gave this destination.
    pub fn name(&self) -> (r: String)
        ensures
            r@ == self.remote_name@,
    {
        self.remote_name.clone()
    }
}

} // verus!
