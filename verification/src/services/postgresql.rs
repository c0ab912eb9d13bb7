//! The relational-database source: a dump tool writes `<name>-dump.sql` in
//! the working directory. The connection arguments, the reachability query,
//! the reading of the probe's output, and the artifact's name are fixed
//! here; running the database tools is the runtime's work.

use vstd::prelude::*;

verus! {

use crate::text::{dec_nat, trim};

/// Why a database source is refused or fails.
#[derive(Debug)]
pub enum Error {
    CommandNotFound(String),
    RuntimeError(String),
}

/// A relational-database source: the operator's name for it, the dump
/// credentials, the resolved dump tool, its prepared arguments, and where
/// the last dump went.
#[derive(Clone, Debug)]
pub struct PostgreSql {
    pub name: String,
    pub username: String,
    pub db_name: String,
    pub cmd: String,
    pub args: Vec<String>,
    pub dumped_to: String,
}

/// The connection arguments shared by the probe and the dump.
pub fn connect_args(host: &str, port: u16, username: &str, db_name: &str) -> (r: Vec<String>)
    ensures
        r@.len() == 8,
        r@[0]@ == "--host"@,
        r@[1]@ == host@,
        r@[2]@ == "--port"@,
        r@[3]@ == dec_nat(port as nat),
        r@[4]@ == "--username"@,
        r@[5]@ == username@,
        r@[6]@ == "--dbname"@,
        r@[7]@ == db_name@,
{
    let mut p: Vec<char> = Vec::new();
    crate::text::push_dec_u64(&mut p, port as u64);
    proof {
        assert(p@ =~= dec_nat(port as nat));
    }
    let mut out: Vec<String> = Vec::new();
    out.push(String::from_str("--host"));
    out.push(host.to_string());
    out.push(String::from_str("--port"));
    out.push(crate::text::string_of(&p));
    out.push(String::from_str("--username"));
    out.push(username.to_string());
    out.push(String::from_str("--dbname"));
    out.push(db_name.to_string());
    out
}

/// The query that shows whether the database exists and the user may ask.
pub fn db_exists_query(db_name: &str) -> (r: String)
    ensures
        r@ == "SELECT 1 FROM pg_database WHERE datname='"@ + db_name@ + "'"@,
{
    let mut out = crate::text::chars_of("SELECT 1 FROM pg_database WHERE datname='");
    let db = crate::text::chars_of(db_name);
    crate::text::push_all(&mut out, &db);
    let q = crate::text::chars_of("'");
    crate::text::push_all(&mut out, &q);
    crate::text::string_of(&out)
}

/// Reads the reachability probe's output: anything on the error stream
/// refuses the source with that text; a bare `0` answer means the database
/// is missing or forbidden; anything else accepts.
pub fn interpret_probe(db_name: &str, username: &str, stdout: &str, stderr: &str) -> (r: Result<
    (),
    Error,
>)
    ensures
        match r {
            Ok(()) => trim(stderr@).len() == 0 && trim(stdout@) != "0"@,
            Err(e) => (trim(stderr@).len() > 0 || trim(stdout@) == "0"@) && e
                matches Error::RuntimeError(_),
        },
{
    let ec = crate::text::chars_of(stderr);
    let et = crate::text::trim_chars(&ec);
    if et.len() > 0 {
        return Err(Error::RuntimeError(crate::text::string_of(&et)));
    }
    let oc = crate::text::chars_of(stdout);
    let ot = crate::text::trim_chars(&oc);
    let zero = crate::text::chars_of("0");
    if crate::text::chars_eq(&ot, &zero) {
        let mut msg = String::from_str("database ");
        msg.append(db_name);
        msg.append(" does not exist or user ");
        msg.append(username);
        msg.append(" not allowed to query the db");
        return Err(Error::RuntimeError(msg));
    }
    Ok(())
}

/// The dump artifact's file name for this source: `<name>-dump.sql`.
pub fn dump_file_name(name: &str) -> (r: String)
    ensures
        r@ == name@ + "-dump.sql"@,
{
    let mut out = crate::text::chars_of(name);
    let suffix = crate::text::chars_of("-dump.sql");
    crate::text::push_all(&mut out, &suffix);
    crate::text::string_of(&out)
}

impl PostgreSql {
    /// The dump command's arguments: the connection arguments, then the
    /// destination file.
    pub fn dump_args(&self, dest: &str) -> (r: Vec<String>)
        ensures
            r@.len() == self.args@.len() + 2,
            forall|i: int| 0 <= i < self.args@.len() ==> r@[i]@ == #[trigger] self.args@[i]@,
            r@[self.args@.len() as int]@ == "-f"@,
            r@[self.args@.len() + 1 as int]@ == dest@,
    {
        let mut out: Vec<String> = Vec::new();
        let mut i: usize = 0;
        while i < self.args.len()
            invariant
                i <= self.args@.len(),
                out@.len() == i,
                forall|j: int| 0 <= j < i ==> out@[j]@ == #[trigger] self.args@[j]@,
            decreases self.args@.len() - i,
        {
            out.push(self.args[i].clone());
            i = i + 1;
        }
        out.push(String::from_str("-f"));
        out.push(dest.to_string());
        out
    }
}

} // verus!
