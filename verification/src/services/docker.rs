//! The container-exec source: a command run inside a container, its output
//! captured as the dump artifact. The argument lists and the artifact's name
//! are fixed here; running the container tool is the runtime's work.

use vstd::prelude::*;

verus! {

use crate::text::split_ws;

/// Why a container source is refused or fails.
#[derive(Debug)]
pub enum Error {
    CommandNotFound(String),
    RuntimeError(String),
}

/// A container-exec source: the operator's name for it, the resolved
/// container tool, and the prepared exec arguments.
#[derive(Clone, Debug)]
pub struct Docker {
    pub name: String,
    pub cmd: String,
    pub args: Vec<String>,
}

/// The construction probe's arguments: a throwaway hello container.
pub fn probe_args() -> (r: Vec<String>)
    ensures
        r@.len() == 3,
        r@[0]@ == "run"@,
        r@[1]@ == "--rm"@,
        r@[2]@ == "hello-world"@,
{
    let mut out: Vec<String> = Vec::new();
    out.push(String::from_str("run"));
    out.push(String::from_str("--rm"));
    out.push(String::from_str("hello-world"));
    out
}

/// The exec arguments a dump runs: an interactive exec in the configured
/// container, followed by the configured command split on blanks.
pub fn exec_args(container_name: &str, command: &str) -> (r: Vec<String>)
    ensures
        r@.len() == 3 + split_ws(command@).len(),
        r@[0]@ == "exec"@,
        r@[1]@ == "-t"@,
        r@[2]@ == container_name@,
        forall|i: int| 3 <= i < r@.len() ==> r@[i]@ == split_ws(command@)[i - 3],
{
    let mut out: Vec<String> = Vec::new();
    out.push(String::from_str("exec"));
    out.push(String::from_str("-t"));
    out.push(container_name.to_string());
    let cc = crate::text::chars_of(command);
    let words = crate::text::split_whitespace_chars(&cc);
    let mut i: usize = 0;
    while i < words.len()
        invariant
            i <= words@.len(),
            out@.len() == 3 + i,
            out@[0]@ == "exec"@,
            out@[1]@ == "-t"@,
            out@[2]@ == container_name@,
            words@.len() == split_ws(command@).len(),
            forall|j: int| 0 <= j < words@.len() ==> words@[j]@ == split_ws(command@)[j],
            forall|j: int| 3 <= j < out@.len() ==> out@[j]@ == split_ws(command@)[j - 3],
        decreases words@.len() - i,
    {
        out.push(crate::text::string_of(&words[i]));
        i = i + 1;
    }
    out
}

/// The dump artifact's file name for this source: `<name>.dump`.
pub fn dump_file_name(name: &str) -> (r: String)
    ensures
        r@ == name@ + ".dump"@,
{
    let mut out = crate::text::chars_of(name);
    let suffix = crate::text::chars_of(".dump");
    crate::text::push_all(&mut out, &suffix);
    crate::text::string_of(&out)
}

} // verus!
