//! The glob-folder source: a pattern names the files to snapshot. A bare
//! file path is accepted as itself; a bare directory becomes a recursive
//! pattern; a pattern's fixed leading part must be an absolute, existing
//! path. Expanding the pattern against the disk is the one outside call.

use vstd::prelude::*;

verus! {

use crate::paths::join;
use crate::services::service::Dump;

/// Why a folder source is refused at construction.
#[derive(Debug)]
pub enum Error {
    IsNotAbsolute(String),
    DoesNotExist(String),
}

impl PartialEq for Error {
    /// Two refusals are the same when they name the same kind and path.
    fn eq(&self, other: &Error) -> (r: bool) {
        match (self, other) {
            (Error::IsNotAbsolute(a), Error::IsNotAbsolute(b)) => *a == *b,
            (Error::DoesNotExist(a), Error::DoesNotExist(b)) => *a == *b,
            _ => false,
        }
    }
}

impl vstd::std_specs::cmp::PartialEqSpecImpl for Error {
    open spec fn obeys_eq_spec() -> bool {
        true
    }

    open spec fn eq_spec(&self, other: &Error) -> bool {
        match (self, other) {
            (Error::IsNotAbsolute(a), Error::IsNotAbsolute(b)) => a@ == b@,
            (Error::DoesNotExist(a), Error::DoesNotExist(b)) => a@ == b@,
            _ => false,
        }
    }
}

/// A glob-folder source: the pattern its listings expand.
#[derive(Clone, Debug)]
pub struct Folder {
    pub pattern: String,
}

/// The position of the first wildcard that decides the pattern's fixed
/// part: the first `*`, else the first `?`, else the first `[`.
pub open spec fn wildcard_ix(s: Seq<char>) -> Option<int> {
    if first_char_ix(s, '*') is Some {
        first_char_ix(s, '*')
    } else if first_char_ix(s, '?') is Some {
        first_char_ix(s, '?')
    } else {
        first_char_ix(s, '[')
    }
}

/// The position of the leftmost occurrence of `c`.
pub open spec fn first_char_ix(s: Seq<char>, c: char) -> Option<int> {
    if exists|k: int| 0 <= k < s.len() && s[k] == c {
        Some(choose|k: int| 0 <= k < s.len() && s[k] == c && forall|j: int| 0 <= j < k ==> s[j] != c)
    } else {
        None
    }
}

/// A string starts at the filesystem root.
pub open spec fn abs_text(s: Seq<char>) -> bool {
    s.len() > 0 && s[0] == '/'
}

/// The recursive pattern a bare directory becomes: everything under it.
pub open spec fn glob_all(s: Seq<char>) -> Seq<char> {
    join(join(s, "**"@), "*"@)
}

/// Finds the leftmost occurrence of `c`.
fn find_char(s: &Vec<char>, c: char) -> (r: Option<usize>)
    ensures
        match r {
            Some(k) => k < s@.len() && s@[k as int] == c && (forall|j: int|
                0 <= j < k ==> s@[j] != c) && first_char_ix(s@, c) == Some(k as int),
            None => first_char_ix(s@, c).is_none(),
        },
{
    let mut i: usize = 0;
    while i < s.len()
        invariant
            i <= s@.len(),
            forall|j: int| 0 <= j < i ==> s@[j] != c,
        decreases s@.len() - i,
    {
        if s[i] == c {
            proof {
                let k = i as int;
                assert(0 <= k < s@.len() && s@[k] == c);
                let w = choose|w: int|
                    0 <= w < s@.len() && s@[w] == c && forall|j: int| 0 <= j < w ==> s@[j] != c;
                assert(0 <= k < s@.len() && s@[k] == c && forall|j: int| 0 <= j < k ==> s@[j] != c);
                if w != k {
                    assert(s@[w] == c);
                }
            }
            return Some(i);
        }
        i = i + 1;
    }
    proof {
        assert(forall|k: int| 0 <= k < s@.len() ==> s@[k] != c);
    }
    None
}

/// Relies on `glob::glob`: expands a pattern against the filesystem. What
/// comes back depends on the disk, so nothing is promised of the listing; a
/// malformed pattern is reported as the library's message, and an entry the
/// walk could not read is reported by the path that failed.
#[verifier::external_body]
fn glob_paths(pattern: &str) -> (r: Result<Vec<String>, String>)
{
    match glob::glob(pattern) {
        Err(e) => Err(format!("{}", e)),
        Ok(paths) => Ok(
            paths.map(
                |entry| match entry {
                    Ok(p) => p.to_string_lossy().into_owned(),
                    Err(e) => e.path().to_string_lossy().into_owned(),
                },
            ).collect(),
        ),
    }
}

impl Folder {
    /// Accepts a pattern when its fixed leading part — up to the first
    /// wildcard — is absolute and the disk shows it; accepts a bare path
    /// when the disk shows a file there, or an absolute existing directory,
    /// which becomes a recursive pattern. A refusal names the part that was
    /// checked: a non-absolute fixed part is refused as such whatever the
    /// disk holds.
    pub fn new(pattern: &str) -> (r: Result<Folder, Error>)
        ensures
            ({
                let pat = pattern@;
                let base = match wildcard_ix(pat) {
                    Some(k) => pat.take(k),
                    None => pat,
                };
                match r {
                    Ok(f) => f.pattern@ == pat || (wildcard_ix(pat) is None && abs_text(pat)
                        && f.pattern@ == glob_all(pat)),
                    Err(e) => match e {
                        Error::IsNotAbsolute(p) => !abs_text(base) && p@ == base,
                        Error::DoesNotExist(p) => abs_text(base) && p@ == base,
                    },
                }
            }),
    {
        let pc = crate::text::chars_of(pattern);
        let star = find_char(&pc, '*');
        let quest = find_char(&pc, '?');
        let brack = find_char(&pc, '[');
        let wix: Option<usize> = match star {
            Some(k) => Some(k),
            None => match quest {
                Some(k) => Some(k),
                None => brack,
            },
        };
        match wix {
            Some(k) => {
                let base = crate::paths::sub_chars(&pc, 0, k);
                proof {
                    assert(pc@.subrange(0, k as int) =~= pc@.take(k as int));
                }
                let base_s = crate::text::string_of(&base);
                if base.len() == 0 || base[0] != '/' {
                    return Err(Error::IsNotAbsolute(base_s));
                }
                if !crate::probe::fs_exists(base_s.as_str()) {
                    return Err(Error::DoesNotExist(base_s));
                }
                Ok(Folder { pattern: pattern.to_string() })
            },
            None => {
                if crate::probe::fs_is_file(pattern) {
                    return Ok(Folder { pattern: pattern.to_string() });
                }
                if pc.len() == 0 || pc[0] != '/' {
                    return Err(Error::IsNotAbsolute(pattern.to_string()));
                }
                if !crate::probe::fs_exists(pattern) {
                    return Err(Error::DoesNotExist(pattern.to_string()));
                }
                let stars = crate::text::chars_of("**");
                let one = crate::text::chars_of("*");
                let step = crate::paths::join_chars(&pc, &stars);
                let full = crate::paths::join_chars(&step, &one);
                Ok(Folder { pattern: crate::text::string_of(&full) })
            },
        }
    }

    /// The source's current artifacts: the pattern expanded against the
    /// disk. What comes back depends on the disk; a malformed pattern lists
    /// nothing.
    pub fn list(&self) -> Vec<String> {
        match glob_paths(self.pattern.as_str()) {
            Ok(v) => v,
            Err(_) => Vec::new(),
        }
    }

    /// A folder needs no dump step: the handle carries no artifact path.
    pub fn dump(&self) -> (r: Result<Dump, String>)
        ensures
            r matches Ok(d) && d.path is None,
    {
        Ok(Dump { path: None })
    }
}

} // verus!
