//! What every destination shares: the error taxonomy, the stamped artifact
//! names of compressed uploads, and the path rewriting of folder uploads.

use vstd::prelude::*;

verus! {

use crate::paths::{file_name_of, join, parent_of, wf_path};
use crate::pipeline::plan_prefix;
use crate::timestamp::{stamp_seq, Timestamp};

/// What a destination operation can report.
#[derive(Debug)]
pub enum Error {
    LocalError(String),
    RemoteError(String),
    CompressionError,
    NotADirectory,
}

/// The parent a stamped artifact lands in: the remote path's parent, or the
/// root when it has none.
pub open spec fn parent_or_root(s: Seq<char>) -> Seq<char> {
    match parent_of(s) {
        Some(p) => p,
        None => seq!['/'],
    }
}

/// The name of a compressed-folder artifact: under the remote path's parent,
/// `YYYY-MM-DD-HH.MM-<basename>.tar.gz`.
pub open spec fn archive_name(remote: Seq<char>, ts: Timestamp) -> Seq<char> {
    join(parent_or_root(remote), stamp_seq(ts) + seq!['-'] + file_name_of(remote) + ".tar.gz"@)
}

/// The name of a compressed-file artifact: under the remote path's parent,
/// `YYYY-MM-DD-HH.MM-<basename>.gz`.
pub open spec fn compressed_file_name(remote: Seq<char>, ts: Timestamp) -> Seq<char> {
    join(parent_or_root(remote), stamp_seq(ts) + seq!['-'] + file_name_of(remote) + ".gz"@)
}

/// Writes the stamped name shared by both compressed forms, with the given
/// ending.
fn stamped_name(remote: &Vec<char>, ts: &Timestamp, ending: &Vec<char>) -> (r: Vec<char>)
    requires
        ts.wf(),
    ensures
        r@ == join(
            parent_or_root(remote@),
            stamp_seq(*ts) + seq!['-'] + file_name_of(remote@) + ending@,
        ),
{
    let parent: Vec<char> = match crate::paths::parent_chars(remote) {
        Some(p) => p,
        None => {
            let mut root: Vec<char> = Vec::new();
            root.push('/');
            proof {
                assert(root@ =~= seq!['/']);
            }
            root
        },
    };
    let mut name = crate::timestamp::stamp_chars(ts);
    name.push('-');
    let fname = crate::paths::file_name_chars(remote);
    crate::text::push_all(&mut name, &fname);
    crate::text::push_all(&mut name, ending);
    proof {
        assert(name@ =~= stamp_seq(*ts) + seq!['-'] + file_name_of(remote@) + ending@);
    }
    crate::paths::join_chars(&parent, &name)
}

/// The remote name a compressed folder is archived under, at the given UTC
/// minute. The name is a function of the remote path and the minute alone.
pub fn remote_archive_path(remote_path: &str, ts: &Timestamp) -> (r: String)
    requires
        ts.wf(),
    ensures
        r@ == archive_name(remote_path@, *ts),
{
    let rc = crate::text::chars_of(remote_path);
    let ending = crate::text::chars_of(".tar.gz");
    let out = stamped_name(&rc, ts, &ending);
    crate::text::string_of(&out)
}

/// The remote name a compressed file is stored under, at the given UTC
/// minute. The name is a function of the remote path and the minute alone.
pub fn remote_compressed_file_path(remote_path: &str, ts: &Timestamp) -> (r: String)
    requires
        ts.wf(),
    ensures
        r@ == compressed_file_name(remote_path@, *ts),
{
    let rc = crate::text::chars_of(remote_path);
    let ending = crate::text::chars_of(".gz");
    let out = stamped_name(&rc, ts, &ending);
    crate::text::string_of(&out)
}

/// Naming determinism: the name of a compressed artifact is a function of
/// the remote path and the UTC minute alone, so within one minute two
/// invocations on the same inputs yield byte-equal names.
pub proof fn lemma_naming_deterministic(
    remote: Seq<char>,
    ts: Timestamp,
    a: Seq<char>,
    b: Seq<char>,
)
    requires
        a == archive_name(remote, ts) && b == archive_name(remote, ts) || a
            == compressed_file_name(remote, ts) && b == compressed_file_name(remote, ts),
    ensures
        a == b,
{
}

} // verus!

verus! {

use crate::paths::{has_slash, is_lex_min, last_slash, lemma_lex_min_unique};
use crate::pipeline::{listing_wf, the_lex_min};

/// A sequence with a `/` has a rightmost one.
proof fn lemma_last_slash_exists(s: Seq<char>)
    requires
        has_slash(s),
    ensures
        exists|k: int|
            0 <= k < s.len() && s[k] == '/' && forall|j: int| k < j < s.len() ==> s[j] != '/',
    decreases s.len(),
{
    if s[s.len() - 1] == '/' {
        let k = s.len() - 1;
        assert(0 <= k < s.len() && s[k] == '/' && forall|j: int| k < j < s.len() ==> s[j] != '/');
    } else {
        let w = choose|k: int| 0 <= k < s.len() && s[k] == '/';
        assert(s.drop_last()[w] == '/');
        assert(has_slash(s.drop_last()));
        lemma_last_slash_exists(s.drop_last());
        let k = choose|k: int|
            0 <= k < s.drop_last().len() && s.drop_last()[k] == '/' && forall|j: int|
                k < j < s.drop_last().len() ==> s.drop_last()[j] != '/';
        assert(s[k] == '/');
        assert forall|j: int| k < j < s.len() implies s[j] != '/' by {
            if j < s.len() - 1 {
                assert(s.drop_last()[j] != '/');
            }
        }
    }
}

/// The rightmost `/` of a slashed sequence is where `last_slash` says.
proof fn lemma_last_slash_props(s: Seq<char>)
    requires
        has_slash(s),
    ensures
        0 <= last_slash(s) < s.len(),
        s[last_slash(s)] == '/',
        forall|j: int| last_slash(s) < j < s.len() ==> s[j] != '/',
{
    lemma_last_slash_exists(s);
}

/// A canonical absolute path of more than one character has a parent, and
/// the parent is canonical and absolute too.
pub proof fn lemma_wf_parent(s: Seq<char>)
    requires
        crate::paths::wf_path(s),
        s.len() > 1,
    ensures
        crate::paths::parent_of(s).is_some(),
        crate::paths::wf_path(crate::paths::parent_of(s).unwrap()),
        crate::paths::parent_of(s).unwrap().len() >= 1,
{
    assert(has_slash(s));
    lemma_last_slash_props(s);
    let k = last_slash(s);
    if k == 0 {
    } else {
        let p = s.take(k);
        assert(p[0] == s[0]);
        assert(s[k] == '/');
        if p[p.len() - 1] == '/' {
            assert(s[k - 1] == '/' && s[k - 1 + 1] == '/');
        }
        assert forall|j: int| 0 <= j < p.len() - 1 implies !(p[j] == '/' && #[trigger] p[j + 1]
            == '/') by {
            assert(p[j] == s[j] && p[j + 1] == s[j + 1]);
        }
    }
}

/// What is left after stripping a non-empty base off a canonical absolute
/// path never begins with a separator.
pub proof fn lemma_strip_rel_shape(p: Seq<char>, base: Seq<char>)
    requires
        crate::paths::wf_path(p),
        base.len() > 0,
        crate::paths::strip_prefix(p, base).is_some(),
    ensures
        ({
            let rel = crate::paths::strip_prefix(p, base).unwrap();
            rel.len() == 0 || rel[0] != '/'
        }),
{
    let rel = crate::paths::strip_prefix(p, base).unwrap();
    if p == base {
    } else if base[base.len() - 1] == '/' {
        if rel.len() > 0 {
            assert(p.take(base.len() as int)[base.len() - 1] == p[base.len() - 1]);
            assert(p[base.len() - 1] == '/');
            assert(rel[0] == p[base.len() as int]);
            assert(!(p[base.len() - 1] == '/' && p[base.len() - 1 + 1] == '/'));
        }
    } else {
        if rel.len() > 0 {
            assert(p[base.len() as int] == '/');
            assert(rel[0] == p[base.len() + 1 as int]);
            assert(!(p[base.len() as int] == '/' && p[base.len() as int + 1] == '/'));
        }
    }
}

/// Joining a separator-free remainder under a base lands at or under the
/// base.
pub proof fn lemma_join_under(base: Seq<char>, rel: Seq<char>)
    requires
        rel.len() == 0 || rel[0] != '/',
    ensures
        crate::paths::path_starts_with(crate::paths::join(base, rel), base),
{
    let p = crate::paths::join(base, rel);
    if rel.len() == 0 {
        if base.len() == 0 {
            assert(p == base);
        } else if base[base.len() - 1] == '/' {
            assert(p =~= base);
        } else {
            assert(p =~= base + seq!['/']);
            assert(p.len() > base.len());
            assert(p.take(base.len() as int) =~= base);
            assert(p[base.len() as int] == '/');
        }
    } else {
        if base.len() == 0 {
            assert(p == rel);
            assert(crate::paths::strip_prefix(p, base) is Some);
        } else if base[base.len() - 1] == '/' {
            assert(p =~= base + rel);
            assert(p.len() > base.len());
            assert(p.take(base.len() as int) =~= base);
            assert(p != base);
        } else {
            assert(p =~= base + seq!['/'] + rel);
            assert(p.len() > base.len());
            assert(p.take(base.len() as int) =~= base);
            assert(p[base.len() as int] == '/');
            assert(p != base);
        }
    }
}

/// Rewrites a folder upload's paths for the destination: each local path,
/// made relative to the common local prefix, under the remote base. Every
/// rewritten path lies at or under the base: a folder upload writes nothing
/// outside its remote prefix.
pub fn folder_remote_paths(locals: &Vec<String>, base: &String) -> (r: Vec<String>)
    requires
        locals@.len() > 0,
        listing_wf(locals@.map_values(|x: String| x@)),
    ensures
        ({
            let paths = locals@.map_values(|x: String| x@);
            let pre = plan_prefix(paths);
            &&& r@.len() == locals@.len()
            &&& forall|i: int|
                0 <= i < r@.len() ==> #[trigger] r@[i]@ == crate::paths::join(
                    base@,
                    crate::paths::strip_prefix(paths[i], pre).unwrap(),
                )
            &&& forall|i: int|
                0 <= i < r@.len() ==> crate::paths::path_starts_with(#[trigger] r@[i]@, base@)
        }),
{
    let ghost paths = locals@.map_values(|x: String| x@);
    let mut pathsc: Vec<Vec<char>> = Vec::new();
    let mut i: usize = 0;
    while i < locals.len()
        invariant
            i <= locals@.len(),
            paths == locals@.map_values(|x: String| x@),
            pathsc@.len() == i,
            forall|j: int| 0 <= j < i ==> pathsc@[j]@ == #[trigger] paths[j],
        decreases locals@.len() - i,
    {
        pathsc.push(crate::text::chars_of(locals[i].as_str()));
        i = i + 1;
    }
    let k = crate::paths::lex_min_index(&pathsc);
    proof {
        let l = pathsc@.map_values(|x: Vec<char>| x@);
        assert(l =~= paths);
        lemma_lex_min_unique(paths, pathsc@[k as int]@, the_lex_min(paths));
    }
    let prefix: Vec<char> = if locals.len() == 1 {
        crate::paths::sub_chars(&pathsc[0], 0, pathsc[0].len())
    } else {
        proof {
            assert(wf_path_at(paths, k as int));
            lemma_wf_parent(pathsc@[k as int]@);
        }
        match crate::paths::parent_chars(&pathsc[k]) {
            Some(p) => p,
            None => {
                proof {
                    assert(false);
                }
                Vec::new()
            },
        }
    };
    proof {
        if locals@.len() == 1 {
            assert(pathsc@[0]@.subrange(0, pathsc@[0]@.len() as int) =~= pathsc@[0]@);
            assert(prefix@ == plan_prefix(paths));
        } else {
            assert(prefix@ == plan_prefix(paths));
        }
        assert(prefix@.len() >= 1) by {
            if locals@.len() == 1 {
                assert(wf_path(paths[0]));
            } else {
                lemma_wf_parent(pathsc@[k as int]@);
            }
        }
    }
    let basec = crate::text::chars_of(base.as_str());
    let mut out: Vec<String> = Vec::new();
    let mut i: usize = 0;
    while i < pathsc.len()
        invariant
            pathsc@.len() == locals@.len() >= 1,
            i <= pathsc@.len(),
            paths == locals@.map_values(|x: String| x@),
            listing_wf(paths),
            forall|j: int| 0 <= j < pathsc@.len() ==> pathsc@[j]@ == #[trigger] paths[j],
            prefix@ == plan_prefix(paths),
            prefix@.len() >= 1,
            basec@ == base@,
            out@.len() == i,
            forall|j: int|
                0 <= j < i ==> #[trigger] out@[j]@ == crate::paths::join(
                    base@,
                    crate::paths::strip_prefix(paths[j], plan_prefix(paths)).unwrap(),
                ),
            forall|j: int|
                0 <= j < i ==> crate::paths::path_starts_with(#[trigger] out@[j]@, base@),
        decreases pathsc@.len() - i,
    {
        proof {
            assert(wf_path(paths[i as int]));
            if paths.len() > 1 {
                assert(crate::paths::path_starts_with(paths[i as int], plan_prefix(paths)));
            } else {
                crate::paths::lemma_lex_refl(paths[0]);
                assert(is_lex_min(paths, paths[0]));
                lemma_lex_min_unique(paths, paths[0], crate::pipeline::the_lex_min(paths));
                assert(paths[i as int] == prefix@);
                assert(crate::paths::strip_prefix(paths[i as int], prefix@) == Some(
                    Seq::<char>::empty(),
                ));
            }
        }
        let rel = match crate::paths::strip_prefix_chars(&pathsc[i], &prefix) {
            Some(v) => v,
            None => {
                proof {
                    assert(false);
                }
                Vec::new()
            },
        };
        proof {
            lemma_strip_rel_shape(paths[i as int], prefix@);
            lemma_join_under(base@, rel@);
        }
        let dest = crate::paths::join_chars(&basec, &rel);
        out.push(crate::text::string_of(&dest));
        i = i + 1;
    }
    out
}

/// A listing member is canonical when the listing is.
spec fn wf_path_at(paths: Seq<Seq<char>>, i: int) -> bool {
    0 <= i < paths.len() && wf_path(paths[i]) && (paths.len() > 1 ==> paths[i].len() > 1)
}

} // verus!

verus! {

use crate::timestamp::utc_now_minute;

/// The remote name a compressed folder is archived under at this very
/// minute: `archive_name` of the remote path and the current UTC minute,
/// whatever minute the clock shows.
pub fn remote_archive_path_now(remote_path: &str) -> (r: String)
    ensures
        exists|ts: Timestamp| ts.wf() && r@ == archive_name(remote_path@, ts),
{
    let ts = utc_now_minute();
    remote_archive_path(remote_path, &ts)
}

/// The remote name a compressed file is stored under at this very minute:
/// `compressed_file_name` of the remote path and the current UTC minute,
/// whatever minute the clock shows.
pub fn remote_compressed_file_path_now(remote_path: &str) -> (r: String)
    ensures
        exists|ts: Timestamp| ts.wf() && r@ == compressed_file_name(remote_path@, ts),
{
    let ts = utc_now_minute();
    remote_compressed_file_path(remote_path, &ts)
}

} // verus!
