//! The backup pipeline's planning rules: given what a source enumerated, one
//! firing is classified — single artifact, compressed tree, or mirrored
//! folder — and turned into the exact upload operations the destination must
//! perform, with the uniform naming and prefix-stripping rules.

use vstd::prelude::*;

verus! {

use crate::paths::{
    file_name_of,
    is_lex_min,
    join,
    lemma_lex_min_unique,
    parent_of,
    path_starts_with,
    wf_path,
};

/// One local artifact as the source listed it: its absolute path, and
/// whether it is a directory.
pub struct LocalEntry {
    pub path: String,
    pub is_dir: bool,
}

/// One upload the destination is asked to perform.
pub enum UploadOp {
    File { local: String, remote: String },
    FileCompressed { local: String, remote: String },
    Folder { locals: Vec<String>, remote: String },
    FolderCompressed { local: String, remote: String },
}

/// The paths of a listing.
pub open spec fn entry_paths(es: Seq<LocalEntry>) -> Seq<Seq<char>> {
    es.map_values(|e: LocalEntry| e.path@)
}

/// The lexicographically smallest path of a listing.
pub open spec fn the_lex_min(l: Seq<Seq<char>>) -> Seq<char> {
    choose|m: Seq<char>| is_lex_min(l, m)
}

/// Every path lies at or under `pre`.
pub open spec fn all_share(paths: Seq<Seq<char>>, pre: Seq<char>) -> bool {
    forall|i: int| 0 <= i < paths.len() ==> path_starts_with(#[trigger] paths[i], pre)
}

/// The local common prefix of a listing: the single element itself, or, when
/// there is more than one, the parent of the lexicographically smallest one.
pub open spec fn plan_prefix(paths: Seq<Seq<char>>) -> Seq<char> {
    if paths.len() <= 1 {
        the_lex_min(paths)
    } else {
        parent_of(the_lex_min(paths)).unwrap()
    }
}

/// The source contract the planner relies on: absolute canonical paths, and,
/// when there are several, all of them under the smallest one's parent.
pub open spec fn listing_wf(paths: Seq<Seq<char>>) -> bool {
    &&& forall|i: int| 0 <= i < paths.len() ==> wf_path(#[trigger] paths[i])
    &&& paths.len() > 1 ==> forall|i: int| 0 <= i < paths.len() ==> (#[trigger] paths[i]).len() > 1
    &&& paths.len() > 1 ==> all_share(paths, plan_prefix(paths))
}

/// The planner's source contract, over a listing's entries.
pub open spec fn plan_wf(es: Seq<LocalEntry>) -> bool {
    listing_wf(entry_paths(es))
}

/// The remote name of a single artifact: its file name under the remote
/// prefix.
pub open spec fn single_remote(prefix: Seq<char>, p: Seq<char>) -> Seq<char> {
    join(prefix, file_name_of(p))
}

/// What one firing must upload, per the classification rules:
/// no listing is a no-op; a single listed artifact goes under the remote
/// prefix by file name — as a compressed tree when it is a directory, as a
/// compressed or plain file otherwise; several artifacts are either mirrored
/// as a folder (uncompressed) or collapsed to their common prefix and
/// shipped as one compressed tree.
pub open spec fn plan_matches(
    es: Seq<LocalEntry>,
    compress: bool,
    prefix: Seq<char>,
    r: Seq<UploadOp>,
) -> bool {
    let paths = entry_paths(es);
    if es.len() == 0 {
        r.len() == 0
    } else if es.len() == 1 {
        let e = es[0];
        let rem = single_remote(prefix, e.path@);
        &&& r.len() == 1
        &&& if e.is_dir {
            r[0] matches UploadOp::FolderCompressed { local, remote } && local@ == e.path@
                && remote@ == rem
        } else if compress {
            r[0] matches UploadOp::FileCompressed { local, remote } && local@ == e.path@ && remote@
                == rem
        } else {
            r[0] matches UploadOp::File { local, remote } && local@ == e.path@ && remote@ == rem
        }
    } else if compress {
        let pre = plan_prefix(paths);
        &&& r.len() == 1
        &&& r[0] matches UploadOp::FolderCompressed { local, remote } && local@ == pre && remote@
            == single_remote(prefix, pre)
    } else {
        &&& r.len() == 1
        &&& r[0] matches UploadOp::Folder { locals, remote } && locals@.map_values(
            |x: String| x@,
        ) == paths && remote@ == prefix
    }
}

/// Classifies one firing and produces its upload operations.
#[verifier::rlimit(60)]
pub fn plan_uploads(entries: &Vec<LocalEntry>, compress: bool, remote_prefix: &String) -> (r: Vec<
    UploadOp,
>)
    requires
        plan_wf(entries@),
    ensures
        plan_matches(entries@, compress, remote_prefix@, r@),
{
    let mut r: Vec<UploadOp> = Vec::new();
    if entries.len() == 0 {
        return r;
    }
    let prefix_chars = crate::text::chars_of(remote_prefix.as_str());
    if entries.len() == 1 {
        let pc = crate::text::chars_of(entries[0].path.as_str());
        let fname = crate::paths::file_name_chars(&pc);
        let remc = crate::paths::join_chars(&prefix_chars, &fname);
        let remote = crate::text::string_of(&remc);
        let local = entries[0].path.clone();
        if entries[0].is_dir {
            r.push(UploadOp::FolderCompressed { local, remote });
        } else if compress {
            r.push(UploadOp::FileCompressed { local, remote });
        } else {
            r.push(UploadOp::File { local, remote });
        }
        return r;
    }
    let mut pathsc: Vec<Vec<char>> = Vec::new();
    let mut i: usize = 0;
    while i < entries.len()
        invariant
            i <= entries@.len(),
            pathsc@.len() == i,
            forall|j: int| 0 <= j < i ==> pathsc@[j]@ == #[trigger] entry_paths(entries@)[j],
        decreases entries@.len() - i,
    {
        pathsc.push(crate::text::chars_of(entries[i].path.as_str()));
        i = i + 1;
    }
    let k = crate::paths::lex_min_index(&pathsc);
    proof {
        let l = pathsc@.map_values(|x: Vec<char>| x@);
        assert(l =~= entry_paths(entries@));
        lemma_lex_min_unique(entry_paths(entries@), pathsc@[k as int]@, the_lex_min(
            entry_paths(entries@),
        ));
    }
    if !compress {
        let mut locals: Vec<String> = Vec::new();
        let mut i: usize = 0;
        while i < entries.len()
            invariant
                i <= entries@.len(),
                locals@.len() == i,
                forall|j: int| 0 <= j < i ==> locals@[j]@ == #[trigger] entry_paths(entries@)[j],
            decreases entries@.len() - i,
        {
            locals.push(entries[i].path.clone());
            i = i + 1;
        }
        proof {
            assert(locals@.map_values(|x: String| x@) =~= entry_paths(entries@));
        }
        r.push(UploadOp::Folder { locals, remote: remote_prefix.clone() });
        return r;
    }
    let parent = crate::paths::parent_chars(&pathsc[k]);
    match parent {
        Some(pre) => {
            let fname = crate::paths::file_name_chars(&pre);
            let remc = crate::paths::join_chars(&prefix_chars, &fname);
            r.push(
                UploadOp::FolderCompressed {
                    local: crate::text::string_of(&pre),
                    remote: crate::text::string_of(&remc),
                },
            );
            r
        },
        None => {
            proof {
                let m = pathsc@[k as int]@;
                assert(wf_path(m) && m.len() > 1);
                assert(m[0] == '/');
                assert(crate::paths::has_slash(m));
                assert(parent_of(m).is_some());
                assert(false);
            }
            r
        },
    }
}

/// Decides the planner's source contract on a concrete listing, so a caller
/// holding an arbitrary listing can test it before planning.
pub fn plan_input_ok(entries: &Vec<LocalEntry>) -> (r: bool)
    ensures
        r == plan_wf(entries@),
{
    if entries.len() <= 1 {
        if entries.len() == 1 {
            let pc = crate::text::chars_of(entries[0].path.as_str());
            let ok = wf_path_exec(&pc);
            proof {
                assert(entry_paths(entries@)[0] == entries@[0].path@);
            }
            return ok;
        }
        return true;
    }
    let mut pathsc: Vec<Vec<char>> = Vec::new();
    let mut i: usize = 0;
    while i < entries.len()
        invariant
            i <= entries@.len(),
            pathsc@.len() == i,
            forall|j: int| 0 <= j < i ==> pathsc@[j]@ == #[trigger] entry_paths(entries@)[j],
        decreases entries@.len() - i,
    {
        pathsc.push(crate::text::chars_of(entries[i].path.as_str()));
        i = i + 1;
    }
    let mut i: usize = 0;
    while i < pathsc.len()
        invariant
            pathsc@.len() == entries@.len() > 1,
            i <= pathsc@.len(),
            forall|j: int| 0 <= j < pathsc@.len() ==> pathsc@[j]@ == #[trigger] entry_paths(
                entries@,
            )[j],
            forall|j: int|
                0 <= j < i ==> wf_path(#[trigger] entry_paths(entries@)[j]) && (
                #[trigger] entry_paths(entries@)[j]).len() > 1,
        decreases pathsc@.len() - i,
    {
        if !wf_path_exec(&pathsc[i]) || pathsc[i].len() <= 1 {
            proof {
                let paths = entry_paths(entries@);
                assert(!wf_path(paths[i as int]) || paths[i as int].len() <= 1);
                assert(!plan_wf(entries@));
            }
            return false;
        }
        i = i + 1;
    }
    let k = crate::paths::lex_min_index(&pathsc);
    proof {
        let l = pathsc@.map_values(|x: Vec<char>| x@);
        assert(l =~= entry_paths(entries@));
        lemma_lex_min_unique(entry_paths(entries@), pathsc@[k as int]@, the_lex_min(
            entry_paths(entries@),
        ));
    }
    let parent = crate::paths::parent_chars(&pathsc[k]);
    match parent {
        Some(pre) => {
            let mut i: usize = 0;
            while i < pathsc.len()
                invariant
                    pathsc@.len() == entries@.len() > 1,
                    i <= pathsc@.len(),
                    pre@ == plan_prefix(entry_paths(entries@)),
                    forall|j: int| 0 <= j < pathsc@.len() ==> pathsc@[j]@ == #[trigger] entry_paths(
                        entries@,
                    )[j],
                    forall|j: int| 0 <= j < pathsc@.len() ==> wf_path(#[trigger] entry_paths(
                        entries@,
                    )[j]) && (#[trigger] entry_paths(entries@)[j]).len() > 1,
                    forall|j: int|
                        0 <= j < i ==> path_starts_with(#[trigger] entry_paths(entries@)[j], pre@),
                decreases pathsc@.len() - i,
            {
                if !crate::paths::starts_with_path(&pathsc[i], &pre) {
                    proof {
                        let paths = entry_paths(entries@);
                        assert(!path_starts_with(paths[i as int], plan_prefix(paths)));
                        assert(!all_share(paths, plan_prefix(paths)));
                        assert(!plan_wf(entries@));
                    }
                    return false;
                }
                i = i + 1;
            }
            true
        },
        None => {
            proof {
                let m = pathsc@[k as int]@;
                assert(m[0] == '/');
                assert(crate::paths::has_slash(m));
            }
            false
        },
    }
}

/// Decides whether a path text is a canonical absolute path.
pub fn wf_path_exec(s: &Vec<char>) -> (r: bool)
    ensures
        r == wf_path(s@),
{
    if s.len() == 0 {
        return false;
    }
    if s[0] != '/' {
        return false;
    }
    if s.len() > 1 && s[s.len() - 1] == '/' {
        return false;
    }
    let mut i: usize = 0;
    while i < s.len() - 1
        invariant
            s@.len() >= 1,
            s@.len() <= usize::MAX,
            i <= s@.len() - 1,
            forall|k: int| 0 <= k < i ==> !(s@[k] == '/' && #[trigger] s@[k + 1] == '/'),
        decreases s.len() - i,
    {
        if s[i] == '/' && s[i + 1] == '/' {
            return false;
        }
        i = i + 1;
    }
    true
}

} // verus!

verus! {

use crate::retention::{retention_victims, valid_victims};

/// Where one backup's tick stands. Only one tick per backup is ever in
/// flight: a fire that arrives while the phase is not `Idle` is dropped.
pub enum Phase {
    Idle,
    Dumping,
    Listing,
    Uploading,
    Retaining,
}

/// What the runtime reports back to the machine.
pub enum TickEvent {
    FireDue,
    DumpDone(Result<Option<String>, String>),
    Listed(Vec<LocalEntry>),
    UploadDone(bool),
    Enumerated(Option<Vec<String>>),
}

/// What the machine asks the runtime to do next.
pub enum TickAction {
    Dump,
    List,
    Upload(UploadOp),
    Enumerate(String),
    Delete(String),
    ReleaseDump(String),
    SkipFire,
}

/// An option's text, when it holds one.
pub open spec fn opt_view(o: Option<String>) -> Option<Seq<char>> {
    match o {
        Some(s) => Some(s@),
        None => None,
    }
}

/// The name a delete action carries.
pub open spec fn delete_name(a: TickAction) -> Seq<char> {
    match a {
        TickAction::Delete(n) => n@,
        _ => seq![],
    }
}

/// The names of the first `n` actions, all of them deletes.
pub open spec fn delete_names(acts: Seq<TickAction>, n: int) -> Seq<Seq<char>> {
    Seq::new(n as nat, |i: int| delete_name(acts[i]))
}

/// The directory retention must list after an upload operation: the parent
/// of the remote name, for a compressed file upload under a keep count —
/// and nothing for any other operation.
pub open spec fn op_retain_dir(op: UploadOp, keep: Option<u32>) -> Option<Seq<char>> {
    if keep.is_some() {
        match op {
            UploadOp::FileCompressed { local, remote } => parent_of(remote@),
            _ => None,
        }
    } else {
        None
    }
}

/// The per-backup tick machine of the pipeline: it walks one firing through
/// dump, enumerate, upload and retention, never lets two firings of the same
/// backup overlap, and emits the release of the dump handle on every path
/// back to idle.
pub struct TickMachine {
    pub phase: Phase,
    pub dump_path: Option<String>,
    pub retain_dir: Option<String>,
    pub compress: bool,
    pub remote_prefix: String,
    pub keep_last: Option<u32>,
}

/// The machine leaves nothing behind between ticks: idle holds no dump and
/// no pending retention, and retention is only ever entered under a keep
/// count.
pub open spec fn machine_wf(m: TickMachine) -> bool {
    &&& (m.phase matches Phase::Idle ==> m.dump_path is None && m.retain_dir is None)
    &&& (m.phase matches Phase::Dumping ==> m.dump_path is None && m.retain_dir is None)
    &&& (m.retain_dir is Some ==> m.keep_last is Some)
    &&& (m.phase matches Phase::Retaining ==> m.retain_dir is Some && m.keep_last is Some)
}

/// The machine's options did not change across a step.
pub open spec fn same_config(a: TickMachine, b: TickMachine) -> bool {
    &&& a.compress == b.compress
    &&& a.remote_prefix@ == b.remote_prefix@
    &&& a.keep_last == b.keep_last
}

/// A step that ends the tick: back to idle, and — on every such path — the
/// dump handle released exactly when the tick owned one. `prior` actions
/// precede the release.
pub open spec fn tick_finished(
    old_m: TickMachine,
    new_m: TickMachine,
    acts: Seq<TickAction>,
    prior: int,
) -> bool {
    &&& new_m.phase matches Phase::Idle
    &&& new_m.dump_path is None
    &&& new_m.retain_dir is None
    &&& match old_m.dump_path {
        Some(p) => acts.len() == prior + 1 && (acts[prior] matches TickAction::ReleaseDump(q) && q@
            == p@),
        None => acts.len() == prior,
    }
}

impl TickMachine {
    /// A machine at rest for one backup's options.
    pub fn new(compress: bool, remote_prefix: String, keep_last: Option<u32>) -> (m: TickMachine)
        ensures
            machine_wf(m),
            m.phase matches Phase::Idle,
            m.compress == compress,
            m.remote_prefix@ == remote_prefix@,
            m.keep_last == keep_last,
    {
        TickMachine {
            phase: Phase::Idle,
            dump_path: None,
            retain_dir: None,
            compress,
            remote_prefix,
            keep_last,
        }
    }

    /// Ends the tick, releasing the dump handle if one is held.
    fn finish(&mut self, acts: &mut Vec<TickAction>)
        ensures
            machine_wf(*final(self)),
            same_config(*old(self), *final(self)),
            tick_finished(*old(self), *final(self), final(acts)@, old(acts)@.len() as int),
            forall|i: int| 0 <= i < old(acts)@.len() ==> final(acts)@[i] == old(acts)@[i],
    {
        let dp = self.dump_path.take();
        match dp {
            Some(p) => acts.push(TickAction::ReleaseDump(p)),
            None => {},
        }
        self.retain_dir = None;
        self.phase = Phase::Idle;
    }

    /// Advances the tick by one event.
    ///
    /// Single-flight per backup: a `FireDue` while the machine is not idle
    /// changes nothing and asks only that the skip be logged. Dump scope:
    /// every step that returns the machine to idle emits the release of the
    /// dump handle the tick held, whatever else succeeded or failed.
    pub fn step(&mut self, ev: TickEvent) -> (acts: Vec<TickAction>)
        requires
            machine_wf(*old(self)),
        ensures
            machine_wf(*final(self)),
            same_config(*old(self), *final(self)),
            (ev matches TickEvent::FireDue ==> (if (old(self).phase matches Phase::Idle) {
                (final(self).phase matches Phase::Dumping) && final(self).dump_path is None
                    && acts@.len() == 1 && (acts@[0] matches TickAction::Dump)
            } else {
                *final(self) == *old(self) && acts@.len() == 1 && (acts@[0]
                    matches TickAction::SkipFire)
            })),
            (old(self).phase matches Phase::Dumping ==> match ev {
                TickEvent::DumpDone(res) => match res {
                    Ok(p) => (final(self).phase matches Phase::Listing) && final(self).dump_path
                        == p && acts@.len() == 1 && (acts@[0] matches TickAction::List),
                    Err(_) => tick_finished(*old(self), *final(self), acts@, 0),
                },
                TickEvent::FireDue => true,
                _ => *final(self) == *old(self) && acts@.len() == 0,
            }),
            (old(self).phase matches Phase::Listing ==> match ev {
                TickEvent::Listed(entries) => {
                    if (!plan_wf(entries@) || entries@.len() == 0) {
                        tick_finished(*old(self), *final(self), acts@, 0)
                    } else {
                        (final(self).phase matches Phase::Uploading) && final(self).dump_path
                            == old(self).dump_path && acts@.len() == 1 && (acts@[0]
                            matches TickAction::Upload(op) && plan_matches(
                            entries@,
                            old(self).compress,
                            old(self).remote_prefix@,
                            seq![op],
                        ) && opt_view(final(self).retain_dir) == op_retain_dir(
                            op,
                            old(self).keep_last,
                        ))
                    }
                },
                TickEvent::FireDue => true,
                _ => *final(self) == *old(self) && acts@.len() == 0,
            }),
            (old(self).phase matches Phase::Uploading ==> match ev {
                TickEvent::UploadDone(ok) => {
                    if (ok && old(self).retain_dir is Some) {
                        (final(self).phase matches Phase::Retaining) && final(self).dump_path
                            == old(self).dump_path && final(self).retain_dir == old(
                            self,
                        ).retain_dir && acts@.len() == 1 && (acts@[0]
                            matches TickAction::Enumerate(d) && Some(d@) == opt_view(
                            old(self).retain_dir,
                        ))
                    } else {
                        tick_finished(*old(self), *final(self), acts@, 0)
                    }
                },
                TickEvent::FireDue => true,
                _ => *final(self) == *old(self) && acts@.len() == 0,
            }),
            (old(self).phase matches Phase::Retaining ==> match ev {
                TickEvent::Enumerated(listing) => match listing {
                    Some(names) => {
                        let k = crate::retention::surplus_count(
                            names@,
                            old(self).keep_last.unwrap() as int,
                        );
                        valid_victims(
                            names@,
                            old(self).keep_last.unwrap() as int,
                            delete_names(acts@, k),
                        ) && (forall|i: int|
                            0 <= i < k ==> #[trigger] acts@[i] matches TickAction::Delete(_))
                            && tick_finished(*old(self), *final(self), acts@, k)
                    },
                    None => tick_finished(*old(self), *final(self), acts@, 0),
                },
                TickEvent::FireDue => true,
                _ => *final(self) == *old(self) && acts@.len() == 0,
            }),
    {
        let mut acts: Vec<TickAction> = Vec::new();
        match ev {
            TickEvent::FireDue => {
                match self.phase {
                    Phase::Idle => {
                        self.phase = Phase::Dumping;
                        acts.push(TickAction::Dump);
                    },
                    _ => {
                        acts.push(TickAction::SkipFire);
                    },
                }
            },
            TickEvent::DumpDone(res) => {
                match self.phase {
                    Phase::Dumping => match res {
                        Ok(p) => {
                            self.dump_path = p;
                            self.phase = Phase::Listing;
                            acts.push(TickAction::List);
                        },
                        Err(_) => {
                            self.finish(&mut acts);
                        },
                    },
                    _ => {},
                }
            },
            TickEvent::Listed(entries) => {
                match self.phase {
                    Phase::Listing => {
                        if !plan_input_ok(&entries) || entries.len() == 0 {
                            self.finish(&mut acts);
                        } else {
                            let mut plan = plan_uploads(
                                &entries,
                                self.compress,
                                &self.remote_prefix,
                            );
                            let op = plan.remove(0);
                            proof {
                                assert(seq![op] =~= plan@.insert(0, op).take(1));
                                assert(plan_matches(
                                    entries@,
                                    self.compress,
                                    self.remote_prefix@,
                                    seq![op],
                                ));
                            }
                            self.retain_dir = retain_dir_of(&op, &self.keep_last);
                            self.phase = Phase::Uploading;
                            acts.push(TickAction::Upload(op));
                        }
                    },
                    _ => {},
                }
            },
            TickEvent::UploadDone(ok) => {
                match self.phase {
                    Phase::Uploading => {
                        let retain = if ok {
                            self.retain_dir.take()
                        } else {
                            None
                        };
                        match retain {
                            Some(d) => {
                                self.retain_dir = Some(d.clone());
                                self.phase = Phase::Retaining;
                                acts.push(TickAction::Enumerate(d));
                            },
                            None => {
                                self.finish(&mut acts);
                            },
                        }
                    },
                    _ => {},
                }
            },
            TickEvent::Enumerated(listing) => {
                match self.phase {
                    Phase::Retaining => match listing {
                        Some(names) => {
                            let keep = match self.keep_last {
                                Some(k) => k,
                                None => 0,
                            };
                            let victims = retention_victims(&names, keep);
                            let ghost gk = crate::retention::surplus_count(
                                names@,
                                keep as int,
                            );
                            let mut i: usize = 0;
                            while i < victims.len()
                                invariant
                                    i <= victims@.len(),
                                    acts@.len() == i,
                                    forall|j: int|
                                        0 <= j < i ==> ((#[trigger] acts@[j]) matches
                                            TickAction::Delete(n) && n@ == victims@[j]@),
                                decreases victims@.len() - i,
                            {
                                acts.push(TickAction::Delete(victims[i].clone()));
                                i = i + 1;
                            }
                            proof {
                                assert(delete_names(acts@, gk) =~= crate::retention::views_of(
                                    victims@,
                                ));
                            }
                            self.finish(&mut acts);
                            proof {
                                assert(delete_names(acts@, gk) =~= crate::retention::views_of(
                                    victims@,
                                ));
                            }
                        },
                        None => {
                            self.finish(&mut acts);
                        },
                    },
                    _ => {},
                }
            },
        }
        acts
    }
}

/// The retention directory an upload operation calls for, as a held value.
fn retain_dir_of(op: &UploadOp, keep: &Option<u32>) -> (r: Option<String>)
    ensures
        opt_view(r) == op_retain_dir(*op, *keep),
{
    match keep {
        None => None,
        Some(_) => match op {
            UploadOp::FileCompressed { local, remote } => {
                let rc = crate::text::chars_of(remote.as_str());
                match crate::paths::parent_chars(&rc) {
                    Some(p) => Some(crate::text::string_of(&p)),
                    None => None,
                }
            },
            _ => None,
        },
    }
}

} // verus!
