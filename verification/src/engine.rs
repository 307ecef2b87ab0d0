//! The analysis engine: crate-root resolution, module resolution and the
//! graph traversal, as one state machine.
//!
//! The engine owns every decision of the analysis but performs no
//! file-system access itself. The caller repeatedly asks [`Analyzer::next_query`]
//! what is needed next — canonicalize a path, test a directory or file,
//! run the metadata provider, read a file — performs it, and hands the
//! outcome back through the matching `answer_*` method. When the query is
//! [`Query::Finished`], [`Analyzer::finish`] yields the aggregate result or
//! the error that aborted the analysis.

use vstd::prelude::*;
use crate::data::{AnalysisResult, Crate, Module, files_unique, items_owned, modules_form_tree,
    extends_by_one, has_parent_before};
use crate::extract::{extract, parse_gives};

verus! {

/// Where the analysis stands: which answer it is waiting for.
#[derive(Debug, Clone, Copy, PartialEq, Eq, Structural)]
pub enum Phase {
    /// Waiting for the package path to be canonicalized.
    ResolvingRoot,
    /// Waiting to learn whether the package path is a directory.
    CheckingDir,
    /// Waiting to learn whether the manifest file exists.
    CheckingManifest,
    /// Waiting for the metadata provider's report.
    QueryingMetadata,
    /// Waiting to learn whether the entry file exists.
    ProbingEntry,
    /// Waiting for the entry file's text.
    ReadingEntry,
    /// Waiting to learn whether `<base>/<name>.rs` exists.
    ProbingSibling,
    /// Waiting to learn whether `<base>/<name>/mod.rs` exists.
    ProbingModFile,
    /// Waiting for a resolved module file's text.
    ReadingModule,
    /// The analysis is complete.
    Finished,
}

/// Why an analysis aborted.
#[derive(Debug, Clone)]
pub enum AnalysisError {
    /// The package path could not be canonicalized.
    PathResolution { path: String },
    /// The package path is not a directory.
    NotADirectory { path: String },
    /// No manifest file exists in the package directory.
    ManifestMissing { path: String },
    /// The metadata provider failed; carries its message.
    Metadata { detail: String },
    /// The manifest declares neither a library nor a binary target.
    NoEntryTarget,
    /// A resolved module file could not be read.
    Io { path: String },
    /// A module file could not be interpreted; carries the file.
    Parse { file: Option<String> },
}

/// What the engine needs from the outside world next.
#[derive(Debug, Clone)]
pub enum Query {
    /// Canonicalize this path; answer with [`Analyzer::answer_path`].
    Canonicalize { path: String },
    /// Is this path a directory? Answer with [`Analyzer::answer_flag`].
    IsDir { path: String },
    /// Does this file exist? Answer with [`Analyzer::answer_flag`].
    FileExists { path: String },
    /// Run the metadata provider on this manifest; answer with
    /// [`Analyzer::answer_metadata`].
    Metadata { manifest: String },
    /// Read this file's text; answer with [`Analyzer::answer_text`].
    ReadFile { path: String },
    /// Nothing: collect the outcome with [`Analyzer::finish`].
    Finished,
}

/// One build target as the metadata provider reports it: its name, its
/// kind strings, and the path of its entry source file.
#[derive(Debug, Clone)]
pub struct TargetInfo {
    pub name: String,
    pub kinds: Vec<String>,
    pub src_path: String,
}

/// What the metadata provider reports of the package: its version and its
/// build targets.
#[derive(Debug, Clone)]
pub struct PackageMeta {
    pub version: String,
    pub targets: Vec<TargetInfo>,
}

/// A submodule declaration waiting to be resolved: the directory to
/// resolve it against, its declared name, and the declaring module's path.
#[derive(Debug, Clone)]
pub struct Pending {
    pub base: String,
    pub name: String,
    pub path: Vec<String>,
}

/// `dir/name`.
pub open spec fn joined_path(dir: Seq<char>, name: Seq<char>) -> Seq<char> {
    dir + "/"@ + name
}

/// The sibling-file layout of a submodule: `dir/name.rs`.
pub open spec fn sibling_file(dir: Seq<char>, name: Seq<char>) -> Seq<char> {
    joined_path(dir, name) + ".rs"@
}

/// The directory-style layout of a submodule: `dir/name/mod.rs`.
pub open spec fn mod_file(dir: Seq<char>, name: Seq<char>) -> Seq<char> {
    joined_path(dir, name) + "/mod.rs"@
}

/// The manifest file of the package directory `dir`.
pub open spec fn manifest_file(dir: Seq<char>) -> Seq<char> {
    dir + "/Cargo.toml"@
}

/// The directory part of `s`: everything before the last `/`, or empty if
/// there is none.
pub open spec fn dir_of(s: Seq<char>) -> Seq<char>
    decreases s.len(),
{
    if s.len() == 0 {
        Seq::empty()
    } else if s.last() == '/' {
        s.drop_last()
    } else {
        dir_of(s.drop_last())
    }
}

/// The target `t` has `k` among its kind strings.
pub open spec fn kind_matches(t: TargetInfo, k: Seq<char>) -> bool {
    exists|i: int| 0 <= i < t.kinds.len() && t.kinds@[i]@ == k
}

/// `i` is the position of the first target whose kinds include `k`.
pub open spec fn first_kind_index(ts: Seq<TargetInfo>, k: Seq<char>, i: int) -> bool {
    &&& 0 <= i < ts.len()
    &&& kind_matches(ts[i], k)
    &&& forall|j: int| 0 <= j < i ==> !kind_matches(ts[j], k)
}

fn make_joined(dir: &String, name: &String) -> (r: String)
    ensures
        r@ == joined_path(dir@, name@),
{
    let mut s = dir.clone();
    s.append("/");
    s.append(name.as_str());
    s
}

fn make_sibling(dir: &String, name: &String) -> (r: String)
    ensures
        r@ == sibling_file(dir@, name@),
{
    let mut s = make_joined(dir, name);
    s.append(".rs");
    s
}

fn make_mod_file(dir: &String, name: &String) -> (r: String)
    ensures
        r@ == mod_file(dir@, name@),
{
    let mut s = make_joined(dir, name);
    s.append("/mod.rs");
    s
}

fn make_manifest(dir: &String) -> (r: String)
    ensures
        r@ == manifest_file(dir@),
{
    let mut s = dir.clone();
    s.append("/Cargo.toml");
    s
}

proof fn lemma_dir_of_after(s: Seq<char>, k: int)
    requires
        0 <= k <= s.len(),
        forall|j: int| k <= j < s.len() ==> s[j] != '/',
    ensures
        dir_of(s) == dir_of(s.take(k)),
    decreases s.len() - k,
{
    if k < s.len() {
        assert(s.last() != '/');
        assert(s.drop_last() =~= s.take(s.len() - 1));
        lemma_dir_of_after(s.take(s.len() - 1), k);
        assert(s.take(s.len() - 1).take(k) =~= s.take(k));
    } else {
        assert(s.take(k) =~= s);
    }
}

/// The directory part of a file path.
fn parent_dir(s: &String) -> (r: String)
    ensures
        r@ == dir_of(s@),
{
    let n = s.as_str().unicode_len();
    let mut i = n;
    while i > 0 && s.as_str().get_char(i - 1) != '/'
        invariant
            0 <= i <= n,
            n == s@.len(),
            forall|j: int| i <= j < n ==> s@[j] != '/',
        decreases i,
    {
        i = i - 1;
    }
    proof {
        lemma_dir_of_after(s@, i as int);
        if i > 0 {
            assert(s@.take(i as int).last() == '/');
            assert(s@.take(i as int).drop_last() =~= s@.take(i - 1));
        } else {
            assert(s@.take(0) =~= Seq::<char>::empty());
        }
    }
    if i > 0 {
        s.as_str().substring_char(0, i - 1).to_owned()
    } else {
        String::new()
    }
}

fn contains_string(v: &Vec<String>, s: &String) -> (r: bool)
    ensures
        r == v.deep_view().contains(s@),
{
    let mut i: usize = 0;
    while i < v.len()
        invariant
            0 <= i <= v.len(),
            forall|j: int| 0 <= j < i ==> v.deep_view()[j] != s@,
        decreases v.len() - i,
    {
        if v[i].eq(s) {
            assert(v.deep_view()[i as int] == s@);
            return true;
        }
        i = i + 1;
    }
    assert(forall|j: int| 0 <= j < v.deep_view().len() ==> v.deep_view()[j] != s@);
    false
}

/// The position of the first target whose kinds include `k`, if any.
fn find_kind(ts: &Vec<TargetInfo>, k: &String) -> (r: Option<usize>)
    ensures
        match r {
            Option::Some(i) => first_kind_index(ts@, k@, i as int),
            Option::None => forall|j: int| 0 <= j < ts@.len() ==> !kind_matches(ts@[j], k@),
        },
{
    let mut i: usize = 0;
    while i < ts.len()
        invariant
            0 <= i <= ts.len(),
            forall|j: int| 0 <= j < i ==> !kind_matches(ts@[j], k@),
        decreases ts.len() - i,
    {
        let t = &ts[i];
        let mut j: usize = 0;
        while j < t.kinds.len()
            invariant
                0 <= j <= t.kinds.len(),
                0 <= i < ts.len(),
                t == ts@[i as int],
                forall|l: int| 0 <= l < j ==> t.kinds@[l]@ != k@,
                forall|l: int| 0 <= l < i ==> !kind_matches(ts@[l], k@),
            decreases t.kinds.len() - j,
        {
            if t.kinds[j].eq(k) {
                assert(kind_matches(ts@[i as int], k@));
                return Option::Some(i);
            }
            j = j + 1;
        }
        assert(!kind_matches(ts@[i as int], k@));
        i = i + 1;
    }
    Option::None
}

/// The analysis state machine. Drive it by alternating [`Analyzer::next_query`]
/// with the matching `answer_*` method until the query is
/// [`Query::Finished`], then collect the outcome with [`Analyzer::finish`].
pub struct Analyzer {
    /// The package path the analysis was started on.
    pub input: String,
    /// Which answer the engine is waiting for.
    pub phase: Phase,
    /// The canonicalized package directory.
    pub root: String,
    /// The entry source file of the selected target.
    pub entry: String,
    /// The base directory of the submodule being resolved.
    pub cur_base: String,
    /// The declared name of the submodule being resolved.
    pub cur_name: String,
    /// The path of the module that declared the submodule being resolved.
    pub cur_path: Vec<String>,
    /// The resolved file of the submodule being read.
    pub cur_file: String,
    /// The directory the submodule's own declarations resolve against.
    pub cur_subdir: String,
    /// Submodule declarations not yet resolved.
    pub worklist: Vec<Pending>,
    /// The files parsed so far, in parse order.
    pub visited: Vec<String>,
    /// The accumulated result.
    pub result: AnalysisResult,
    /// The error that aborted the analysis, if any.
    pub error: Option<AnalysisError>,
}

/// The file the pending read (entry or module) concerns.
pub open spec fn read_file_of(a: Analyzer) -> Seq<char> {
    if a.phase == Phase::ReadingEntry {
        a.entry@
    } else {
        a.cur_file@
    }
}

/// The module path the pending read will be extracted under.
pub open spec fn read_prefix_of(a: Analyzer) -> Seq<Seq<char>> {
    if a.phase == Phase::ReadingEntry {
        seq![a.result.crate_.name@]
    } else {
        a.cur_path.deep_view().push(a.cur_name@)
    }
}

/// The directory the declarations of the module being read resolve
/// against: the entry file's own directory, or the resolved submodule
/// directory recorded when the module's file was found.
pub open spec fn read_base_of(a: Analyzer) -> Seq<char> {
    if a.phase == Phase::ReadingEntry {
        dir_of(a.entry@)
    } else {
        a.cur_subdir@
    }
}

/// `post` is `pre` with the next pending submodule popped: the last
/// worklist entry became the probed `(cur_base, cur_name, cur_path)`, or
/// the analysis finished successfully if no entry was left.
pub open spec fn advanced_from(post: Analyzer, pre: Analyzer) -> bool {
    &&& post.result == pre.result
    &&& post.visited == pre.visited
    &&& post.error is None
    &&& if pre.worklist.len() == 0 {
        post.phase == Phase::Finished && post.worklist@ == pre.worklist@
    } else {
        &&& post.phase == Phase::ProbingSibling
        &&& post.worklist@ == pre.worklist@.drop_last()
        &&& post.cur_base == pre.worklist@.last().base
        &&& post.cur_name == pre.worklist@.last().name
        &&& post.cur_path == pre.worklist@.last().path
    }
}

/// The worklist and probe state after a parsed module appended one pending
/// entry per declared submodule name `decls` (in declaration order, each
/// resolving against `base` under the new module's path `pfx`) to the
/// worklist `pre_worklist`, and the next pending entry was popped. The
/// worklist is a stack, so the popped entry is the module's last declared
/// name, or — if it declared none — the last previously pending one; the
/// analysis is finished exactly when nothing was or became pending.
pub open spec fn traversal_continued(
    post: Analyzer,
    pre_worklist: Seq<Pending>,
    decls: Seq<Seq<char>>,
    base: Seq<char>,
    pfx: Seq<Seq<char>>,
) -> bool {
    let d = decls.len() as int;
    if d > 0 {
        &&& post.phase == Phase::ProbingSibling
        &&& post.worklist.len() == pre_worklist.len() + d - 1
        &&& forall|i: int| 0 <= i < pre_worklist.len() ==> (#[trigger] post.worklist@[i])
            == pre_worklist[i]
        &&& forall|i: int| pre_worklist.len() <= i < post.worklist.len() ==> {
            &&& (#[trigger] post.worklist@[i]).base@ == base
            &&& post.worklist@[i].name@ == decls[i - pre_worklist.len()]
            &&& post.worklist@[i].path.deep_view() == pfx
        }
        &&& post.cur_base@ == base
        &&& post.cur_name@ == decls[d - 1]
        &&& post.cur_path.deep_view() == pfx
    } else if pre_worklist.len() > 0 {
        &&& post.phase == Phase::ProbingSibling
        &&& post.worklist@ == pre_worklist.drop_last()
        &&& post.cur_base == pre_worklist.last().base
        &&& post.cur_name == pre_worklist.last().name
        &&& post.cur_path == pre_worklist.last().path
    } else {
        &&& post.phase == Phase::Finished
        &&& post.worklist@ == pre_worklist
    }
}

impl Analyzer {
    /// A module with the path `p` is present in the result.
    pub open spec fn module_present(self, p: Seq<Seq<char>>) -> bool {
        exists|j: int| 0 <= j < self.result.modules.len() && (#[trigger] self.result.modules@[
            j
        ].path.deep_view()) == p
    }

    /// The accumulated result respects the structural properties, and the
    /// visited-file list mirrors the modules parsed so far.
    pub open spec fn result_wf(self) -> bool {
        &&& modules_form_tree(self.result)
        &&& items_owned(self.result)
        &&& files_unique(self.result)
        &&& self.visited.len() == self.result.modules.len()
        &&& forall|i: int| 0 <= i < self.visited.len() ==> (#[trigger] self.result.modules@[
            i
        ].file.deep_view()) == Option::Some(self.visited.deep_view()[i])
        &&& forall|i: int, j: int| #![auto] 0 <= i < j < self.visited.len()
            ==> self.visited.deep_view()[i] != self.visited.deep_view()[j]
    }

    /// Result and worklist are consistent, whatever the phase.
    pub open spec fn core_wf(self) -> bool {
        &&& self.result_wf()
        &&& forall|i: int| 0 <= i < self.worklist.len() ==> self.module_present(
            (#[trigger] self.worklist@[i]).path.deep_view(),
        )
    }

    /// Nothing has been accumulated yet.
    pub open spec fn nothing_yet(self) -> bool {
        &&& self.result.modules.len() == 0
        &&& self.result.structs.len() == 0
        &&& self.result.enums.len() == 0
        &&& self.result.functions.len() == 0
        &&& self.worklist.len() == 0
        &&& self.visited.len() == 0
    }

    /// The engine's invariant.
    pub open spec fn wf(self) -> bool {
        &&& self.core_wf()
        &&& self.phase != Phase::Finished ==> self.error is None
        &&& match self.phase {
            Phase::ResolvingRoot | Phase::CheckingDir | Phase::CheckingManifest
                | Phase::QueryingMetadata | Phase::ProbingEntry | Phase::ReadingEntry
                => self.nothing_yet(),
            Phase::ProbingSibling | Phase::ProbingModFile => self.module_present(
                self.cur_path.deep_view(),
            ),
            Phase::ReadingModule => self.module_present(self.cur_path.deep_view())
                && !self.visited.deep_view().contains(self.cur_file@),
            Phase::Finished => true,
        }
    }

    /// A fresh analysis of the package at `path`. The first query asks to
    /// canonicalize that path.
    pub fn new(path: String) -> (a: Analyzer)
        ensures
            a.wf(),
            a.phase == Phase::ResolvingRoot,
            a.input@ == path@,
            a.error is None,
            a.nothing_yet(),
    {
        Analyzer {
            input: path,
            phase: Phase::ResolvingRoot,
            root: String::new(),
            entry: String::new(),
            cur_base: String::new(),
            cur_name: String::new(),
            cur_path: Vec::new(),
            cur_file: String::new(),
            cur_subdir: String::new(),
            worklist: Vec::new(),
            visited: Vec::new(),
            result: AnalysisResult::new(Crate { name: String::new(), version: String::new() }),
            error: Option::None,
        }
    }

    /// What the caller must do next, as a function of the phase.
    pub fn next_query(&self) -> (q: Query)
        ensures
            match self.phase {
                Phase::ResolvingRoot => q matches Query::Canonicalize { path } && path@
                    == self.input@,
                Phase::CheckingDir => q matches Query::IsDir { path } && path@ == self.root@,
                Phase::CheckingManifest => q matches Query::FileExists { path } && path@
                    == manifest_file(self.root@),
                Phase::QueryingMetadata => q matches Query::Metadata { manifest } && manifest@
                    == manifest_file(self.root@),
                Phase::ProbingEntry => q matches Query::FileExists { path } && path@
                    == self.entry@,
                Phase::ReadingEntry => q matches Query::ReadFile { path } && path@ == self.entry@,
                Phase::ProbingSibling => q matches Query::FileExists { path } && path@
                    == sibling_file(self.cur_base@, self.cur_name@),
                Phase::ProbingModFile => q matches Query::FileExists { path } && path@
                    == mod_file(self.cur_base@, self.cur_name@),
                Phase::ReadingModule => q matches Query::ReadFile { path } && path@
                    == self.cur_file@,
                Phase::Finished => q is Finished,
            },
    {
        match self.phase {
            Phase::ResolvingRoot => Query::Canonicalize { path: self.input.clone() },
            Phase::CheckingDir => Query::IsDir { path: self.root.clone() },
            Phase::CheckingManifest => Query::FileExists { path: make_manifest(&self.root) },
            Phase::QueryingMetadata => Query::Metadata { manifest: make_manifest(&self.root) },
            Phase::ProbingEntry => Query::FileExists { path: self.entry.clone() },
            Phase::ReadingEntry => Query::ReadFile { path: self.entry.clone() },
            Phase::ProbingSibling => Query::FileExists {
                path: make_sibling(&self.cur_base, &self.cur_name),
            },
            Phase::ProbingModFile => Query::FileExists {
                path: make_mod_file(&self.cur_base, &self.cur_name),
            },
            Phase::ReadingModule => Query::ReadFile { path: self.cur_file.clone() },
            Phase::Finished => Query::Finished,
        }
    }

    /// Pops the next pending submodule, or completes the analysis if none
    /// is left.
    fn advance(&mut self)
        requires
            old(self).core_wf(),
            old(self).error is None,
        ensures
            final(self).wf(),
            advanced_from(*final(self), *old(self)),
    {
        let popped = self.worklist.pop();
        match popped {
            Option::Some(p) => {
                self.cur_base = p.base;
                self.cur_name = p.name;
                self.cur_path = p.path;
                self.phase = Phase::ProbingSibling;
                proof {
                    assert(old(self).worklist@.last() == old(self).worklist@[
                        old(self).worklist.len() - 1
                    ]);
                    assert(self.worklist@ =~= old(self).worklist@.drop_last());
                    assert forall|i: int| 0 <= i < self.worklist.len() implies self.module_present(
                        (#[trigger] self.worklist@[i]).path.deep_view(),
                    ) by {
                        assert(self.worklist@[i] == old(self).worklist@[i]);
                    }
                }
            },
            Option::None => {
                self.phase = Phase::Finished;
            },
        }
    }

    /// Consumes the canonicalized package path, or `None` if the path could
    /// not be resolved, which aborts the analysis with `PathResolution`.
    pub fn answer_path(&mut self, r: Option<String>)
        requires
            old(self).wf(),
            old(self).phase == Phase::ResolvingRoot,
        ensures
            final(self).wf(),
            final(self).result == old(self).result,
            match r {
                Option::Some(p) => final(self).phase == Phase::CheckingDir && final(self).root@
                    == p@ && final(self).error is None,
                Option::None => final(self).phase == Phase::Finished && (final(self).error
                    matches Option::Some(AnalysisError::PathResolution { path }) && path@
                    == old(self).input@),
            },
    {
        match r {
            Option::Some(p) => {
                self.root = p;
                self.phase = Phase::CheckingDir;
            },
            Option::None => {
                self.error = Option::Some(
                    AnalysisError::PathResolution { path: self.input.clone() },
                );
                self.phase = Phase::Finished;
            },
        }
    }

    /// Consumes the answer to the pending existence or directory test.
    ///
    /// - `CheckingDir`: `false` aborts with `NotADirectory`.
    /// - `CheckingManifest`: `false` aborts with `ManifestMissing`, with
    ///   nothing accumulated.
    /// - `ProbingEntry`: `false` completes the analysis successfully with
    ///   the package identity alone and all lists empty.
    /// - `ProbingSibling`: `true` resolves `<base>/<name>.rs` (unless that
    ///   file was already parsed, which skips the declaration); `false`
    ///   falls back to probing `<base>/<name>/mod.rs`.
    /// - `ProbingModFile`: `true` resolves `<base>/<name>/mod.rs` likewise;
    ///   `false` skips the declaration silently.
    pub fn answer_flag(&mut self, b: bool)
        requires
            old(self).wf(),
            old(self).phase == Phase::CheckingDir || old(self).phase == Phase::CheckingManifest
                || old(self).phase == Phase::ProbingEntry || old(self).phase
                == Phase::ProbingSibling || old(self).phase == Phase::ProbingModFile,
        ensures
            final(self).wf(),
            final(self).result.crate_ == old(self).result.crate_,
            match old(self).phase {
                Phase::CheckingDir => if b {
                    final(self).phase == Phase::CheckingManifest && final(self).root@
                        == old(self).root@ && final(self).error is None && final(self).result
                        == old(self).result
                } else {
                    final(self).phase == Phase::Finished && (final(self).error
                        matches Option::Some(AnalysisError::NotADirectory { path }) && path@
                        == old(self).root@) && final(self).result == old(self).result
                },
                Phase::CheckingManifest => if b {
                    final(self).phase == Phase::QueryingMetadata && final(self).root@
                        == old(self).root@ && final(self).error is None && final(self).result
                        == old(self).result
                } else {
                    final(self).phase == Phase::Finished && (final(self).error
                        matches Option::Some(AnalysisError::ManifestMissing { path }) && path@
                        == old(self).root@) && final(self).result == old(self).result
                        && final(self).nothing_yet()
                },
                Phase::ProbingEntry => if b {
                    final(self).phase == Phase::ReadingEntry && final(self).error is None
                        && final(self).result == old(self).result && final(self).entry@
                        == old(self).entry@ && final(self).nothing_yet()
                } else {
                    final(self).phase == Phase::Finished && final(self).error is None
                        && final(self).result == old(self).result && final(self).nothing_yet()
                },
                Phase::ProbingSibling => if b {
                    if old(self).visited.deep_view().contains(
                        sibling_file(old(self).cur_base@, old(self).cur_name@),
                    ) {
                        advanced_from(*final(self), *old(self))
                    } else {
                        final(self).phase == Phase::ReadingModule && final(self).cur_file@
                            == sibling_file(old(self).cur_base@, old(self).cur_name@)
                            && final(self).cur_subdir@ == joined_path(
                            old(self).cur_base@,
                            old(self).cur_name@,
                        ) && final(self).result == old(self).result && final(self).error is None
                            && final(self).cur_path == old(self).cur_path
                            && final(self).cur_name@ == old(self).cur_name@
                            && final(self).worklist == old(self).worklist
                            && final(self).visited == old(self).visited
                    }
                } else {
                    final(self).phase == Phase::ProbingModFile && final(self).result
                        == old(self).result && final(self).error is None && final(self).cur_base@
                        == old(self).cur_base@ && final(self).cur_name@ == old(self).cur_name@
                        && final(self).cur_path == old(self).cur_path
                        && final(self).worklist == old(self).worklist
                        && final(self).visited == old(self).visited
                },
                Phase::ProbingModFile => if b {
                    if old(self).visited.deep_view().contains(
                        mod_file(old(self).cur_base@, old(self).cur_name@),
                    ) {
                        advanced_from(*final(self), *old(self))
                    } else {
                        final(self).phase == Phase::ReadingModule && final(self).cur_file@
                            == mod_file(old(self).cur_base@, old(self).cur_name@)
                            && final(self).cur_subdir@ == joined_path(
                            old(self).cur_base@,
                            old(self).cur_name@,
                        ) && final(self).result == old(self).result && final(self).error is None
                            && final(self).cur_path == old(self).cur_path
                            && final(self).cur_name@ == old(self).cur_name@
                            && final(self).worklist == old(self).worklist
                            && final(self).visited == old(self).visited
                    }
                } else {
                    advanced_from(*final(self), *old(self))
                },
                _ => false,
            },
    {
        match self.phase {
            Phase::CheckingDir => {
                if b {
                    self.phase = Phase::CheckingManifest;
                } else {
                    self.error = Option::Some(
                        AnalysisError::NotADirectory { path: self.root.clone() },
                    );
                    self.phase = Phase::Finished;
                }
            },
            Phase::CheckingManifest => {
                if b {
                    self.phase = Phase::QueryingMetadata;
                } else {
                    self.error = Option::Some(
                        AnalysisError::ManifestMissing { path: self.root.clone() },
                    );
                    self.phase = Phase::Finished;
                }
            },
            Phase::ProbingEntry => {
                if b {
                    self.phase = Phase::ReadingEntry;
                } else {
                    self.phase = Phase::Finished;
                }
            },
            Phase::ProbingSibling => {
                if b {
                    let f = make_sibling(&self.cur_base, &self.cur_name);
                    if contains_string(&self.visited, &f) {
                        self.advance();
                    } else {
                        self.cur_file = f;
                        self.cur_subdir = make_joined(&self.cur_base, &self.cur_name);
                        self.phase = Phase::ReadingModule;
                    }
                } else {
                    self.phase = Phase::ProbingModFile;
                }
            },
            Phase::ProbingModFile => {
                if b {
                    let f = make_mod_file(&self.cur_base, &self.cur_name);
                    if contains_string(&self.visited, &f) {
                        self.advance();
                    } else {
                        self.cur_file = f;
                        self.cur_subdir = make_joined(&self.cur_base, &self.cur_name);
                        self.phase = Phase::ReadingModule;
                    }
                } else {
                    self.advance();
                }
            },
            _ => {
            },
        }
    }

    /// Consumes the metadata provider's report, or its failure message,
    /// which aborts with `Metadata`. The library target is selected if one
    /// exists, otherwise the first binary target; with neither, the
    /// analysis aborts with `NoEntryTarget`. The selected target gives the
    /// package its name and the entry file to probe.
    pub fn answer_metadata(&mut self, r: Result<PackageMeta, String>)
        requires
            old(self).wf(),
            old(self).phase == Phase::QueryingMetadata,
        ensures
            final(self).wf(),
            match r {
                Result::Err(msg) => final(self).phase == Phase::Finished && (final(self).error
                    matches Option::Some(AnalysisError::Metadata { detail }) && detail@ == msg@)
                    && final(self).result == old(self).result,
                Result::Ok(m) => {
                    if exists|i: int| first_kind_index(m.targets@, "lib"@, i) {
                        exists|i: int|
                            #[trigger] first_kind_index(m.targets@, "lib"@, i) && selected(
                                *final(self),
                                m,
                                i,
                            )
                    } else if exists|i: int| first_kind_index(m.targets@, "bin"@, i) {
                        exists|i: int|
                            #[trigger] first_kind_index(m.targets@, "bin"@, i) && selected(
                                *final(self),
                                m,
                                i,
                            )
                    } else {
                        final(self).phase == Phase::Finished && (final(self).error
                            matches Option::Some(AnalysisError::NoEntryTarget))
                            && final(self).result == old(self).result
                    }
                },
            },
    {
        match r {
            Result::Err(msg) => {
                self.error = Option::Some(AnalysisError::Metadata { detail: msg });
                self.phase = Phase::Finished;
            },
            Result::Ok(m) => {
                let lib = String::from_str("lib");
                match find_kind(&m.targets, &lib) {
                    Option::Some(i) => {
                        let t = &m.targets[i];
                        self.result.crate_ = Crate {
                            name: t.name.clone(),
                            version: m.version.clone(),
                        };
                        self.entry = t.src_path.clone();
                        self.phase = Phase::ProbingEntry;
                        proof {
                            assert(first_kind_index(m.targets@, "lib"@, i as int));
                        }
                    },
                    Option::None => {
                        proof {
                            assert forall|ii: int| !first_kind_index(m.targets@, "lib"@, ii) by {
                                if 0 <= ii < m.targets@.len() {
                                    assert(!kind_matches(m.targets@[ii], "lib"@));
                                }
                            }
                        }
                        let bin = String::from_str("bin");
                        match find_kind(&m.targets, &bin) {
                            Option::Some(i) => {
                                let t = &m.targets[i];
                                self.result.crate_ = Crate {
                                    name: t.name.clone(),
                                    version: m.version.clone(),
                                };
                                self.entry = t.src_path.clone();
                                self.phase = Phase::ProbingEntry;
                                proof {
                                    assert(first_kind_index(m.targets@, "bin"@, i as int));
                                }
                            },
                            Option::None => {
                                proof {
                                    assert forall|ii: int|
                                        !first_kind_index(m.targets@, "bin"@, ii) by {
                                        if 0 <= ii < m.targets@.len() {
                                            assert(!kind_matches(m.targets@[ii], "bin"@));
                                        }
                                    }
                                }
                                self.error = Option::Some(AnalysisError::NoEntryTarget);
                                self.phase = Phase::Finished;
                            },
                        }
                    },
                }
            },
        }
    }

    /// Consumes the text of the file the engine asked to read, or `None`
    /// if the read failed, which aborts with `Io`. The text is extracted;
    /// a malformed declaration aborts with `Parse`. Otherwise the new
    /// module and its items are appended to the result, the file is
    /// recorded as visited, one pending entry per declared submodule is
    /// pushed — each resolving against the new module's own directory,
    /// under its path — and the top of the pending stack is popped for
    /// probing; the analysis finishes when nothing is pending.
    pub fn answer_text(&mut self, t: Option<String>)
        requires
            old(self).wf(),
            old(self).phase == Phase::ReadingEntry || old(self).phase == Phase::ReadingModule,
        ensures
            final(self).wf(),
            final(self).result.crate_ == old(self).result.crate_,
            match t {
                Option::None => final(self).phase == Phase::Finished && (final(self).error
                    matches Option::Some(AnalysisError::Io { path }) && path@ == read_file_of(
                    *old(self),
                )) && final(self).result == old(self).result && final(self).visited
                    == old(self).visited,
                Option::Some(text) => {
                    if extract(text@).failed {
                        final(self).phase == Phase::Finished && (final(self).error
                            matches Option::Some(AnalysisError::Parse { file }) && file.deep_view()
                            == Option::Some(read_file_of(*old(self)))) && final(self).result
                            == old(self).result && final(self).visited == old(self).visited
                    } else {
                        let oldr = old(self).result;
                        let newr = final(self).result;
                        &&& newr.modules.len() == oldr.modules.len() + 1
                        &&& newr.modules@.take(oldr.modules.len() as int) == oldr.modules@
                        &&& newr.structs@.take(oldr.structs.len() as int) == oldr.structs@
                        &&& newr.enums@.take(oldr.enums.len() as int) == oldr.enums@
                        &&& newr.functions@.take(oldr.functions.len() as int) == oldr.functions@
                        &&& parse_gives(
                            newr.modules@.last(),
                            newr.structs@.skip(oldr.structs.len() as int),
                            newr.enums@.skip(oldr.enums.len() as int),
                            newr.functions@.skip(oldr.functions.len() as int),
                            Option::Some(read_file_of(*old(self))),
                            read_prefix_of(*old(self)),
                            text@,
                        )
                        &&& final(self).visited.deep_view()
                            == old(self).visited.deep_view().push(read_file_of(*old(self)))
                        &&& final(self).error is None
                        &&& traversal_continued(
                            *final(self),
                            old(self).worklist@,
                            extract(text@).decls,
                            read_base_of(*old(self)),
                            read_prefix_of(*old(self)),
                        )
                    }
                },
            },
    {
        let is_entry = self.phase == Phase::ReadingEntry;
        match t {
            Option::None => {
                let p = if is_entry {
                    self.entry.clone()
                } else {
                    self.cur_file.clone()
                };
                self.error = Option::Some(AnalysisError::Io { path: p });
                self.phase = Phase::Finished;
            },
            Option::Some(text) => {
                let file = if is_entry {
                    self.entry.clone()
                } else {
                    self.cur_file.clone()
                };
                let base = if is_entry {
                    parent_dir(&self.entry)
                } else {
                    self.cur_subdir.clone()
                };
                let prefix: Vec<String> = if is_entry {
                    let mut v: Vec<String> = Vec::new();
                    v.push(self.result.crate_.name.clone());
                    v
                } else {
                    let mut v = crate::extract::clone_strings(&self.cur_path);
                    v.push(self.cur_name.clone());
                    v
                };
                proof {
                    assert(prefix.deep_view() =~= read_prefix_of(*old(self)));
                }
                match Module::parse(Option::Some(file.as_str()), &prefix, text.as_str()) {
                    Result::Err(_) => {
                        self.error = Option::Some(
                            AnalysisError::Parse { file: Option::Some(file) },
                        );
                        self.phase = Phase::Finished;
                    },
                    Result::Ok(parts) => {
                        let (m, mut ss, mut es, mut fs) = parts;
                        let decls = crate::extract::clone_strings(&m.declarations);
                        let ghost fv = file@;
                        let ghost gm = m;
                        let ghost gss = ss@;
                        let ghost ges = es@;
                        let ghost gfs = fs@;
                        self.visited.push(file);
                        self.result.modules.push(m);
                        self.result.structs.append(&mut ss);
                        self.result.enums.append(&mut es);
                        self.result.functions.append(&mut fs);
                        proof {
                            let r0 = old(self).result;
                            let r1 = self.result;
                            let n0 = r0.modules.len() as int;
                            let s0 = r0.structs.len() as int;
                            let e0 = r0.enums.len() as int;
                            let f0 = r0.functions.len() as int;
                            let pfx = prefix.deep_view();
                            assert(fv == read_file_of(*old(self)));
                            assert(r1.modules@.take(n0) =~= r0.modules@);
                            assert(r1.structs@.take(s0) =~= r0.structs@);
                            assert(r1.enums@.take(e0) =~= r0.enums@);
                            assert(r1.functions@.take(f0) =~= r0.functions@);
                            assert(r1.structs@.skip(s0) =~= gss);
                            assert(r1.enums@.skip(e0) =~= ges);
                            assert(r1.functions@.skip(f0) =~= gfs);
                            assert(r1.modules@.last() == gm);
                            assert(self.visited.deep_view() =~= old(self).visited.deep_view().push(
                                fv,
                            ));
                            assert(gm.path.deep_view() == pfx);
                            assert(!old(self).visited.deep_view().contains(fv));
                            // tree consistency
                            assert forall|i: int|
                                1 <= i < r1.modules.len() implies has_parent_before(r1, i) by {
                                if i < n0 {
                                    assert(has_parent_before(r0, i));
                                    let j = choose|j: int|
                                        0 <= j < i && extends_by_one(
                                            r0.modules@[j].path.deep_view(),
                                            r0.modules@[i].path.deep_view(),
                                        );
                                    assert(r1.modules@[j] == r0.modules@[j]);
                                    assert(r1.modules@[i] == r0.modules@[i]);
                                    assert(extends_by_one(
                                        r1.modules@[j].path.deep_view(),
                                        r1.modules@[i].path.deep_view(),
                                    ));
                                } else {
                                    assert(!is_entry);
                                    let cp = old(self).cur_path.deep_view();
                                    assert(old(self).module_present(cp));
                                    let j = choose|j: int|
                                        0 <= j < r0.modules.len() && (#[trigger] r0.modules@[
                                            j
                                        ].path.deep_view()) == cp;
                                    assert(pfx == cp.push(old(self).cur_name@));
                                    assert(pfx.drop_last() =~= cp);
                                    assert(r1.modules@[j] == r0.modules@[j]);
                                    assert(extends_by_one(
                                        r1.modules@[j].path.deep_view(),
                                        r1.modules@[i].path.deep_view(),
                                    ));
                                }
                            }
                            if is_entry {
                                assert(r1.modules@[0].path.deep_view() == seq![r1.crate_.name@]);
                            } else {
                                assert(r1.modules@[0] == r0.modules@[0]);
                            }
                            assert(modules_form_tree(r1));
                            // ownership
                            assert forall|i: int|
                                0 <= i < r1.structs.len() implies crate::data::owned_by_module(
                                r1,
                                r1.structs@[i].path.deep_view(),
                            ) by {
                                if i < s0 {
                                    assert(crate::data::owned_by_module(
                                        r0,
                                        r0.structs@[i].path.deep_view(),
                                    ));
                                    let j = choose|j: int|
                                        0 <= j < r0.modules.len() && extends_by_one(
                                            (#[trigger] r0.modules@[j].path.deep_view()),
                                            r0.structs@[i].path.deep_view(),
                                        );
                                    assert(r1.modules@[j] == r0.modules@[j]);
                                    assert(r1.structs@[i] == r0.structs@[i]);
                                    assert(extends_by_one(
                                        r1.modules@[j].path.deep_view(),
                                        r1.structs@[i].path.deep_view(),
                                    ));
                                } else {
                                    assert(r1.structs@[i] == gss[i - s0]);
                                    assert(r1.structs@[i].path.deep_view() == pfx.push(
                                        extract(text@).structs[i - s0].name,
                                    ));
                                    assert(pfx.push(
                                        extract(text@).structs[i - s0].name,
                                    ).drop_last() =~= pfx);
                                    assert(extends_by_one(
                                        r1.modules@[n0].path.deep_view(),
                                        r1.structs@[i].path.deep_view(),
                                    ));
                                }
                            }
                            assert forall|i: int|
                                0 <= i < r1.enums.len() implies crate::data::owned_by_module(
                                r1,
                                r1.enums@[i].path.deep_view(),
                            ) by {
                                if i < e0 {
                                    assert(crate::data::owned_by_module(
                                        r0,
                                        r0.enums@[i].path.deep_view(),
                                    ));
                                    let j = choose|j: int|
                                        0 <= j < r0.modules.len() && extends_by_one(
                                            (#[trigger] r0.modules@[j].path.deep_view()),
                                            r0.enums@[i].path.deep_view(),
                                        );
                                    assert(r1.modules@[j] == r0.modules@[j]);
                                    assert(r1.enums@[i] == r0.enums@[i]);
                                    assert(extends_by_one(
                                        r1.modules@[j].path.deep_view(),
                                        r1.enums@[i].path.deep_view(),
                                    ));
                                } else {
                                    assert(r1.enums@[i] == ges[i - e0]);
                                    assert(r1.enums@[i].path.deep_view() == pfx.push(
                                        extract(text@).enums[i - e0].name,
                                    ));
                                    assert(pfx.push(extract(text@).enums[i - e0].name).drop_last()
                                        =~= pfx);
                                    assert(extends_by_one(
                                        r1.modules@[n0].path.deep_view(),
                                        r1.enums@[i].path.deep_view(),
                                    ));
                                }
                            }
                            assert forall|i: int|
                                0 <= i < r1.functions.len() implies crate::data::owned_by_module(
                                r1,
                                r1.functions@[i].path.deep_view(),
                            ) by {
                                if i < f0 {
                                    assert(crate::data::owned_by_module(
                                        r0,
                                        r0.functions@[i].path.deep_view(),
                                    ));
                                    let j = choose|j: int|
                                        0 <= j < r0.modules.len() && extends_by_one(
                                            (#[trigger] r0.modules@[j].path.deep_view()),
                                            r0.functions@[i].path.deep_view(),
                                        );
                                    assert(r1.modules@[j] == r0.modules@[j]);
                                    assert(r1.functions@[i] == r0.functions@[i]);
                                    assert(extends_by_one(
                                        r1.modules@[j].path.deep_view(),
                                        r1.functions@[i].path.deep_view(),
                                    ));
                                } else {
                                    assert(r1.functions@[i] == gfs[i - f0]);
                                    assert(r1.functions@[i].path.deep_view() == pfx.push(
                                        extract(text@).functions[i - f0].name,
                                    ));
                                    assert(pfx.push(
                                        extract(text@).functions[i - f0].name,
                                    ).drop_last() =~= pfx);
                                    assert(extends_by_one(
                                        r1.modules@[n0].path.deep_view(),
                                        r1.functions@[i].path.deep_view(),
                                    ));
                                }
                            }
                            assert(items_owned(r1));
                            // visited-file bookkeeping
                            assert forall|i: int|
                                0 <= i < self.visited.len() implies (#[trigger] r1.modules@[
                                i
                            ].file.deep_view()) == Option::Some(self.visited.deep_view()[i]) by {
                                if i < n0 {
                                    assert(r1.modules@[i] == r0.modules@[i]);
                                    assert(self.visited.deep_view()[i] == old(
                                        self,
                                    ).visited.deep_view()[i]);
                                } else {
                                    assert(gm.file.deep_view() == Option::Some(fv));
                                }
                            }
                            assert forall|i: int, j: int| #![auto]
                                0 <= i < j < self.visited.len() implies self.visited.deep_view()[i]
                                != self.visited.deep_view()[j] by {
                                if j < n0 {
                                } else {
                                    if self.visited.deep_view()[i] == fv {
                                        assert(old(self).visited.deep_view()[i] == fv);
                                        assert(old(self).visited.deep_view().contains(fv));
                                    }
                                }
                            }
                            assert forall|i: int, j: int| #![auto]
                                0 <= i < j < r1.modules.len() implies r1.modules@[
                                i
                            ].file.deep_view() != r1.modules@[j].file.deep_view() by {
                                assert(r1.modules@[i].file.deep_view() == Option::Some(
                                    self.visited.deep_view()[i],
                                ));
                                assert(r1.modules@[j].file.deep_view() == Option::Some(
                                    self.visited.deep_view()[j],
                                ));
                            }
                            assert(files_unique(r1));
                            assert(self.result_wf());
                            // worklist entries still point at present modules
                            assert forall|i: int|
                                0 <= i < self.worklist.len() implies self.module_present(
                                (#[trigger] self.worklist@[i]).path.deep_view(),
                            ) by {
                                assert(old(self).module_present(
                                    old(self).worklist@[i].path.deep_view(),
                                ));
                                let j = choose|j: int|
                                    0 <= j < r0.modules.len() && (#[trigger] r0.modules@[
                                        j
                                    ].path.deep_view()) == old(self).worklist@[i].path.deep_view();
                                assert(r1.modules@[j] == r0.modules@[j]);
                            }
                            assert(self.module_present(pfx));
                            assert(self.core_wf());
                        }
                        proof {
                            assert(base@ == read_base_of(*old(self)));
                            assert(decls.deep_view() == extract(text@).decls);
                        }
                        let ghost mid = *self;
                        let mut k: usize = 0;
                        while k < decls.len()
                            invariant
                                self.core_wf(),
                                self.error is None,
                                self.module_present(prefix.deep_view()),
                                self.result == mid.result,
                                self.visited == mid.visited,
                                0 <= k <= decls.len(),
                                self.worklist.len() == mid.worklist.len() + k,
                                forall|i: int| 0 <= i < mid.worklist.len()
                                    ==> (#[trigger] self.worklist@[i]) == mid.worklist@[i],
                                forall|i: int| mid.worklist.len() <= i < self.worklist.len()
                                    ==> {
                                    &&& (#[trigger] self.worklist@[i]).base@ == base@
                                    &&& self.worklist@[i].name@ == decls.deep_view()[
                                        i - mid.worklist.len()
                                    ]
                                    &&& self.worklist@[i].path.deep_view() == prefix.deep_view()
                                },
                            decreases decls.len() - k,
                        {
                            let ghost prewl = self.worklist@;
                            self.worklist.push(
                                Pending {
                                    base: base.clone(),
                                    name: decls[k].clone(),
                                    path: crate::extract::clone_strings(&prefix),
                                },
                            );
                            proof {
                                assert forall|i: int|
                                    0 <= i < self.worklist.len() implies self.module_present(
                                    (#[trigger] self.worklist@[i]).path.deep_view(),
                                ) by {
                                    if i < prewl.len() {
                                        assert(self.worklist@[i] == prewl[i]);
                                    } else {
                                        assert(self.worklist@[i].path.deep_view()
                                            == prefix.deep_view());
                                    }
                                }
                            }
                            k = k + 1;
                        }
                        let ghost pre_adv = *self;
                        self.advance();
                        proof {
                            let w0 = old(self).worklist@;
                            let dd = extract(text@).decls;
                            let d = dd.len() as int;
                            let bs = read_base_of(*old(self));
                            let pfxs = read_prefix_of(*old(self));
                            assert(mid.worklist@ == w0);
                            assert(pre_adv.worklist.len() == w0.len() + d);
                            if d > 0 {
                                assert(pre_adv.worklist@.last().base@ == bs);
                                assert(pre_adv.worklist@.last().name@ == dd[d - 1]);
                                assert(pre_adv.worklist@.last().path.deep_view() == pfxs);
                                assert forall|i: int|
                                    0 <= i < w0.len() implies (#[trigger] self.worklist@[i])
                                    == w0[i] by {
                                    assert(self.worklist@[i] == pre_adv.worklist@[i]);
                                    assert(pre_adv.worklist@[i] == w0[i]);
                                }
                                assert forall|i: int|
                                    w0.len() <= i < self.worklist.len() implies {
                                    &&& (#[trigger] self.worklist@[i]).base@ == bs
                                    &&& self.worklist@[i].name@ == dd[i - w0.len()]
                                    &&& self.worklist@[i].path.deep_view() == pfxs
                                } by {
                                    assert(self.worklist@[i] == pre_adv.worklist@[i]);
                                }
                                assert(traversal_continued(*self, w0, dd, bs, pfxs));
                            } else {
                                assert(pre_adv.worklist@ =~= w0);
                                if w0.len() > 0 {
                                    assert(self.worklist@ == pre_adv.worklist@.drop_last());
                                    assert(pre_adv.worklist@.drop_last() =~= w0.drop_last());
                                }
                                assert(traversal_continued(*self, w0, dd, bs, pfxs));
                            }
                        }
                    },
                }
            },
        }
    }
}

impl Analyzer {
    /// The outcome of a finished analysis: the aggregate result, or the
    /// error that aborted it.
    ///
    /// A successful result is structurally sound: its modules form a tree
    /// rooted at the package name in which every later module extends an
    /// earlier one's path by one identifier; every struct, enum and
    /// function path is a present module's path extended by the item's own
    /// name; and the modules were read from pairwise distinct files, one
    /// module per file parsed.
    pub fn finish(self) -> (r: Result<AnalysisResult, AnalysisError>)
        requires
            self.wf(),
            self.phase == Phase::Finished,
        ensures
            match r {
                Result::Ok(res) => {
                    &&& self.error is None
                    &&& res == self.result
                    &&& modules_form_tree(res)
                    &&& items_owned(res)
                    &&& files_unique(res)
                    &&& res.modules.len() == self.visited.len()
                },
                Result::Err(e) => self.error matches Option::Some(err) && e == err,
            },
    {
        match self.error {
            Option::Some(e) => Result::Err(e),
            Option::None => Result::Ok(self.result),
        }
    }
}

/// The selected target `i` of the report `m` seeded the probe of the entry
/// file: the package identity is the target's name and the report's
/// version, and the entry file is the target's source path.
pub open spec fn selected(post: Analyzer, m: PackageMeta, i: int) -> bool {
    &&& post.phase == Phase::ProbingEntry
    &&& post.error is None
    &&& post.result.crate_.name@ == m.targets[i].name@
    &&& post.result.crate_.version@ == m.version@
    &&& post.entry@ == m.targets[i].src_path@
    &&& post.nothing_yet()
}

} // verus!
