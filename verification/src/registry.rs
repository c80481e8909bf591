//! The checkpoint registry: its entries, reading it, and merging two of them.

use vstd::prelude::*;

use crate::text::same_text;

verus! {

// ── Checkpoints ──────────────────────────────────────────────────────────────

/// One entry of a `checkpoints.yaml` file, as written.
#[derive(Debug)]
pub struct Checkpoint {
    pub name: String,
    pub summary: String,
    pub standards_doc: Option<String>,
    pub paths: Vec<String>,
    pub content: Vec<String>,
    pub content_exempt_paths: Vec<String>,
    pub semantic: Option<String>,
}

/// The mathematical value of a `Checkpoint`.
#[verifier::ext_equal]
pub struct CheckpointModel {
    pub name: Seq<char>,
    pub summary: Seq<char>,
    pub standards_doc: Option<Seq<char>>,
    pub paths: Seq<Seq<char>>,
    pub content: Seq<Seq<char>>,
    pub content_exempt_paths: Seq<Seq<char>>,
    pub semantic: Option<Seq<char>>,
}

impl DeepView for Checkpoint {
    type V = CheckpointModel;

    open spec fn deep_view(&self) -> CheckpointModel {
        CheckpointModel {
            name: self.name@,
            summary: self.summary@,
            standards_doc: self.standards_doc.deep_view(),
            paths: self.paths.deep_view(),
            content: self.content.deep_view(),
            content_exempt_paths: self.content_exempt_paths.deep_view(),
            semantic: self.semantic.deep_view(),
        }
    }
}

/// A copy of the texts, in order.
pub fn clone_texts(texts: &Vec<String>) -> (r: Vec<String>)
    ensures
        r.deep_view() == texts.deep_view(),
{
    let mut out: Vec<String> = Vec::new();
    let mut i: usize = 0;
    while i < texts.len()
        invariant
            i <= texts@.len(),
            out@.len() == i,
            forall|j: int| 0 <= j < i ==> (#[trigger] out@[j])@ == texts@[j]@,
        decreases texts@.len() - i,
    {
        out.push(texts[i].clone());
        i += 1;
    }
    assert(out.deep_view() =~= texts.deep_view());
    out
}

/// A copy of the text, if there is one.
fn clone_option(text: &Option<String>) -> (r: Option<String>)
    ensures
        r.deep_view() == text.deep_view(),
{
    match text {
        Some(t) => Some(t.clone()),
        None => None,
    }
}

impl Clone for Checkpoint {
    fn clone(&self) -> (r: Checkpoint)
        ensures
            r.deep_view() == self.deep_view(),
    {
        Checkpoint {
            name: self.name.clone(),
            summary: self.summary.clone(),
            standards_doc: clone_option(&self.standards_doc),
            paths: clone_texts(&self.paths),
            content: clone_texts(&self.content),
            content_exempt_paths: clone_texts(&self.content_exempt_paths),
            semantic: clone_option(&self.semantic),
        }
    }
}

// ── Errors ───────────────────────────────────────────────────────────────────

/// What can be wrong with a registry.
#[derive(Debug)]
pub enum CheckpointError {
    /// The file at the path cannot be read or does not parse, for this reason.
    Parse(String, String),
    /// A pattern of the named checkpoint does not compile, for this reason.
    Regex(String, String),
    /// The named checkpoint asks for a semantic check that does not exist.
    UnknownSemantic(String, String),
    /// The named checkpoint does not declare exactly one mode.
    AmbiguousMode(String),
}

/// The mathematical value of a `CheckpointError`.
#[verifier::ext_equal]
pub enum CheckpointErrorModel {
    Parse(Seq<char>, Seq<char>),
    Regex(Seq<char>, Seq<char>),
    UnknownSemantic(Seq<char>, Seq<char>),
    AmbiguousMode(Seq<char>),
}

impl DeepView for CheckpointError {
    type V = CheckpointErrorModel;

    open spec fn deep_view(&self) -> CheckpointErrorModel {
        match self {
            CheckpointError::Parse(path, why) => CheckpointErrorModel::Parse(path@, why@),
            CheckpointError::Regex(name, why) => CheckpointErrorModel::Regex(name@, why@),
            CheckpointError::UnknownSemantic(name, semantic) =>
                CheckpointErrorModel::UnknownSemantic(name@, semantic@),
            CheckpointError::AmbiguousMode(name) => CheckpointErrorModel::AmbiguousMode(name@),
        }
    }
}

impl CheckpointErrorModel {
    /// The error as a sentence.
    pub open spec fn message(self) -> Seq<char> {
        match self {
            CheckpointErrorModel::Parse(path, why) => path + ": "@ + why,
            CheckpointErrorModel::Regex(name, why) => "checkpoint '"@ + name + "': pattern: "@ + why,
            CheckpointErrorModel::UnknownSemantic(name, semantic) => "checkpoint '"@ + name
                + "': unknown semantic '"@ + semantic + "'"@,
            CheckpointErrorModel::AmbiguousMode(name) => "checkpoint '"@ + name
                + "': set exactly one of paths|content|semantic"@,
        }
    }
}

impl CheckpointError {
    /// The error as a sentence.
    pub fn message(&self) -> (r: String)
        ensures
            r@ == self.deep_view().message(),
    {
        match self {
            CheckpointError::Parse(path, why) => {
                path.clone().concat(": ").concat(why.as_str())
            },
            CheckpointError::Regex(name, why) => {
                "checkpoint '".to_owned().concat(name.as_str()).concat("': pattern: ").concat(
                    why.as_str(),
                )
            },
            CheckpointError::UnknownSemantic(name, semantic) => {
                "checkpoint '".to_owned().concat(name.as_str()).concat(
                    "': unknown semantic '",
                ).concat(semantic.as_str()).concat("'")
            },
            CheckpointError::AmbiguousMode(name) => {
                "checkpoint '".to_owned().concat(name.as_str()).concat(
                    "': set exactly one of paths|content|semantic",
                )
            },
        }
    }
}

// ── Reading ──────────────────────────────────────────────────────────────────

/// A registry's text, and what the YAML reader made of it: its checkpoints, or the
/// reason why it does not parse.
pub struct RegistrySource {
    pub text: String,
    pub parsed: Result<Vec<Checkpoint>, String>,
}

/// The outcome of reading a registry file.
pub enum FileRead {
    /// There is no such file.
    Absent,
    /// The file is there and cannot be read, for this reason.
    Unreadable(String),
    /// The file was read.
    Read(RegistrySource),
}

/// The checkpoints of a registry file.
///
/// An absent file holds none. One that cannot be read, or whose text does not
/// parse, is an error that names the file and the reason.
pub fn load_checkpoints(path: &str, read: FileRead) -> (r: Result<Vec<Checkpoint>, CheckpointError>)
    ensures
        match read {
            FileRead::Absent => r matches Ok(cps) && cps@.len() == 0,
            FileRead::Unreadable(why) => r matches Err(e) && e.deep_view()
                == CheckpointErrorModel::Parse(path@, why@),
            FileRead::Read(source) => match source.parsed {
                Ok(parsed) => r matches Ok(cps) && cps == parsed,
                Err(why) => r matches Err(e) && e.deep_view() == CheckpointErrorModel::Parse(
                    path@,
                    why@,
                ),
            },
        },
{
    match read {
        FileRead::Absent => Ok(Vec::new()),
        FileRead::Unreadable(why) => Err(CheckpointError::Parse(path.to_owned(), why)),
        FileRead::Read(source) => match source.parsed {
            Ok(cps) => Ok(cps),
            Err(why) => Err(CheckpointError::Parse(path.to_owned(), why)),
        },
    }
}

/// The names of the checkpoints, in order.
pub open spec fn names_of(cps: Seq<CheckpointModel>) -> Seq<Seq<char>> {
    cps.map_values(|cp: CheckpointModel| cp.name)
}

/// The names that a registry's text gives: none when it is empty or does not parse.
pub open spec fn source_names(source: RegistrySource) -> Seq<Seq<char>> {
    match source.parsed {
        Ok(cps) if source.text@.len() > 0 => names_of(cps.deep_view()),
        _ => Seq::empty(),
    }
}

/// The names of the checkpoints of a registry's text, in order.
///
/// Empty or unparseable text gives none; callers take the names as a best-effort
/// baseline.
pub fn extract_checkpoint_names(source: &RegistrySource) -> (r: Vec<String>)
    ensures
        r.deep_view() == source_names(*source),
{
    let mut names: Vec<String> = Vec::new();
    if source.text.as_str().is_empty() {
        assert(names.deep_view() =~= Seq::empty());
        return names;
    }
    match &source.parsed {
        Ok(cps) => {
            let mut i: usize = 0;
            while i < cps.len()
                invariant
                    i <= cps@.len(),
                    names@.len() == i,
                    forall|j: int| 0 <= j < i ==> (#[trigger] names@[j])@ == cps@[j].name@,
                decreases cps@.len() - i,
            {
                names.push(cps[i].name.clone());
                i += 1;
            }
            assert(names.deep_view() =~= names_of(cps.deep_view()));
        },
        Err(_) => {
            assert(names.deep_view() =~= Seq::empty());
        },
    }
    names
}

// ── Merging ──────────────────────────────────────────────────────────────────

/// Some checkpoint has that name.
pub open spec fn has_name(cps: Seq<CheckpointModel>, name: Seq<char>) -> bool {
    exists|i: int| 0 <= i < cps.len() && (#[trigger] cps[i]).name == name
}

/// The checkpoint of that name that counts: the last one.
pub open spec fn named(cps: Seq<CheckpointModel>, name: Seq<char>) -> Option<CheckpointModel>
    decreases cps.len(),
{
    if cps.len() == 0 {
        None
    } else if cps.last().name == name {
        Some(cps.last())
    } else {
        named(cps.drop_last(), name)
    }
}

/// A global checkpoint, or what the repository puts in its place.
pub open spec fn overridden(repo: Seq<CheckpointModel>, cp: CheckpointModel) -> CheckpointModel {
    match named(repo, cp.name) {
        Some(r) => r,
        None => cp,
    }
}

/// The union of both registries by name: the global checkpoints in order, each
/// replaced by the repository's of the same name, then the repository's others.
pub open spec fn merged(
    global: Seq<CheckpointModel>,
    repo: Seq<CheckpointModel>,
) -> Seq<CheckpointModel> {
    global.map_values(|cp: CheckpointModel| overridden(repo, cp)) + repo.filter(
        |cp: CheckpointModel| !has_name(global, cp.name),
    )
}

/// The index of the checkpoint of that name that counts.
fn find_named(cps: &Vec<Checkpoint>, name: &str) -> (r: Option<usize>)
    ensures
        match r {
            Some(i) => i < cps@.len() && named(cps.deep_view(), name@) == Some(
                cps@[i as int].deep_view(),
            ),
            None => named(cps.deep_view(), name@) is None,
        },
        r is Some <==> has_name(cps.deep_view(), name@),
{
    let ghost all = cps.deep_view();
    let mut i: usize = cps.len();
    assert(all.take(all.len() as int) =~= all);
    while i > 0
        invariant
            all == cps.deep_view(),
            i <= cps@.len(),
            named(all, name@) == named(all.take(i as int), name@),
            forall|j: int| i <= j < all.len() ==> (#[trigger] all[j]).name != name@,
        decreases i,
    {
        assert(all.take(i as int).drop_last() =~= all.take(i - 1));
        assert(all.take(i as int).last() == cps[i - 1].deep_view());
        if same_text(cps[i - 1].name.as_str(), name) {
            assert(all[i - 1].name == name@);
            return Some(i - 1);
        }
        i -= 1;
    }
    None
}

/// Merges global and repository checkpoints.
///
/// The union is keyed by name; a repository checkpoint replaces the global one of
/// the same name. Order: global entries first, then repository entries whose name
/// does not appear among the global ones.
pub fn merge(global: Vec<Checkpoint>, repo: Vec<Checkpoint>) -> (r: Vec<Checkpoint>)
    ensures
        r.deep_view() == merged(global.deep_view(), repo.deep_view()),
{
    let ghost gs = global.deep_view();
    let ghost rs = repo.deep_view();
    let ghost replaced = gs.map_values(|cp: CheckpointModel| overridden(rs, cp));
    let ghost fresh = |cp: CheckpointModel| !has_name(gs, cp.name);
    let mut out: Vec<Checkpoint> = Vec::new();
    let mut i: usize = 0;
    while i < global.len()
        invariant
            gs == global.deep_view(),
            rs == repo.deep_view(),
            replaced == gs.map_values(|cp: CheckpointModel| overridden(rs, cp)),
            i <= global@.len(),
            out.deep_view() == replaced.take(i as int),
        decreases global@.len() - i,
    {
        let cp = match find_named(&repo, global[i].name.as_str()) {
            Some(idx) => repo[idx].clone(),
            None => global[i].clone(),
        };
        let ghost before = out.deep_view();
        let ghost added = cp.deep_view();
        assert(added == replaced[i as int]);
        out.push(cp);
        assert(out.deep_view() =~= before.push(added));
        assert(replaced.take(i + 1) =~= before.push(added));
        i += 1;
    }
    assert(replaced.take(i as int) =~= replaced);
    let mut j: usize = 0;
    proof {
        reveal(Seq::filter);
        assert(rs.take(0).filter(fresh) =~= Seq::empty());
        assert(out.deep_view() =~= replaced + rs.take(0).filter(fresh));
    }
    while j < repo.len()
        invariant
            gs == global.deep_view(),
            rs == repo.deep_view(),
            fresh == |cp: CheckpointModel| !has_name(gs, cp.name),
            j <= repo@.len(),
            out.deep_view() == replaced + rs.take(j as int).filter(fresh),
        decreases repo@.len() - j,
    {
        let ghost before = out.deep_view();
        proof {
            reveal(Seq::filter);
            assert(rs.take(j + 1).drop_last() =~= rs.take(j as int));
            assert(rs.take(j + 1).last() == rs[j as int]);
        }
        if find_named(&global, repo[j].name.as_str()).is_none() {
            assert(fresh(rs[j as int]));
            let cp = repo[j].clone();
            let ghost added = cp.deep_view();
            out.push(cp);
            assert(out.deep_view() =~= before.push(added));
            assert(out.deep_view() =~= replaced + rs.take(j + 1).filter(fresh));
        } else {
            assert(!fresh(rs[j as int]));
        }
        j += 1;
    }
    assert(rs.take(j as int) =~= rs);
    out
}

} // verus!
