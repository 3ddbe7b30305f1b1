//! The decision on a memory dump output path, taken over what the caller
//! found on the filesystem: the dump root, the output path, its parent,
//! their ancestors and their canonical forms.
use vstd::prelude::*;
use crate::dispatch::{
    check_dump_path_names, has_parent_component, is_absolute_path, path_starts_with, path_under, DumpPathError,
};
use crate::text::owned;

verus! {

/// What a `symlink_metadata` of a path gave.
#[derive(Debug, Clone, Copy, PartialEq, Eq, Structural)]
pub struct PathMeta {
    pub symlink: bool,
    pub dir: bool,
    /// Permission bits.
    pub mode: u32,
}

/// A path looked up without following a final symlink.
#[derive(Debug, Clone, PartialEq, Eq)]
pub enum PathProbe {
    Missing,
    /// The lookup failed for another reason, with its message.
    Failed(String),
    Found(PathMeta),
}

/// One ancestor of a path: whether it is a symlink, or why it could not be
/// looked up.
#[derive(Debug)]
pub struct AncestorProbe {
    pub path: String,
    pub symlink: Result<bool, String>,
}

/// The filesystem facts the decision reads. Ancestors are listed from the
/// filesystem root down to the path itself.
#[derive(Debug)]
pub struct DumpPathFacts {
    pub root: PathProbe,
    pub root_ancestors: Vec<AncestorProbe>,
    /// The output path's parent, if it has one.
    pub parent: Option<String>,
    pub output: PathProbe,
    pub parent_meta: PathProbe,
    pub parent_ancestors: Vec<AncestorProbe>,
    pub canonical_parent: Result<String, String>,
    pub canonical_root: Result<String, String>,
}

/// A refusal, with its texts as sequences.
pub enum DumpRefusal {
    MissingOutputPath,
    OutputNotAbsolute,
    OutputContainsParent,
    MissingParent(Seq<char>),
    ParentNotDirectory(Seq<char>),
    OutputFinalSymlink(Seq<char>),
    OutputExists(Seq<char>),
    DumpRootNotAbsolute(Seq<char>),
    DumpRootContainsParent(Seq<char>),
    DumpRootMissing(Seq<char>),
    DumpRootNotDirectory(Seq<char>),
    DumpRootSymlink(Seq<char>),
    SymlinkAncestor(Seq<char>, Seq<char>),
    OutsideDumpRoot(Seq<char>, Seq<char>),
    UnsafeMode(Seq<char>, Seq<char>),
    Stat(Seq<char>, Seq<char>, Seq<char>),
}

pub open spec fn refusal_of(e: DumpPathError) -> DumpRefusal {
    match e {
        DumpPathError::MissingOutputPath => DumpRefusal::MissingOutputPath,
        DumpPathError::OutputNotAbsolute => DumpRefusal::OutputNotAbsolute,
        DumpPathError::OutputContainsParent => DumpRefusal::OutputContainsParent,
        DumpPathError::MissingParent(p) => DumpRefusal::MissingParent(p@),
        DumpPathError::ParentNotDirectory(p) => DumpRefusal::ParentNotDirectory(p@),
        DumpPathError::OutputFinalSymlink(p) => DumpRefusal::OutputFinalSymlink(p@),
        DumpPathError::OutputExists(p) => DumpRefusal::OutputExists(p@),
        DumpPathError::DumpRootNotAbsolute(p) => DumpRefusal::DumpRootNotAbsolute(p@),
        DumpPathError::DumpRootContainsParent(p) => DumpRefusal::DumpRootContainsParent(p@),
        DumpPathError::DumpRootMissing(p) => DumpRefusal::DumpRootMissing(p@),
        DumpPathError::DumpRootNotDirectory(p) => DumpRefusal::DumpRootNotDirectory(p@),
        DumpPathError::DumpRootSymlink(p) => DumpRefusal::DumpRootSymlink(p@),
        DumpPathError::SymlinkAncestor { role, path } => DumpRefusal::SymlinkAncestor(role@, path@),
        DumpPathError::OutsideDumpRoot { parent, root } => DumpRefusal::OutsideDumpRoot(parent@, root@),
        DumpPathError::UnsafeMode { role, path } => DumpRefusal::UnsafeMode(role@, path@),
        DumpPathError::Stat { op, path, source } => DumpRefusal::Stat(op@, path@, source@),
    }
}

/// Group or world may write.
pub open spec fn group_world_writable(mode: u32) -> bool {
    mode & 0x12u32 != 0
}

/// The first ancestor, from position `i` on, that could not be looked up
/// or is a symlink.
pub open spec fn ancestor_refusal(a: Seq<AncestorProbe>, role: Seq<char>, i: int) -> Option<DumpRefusal>
    decreases a.len() - i,
{
    if i < 0 || i >= a.len() {
        None
    } else {
        match a[i].symlink {
            Err(s) => Some(DumpRefusal::Stat("stat path ancestor"@, a[i].path@, s@)),
            Ok(true) => Some(DumpRefusal::SymlinkAncestor(role, a[i].path@)),
            Ok(false) => ancestor_refusal(a, role, i + 1),
        }
    }
}

/// The canonical parent must lie under the canonical dump root.
pub open spec fn canonical_refusal(p: Seq<char>, root: Seq<char>, f: DumpPathFacts) -> Option<DumpRefusal> {
    match f.canonical_parent {
        Err(s) => Some(DumpRefusal::Stat("canonicalize dump output parent"@, p, s@)),
        Ok(cp) => match f.canonical_root {
            Err(s) => Some(DumpRefusal::Stat("canonicalize dump_root"@, root, s@)),
            Ok(cr) => if path_under(cp@, cr@) {
                None
            } else {
                Some(DumpRefusal::OutsideDumpRoot(cp@, cr@))
            },
        },
    }
}

/// The parent must exist as a directory that is not a symlink, with no
/// symlink ancestor and no group or world write permission.
pub open spec fn parent_refusal(p: Seq<char>, root: Seq<char>, f: DumpPathFacts) -> Option<DumpRefusal> {
    match f.parent_meta {
        PathProbe::Missing => Some(DumpRefusal::MissingParent(p)),
        PathProbe::Failed(s) => Some(DumpRefusal::Stat("stat dump output parent"@, p, s@)),
        PathProbe::Found(m) => if m.symlink {
            Some(DumpRefusal::SymlinkAncestor("dump output path"@, p))
        } else if !m.dir {
            Some(DumpRefusal::ParentNotDirectory(p))
        } else {
            match ancestor_refusal(f.parent_ancestors@, "dump output path"@, 0) {
                Some(x) => Some(x),
                None => if group_world_writable(m.mode) {
                    Some(DumpRefusal::UnsafeMode("dump output parent"@, p))
                } else {
                    canonical_refusal(p, root, f)
                },
            }
        },
    }
}

/// The output must have a parent and must not exist yet.
pub open spec fn output_refusal(out: Seq<char>, root: Seq<char>, f: DumpPathFacts) -> Option<DumpRefusal> {
    match f.parent {
        None => Some(DumpRefusal::MissingParent(out)),
        Some(p) => match f.output {
            PathProbe::Found(m) => if m.symlink {
                Some(DumpRefusal::OutputFinalSymlink(out))
            } else {
                Some(DumpRefusal::OutputExists(out))
            },
            PathProbe::Failed(s) => Some(DumpRefusal::Stat("stat dump output path"@, out, s@)),
            PathProbe::Missing => parent_refusal(p@, root, f),
        },
    }
}

/// The dump root must exist as a directory that is not a symlink, with no
/// symlink ancestor and no group or world write permission.
pub open spec fn root_refusal(out: Seq<char>, root: Seq<char>, f: DumpPathFacts) -> Option<DumpRefusal> {
    match f.root {
        PathProbe::Missing => Some(DumpRefusal::DumpRootMissing(root)),
        PathProbe::Failed(s) => Some(DumpRefusal::Stat("stat dump_root"@, root, s@)),
        PathProbe::Found(m) => if m.symlink {
            Some(DumpRefusal::DumpRootSymlink(root))
        } else if !m.dir {
            Some(DumpRefusal::DumpRootNotDirectory(root))
        } else {
            match ancestor_refusal(f.root_ancestors@, "dump_root"@, 0) {
                Some(x) => Some(x),
                None => if group_world_writable(m.mode) {
                    Some(DumpRefusal::UnsafeMode("dump_root"@, root))
                } else {
                    output_refusal(out, root, f)
                },
            }
        },
    }
}

/// Why the output path is refused, or `None` when it is accepted: first the
/// checks on the two names, then the dump root, the output, its parent and
/// their canonical forms.
pub open spec fn dump_refusal(out: Seq<char>, root: Seq<char>, f: DumpPathFacts) -> Option<DumpRefusal> {
    if out.len() == 0 {
        Some(DumpRefusal::MissingOutputPath)
    } else if !is_absolute_path(out) {
        Some(DumpRefusal::OutputNotAbsolute)
    } else if has_parent_component(out) {
        Some(DumpRefusal::OutputContainsParent)
    } else if !is_absolute_path(root) {
        Some(DumpRefusal::DumpRootNotAbsolute(root))
    } else if has_parent_component(root) {
        Some(DumpRefusal::DumpRootContainsParent(root))
    } else {
        root_refusal(out, root, f)
    }
}

fn stat_error(op: &str, path: &str, source: &str) -> (e: DumpPathError)
    ensures
        refusal_of(e) == DumpRefusal::Stat(op@, path@, source@),
{
    DumpPathError::Stat { op: owned(op), path: owned(path), source: owned(source) }
}

fn check_ancestors(a: &Vec<AncestorProbe>, role: &str) -> (r: Result<(), DumpPathError>)
    ensures
        match r {
            Ok(()) => ancestor_refusal(a@, role@, 0) is None,
            Err(e) => ancestor_refusal(a@, role@, 0) == Some(refusal_of(e)),
        },
{
    let mut i: usize = 0;
    while i < a.len()
        invariant
            i <= a@.len(),
            ancestor_refusal(a@, role@, 0) == ancestor_refusal(a@, role@, i as int),
        decreases a@.len() - i,
    {
        match &a[i].symlink {
            Err(s) => {
                return Err(stat_error("stat path ancestor", a[i].path.as_str(), s.as_str()));
            },
            Ok(true) => {
                return Err(DumpPathError::SymlinkAncestor { role: owned(role), path: owned(a[i].path.as_str()) });
            },
            Ok(false) => {},
        }
        i = i + 1;
    }
    Ok(())
}

fn check_canonical(p: &str, root: &str, f: &DumpPathFacts) -> (r: Result<(), DumpPathError>)
    ensures
        match r {
            Ok(()) => canonical_refusal(p@, root@, *f) is None,
            Err(e) => canonical_refusal(p@, root@, *f) == Some(refusal_of(e)),
        },
{
    match &f.canonical_parent {
        Err(s) => Err(stat_error("canonicalize dump output parent", p, s.as_str())),
        Ok(cp) => match &f.canonical_root {
            Err(s) => Err(stat_error("canonicalize dump_root", root, s.as_str())),
            Ok(cr) => {
                if path_starts_with(cp.as_str(), cr.as_str()) {
                    Ok(())
                } else {
                    Err(DumpPathError::OutsideDumpRoot { parent: owned(cp.as_str()), root: owned(cr.as_str()) })
                }
            },
        },
    }
}

fn check_parent(p: &str, root: &str, f: &DumpPathFacts) -> (r: Result<(), DumpPathError>)
    ensures
        match r {
            Ok(()) => parent_refusal(p@, root@, *f) is None,
            Err(e) => parent_refusal(p@, root@, *f) == Some(refusal_of(e)),
        },
{
    match &f.parent_meta {
        PathProbe::Missing => Err(DumpPathError::MissingParent(owned(p))),
        PathProbe::Failed(s) => Err(stat_error("stat dump output parent", p, s.as_str())),
        PathProbe::Found(m) => {
            if m.symlink {
                return Err(DumpPathError::SymlinkAncestor { role: owned("dump output path"), path: owned(p) });
            }
            if !m.dir {
                return Err(DumpPathError::ParentNotDirectory(owned(p)));
            }
            match check_ancestors(&f.parent_ancestors, "dump output path") {
                Err(e) => {
                    return Err(e);
                },
                Ok(()) => {},
            }
            if m.mode & 0x12u32 != 0 {
                return Err(DumpPathError::UnsafeMode { role: owned("dump output parent"), path: owned(p) });
            }
            check_canonical(p, root, f)
        },
    }
}

fn check_output(out: &str, root: &str, f: &DumpPathFacts) -> (r: Result<(), DumpPathError>)
    ensures
        match r {
            Ok(()) => output_refusal(out@, root@, *f) is None,
            Err(e) => output_refusal(out@, root@, *f) == Some(refusal_of(e)),
        },
{
    match &f.parent {
        None => Err(DumpPathError::MissingParent(owned(out))),
        Some(p) => match &f.output {
            PathProbe::Found(m) => {
                if m.symlink {
                    Err(DumpPathError::OutputFinalSymlink(owned(out)))
                } else {
                    Err(DumpPathError::OutputExists(owned(out)))
                }
            },
            PathProbe::Failed(s) => Err(stat_error("stat dump output path", out, s.as_str())),
            PathProbe::Missing => check_parent(p.as_str(), root, f),
        },
    }
}

fn check_root(out: &str, root: &str, f: &DumpPathFacts) -> (r: Result<(), DumpPathError>)
    ensures
        match r {
            Ok(()) => root_refusal(out@, root@, *f) is None,
            Err(e) => root_refusal(out@, root@, *f) == Some(refusal_of(e)),
        },
{
    match &f.root {
        PathProbe::Missing => Err(DumpPathError::DumpRootMissing(owned(root))),
        PathProbe::Failed(s) => Err(stat_error("stat dump_root", root, s.as_str())),
        PathProbe::Found(m) => {
            if m.symlink {
                return Err(DumpPathError::DumpRootSymlink(owned(root)));
            }
            if !m.dir {
                return Err(DumpPathError::DumpRootNotDirectory(owned(root)));
            }
            match check_ancestors(&f.root_ancestors, "dump_root") {
                Err(e) => {
                    return Err(e);
                },
                Ok(()) => {},
            }
            if m.mode & 0x12u32 != 0 {
                return Err(DumpPathError::UnsafeMode { role: owned("dump_root"), path: owned(root) });
            }
            check_output(out, root, f)
        },
    }
}

/// Decides whether a memory dump may be written to `out` under `dump_root`,
/// given what the filesystem showed of them. Accepted exactly when
/// `dump_refusal` finds nothing; otherwise refused with the refusal it names.
pub fn decide_dump_output_path(out: &str, dump_root: &str, facts: &DumpPathFacts) -> (r: Result<(), DumpPathError>)
    ensures
        match r {
            Ok(()) => dump_refusal(out@, dump_root@, *facts) is None,
            Err(e) => dump_refusal(out@, dump_root@, *facts) == Some(refusal_of(e)),
        },
{
    match check_dump_path_names(out, dump_root) {
        Err(e) => {
            return Err(e);
        },
        Ok(()) => {},
    }
    check_root(out, dump_root, facts)
}

/// The text of a refusal, as `DumpPathError::message` renders it.
pub open spec fn refusal_message(r: DumpRefusal) -> Seq<char> {
    match r {
        DumpRefusal::MissingOutputPath => "dump_guest_memory requires action.output_path"@,
        DumpRefusal::OutputNotAbsolute => "dump_guest_memory output_path must be absolute"@,
        DumpRefusal::OutputContainsParent => "dump_guest_memory output_path must not contain .. components"@,
        DumpRefusal::MissingParent(p) => "dump output parent does not exist: "@ + p,
        DumpRefusal::ParentNotDirectory(p) => "dump output parent must be a directory: "@ + p,
        DumpRefusal::OutputFinalSymlink(p) => "dump output path must not be a symlink: "@ + p,
        DumpRefusal::OutputExists(p) => "dump output path already exists: "@ + p,
        DumpRefusal::DumpRootNotAbsolute(p) => "dump_root must be absolute: "@ + p,
        DumpRefusal::DumpRootContainsParent(p) => "dump_root must not contain .. components: "@ + p,
        DumpRefusal::DumpRootMissing(p) => "dump_root does not exist: "@ + p,
        DumpRefusal::DumpRootNotDirectory(p) => "dump_root must be a directory: "@ + p,
        DumpRefusal::DumpRootSymlink(p) => "dump_root must not be a symlink: "@ + p,
        DumpRefusal::SymlinkAncestor(role, path) => role + " must not have a symlink ancestor: "@ + path,
        DumpRefusal::OutsideDumpRoot(parent, root) => "dump output parent "@ + parent
            + " must stay under dump_root "@ + root,
        DumpRefusal::UnsafeMode(role, path) => role + " must not be group/world-writable: "@ + path,
        DumpRefusal::Stat(op, path, source) => op + " "@ + path + ": "@ + source,
    }
}

/// An error's message is the text of its refusal.
pub proof fn lemma_refusal_message(e: DumpPathError)
    ensures
        e.message_spec() == refusal_message(refusal_of(e)),
{
}

} // verus!
