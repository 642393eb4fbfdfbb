use vstd::prelude::*;
use crate::supervisor::StartError;

verus! {

/// The path that `std::path::Path::parent` gives for `path`.
pub uninterp spec fn parent_of(path: Seq<char>) -> Option<Seq<char>>;

/// The path that `std::path::Path::join` gives for `base` and `part`.
pub uninterp spec fn joined(base: Seq<char>, part: Seq<char>) -> Seq<char>;

/// Relies on `std::path::Path::parent`: the path without its last component, or
/// none for a root or an empty path; a function of the text alone.
#[verifier::external_body]
fn parent_path(path: &str) -> (r: Option<String>)
    ensures
        r.deep_view() == parent_of(path@),
{
    match std::path::Path::new(path).parent() {
        Some(p) => Some(p.to_string_lossy().into_owned()),
        None => None,
    }
}

/// Relies on `std::path::Path::join`: `part` appended to `base` as a further
/// component; a function of the two texts alone.
#[verifier::external_body]
fn join_path(base: &str, part: &str) -> (r: String)
    ensures
        r@ == joined(base@, part@),
{
    std::path::Path::new(base).join(part).to_string_lossy().into_owned()
}

/// The development tree's root: four levels above the executable, which is built
/// into `<root>/<crate>/target/<profile>/`.
pub open spec fn project_root(executable: Seq<char>) -> Option<Seq<char>> {
    match parent_of(executable) {
        None => None,
        Some(profile) => match parent_of(profile) {
            None => None,
            Some(target) => match parent_of(target) {
                None => None,
                Some(krate) => parent_of(krate),
            },
        },
    }
}

pub open spec fn development_dir(root: Seq<char>) -> Seq<char> {
    joined(root, "sidecar"@)
}

pub open spec fn development_script(root: Seq<char>) -> Seq<char> {
    joined(joined(development_dir(root), "dist"@), "index.cjs"@)
}

pub open spec fn packaged_script(resource_dir: Seq<char>) -> Seq<char> {
    joined(joined(resource_dir, "sidecar"@), "index.cjs"@)
}

/// The worker's entry script in a development tree, and the directory it runs in
/// so that it finds its own dependencies.
#[derive(Debug, Clone, PartialEq, Eq)]
pub struct DevLayout {
    pub script: String,
    pub working_dir: String,
}

/// The two places the worker's entry script may be.
#[derive(Debug, Clone, PartialEq, Eq)]
pub struct LayoutCandidates {
    pub development: Option<DevLayout>,
    pub packaged: String,
}

/// How to launch the worker: its entry script, and a working directory if one is needed.
#[derive(Debug, Clone, PartialEq, Eq)]
pub struct WorkerLaunch {
    pub script: String,
    pub working_dir: Option<String>,
}

/// The candidate locations of the entry script, for the executable at `executable`
/// (none if it is unknown) and the bundled resources under `resource_dir`.
pub fn layout_candidates(executable: Option<String>, resource_dir: &str) -> (r: LayoutCandidates)
    ensures
        r.packaged@ == packaged_script(resource_dir@),
        r.development is Some <==> (executable matches Some(e) && project_root(e@) is Some),
        r.development matches Some(d) ==> (executable matches Some(e) && project_root(e@) matches Some(
            root,
        ) && d.script@ == development_script(root) && d.working_dir@ == development_dir(root)),
{
    let sidecar = join_path(resource_dir, "sidecar");
    let packaged = join_path(sidecar.as_str(), "index.cjs");
    let mut root: Option<String> = None;
    if let Some(e) = executable {
        if let Some(profile) = parent_path(e.as_str()) {
            if let Some(target) = parent_path(profile.as_str()) {
                if let Some(krate) = parent_path(target.as_str()) {
                    root = parent_path(krate.as_str());
                }
            }
        }
    }
    let development = match root {
        Some(r) => {
            let working_dir = join_path(r.as_str(), "sidecar");
            let dist = join_path(working_dir.as_str(), "dist");
            let script = join_path(dist.as_str(), "index.cjs");
            Some(DevLayout { script, working_dir })
        },
        None => None,
    };
    LayoutCandidates { development, packaged }
}

/// The script and working directory chosen, or none when neither script exists.
pub open spec fn chosen_layout(c: LayoutCandidates, development_exists: bool, packaged_exists: bool) -> Option<
    (Seq<char>, Option<Seq<char>>),
> {
    match c.development {
        Some(d) if development_exists => Some((d.script@, Some(d.working_dir@))),
        _ => if packaged_exists {
            Some((c.packaged@, None))
        } else {
            None
        },
    }
}

pub open spec fn development_script_of(c: LayoutCandidates) -> Option<Seq<char>> {
    match c.development {
        Some(d) => Some(d.script@),
        None => None,
    }
}

/// Picks where to launch the worker from: the development tree if its script exists,
/// else the bundled script if it exists, else an error that names every place checked.
pub fn resolve_layout(candidates: LayoutCandidates, development_exists: bool, packaged_exists: bool) -> (r:
    Result<WorkerLaunch, StartError>)
    ensures
        match chosen_layout(candidates, development_exists, packaged_exists) {
            Some(choice) => r matches Ok(l) && l.script@ == choice.0 && l.working_dir.deep_view()
                == choice.1,
            None => r matches Err(StartError::WorkerNotFound { development, packaged }) && packaged@
                == candidates.packaged@ && development.deep_view() == development_script_of(candidates),
        },
{
    let LayoutCandidates { development, packaged } = candidates;
    match development {
        Some(d) => {
            if development_exists {
                Ok(WorkerLaunch { script: d.script, working_dir: Some(d.working_dir) })
            } else if packaged_exists {
                Ok(WorkerLaunch { script: packaged, working_dir: None })
            } else {
                Err(StartError::WorkerNotFound { development: Some(d.script), packaged })
            }
        },
        None => {
            if packaged_exists {
                Ok(WorkerLaunch { script: packaged, working_dir: None })
            } else {
                Err(StartError::WorkerNotFound { development: None, packaged })
            }
        },
    }
}

} // verus!
