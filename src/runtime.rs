use vstd::prelude::*;

verus! {

/// What a search for the script runtime found, as reported to the host.
#[derive(Debug, Clone, PartialEq, Eq)]
pub struct NodeInfo {
    pub found: bool,
    pub path: Option<String>,
    pub version: Option<String>,
    pub error: Option<String>,
}

pub struct NodeInfoView {
    pub found: bool,
    pub path: Option<Seq<char>>,
    pub version: Option<Seq<char>>,
    pub error: Option<Seq<char>>,
}

impl View for NodeInfo {
    type V = NodeInfoView;

    open spec fn view(&self) -> NodeInfoView {
        NodeInfoView {
            found: self.found,
            path: self.path.deep_view(),
            version: self.version.deep_view(),
            error: self.error.deep_view(),
        }
    }
}

pub open spec fn not_found_text() -> Seq<char> {
    "Node.js not found. Please install Node.js 18+"@
}

/// The report for a search that chose `path`, whose version query gave `version`.
pub open spec fn report(path: Option<Seq<char>>, version: Option<Seq<char>>) -> NodeInfoView {
    match path {
        Some(p) => NodeInfoView { found: true, path: Some(p), version, error: None },
        None => NodeInfoView { found: false, path: None, version: None, error: Some(not_found_text()) },
    }
}

impl NodeInfo {
    /// The report for a chosen runtime, or for none; a version without a runtime is dropped.
    pub fn detected(path: Option<String>, version: Option<String>) -> (r: NodeInfo)
        ensures
            r@ == report(path.deep_view(), version.deep_view()),
    {
        match path {
            Some(p) => NodeInfo { found: true, path: Some(p), version, error: None },
            None => NodeInfo {
                found: false,
                path: None,
                version: None,
                error: Some(String::from_str("Node.js not found. Please install Node.js 18+")),
            },
        }
    }
}

/// The well-known install locations of the runtime, in the order they are tried:
/// user-local, Homebrew on Apple silicon and on Intel, nvm, Volta, fnm, Bun, system.
pub open spec fn candidate_paths(home: Seq<char>) -> Seq<Seq<char>> {
    seq![
        home + "/.local/bin/node"@,
        "/opt/homebrew/bin/node"@,
        "/usr/local/bin/node"@,
        home + "/.nvm/current/bin/node"@,
        home + "/.volta/bin/node"@,
        home + "/.fnm/aliases/default/bin/node"@,
        home + "/.bun/bin/node"@,
        "/usr/bin/node"@,
    ]
}

pub open spec fn string_views(v: Seq<String>) -> Seq<Seq<char>> {
    v.map_values(|s: String| s@)
}

fn concat_text(a: &str, b: &str) -> (r: String)
    ensures
        r@ == a@ + b@,
{
    let mut s = String::from_str(a);
    s.append(b);
    s
}

/// The candidate locations of the runtime under the home directory `home`.
pub fn runtime_candidates(home: &str) -> (r: Vec<String>)
    ensures
        string_views(r@) == candidate_paths(home@),
{
    let mut v: Vec<String> = Vec::new();
    v.push(concat_text(home, "/.local/bin/node"));
    v.push(String::from_str("/opt/homebrew/bin/node"));
    v.push(String::from_str("/usr/local/bin/node"));
    v.push(concat_text(home, "/.nvm/current/bin/node"));
    v.push(concat_text(home, "/.volta/bin/node"));
    v.push(concat_text(home, "/.fnm/aliases/default/bin/node"));
    v.push(concat_text(home, "/.bun/bin/node"));
    v.push(String::from_str("/usr/bin/node"));
    assert(string_views(v@) =~= candidate_paths(home@));
    v
}

/// The first of `paths` whose entry in `exists` is true; entries past the shorter
/// of the two are not looked at.
pub open spec fn first_found(paths: Seq<Seq<char>>, exists: Seq<bool>) -> Option<Seq<char>>
    decreases paths.len(),
{
    if paths.len() == 0 || exists.len() == 0 {
        None
    } else if exists[0] {
        Some(paths[0])
    } else {
        first_found(paths.drop_first(), exists.drop_first())
    }
}

/// The first candidate that exists on disk, `exists[i]` telling whether `candidates[i]` does.
pub fn first_existing(candidates: &Vec<String>, exists: &Vec<bool>) -> (r: Option<String>)
    ensures
        r.deep_view() == first_found(string_views(candidates@), exists@),
{
    let n = if candidates.len() < exists.len() {
        candidates.len()
    } else {
        exists.len()
    };
    let mut i: usize = 0;
    assert(string_views(candidates@).subrange(0, candidates.len() as int) =~= string_views(candidates@));
    assert(exists@.subrange(0, exists.len() as int) =~= exists@);
    while i < n
        invariant
            n <= candidates.len(),
            n <= exists.len(),
            n == candidates.len() || n == exists.len(),
            0 <= i <= n,
            first_found(string_views(candidates@), exists@) == first_found(
                string_views(candidates@).subrange(i as int, candidates.len() as int),
                exists@.subrange(i as int, exists.len() as int),
            ),
        decreases n - i,
    {
        let ghost ps = string_views(candidates@).subrange(i as int, candidates.len() as int);
        let ghost es = exists@.subrange(i as int, exists.len() as int);
        if exists[i] {
            assert(ps[0] == candidates@[i as int]@);
            return Some(candidates[i].clone());
        }
        assert(ps.drop_first() =~= string_views(candidates@).subrange(i + 1, candidates.len() as int));
        assert(es.drop_first() =~= exists@.subrange(i + 1, exists.len() as int));
        i = i + 1;
    }
    proof {
        let ps = string_views(candidates@).subrange(i as int, candidates.len() as int);
        let es = exists@.subrange(i as int, exists.len() as int);
        assert(ps.len() == 0 || es.len() == 0);
    }
    None
}

/// The text that `str::trim` makes of `s`.
pub uninterp spec fn trimmed(s: Seq<char>) -> Seq<char>;

/// Relies on `str::trim`: leading and trailing whitespace removed, a function of
/// the characters alone.
#[verifier::external_body]
fn trim_text(s: &str) -> (r: String)
    ensures
        r@ == trimmed(s@),
{
    s.trim().to_string()
}

pub open spec fn lookup_result(success: bool, stdout: Seq<char>) -> Option<Seq<char>> {
    if success && trimmed(stdout).len() > 0 {
        Some(trimmed(stdout))
    } else {
        None
    }
}

/// The path that a PATH search printed, if the search succeeded and printed one.
pub fn lookup_path(success: bool, stdout: &str) -> (r: Option<String>)
    ensures
        r.deep_view() == lookup_result(success, stdout@),
{
    if !success {
        return None;
    }
    let path = trim_text(stdout);
    if path.as_str().is_empty() {
        None
    } else {
        Some(path)
    }
}

/// The version a runtime printed when asked for it; nothing if the query failed.
pub fn version_from_output(success: bool, stdout: &str) -> (r: Option<String>)
    ensures
        r.deep_view() == (if success {
            Some(trimmed(stdout@))
        } else {
            None
        }),
{
    if success {
        Some(trim_text(stdout))
    } else {
        None
    }
}

proof fn lemma_first_found_some(paths: Seq<Seq<char>>, exists: Seq<bool>, k: int)
    requires
        0 <= k < paths.len(),
        k < exists.len(),
        exists[k],
        forall|i: int| 0 <= i < paths.len() ==> (#[trigger] paths[i]).len() > 0,
    ensures
        first_found(paths, exists) matches Some(p) && p.len() > 0,
    decreases k,
{
    if !exists[0] {
        assert(paths.drop_first()[k - 1] == paths[k]);
        assert forall|i: int| 0 <= i < paths.drop_first().len() implies (#[trigger] paths.drop_first()[i]).len() > 0 by {
            assert(paths.drop_first()[i] == paths[i + 1]);
        }
        lemma_first_found_some(paths.drop_first(), exists.drop_first(), k - 1);
    } else {
        assert(paths[0].len() > 0);
    }
}

/// When one of the well-known locations exists, or the PATH search names a runtime,
/// the report says found with a non-empty path and no error; when neither holds it
/// says not found with a non-empty error.
pub proof fn lemma_runtime_detection(
    home: Seq<char>,
    exists: Seq<bool>,
    lookup_success: bool,
    lookup_stdout: Seq<char>,
    version: Option<Seq<char>>,
)
    ensures
        (exists|k: int| 0 <= k < 8 && k < exists.len() && exists[k]) ==> {
            let r = report(first_found(candidate_paths(home), exists), version);
            &&& r.found
            &&& r.error is None
            &&& r.path matches Some(p) && p.len() > 0
        },
        lookup_result(lookup_success, lookup_stdout) is Some ==> {
            let r = report(lookup_result(lookup_success, lookup_stdout), version);
            &&& r.found
            &&& r.error is None
            &&& r.path matches Some(p) && p.len() > 0
        },
        ({
            let r = report(None, version);
            &&& !r.found
            &&& r.path is None
            &&& r.error matches Some(e) && e.len() > 0
        }),
{
    reveal_strlit("Node.js not found. Please install Node.js 18+");
    reveal_strlit("/.local/bin/node");
    reveal_strlit("/opt/homebrew/bin/node");
    reveal_strlit("/usr/local/bin/node");
    reveal_strlit("/.nvm/current/bin/node");
    reveal_strlit("/.volta/bin/node");
    reveal_strlit("/.fnm/aliases/default/bin/node");
    reveal_strlit("/.bun/bin/node");
    reveal_strlit("/usr/bin/node");
    let paths = candidate_paths(home);
    assert forall|i: int| 0 <= i < paths.len() implies (#[trigger] paths[i]).len() > 0 by {}
    if exists|k: int| 0 <= k < 8 && k < exists.len() && exists[k] {
        let k = choose|k: int| 0 <= k < 8 && k < exists.len() && exists[k];
        lemma_first_found_some(paths, exists, k);
    }
}

} // verus!
