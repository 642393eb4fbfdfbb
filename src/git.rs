use vstd::prelude::*;

verus! {

/// The state of a working tree, carried to the host unchanged.
#[derive(Debug, Clone, PartialEq, Eq)]
pub struct GitStatus {
    pub branch: Option<String>,
    pub ahead: u32,
    pub behind: u32,
    pub staged: Vec<GitFile>,
    pub unstaged: Vec<GitFile>,
    pub untracked: Vec<String>,
    pub current_commit: Option<GitCommit>,
}

#[derive(Debug, Clone, PartialEq, Eq)]
pub struct GitFile {
    pub path: String,
    pub status: String,
}

#[derive(Debug, Clone, PartialEq, Eq)]
pub struct GitCommit {
    pub hash: String,
    pub author: String,
    pub message: String,
    /// Seconds since the Unix epoch.
    pub date: i64,
}

#[derive(Debug, Clone, PartialEq, Eq)]
pub struct GitDiff {
    pub file: String,
    pub hunks: Vec<GitHunk>,
}

#[derive(Debug, Clone, PartialEq, Eq)]
pub struct GitHunk {
    pub old_start: u32,
    pub old_lines: u32,
    pub new_start: u32,
    pub new_lines: u32,
    pub lines: Vec<String>,
}

#[derive(Debug, Clone, PartialEq, Eq)]
pub struct GitBranch {
    pub name: String,
    pub is_current: bool,
}

} // verus!
