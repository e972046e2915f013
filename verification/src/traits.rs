//! Context analysis: what is known about a path when looking for actions.
use vstd::prelude::*;

use crate::error::CommonError;

verus! {

/// The kind of file a path holds.
#[derive(Debug, Clone, Copy, PartialEq, Eq, Structural)]
pub enum FileKind {
    Text,
    Markdown,
    Code,
    Image,
    Pdf,
    Latex,
    Typst,
    Archive,
    Binary,
    Directory,
    Unknown,
}

/// Git repository state.
#[derive(Debug, Clone)]
pub struct GitState {
    pub branch: Option<String>,
    pub is_dirty: bool,
    pub has_staged: bool,
}

/// Contextual information about a file/directory for action discovery.
#[derive(Debug, Clone)]
pub struct Context {
    pub path: String,
    pub file_kind: Option<FileKind>,
    pub project_type: Option<String>,
    pub git_state: Option<GitState>,
    pub environment: std::collections::HashMap<String, String>,
}

/// Analyze a path/environment to produce a Context.
pub trait ContextAnalyzer {
    fn analyze(&self, path: &str) -> Result<Context, CommonError>;
}

} // verus!
