//! What a run was asked to do, and the choices that follow from it.

use vstd::prelude::*;
use crate::repos::RepoMeta;
use crate::repos::SSH_PROTOCOL;
use crate::text::copy_of;
use crate::text::same_text;

verus! {

/// The destination that stands for "here".
pub const HERE: &'static str = ".";

/// Where workflows live in a repository.
pub const WORKFLOWS_DIR: &'static str = ".github";

/// The filter that selects a repository's workflows.
pub const WORKFLOWS_FILTER: &'static str = ".github/*";

/// Copies all or portions of a remote git repo.
#[derive(Debug, PartialEq, Eq)]
pub struct App {
    /// GitHub repo. Required.
    pub repo: String,
    /// Destination path.
    pub destination: String,
    /// Git clone (SSH) instead of tarball via HTTP.
    pub git: bool,
    /// Write to destination directory even if not empty.
    pub force: bool,
    /// Get GitHub Actions only.
    pub workflows: bool,
    /// Previews without updating destination.
    pub preview: bool,
    /// Glob filter to get only specific directories and files.
    pub filter: Option<String>,
    /// Branch name. Defaults to primary branch.
    pub branch: Option<String>,
    /// Replace the branch placeholder in what is copied.
    pub default_branch: bool,
}

/// How the repository is fetched.
#[derive(Clone, Copy, Debug, PartialEq, Eq, Structural)]
pub enum RetrievalStrategy {
    /// Download an archive over HTTPS and unpack it.
    Archive,
    /// Clone with the version-control client.
    Clone,
}

impl App {
    /// The destination of the run: as given, but workflows that were asked
    /// for without a destination of their own go to the workflows directory.
    pub open spec fn target_spec(&self) -> Seq<char> {
        if self.workflows && self.destination@ == HERE@ {
            WORKFLOWS_DIR@
        } else {
            self.destination@
        }
    }

    /// The filter of the run: workflows only, if they were asked for, else
    /// the filter as given.
    pub open spec fn selection_spec(&self) -> Option<Seq<char>> {
        if self.workflows {
            Some(WORKFLOWS_FILTER@)
        } else {
            self.filter.deep_view()
        }
    }

    /// The strategy of the run: a clone if it was asked for or if the
    /// reference was written with the SSH marker, else the archive.
    pub open spec fn strategy_spec(&self, protocol: Seq<char>) -> RetrievalStrategy {
        if self.git || protocol == SSH_PROTOCOL@ {
            RetrievalStrategy::Clone
        } else {
            RetrievalStrategy::Archive
        }
    }

    /// Computes [`App::target_spec`].
    pub fn target(&self) -> (r: String)
        ensures
            r@ == self.target_spec(),
    {
        if self.workflows && same_text(self.destination.as_str(), HERE) {
            WORKFLOWS_DIR.to_owned()
        } else {
            self.destination.clone()
        }
    }

    /// Computes [`App::selection_spec`].
    pub fn selection(&self) -> (r: Option<String>)
        ensures
            r.deep_view() == self.selection_spec(),
    {
        if self.workflows {
            Some(WORKFLOWS_FILTER.to_owned())
        } else {
            copy_of(&self.filter)
        }
    }

    /// Computes [`App::strategy_spec`] for the address that was parsed.
    pub fn strategy(&self, meta: &RepoMeta) -> (r: RetrievalStrategy)
        ensures
            r == self.strategy_spec(meta.protocol@),
    {
        if self.git || same_text(meta.protocol.as_str(), SSH_PROTOCOL) {
            RetrievalStrategy::Clone
        } else {
            RetrievalStrategy::Archive
        }
    }
}

} // verus!
