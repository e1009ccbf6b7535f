//! The two ways of fetching a repository: downloading an archive of it, or
//! cloning it.
//!
//! The request, the child process and the unpacking are the caller's to
//! perform. What is decided here is where to ask, what to run, how the answer
//! is judged, and where each archive entry is unpacked to.

use vstd::prelude::*;
use vstd::string::StringExecFns;
use crate::directories::TOOL_NAME;
use crate::errors::AppResult;
use crate::errors::Error;
use crate::errors::ErrorView;
use crate::errors::text_result;
use crate::text::chars_of;
use crate::text::join;
use crate::text::join3;
use crate::text::string_of_range;
use crate::tree::ends_idle;
use crate::tree::trim_end;

verus! {

/// The script that clones the default branch; its arguments are the address
/// and the directory to clone into.
pub const CLONE_SCRIPT: &'static str = "git clone --depth 1 \"$1\" \"$2\"";

/// The script that clones one branch; its arguments are the branch, the
/// address and the directory to clone into.
pub const CLONE_BRANCH_SCRIPT: &'static str = "git clone -b \"$1\" --depth 1 \"$2\" \"$3\"";

/// The address a repository is cloned from.
pub open spec fn clone_url(repo: Seq<char>) -> Seq<char> {
    "git@github.com:"@ + repo + ".git"@
}

/// The directory in which a clone keeps its own records.
pub open spec fn metadata_dir(dir: Seq<char>) -> Seq<char> {
    dir + "/.git"@
}

/// The part of an archive's address that names what is archived: the head of
/// the default branch, or the head of the branch that was asked for.
pub open spec fn archive_ref(branch: Option<Seq<char>>) -> Seq<char> {
    match branch {
        Some(name) => "archive/refs/heads/"@ + name + ".tar.gz"@,
        None => "archive/HEAD.tar.gz"@,
    }
}

/// The address an archive of a repository is downloaded from.
pub open spec fn tarball_url(repo: Seq<char>, branch: Option<Seq<char>>) -> Seq<char> {
    "https://github.com/"@ + repo + "/"@ + archive_ref(branch)
}

/// A download to make: one `GET` of `url`, announced as `user_agent`.
#[derive(Debug, PartialEq, Eq)]
pub struct Download {
    pub url: String,
    pub user_agent: String,
}

/// A clone to make: `script` is run with `args`, and once it has succeeded
/// `metadata` is removed with all it holds, so that only the repository's
/// content is left.
#[derive(Debug, PartialEq, Eq)]
pub struct ClonePlan {
    pub script: String,
    pub args: Vec<String>,
    pub metadata: String,
}

/// The script for a clone.
pub open spec fn clone_script(pinned: bool) -> Seq<char> {
    if pinned {
        CLONE_BRANCH_SCRIPT@
    } else {
        CLONE_SCRIPT@
    }
}

/// The arguments for a clone's script.
pub open spec fn clone_args(repo: Seq<char>, dir: Seq<char>, branch: Option<Seq<char>>) -> Seq<
    Seq<char>,
> {
    match branch {
        Some(name) => seq![name, clone_url(repo), dir],
        None => seq![clone_url(repo), dir],
    }
}

/// Plans the download of the archive of `repo`, `owner/name`, at `branch` or
/// at the head of the default branch.
pub fn get_tarball(repo: &str, branch: &Option<String>) -> (r: Download)
    ensures
        r.url@ == tarball_url(repo@, branch.deep_view()),
        r.user_agent@ == TOOL_NAME@,
{
    let stem_branch = match branch {
        Some(name) => join3("archive/refs/heads/", name.as_str(), ".tar.gz"),
        None => "archive/HEAD.tar.gz".to_owned(),
    };
    let mut url = join3("https://github.com/", repo, "/");
    url.append(stem_branch.as_str());
    Download { url, user_agent: TOOL_NAME.to_owned() }
}

/// Plans a shallow clone of `repo`, `owner/name`, into `dir`, of `branch` or
/// of the default branch.
pub fn git_clone(repo: &str, dir: &str, branch: &Option<String>) -> (r: ClonePlan)
    ensures
        r.script@ == clone_script(branch is Some),
        r.args.deep_view() == clone_args(repo@, dir@, branch.deep_view()),
        r.metadata@ == metadata_dir(dir@),
{
    let repo_url = join3("git@github.com:", repo, ".git");
    let mut args: Vec<String> = Vec::new();
    let script = match branch {
        Some(name) => {
            args.push(name.clone());
            CLONE_BRANCH_SCRIPT
        },
        None => CLONE_SCRIPT,
    };
    args.push(repo_url);
    args.push(dir.to_owned());
    ClonePlan { script: script.to_owned(), args, metadata: join(dir, "/.git") }
}

/// How the end of the cloning process is judged: any exit code but zero is a
/// failure that carries what the process wrote to its error stream.
pub open spec fn clone_outcome(code: i32, report: Seq<char>) -> Result<(), ErrorView> {
    if code != 0 {
        Err(ErrorView::CloneError(report))
    } else {
        Ok(())
    }
}

/// Judges the end of the cloning process. See [`clone_outcome`].
pub fn clone_result(code: i32, report: String) -> (r: AppResult<()>)
    ensures
        match r {
            Ok(_) => clone_outcome(code, report@) is Ok,
            Err(e) => clone_outcome(code, report@) == Err::<(), ErrorView>(e@),
        },
{
    if code != 0 {
        return Err(Error::CloneError(report));
    }
    Ok(())
}

/// Whether a status is one of the client errors, 400 to 499.
pub open spec fn is_client_error(status: u16) -> bool {
    400 <= status < 500
}

/// Judges the status of a response: a client error ends the download and is
/// handed on with its status; nothing is tried again.
pub fn check_status(status: u16) -> (r: AppResult<()>)
    ensures
        match r {
            Ok(_) => !is_client_error(status),
            Err(e) => is_client_error(status) && e@ == ErrorView::ClientWithStatus(status),
        },
{
    if 500 > status && status >= 400 {
        return Err(Error::ClientWithStatus(status));
    }
    Ok(())
}

/// Where the first component of a path ends: the position of its first
/// separator, or its length if it has none.
pub open spec fn first_separator(path: Seq<char>) -> int
    decreases path.len(),
{
    if path.len() == 0 || path[0] == '/' {
        0
    } else {
        1 + first_separator(path.skip(1))
    }
}

/// Whether a path begins with something that names nothing: a separator, or
/// a `.` that ends the path or stands before a separator.
pub open spec fn starts_idle(path: Seq<char>) -> bool {
    path.len() > 0 && (path[0] == '/' || (path[0] == '.' && (path.len() == 1 || path[1]
        == '/')))
}

/// A path without the separators and `.` components at its start.
pub open spec fn trim_start(path: Seq<char>) -> Seq<char>
    decreases path.len(),
{
    if starts_idle(path) {
        trim_start(path.skip(1))
    } else {
        path
    }
}

/// A path without its first component. What is left is written without
/// separators and `.` components at either end.
pub open spec fn without_root(path: Seq<char>) -> Seq<char> {
    trim_end(trim_start(path.skip(first_separator(path))))
}

/// What stripping gives: a path that holds nothing has no component to
/// remove; any other loses exactly its first.
pub open spec fn stripped(path: Seq<char>) -> Result<Seq<char>, ErrorView> {
    if path.len() == 0 {
        Err(ErrorView::StripPrefixError)
    } else {
        Ok(without_root(path))
    }
}

/// Where an archive entry is unpacked: under `dest`, at its path without the
/// directory that wraps the whole archive.
pub open spec fn unpacked_at(dest: Seq<char>, entry_path: Seq<char>) -> Result<
    Seq<char>,
    ErrorView,
> {
    match stripped(entry_path) {
        Ok(rest) => Ok(dest + "/"@ + rest),
        Err(e) => Err(e),
    }
}

/// Removes the first component of an archive entry's path.
pub fn strip_root(path: &str) -> (r: AppResult<String>)
    ensures
        text_result(r) == stripped(path@),
{
    let chars = chars_of(path);
    if chars.len() == 0 {
        return Err(Error::StripPrefixError);
    }
    let mut i: usize = 0;
    assert(chars@.skip(0) =~= chars@);
    while i < chars.len() && chars[i] != '/'
        invariant
            i <= chars.len(),
            first_separator(chars@) == i + first_separator(chars@.skip(i as int)),
        decreases chars.len() - i,
    {
        assert(chars@.skip(i as int).skip(1) =~= chars@.skip(i + 1));
        i += 1;
    }
    let mut j: usize = i;
    while j < chars.len() && (chars[j] == '/' || (chars[j] == '.' && (j + 1 == chars.len()
        || chars[j + 1] == '/')))
        invariant
            i <= j <= chars.len(),
            trim_start(chars@.skip(i as int)) == trim_start(chars@.skip(j as int)),
        decreases chars.len() - j,
    {
        assert(chars@.skip(j as int).skip(1) =~= chars@.skip(j + 1));
        j += 1;
    }
    let mut end: usize = chars.len();
    while end > j && (chars[end - 1] == '/' || (chars[end - 1] == '.' && end - j >= 2 && chars[end
        - 2] == '/'))
        invariant
            j <= end <= chars.len(),
            trim_end(chars@.skip(j as int)) == trim_end(chars@.subrange(j as int, end as int)),
        decreases end,
    {
        assert(chars@.subrange(j as int, end as int).drop_last() =~= chars@.subrange(
            j as int,
            end - 1,
        ));
        end -= 1;
    }
    Ok(string_of_range(&chars, j, end))
}

/// The path at which an archive entry is unpacked. See [`unpacked_at`].
pub fn unpack_target(dest: &str, entry_path: &str) -> (r: AppResult<String>)
    ensures
        text_result(r) == unpacked_at(dest@, entry_path@),
{
    match strip_root(entry_path) {
        Ok(rest) => Ok(join3(dest, "/", rest.as_str())),
        Err(e) => Err(e),
    }
}

/// The first separator lies behind a run of characters that holds none.
proof fn lemma_first_separator_after(root: Seq<char>, rest: Seq<char>)
    requires
        !root.contains('/'),
        rest.len() == 0 || rest[0] == '/',
    ensures
        first_separator(root + rest) == root.len(),
    decreases root.len(),
{
    if root.len() > 0 {
        assert((root + rest).skip(1) =~= root.skip(1) + rest);
        lemma_first_separator_after(root.skip(1), rest);
    }
}

/// Exactly one component is removed: from a path made of a first component,
/// a separator and a remainder that has no idle part at either end, the
/// remainder is what is left. A path of one component leaves nothing, and a
/// path that holds nothing cannot be stripped.
pub proof fn lemma_exactly_one_component_is_stripped(root: Seq<char>, rest: Seq<char>)
    requires
        !root.contains('/'),
        !starts_idle(rest),
        !ends_idle(rest),
    ensures
        stripped(root + seq!['/'] + rest) == Ok::<Seq<char>, ErrorView>(rest),
        root.len() > 0 ==> stripped(root) == Ok::<Seq<char>, ErrorView>(Seq::empty()),
        stripped(Seq::empty()) == Err::<Seq<char>, ErrorView>(ErrorView::StripPrefixError),
{
    let tail = seq!['/'] + rest;
    let path = root + seq!['/'] + rest;
    assert(path =~= root + tail);
    lemma_first_separator_after(root, tail);
    assert(path.skip(root.len() as int) =~= tail);
    assert(tail.skip(1) =~= rest);
    assert(trim_start(tail) == trim_start(rest));
    if root.len() > 0 {
        lemma_first_separator_after(root, Seq::empty());
        assert(root.skip(root.len() as int) =~= Seq::<char>::empty());
    }
}

} // verus!
