//! The default branch of a repository, as its local metadata records it.
//!
//! A clone keeps a symbolic reference that points at the remote's `HEAD`. Its
//! target names the default branch: `refs/remotes/origin/main` stands for
//! `main`, and `refs/remotes/origin/release/1.x` for `release/1.x`.

use vstd::prelude::*;
use crate::errors::AppResult;
use crate::errors::ErrorView;
use crate::errors::text_result;
use crate::placeholders::matches_at;
use crate::placeholders::occurs_at;
use crate::text::chars_of;
use crate::text::string_of_range;

verus! {

/// The reference that is looked up.
pub const REMOTE_HEAD: &'static str = "refs/remotes/origin/HEAD";

/// What the target of [`REMOTE_HEAD`] begins with. The branch name follows.
pub const REMOTE_BRANCHES: &'static str = "refs/remotes/origin/";

/// The branch a target names: all that follows [`REMOTE_BRANCHES`], slashes
/// included. A reference that is not symbolic, or whose target has another
/// shape, names none, which is written as the empty name.
pub open spec fn branch_of_target(target: Option<Seq<char>>) -> Seq<char> {
    match target {
        Some(t) if occurs_at(t, REMOTE_BRANCHES@, 0) => t.skip(REMOTE_BRANCHES@.len() as int),
        _ => Seq::empty(),
    }
}

/// What a lookup of the default branch gives: the failure of the lookup, or
/// the branch that the target names.
pub open spec fn default_branch_of(lookup: Result<Option<Seq<char>>, ErrorView>) -> Result<
    Seq<char>,
    ErrorView,
> {
    match lookup {
        Ok(target) => Ok(branch_of_target(target)),
        Err(e) => Err(e),
    }
}

/// The value of a lookup's outcome.
pub open spec fn lookup_view(lookup: AppResult<Option<String>>) -> Result<
    Option<Seq<char>>,
    ErrorView,
> {
    match lookup {
        Ok(target) => Ok(target.deep_view()),
        Err(e) => Err(e@),
    }
}

/// Reads the default branch from the outcome of looking up [`REMOTE_HEAD`]:
/// `Ok` with the reference's symbolic target, if it has one, or the failure.
pub fn default_branch(lookup: AppResult<Option<String>>) -> (r: AppResult<String>)
    ensures
        text_result(r) == default_branch_of(lookup_view(lookup)),
        forall|branch: Seq<char>|
            lookup_view(lookup) == Ok::<Option<Seq<char>>, ErrorView>(
                Some(#[trigger] (REMOTE_BRANCHES@ + branch)),
            ) ==> text_result(r) == Ok::<Seq<char>, ErrorView>(branch),
{
    match lookup {
        Ok(Some(target)) => {
            let chars = chars_of(target.as_str());
            let prefix = chars_of(REMOTE_BRANCHES);
            assert forall|branch: Seq<char>| target@ == #[trigger] (REMOTE_BRANCHES@ + branch)
                implies occurs_at(target@, REMOTE_BRANCHES@, 0) && target@.skip(
                REMOTE_BRANCHES@.len() as int,
            ) == branch by {
                assert(target@.subrange(0, REMOTE_BRANCHES@.len() as int) =~= REMOTE_BRANCHES@);
                assert(target@.skip(REMOTE_BRANCHES@.len() as int) =~= branch);
            }
            if matches_at(&chars, &prefix, 0) {
                assert(chars@.subrange(prefix.len() as int, chars.len() as int) =~= chars@.skip(
                    prefix.len() as int,
                ));
                Ok(string_of_range(&chars, prefix.len(), chars.len()))
            } else {
                Ok(String::new())
            }
        },
        Ok(None) => Ok(String::new()),
        Err(e) => Err(e),
    }
}

} // verus!
