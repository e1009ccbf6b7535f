//! The branch placeholder: a token in copied text that stands for the name of
//! the repository's default branch.
//!
//! The name that takes the token's place is the branch the repository was
//! fetched at, if one was asked for; the plan of the move says so. Otherwise
//! it is looked up in the local repository at the destination, and `main`
//! stands in where that lookup gives nothing.

use vstd::prelude::*;
use crate::errors::AppResult;
use crate::text::chars_of;
use crate::text::string_of;

verus! {

/// The token that is replaced.
pub const BRANCH_TOKEN: &'static str = "$default-branch";

/// The branch that is assumed when none can be found out.
pub const FALLBACK_BRANCH: &'static str = "main";

/// Whether `token` stands in `text` at position `at`.
pub open spec fn occurs_at(text: Seq<char>, token: Seq<char>, at: int) -> bool {
    0 <= at && at + token.len() <= text.len() && text.subrange(at, at + token.len()) == token
}

/// Whether `token` stands anywhere in `text`.
pub open spec fn occurs(text: Seq<char>, token: Seq<char>) -> bool {
    exists|at: int| occurs_at(text, token, at)
}

/// `text` with every occurrence of `token` replaced by `with`. Occurrences are
/// found from left to right and do not overlap; what was put in is not
/// searched again. An empty token is never replaced.
pub open spec fn replaced(text: Seq<char>, token: Seq<char>, with: Seq<char>) -> Seq<char>
    decreases text.len(),
{
    if token.len() == 0 || text.len() < token.len() {
        text
    } else if occurs_at(text, token, 0) {
        with + replaced(text.skip(token.len() as int), token, with)
    } else {
        seq![text[0]] + replaced(text.skip(1), token, with)
    }
}

/// A file's text with the placeholder replaced by a branch name.
pub open spec fn rewritten(contents: Seq<char>, branch: Seq<char>) -> Seq<char> {
    replaced(contents, BRANCH_TOKEN@, branch)
}

/// The branch that stands for the placeholder after a lookup: the branch that
/// was found, or the fallback if the lookup failed or found an empty name.
pub open spec fn branch_after_lookup(found: Option<Seq<char>>) -> Seq<char> {
    match found {
        Some(name) if name.len() > 0 => name,
        _ => FALLBACK_BRANCH@,
    }
}

/// Settles the branch name from the outcome of looking it up in a local
/// repository. A failed lookup is not an error: the fallback takes its place.
pub fn resolve_branch(lookup: AppResult<String>) -> (r: String)
    ensures
        r@ == branch_after_lookup(
            match lookup {
                Ok(name) => Some(name@),
                Err(_) => None,
            },
        ),
        r@.len() > 0,
{
    proof {
        reveal_strlit("main");
    }
    match lookup {
        Ok(name) => {
            if name.as_str().is_empty() {
                FALLBACK_BRANCH.to_owned()
            } else {
                name
            }
        },
        Err(_) => FALLBACK_BRANCH.to_owned(),
    }
}

/// Computes [`occurs_at`].
pub(crate) fn matches_at(text: &Vec<char>, token: &Vec<char>, at: usize) -> (r: bool)
    requires
        at <= text.len(),
    ensures
        r == occurs_at(text@, token@, at as int),
{
    if token.len() > text.len() - at {
        return false;
    }
    let mut k: usize = 0;
    while k < token.len()
        invariant
            k <= token.len(),
            at + token.len() <= text.len(),
            forall|j: int| 0 <= j < k ==> text@[at + j] == token@[j],
        decreases token.len() - k,
    {
        if text[at + k] != token[k] {
            return false;
        }
        k += 1;
    }
    assert(text@.subrange(at as int, at + token.len()) =~= token@);
    true
}

/// Computes [`replaced`] on characters.
pub fn replace_all(text: &Vec<char>, token: &Vec<char>, with: &Vec<char>) -> (r: Vec<char>)
    ensures
        r@ == replaced(text@, token@, with@),
{
    let mut out: Vec<char> = Vec::new();
    let mut i: usize = 0;
    assert(text@.skip(0) =~= text@);
    while i < text.len()
        invariant
            i <= text.len(),
            out@ + replaced(text@.skip(i as int), token@, with@) == replaced(
                text@,
                token@,
                with@,
            ),
        decreases text.len() - i,
    {
        let ghost rest = text@.skip(i as int);
        let ghost before = out@;
        if token.len() > 0 && matches_at(text, token, i) {
            assert(rest.subrange(0, token.len() as int) =~= text@.subrange(
                i as int,
                i + token.len(),
            ));
            assert(rest.skip(token.len() as int) =~= text@.skip(i + token.len()));
            let mut k: usize = 0;
            while k < with.len()
                invariant
                    k <= with.len(),
                    out@ == before + with@.take(k as int),
                decreases with.len() - k,
            {
                out.push(with[k]);
                k += 1;
            }
            i += token.len();
        } else {
            out.push(text[i]);
            assert(rest.skip(1) =~= text@.skip(i + 1));
            assert(replaced(rest, token@, with@) =~= seq![rest[0]] + replaced(
                rest.skip(1),
                token@,
                with@,
            )) by {
                if token@.len() > 0 && rest.len() >= token@.len() {
                    assert(rest.subrange(0, token.len() as int) =~= text@.subrange(
                        i as int,
                        i + token.len(),
                    ));
                }
            }
            i += 1;
        }
    }
    out
}

/// Replaces the placeholder in a file's text by `branch`.
pub fn update_placeholder_branch(contents: &str, branch: &str) -> (r: String)
    ensures
        r@ == rewritten(contents@, branch@),
{
    let text = chars_of(contents);
    let token = chars_of(BRANCH_TOKEN);
    let with = chars_of(branch);
    let out = replace_all(&text, &token, &with);
    string_of(&out)
}

/// Replacing leaves text without the token as it is.
pub proof fn lemma_replaced_without_token(text: Seq<char>, token: Seq<char>, with: Seq<char>)
    requires
        !occurs(text, token),
    ensures
        replaced(text, token, with) == text,
    decreases text.len(),
{
    if token.len() > 0 && text.len() >= token.len() {
        let rest = text.skip(1);
        assert forall|at: int| !occurs_at(rest, token, at) by {
            if occurs_at(rest, token, at) {
                assert(rest.subrange(at, at + token.len()) =~= text.subrange(
                    at + 1,
                    at + 1 + token.len(),
                ));
                assert(occurs_at(text, token, at + 1));
            }
        }
        lemma_replaced_without_token(rest, token, with);
    }
}

/// If the result of replacing begins with `prefix`, and no character of
/// `prefix` is the first character of what was put in, then the text itself
/// began with `prefix`.
proof fn lemma_prefix_survives(
    text: Seq<char>,
    token: Seq<char>,
    with: Seq<char>,
    prefix: Seq<char>,
)
    requires
        with.len() > 0,
        !prefix.contains(with[0]),
        prefix.len() <= replaced(text, token, with).len(),
        replaced(text, token, with).subrange(0, prefix.len() as int) == prefix,
    ensures
        prefix.len() <= text.len(),
        text.subrange(0, prefix.len() as int) == prefix,
    decreases text.len(),
{
    let out = replaced(text, token, with);
    if prefix.len() == 0 || token.len() == 0 || text.len() < token.len() {
    } else if occurs_at(text, token, 0) {
        assert(out.subrange(0, prefix.len() as int)[0] == with[0]);
    } else {
        let rest = text.skip(1);
        let tail = prefix.skip(1);
        assert(replaced(rest, token, with).subrange(0, tail.len() as int) =~= tail);
        lemma_prefix_survives(rest, token, with, tail);
        assert(text.subrange(0, prefix.len() as int) =~= prefix) by {
            assert forall|k: int| 0 <= k < prefix.len() implies text[k] == prefix[k] by {
                if k > 0 {
                    assert(rest.subrange(0, tail.len() as int)[k - 1] == rest[k - 1]);
                }
            }
        }
    }
}

/// Replacing leaves no occurrence of the token behind, provided that what is
/// put in is not empty, does not hold the token's first character, and does
/// not begin with a character that the token holds after its first.
pub proof fn lemma_replaced_holds_no_token(text: Seq<char>, token: Seq<char>, with: Seq<char>)
    requires
        token.len() > 0,
        with.len() > 0,
        !with.contains(token[0]),
        !token.skip(1).contains(with[0]),
    ensures
        !occurs(replaced(text, token, with), token),
    decreases text.len(),
{
    let out = replaced(text, token, with);
    if text.len() < token.len() {
    } else if occurs_at(text, token, 0) {
        let rest = text.skip(token.len() as int);
        let tail = replaced(rest, token, with);
        lemma_replaced_holds_no_token(rest, token, with);
        assert forall|at: int| !occurs_at(out, token, at) by {
            if occurs_at(out, token, at) {
                if at >= with.len() {
                    assert(tail.subrange(at - with.len(), at - with.len() + token.len())
                        =~= out.subrange(at, at + token.len()));
                    assert(occurs_at(tail, token, at - with.len()));
                }
            }
        }
    } else {
        let rest = text.skip(1);
        let tail = replaced(rest, token, with);
        lemma_replaced_holds_no_token(rest, token, with);
        assert forall|at: int| !occurs_at(out, token, at) by {
            if occurs_at(out, token, at) {
                if at == 0 {
                    let after = token.skip(1);
                    assert(tail.subrange(0, after.len() as int) =~= after);
                    lemma_prefix_survives(rest, token, with, after);
                    assert(text.subrange(0, token.len() as int) =~= token) by {
                        assert forall|k: int| 0 <= k < token.len() implies text[k]
                            == token[k] by {
                            if k > 0 {
                                assert(rest.subrange(0, after.len() as int)[k - 1] == rest[k
                                    - 1]);
                            }
                        }
                    }
                } else {
                    assert(tail.subrange(at - 1, at - 1 + token.len()) =~= out.subrange(
                        at,
                        at + token.len(),
                    ));
                    assert(occurs_at(tail, token, at - 1));
                }
            }
        }
    }
}

/// Rewriting a file a second time changes nothing, whenever the first pass
/// left no placeholder behind.
pub proof fn lemma_second_pass_changes_nothing(contents: Seq<char>, branch: Seq<char>)
    requires
        !occurs(rewritten(contents, branch), BRANCH_TOKEN@),
    ensures
        rewritten(rewritten(contents, branch), branch) == rewritten(contents, branch),
{
    lemma_replaced_without_token(rewritten(contents, branch), BRANCH_TOKEN@, branch);
}

/// Whether a branch name cannot form a new placeholder with the text around
/// it: it is not empty, holds no `$`, and does not begin with a character
/// that the placeholder holds after its `$`.
pub open spec fn plain_branch(branch: Seq<char>) -> bool {
    &&& branch.len() > 0
    &&& !branch.contains(BRANCH_TOKEN@[0])
    &&& !BRANCH_TOKEN@.skip(1).contains(branch[0])
}

/// With a plain branch name the first pass leaves no placeholder behind, and
/// a second pass gives the same text again.
pub proof fn lemma_rewriting_is_idempotent(contents: Seq<char>, branch: Seq<char>)
    requires
        plain_branch(branch),
    ensures
        !occurs(rewritten(contents, branch), BRANCH_TOKEN@),
        rewritten(rewritten(contents, branch), branch) == rewritten(contents, branch),
{
    reveal_strlit("$default-branch");
    lemma_replaced_holds_no_token(contents, BRANCH_TOKEN@, branch);
    lemma_second_pass_changes_nothing(contents, branch);
}

/// The fallback branch is plain.
pub proof fn lemma_fallback_is_plain()
    ensures
        plain_branch(FALLBACK_BRANCH@),
{
    reveal_strlit("$default-branch");
    reveal_strlit("main");
    let rest = BRANCH_TOKEN@.skip(1);
    assert forall|k: int| 0 <= k < rest.len() implies rest[k] != 'm' by {
        assert(rest[k] == BRANCH_TOKEN@[k + 1]);
    }
}

} // verus!
