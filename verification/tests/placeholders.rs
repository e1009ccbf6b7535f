use rsieve::errors::Error;
use rsieve::git::default_branch;
use rsieve::placeholders::replace_all;
use rsieve::placeholders::resolve_branch;
use rsieve::placeholders::update_placeholder_branch;

const WORKFLOW: &str = "name: Android CI\n\non:\n  push:\n    branches: [ $default-branch ]\n  pull_request:\n    branches: [ $default-branch ]\n\njobs:\n  build:\n    runs-on: ubuntu-latest\n";

fn chars(s: &str) -> Vec<char> {
    s.chars().collect()
}

#[test]
fn it_replaces_branch_placeholder() {
    let branch = resolve_branch(default_branch(Err(Error::GitError(
        "NotFound".into(),
        "could not find repository".into(),
    ))));
    let after_contents = update_placeholder_branch(WORKFLOW, &branch);

    assert_eq!(after_contents.contains("$default-branch"), false);
    assert_eq!(after_contents.contains("main"), true);
}

#[test]
fn it_finds_default_branch() {
    let default_branch =
        default_branch(Ok(Some("refs/remotes/origin/main".to_string()))).expect("Default branch not found");

    assert_eq!(default_branch, "main");
}

#[test]
fn every_occurrence_is_replaced() {
    assert_eq!(
        update_placeholder_branch(WORKFLOW, "trunk"),
        "name: Android CI\n\non:\n  push:\n    branches: [ trunk ]\n  pull_request:\n    branches: [ trunk ]\n\njobs:\n  build:\n    runs-on: ubuntu-latest\n"
    );
    assert_eq!(
        update_placeholder_branch("$default-branch$default-branch", "x"),
        "xx"
    );
    assert_eq!(update_placeholder_branch("$default-branch", ""), "");
}

#[test]
fn text_without_the_placeholder_is_left_alone() {
    assert_eq!(update_placeholder_branch("", "main"), "");
    assert_eq!(
        update_placeholder_branch("$default-branc", "main"),
        "$default-branc"
    );
    assert_eq!(
        update_placeholder_branch("default-branch $default_branch", "main"),
        "default-branch $default_branch"
    );
    assert_eq!(
        update_placeholder_branch("caf\u{e9} \u{1f680} $default-branch", "main"),
        "caf\u{e9} \u{1f680} main"
    );
}

#[test]
fn a_second_pass_changes_nothing() {
    let once = update_placeholder_branch(WORKFLOW, "main");
    let twice = update_placeholder_branch(&once, "main");
    assert_eq!(once.contains("$default-branch"), false);
    assert_eq!(once, twice);
}

#[test]
fn a_branch_can_complete_a_placeholder_again() {
    let once = update_placeholder_branch("$default-$default-branchranch", "b");
    assert_eq!(once, "$default-branch");
    let twice = update_placeholder_branch(&once, "b");
    assert_eq!(twice, "b");
}

#[test]
fn what_was_put_in_is_not_searched_again() {
    assert_eq!(
        update_placeholder_branch("a $default-branch b", "$default-branch"),
        "a $default-branch b"
    );
    assert_eq!(
        replace_all(&chars("aaa"), &chars("aa"), &chars("a")),
        chars("aa")
    );
    assert_eq!(
        replace_all(&chars("abab"), &chars("ab"), &chars("abab")),
        chars("abababab")
    );
}

#[test]
fn an_empty_token_is_never_replaced() {
    assert_eq!(
        replace_all(&chars("abc"), &chars(""), &chars("x")),
        chars("abc")
    );
}

#[test]
fn the_branch_falls_back_to_main() {
    assert_eq!(resolve_branch(Ok("develop".into())), "develop");
    assert_eq!(resolve_branch(Ok("".into())), "main");
    assert_eq!(resolve_branch(Err(Error::ClientOther)), "main");
    assert_eq!(
        resolve_branch(Err(Error::GitError("NotFound".into(), "no".into()))),
        "main"
    );
}

#[test]
fn the_branch_is_what_follows_the_remote() {
    assert_eq!(
        default_branch(Ok(Some("refs/remotes/origin/develop".into()))),
        Ok("develop".into())
    );
    assert_eq!(
        default_branch(Ok(Some("refs/remotes/origin/rel/v1".into()))),
        Ok("rel/v1".into())
    );
    assert_eq!(
        default_branch(Ok(Some("refs/remotes/origin/release/1.x/".into()))),
        Ok("release/1.x/".into())
    );
    assert_eq!(
        default_branch(Err(Error::GitError("NotFound".into(), "no".into()))),
        Err(Error::GitError("NotFound".into(), "no".into()))
    );
}

#[test]
fn a_target_of_another_shape_names_no_branch() {
    let targets = [
        "main",
        "",
        "refs/remotes/origin/",
        "refs/remotes/origin",
        "refs/remotes/upstream/main",
        "refs/heads/main",
        "xrefs/remotes/origin/main",
        "/refs/remotes/origin/main",
    ];
    for target in targets {
        assert_eq!(
            default_branch(Ok(Some(target.to_string()))),
            Ok("".into()),
            "{}",
            target
        );
        assert_eq!(
            resolve_branch(default_branch(Ok(Some(target.to_string())))),
            "main"
        );
    }
    assert_eq!(default_branch(Ok(None)), Ok("".into()));
    assert_eq!(resolve_branch(default_branch(Ok(None))), "main");
}

#[test]
fn replacing_is_what_the_standard_library_does() {
    let texts = [
        "",
        "$default-branch",
        "$default-branc",
        "x$default-branchy$default-branch",
        "$default-$default-branchranch",
        "$$default-branch-branch",
        "branches: [ $default-branch, '$default-branch' ]",
        "caf\u{e9} $default-branch \u{1f680}",
    ];
    let branches = ["main", "", "b", "$default-branch", "release/1.x", "d\u{e9}veloppement"];
    for text in texts {
        for branch in branches {
            assert_eq!(
                update_placeholder_branch(text, branch),
                text.replace("$default-branch", branch)
            );
        }
    }
}
