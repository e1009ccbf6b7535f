use rsieve::downloaders::check_status;
use rsieve::downloaders::clone_result;
use rsieve::downloaders::get_tarball;
use rsieve::downloaders::git_clone;
use rsieve::downloaders::strip_root;
use rsieve::downloaders::unpack_target;
use rsieve::errors::Error;

#[test]
fn it_gets_github_git_repos() {
    let repo = "bradyjoslin/sharewifi";
    let dir = &format!("{}-{}", "it_gets_github_git_repos", 1);
    let plan = git_clone(repo, dir, &None);
    assert_eq!(plan.script, "git clone --depth 1 \"$1\" \"$2\"");
    assert_eq!(
        plan.args,
        vec![
            "git@github.com:bradyjoslin/sharewifi.git".to_string(),
            "it_gets_github_git_repos-1".to_string(),
        ]
    );
    assert_eq!(plan.metadata, "it_gets_github_git_repos-1/.git");
    let res = clone_result(0, String::new());

    assert_eq!(res.is_ok(), true);
}

#[test]
fn it_gets_github_tarball_repos() {
    let repo = "bradyjoslin/sharewifi";
    let request = get_tarball(repo, &None);
    assert_eq!(
        request.url,
        "https://github.com/bradyjoslin/sharewifi/archive/HEAD.tar.gz"
    );
    assert_eq!(request.user_agent, "rsieve");
    let res = check_status(200);

    assert_eq!(res.is_ok(), true);
}

#[test]
fn it_fails_nonexist_github_tarball_repos() {
    let repo = "bradyjoslin/sharewifisss";
    let request = get_tarball(repo, &None);
    assert_eq!(
        request.url,
        "https://github.com/bradyjoslin/sharewifisss/archive/HEAD.tar.gz"
    );
    let res = check_status(404);

    assert_eq!(res.is_err(), true);
    assert_eq!(res, Err(Error::ClientWithStatus(404)));
}

#[test]
fn it_fails_nonexist_github_git_repos() {
    let repo = "bradyjoslin/sharewifisss";
    let dir = "it_fails_nonexist_github_git_repos";
    let plan = git_clone(repo, dir, &None);
    assert_eq!(
        plan.args,
        vec![
            "git@github.com:bradyjoslin/sharewifisss.git".to_string(),
            "it_fails_nonexist_github_git_repos".to_string(),
        ]
    );
    let res = clone_result(128, "ERROR: Repository not found.".to_string());

    assert_eq!(res.is_err(), true);
    assert_eq!(
        res,
        Err(Error::CloneError("ERROR: Repository not found.".into()))
    );
}

#[test]
fn a_branch_pins_the_archive() {
    let request = get_tarball("bradyjoslin/sharewifi", &Some("dev".into()));
    assert_eq!(
        request.url,
        "https://github.com/bradyjoslin/sharewifi/archive/refs/heads/dev.tar.gz"
    );
}

#[test]
fn a_branch_pins_the_clone() {
    let plan = git_clone("bradyjoslin/sharewifi", "stage", &Some("dev".into()));
    assert_eq!(plan.script, "git clone -b \"$1\" --depth 1 \"$2\" \"$3\"");
    assert_eq!(
        plan.args,
        vec![
            "dev".to_string(),
            "git@github.com:bradyjoslin/sharewifi.git".to_string(),
            "stage".to_string(),
        ]
    );
    assert_eq!(plan.metadata, "stage/.git");
}

#[test]
fn any_exit_code_but_zero_is_a_clone_error() {
    assert_eq!(clone_result(0, "warning".into()), Ok(()));
    assert_eq!(
        clone_result(1, "fatal".into()),
        Err(Error::CloneError("fatal".into()))
    );
    assert_eq!(
        clone_result(-1, "killed".into()),
        Err(Error::CloneError("killed".into()))
    );
}

#[test]
fn only_statuses_400_to_499_are_client_errors() {
    assert_eq!(check_status(399), Ok(()));
    assert_eq!(check_status(400), Err(Error::ClientWithStatus(400)));
    assert_eq!(check_status(499), Err(Error::ClientWithStatus(499)));
    assert_eq!(check_status(500), Ok(()));
    assert_eq!(check_status(200), Ok(()));
    assert_eq!(check_status(302), Ok(()));
}

#[test]
fn the_wrapping_directory_is_stripped() {
    assert_eq!(
        strip_root("bradyjoslin-sharewifi-3f2a1b9/src/main.rs"),
        Ok("src/main.rs".into())
    );
    assert_eq!(
        strip_root("bradyjoslin-sharewifi-3f2a1b9/LICENSE"),
        Ok("LICENSE".into())
    );
    assert_eq!(strip_root("bradyjoslin-sharewifi-3f2a1b9/"), Ok("".into()));
    assert_eq!(strip_root("bradyjoslin-sharewifi-3f2a1b9"), Ok("".into()));
    assert_eq!(strip_root("pax_global_header"), Ok("".into()));
}

#[test]
fn exactly_one_component_is_stripped() {
    assert_eq!(strip_root("a/b/c/d"), Ok("b/c/d".into()));
    assert_eq!(strip_root("a//b"), Ok("b".into()));
    assert_eq!(strip_root("/a/b"), Ok("a/b".into()));
    assert_eq!(strip_root("./a/b"), Ok("a/b".into()));
    assert_eq!(strip_root("a/b/"), Ok("b".into()));
    assert_eq!(strip_root("a/./b"), Ok("b".into()));
    assert_eq!(strip_root("a/b/."), Ok("b".into()));
    assert_eq!(strip_root("a/.."), Ok("..".into()));
    assert_eq!(strip_root("a/.b/c."), Ok(".b/c.".into()));
    assert_eq!(strip_root("/"), Ok("".into()));
    assert_eq!(strip_root("."), Ok("".into()));
}

#[test]
fn a_path_without_components_cannot_be_stripped() {
    assert_eq!(strip_root(""), Err(Error::StripPrefixError));
    assert_eq!(unpack_target("stage", ""), Err(Error::StripPrefixError));
}

#[test]
fn entries_are_unpacked_under_staging() {
    assert_eq!(
        unpack_target("/home/someone/.rsieve", "sharewifi-HEAD/src/main.rs"),
        Ok("/home/someone/.rsieve/src/main.rs".into())
    );
    assert_eq!(
        unpack_target("/home/someone/.rsieve", "sharewifi-HEAD/"),
        Ok("/home/someone/.rsieve/".into())
    );
}

#[test]
fn components_are_those_of_the_platform() {
    let paths = [
        "a/b/c", "a", "a/", "a//b", "/a/b", "./a/b", "a/./b", "a/b/", "a/b/.", "/", "//",
        "a/..", "../a", ".", "./", "a/b//c/", "a/.b", "a/b./", "a/././b/./.", "a/...",
        "sharewifi-HEAD/.github/workflows/ci.yml",
    ];
    for path in paths {
        let whole = std::path::Path::new(path);
        let root = whole.components().next().unwrap();
        let expected = whole.strip_prefix(root).unwrap().to_str().unwrap().to_owned();
        assert_eq!(strip_root(path), Ok(expected), "{:?}", path);
    }
    assert_eq!(std::path::Path::new("").components().next(), None);
}
