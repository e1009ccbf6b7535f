use rsieve::errors::Error;
use rsieve::repos::assemble;
use rsieve::repos::capture_reference;
use rsieve::repos::identifier_text;
use rsieve::repos::parse_repo_input;
use rsieve::repos::resolve_reference;
use rsieve::repos::ReferenceCaptures;
use rsieve::repos::RepoMeta;

fn text(part: Option<&str>) -> Option<String> {
    part.map(|s| s.to_string())
}

fn parts(
    protocol: Option<&str>,
    host: Option<&str>,
    separator: Option<&str>,
    owner: Option<&str>,
    repo: Option<&str>,
) -> ReferenceCaptures {
    ReferenceCaptures {
        protocol: text(protocol),
        host: text(host),
        separator: text(separator),
        owner: text(owner),
        repo: text(repo),
        git: None,
        slash: None,
    }
}

fn meta(protocol: &str, url_stem: &str) -> RepoMeta {
    RepoMeta {
        protocol: protocol.into(),
        url_stem: url_stem.into(),
    }
}

#[test]
fn it_parses_stem_repos() {
    let repo = "bradyjoslin/sharewifi";
    let repo_meta = parse_repo_input(repo).unwrap();

    assert_eq!(
        repo_meta,
        RepoMeta {
            protocol: "https".into(),
            url_stem: "bradyjoslin/sharewifi".into(),
        }
    );
}

#[test]
fn it_parses_full_repos() {
    let repo = "https://github.com/bradyjoslin/sharewifi";
    let repo_meta = parse_repo_input(repo).unwrap();

    assert_eq!(
        repo_meta,
        RepoMeta {
            protocol: "https://".into(),
            url_stem: "bradyjoslin/sharewifi".into(),
        }
    );
}

#[test]
fn it_parses_git_repos() {
    let repo = "git@github.com:bradyjoslin/sharewifi.git";
    let repo_meta = parse_repo_input(repo).unwrap();

    assert_eq!(
        repo_meta,
        RepoMeta {
            protocol: "git@".into(),
            url_stem: "bradyjoslin/sharewifi".into(),
        }
    );
}

#[test]
fn it_only_parses_github_git_repos() {
    let repo = "git@githubs.com:bradyjoslin/sharewifi.git";
    let repo_meta = parse_repo_input(repo);

    assert_eq!(repo_meta.is_err(), true);
}

#[test]
fn it_only_parses_github_http_repos() {
    let repo = "https://githubs.com/bradyjoslin/sharewifi";
    let repo_meta = parse_repo_input(repo);

    assert_eq!(repo_meta.is_err(), true);
}

#[test]
fn foreign_hosts_are_bad_hosts() {
    let references = [
        "https://gitlab.com/a/b",
        "git@githubs.com:bradyjoslin/sharewifi.git",
        "https://githubs.com/bradyjoslin/sharewifi",
        "https://evil-github.com/a/b",
        "https://github.com.example.org/a/b",
        "git@gitlab.com:a/b.git",
        "example.org/a/b",
        "a/b/c",
    ];
    for reference in references {
        assert_eq!(parse_repo_input(reference), Err(Error::BadHost), "{}", reference);
    }
}

#[test]
fn text_of_no_accepted_shape_is_bad_input() {
    let references = [
        "",
        "sharewifi",
        "???",
        "/",
        "/b",
        "a/",
        "a,b/c",
        "a/b,c",
        "vercel/next.js",
        "a b/c",
        "xx https://github.com/a/b",
        "https://github.com/a/b/extra/more",
        "https://github.com/a/b.git.git",
        "https://github.com/a/b//",
        "https://github.com/a/b.gitx",
        "https://github.com/a/b.gi",
        "https://github.com/a/b\n",
        "http://github.com/a/b",
        "git@github.com:a/b.git extra",
        "user@github.com:a/b",
    ];
    for reference in references {
        assert_eq!(parse_repo_input(reference), Err(Error::BadInput), "{}", reference);
    }
}

#[test]
fn trailing_git_and_slash_are_optional() {
    let references = [
        ("https://github.com/bradyjoslin/sharewifi/", "https://"),
        ("https://github.com/bradyjoslin/sharewifi.git", "https://"),
        ("https://github.com/bradyjoslin/sharewifi.git/", "https://"),
        ("git@github.com:bradyjoslin/sharewifi", "git@"),
        ("git@github.com:bradyjoslin/sharewifi/", "git@"),
        ("bradyjoslin/sharewifi.git", "https"),
        ("bradyjoslin/sharewifi/", "https"),
        ("github.com/bradyjoslin/sharewifi", "https"),
    ];
    for (reference, protocol) in references {
        assert_eq!(
            parse_repo_input(reference),
            Ok(meta(protocol, "bradyjoslin/sharewifi")),
            "{}",
            reference
        );
    }
}

#[test]
fn every_shape_gives_the_same_owner_and_name() {
    let shapes = [
        "rust-lang/rust_by-example",
        "https://github.com/rust-lang/rust_by-example",
        "git@github.com:rust-lang/rust_by-example.git",
    ];
    for shape in shapes {
        assert_eq!(
            parse_repo_input(shape).unwrap().url_stem,
            "rust-lang/rust_by-example"
        );
    }
}

#[test]
fn owner_and_name_are_identifiers() {
    assert_eq!(identifier_text("rust-lang"), true);
    assert_eq!(identifier_text("rust_by-example"), true);
    assert_eq!(identifier_text("A9_-z"), true);
    assert_eq!(identifier_text(""), false);
    assert_eq!(identifier_text("a,b"), false);
    assert_eq!(identifier_text("next.js"), false);
    assert_eq!(identifier_text("a/b"), false);
    assert_eq!(identifier_text("a:b"), false);
    assert_eq!(identifier_text("caf\u{e9}"), false);
    assert_eq!(identifier_text("a b"), false);
    for c in ['`', '{', '@', '[', '/', ':', '.', ',', ' '] {
        assert_eq!(identifier_text(&c.to_string()), false, "{:?}", c);
    }
}

#[test]
fn the_pattern_captures_each_part() {
    assert_eq!(
        capture_reference("git@github.com:bradyjoslin/sharewifi.git"),
        Some(ReferenceCaptures {
            protocol: text(Some("git@")),
            host: text(Some("github.com")),
            separator: text(Some(":")),
            owner: text(Some("bradyjoslin")),
            repo: text(Some("sharewifi")),
            git: text(Some(".git")),
            slash: None,
        })
    );
    assert_eq!(
        capture_reference("https://github.com/bradyjoslin/sharewifi/"),
        Some(ReferenceCaptures {
            protocol: text(Some("https://")),
            host: text(Some("github.com")),
            separator: text(Some("/")),
            owner: text(Some("bradyjoslin")),
            repo: text(Some("sharewifi")),
            git: None,
            slash: text(Some("/")),
        })
    );
    assert_eq!(
        capture_reference("bradyjoslin/sharewifi"),
        Some(parts(
            None,
            None,
            Some(""),
            Some("bradyjoslin"),
            Some("sharewifi")
        ))
    );
    assert_eq!(capture_reference("nothing to see"), None);
}

#[test]
fn the_parts_make_up_the_text_again() {
    let references = [
        "bradyjoslin/sharewifi",
        "https://github.com/bradyjoslin/sharewifi",
        "git@github.com:bradyjoslin/sharewifi.git",
        "https://gitlab.com/a/b.git/",
        "a/b/c",
    ];
    for reference in references {
        let captures = capture_reference(reference).unwrap();
        assert_eq!(assemble(&captures), reference);
    }
}

#[test]
fn parts_are_judged_in_order() {
    assert_eq!(resolve_reference(None), Err(Error::BadInput));
    assert_eq!(
        resolve_reference(Some(parts(None, Some("example.org"), None, None, None))),
        Err(Error::BadHost)
    );
    assert_eq!(
        resolve_reference(Some(parts(
            Some("ftp://"),
            Some("example.org"),
            Some("/"),
            Some(""),
            Some("")
        ))),
        Err(Error::BadHost)
    );
    assert_eq!(
        resolve_reference(Some(parts(
            None,
            Some("github.com"),
            Some("/"),
            None,
            Some("b")
        ))),
        Err(Error::BadOwner)
    );
    assert_eq!(
        resolve_reference(Some(parts(None, None, None, Some("a"), None))),
        Err(Error::BadRepo)
    );
    assert_eq!(
        resolve_reference(Some(parts(None, None, None, Some("a"), Some("b")))),
        Ok(meta("https", "a/b"))
    );
    assert_eq!(
        resolve_reference(Some(parts(None, None, Some(""), Some("a"), Some("b")))),
        Ok(meta("https", "a/b"))
    );
    assert_eq!(
        resolve_reference(Some(parts(
            Some("git@"),
            Some("github.com"),
            Some(":"),
            Some("a"),
            Some("b")
        ))),
        Ok(meta("git@", "a/b"))
    );
}

#[test]
fn an_owner_or_name_that_is_no_identifier_is_refused() {
    assert_eq!(
        resolve_reference(Some(parts(None, None, None, Some(""), Some("b")))),
        Err(Error::BadOwner)
    );
    assert_eq!(
        resolve_reference(Some(parts(None, None, None, Some("a,b"), Some("c")))),
        Err(Error::BadOwner)
    );
    assert_eq!(
        resolve_reference(Some(parts(None, None, None, Some("a/b"), Some("c")))),
        Err(Error::BadOwner)
    );
    assert_eq!(
        resolve_reference(Some(parts(None, None, None, Some("a"), Some("")))),
        Err(Error::BadRepo)
    );
    assert_eq!(
        resolve_reference(Some(parts(None, None, None, Some("a"), Some("next.js")))),
        Err(Error::BadRepo)
    );
    assert_eq!(
        resolve_reference(Some(parts(None, None, None, Some("a"), Some("b.git")))),
        Err(Error::BadRepo)
    );
}

#[test]
fn parts_of_another_shape_are_bad_input() {
    assert_eq!(
        resolve_reference(Some(parts(
            Some("ftp://"),
            Some("github.com"),
            Some("/"),
            Some("a"),
            Some("b")
        ))),
        Err(Error::BadInput)
    );
    assert_eq!(
        resolve_reference(Some(parts(
            Some("https"),
            Some("github.com"),
            Some("/"),
            Some("a"),
            Some("b")
        ))),
        Err(Error::BadInput)
    );
    assert_eq!(
        resolve_reference(Some(parts(
            None,
            Some("github.com"),
            Some(""),
            Some("a"),
            Some("b")
        ))),
        Err(Error::BadInput)
    );
    assert_eq!(
        resolve_reference(Some(parts(Some("git@"), None, None, Some("a"), Some("b")))),
        Err(Error::BadInput)
    );
    assert_eq!(
        resolve_reference(Some(parts(
            None,
            Some("github.com"),
            Some("//"),
            Some("a"),
            Some("b")
        ))),
        Err(Error::BadInput)
    );
    let mut odd_suffix = parts(None, None, None, Some("a"), Some("b"));
    odd_suffix.git = text(Some("xgit"));
    assert_eq!(resolve_reference(Some(odd_suffix)), Err(Error::BadInput));
    let mut odd_slash = parts(None, None, None, Some("a"), Some("b"));
    odd_slash.slash = text(Some(""));
    assert_eq!(resolve_reference(Some(odd_slash)), Err(Error::BadInput));
}
