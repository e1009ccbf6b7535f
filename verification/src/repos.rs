//! Reading a repository reference: `owner/name`,
//! `https://github.com/owner/name` or `git@github.com:owner/name.git`.
//!
//! The reference is matched against one pattern by the `regex` crate. What the
//! pattern captured is not taken on trust: the parts are put together again
//! and compared with the text, and each part is judged here. So whatever the
//! pattern does, an address that is handed out was written in the text, in an
//! accepted shape, with GitHub as its host if it names one.

use vstd::prelude::*;
use vstd::string::StringExecFns;
use crate::errors::AppResult;
use crate::errors::Error;
use crate::errors::ErrorView;
use crate::text::chars_of;
use crate::text::copy_of;
use crate::text::join3;
use crate::text::same_text;

verus! {

/// The grammar of a reference, from its first character to its last: an
/// optional protocol marker, an optional host, a separator (none at the very
/// start), the owner, a slash, the name, an optional `.git` and an optional
/// slash.
pub const REFERENCE_PATTERN: &'static str =
    "^(?P<protocol>git@|https://)?(?P<host>[0-9A-Za-z_.\\-]+)?(?P<separator>/|:|^)(?P<owner>[0-9A-Za-z_\\-]+)/(?P<repo>[0-9A-Za-z_\\-]+)(?P<git>\\.git)?(?P<slash>/)?$";

/// The names of the pattern's groups.
pub const PROTOCOL_GROUP: &'static str = "protocol";

pub const HOST_GROUP: &'static str = "host";

pub const SEPARATOR_GROUP: &'static str = "separator";

pub const OWNER_GROUP: &'static str = "owner";

pub const REPO_GROUP: &'static str = "repo";

pub const GIT_GROUP: &'static str = "git";

pub const SLASH_GROUP: &'static str = "slash";

/// The only host that is accepted.
pub const GITHUB: &'static str = "github.com";

/// The protocol that is assumed when the reference names none.
pub const DEFAULT_PROTOCOL: &'static str = "https";

/// The marker of a web address.
pub const HTTPS_MARKER: &'static str = "https://";

/// The marker that asks for a clone over SSH.
pub const SSH_PROTOCOL: &'static str = "git@";

/// What may follow the name.
pub const GIT_SUFFIX: &'static str = ".git";

/// The separators.
pub const SLASH: &'static str = "/";

pub const COLON: &'static str = ":";

/// Whether a character may stand in an owner or a name: an ASCII letter or
/// digit, a hyphen or an underscore.
pub open spec fn is_identifier_char(c: char) -> bool {
    ('a' <= c && c <= 'z') || ('A' <= c && c <= 'Z') || ('0' <= c && c <= '9') || c == '_' || c
        == '-'
}

/// Whether text is an owner or a name: not empty, and made of identifier
/// characters only.
pub open spec fn is_identifier(text: Seq<char>) -> bool {
    text.len() > 0 && forall|i: int| 0 <= i < text.len() ==> is_identifier_char(#[trigger] text[i])
}

/// Whether a character may stand in a host: an identifier character or a dot.
pub open spec fn is_host_char(c: char) -> bool {
    is_identifier_char(c) || c == '.'
}

/// Whether text has the shape of a host.
pub open spec fn is_host(text: Seq<char>) -> bool {
    text.len() > 0 && forall|i: int| 0 <= i < text.len() ==> is_host_char(#[trigger] text[i])
}

/// `owner/name`.
pub open spec fn stem_of(owner: Seq<char>, name: Seq<char>) -> Seq<char> {
    owner + SLASH@ + name
}

/// The address of a repository: how it is to be reached, and `owner/name`.
#[derive(Debug, PartialEq, Eq)]
pub struct RepoMeta {
    pub protocol: String,
    pub url_stem: String,
}

/// The mathematical value of a [`RepoMeta`].
pub struct RepoMetaView {
    pub protocol: Seq<char>,
    pub url_stem: Seq<char>,
}

impl View for RepoMeta {
    type V = RepoMetaView;

    open spec fn view(&self) -> RepoMetaView {
        RepoMetaView { protocol: self.protocol@, url_stem: self.url_stem@ }
    }
}

impl RepoMetaView {
    /// What holds of every address that is handed out: its protocol is the
    /// default or one of the two markers, and it names an owner and a
    /// repository, both identifiers, with one slash between them.
    pub open spec fn well_formed(self) -> bool {
        &&& (self.protocol == DEFAULT_PROTOCOL@ || self.protocol == HTTPS_MARKER@ || self.protocol
            == SSH_PROTOCOL@)
        &&& exists|owner: Seq<char>, name: Seq<char>|
            is_identifier(owner) && is_identifier(name) && self.url_stem == #[trigger] stem_of(
                owner,
                name,
            )
    }
}

/// The parts of a reference, as the pattern's groups give them. A group that
/// took no part in the match is `None`.
#[derive(Debug, PartialEq, Eq)]
pub struct ReferenceCaptures {
    pub protocol: Option<String>,
    pub host: Option<String>,
    pub separator: Option<String>,
    pub owner: Option<String>,
    pub repo: Option<String>,
    pub git: Option<String>,
    pub slash: Option<String>,
}

/// The mathematical value of a [`ReferenceCaptures`].
pub struct CapturesView {
    pub protocol: Option<Seq<char>>,
    pub host: Option<Seq<char>>,
    pub separator: Option<Seq<char>>,
    pub owner: Option<Seq<char>>,
    pub repo: Option<Seq<char>>,
    pub git: Option<Seq<char>>,
    pub slash: Option<Seq<char>>,
}

impl View for ReferenceCaptures {
    type V = CapturesView;

    open spec fn view(&self) -> CapturesView {
        CapturesView {
            protocol: self.protocol.deep_view(),
            host: self.host.deep_view(),
            separator: self.separator.deep_view(),
            owner: self.owner.deep_view(),
            repo: self.repo.deep_view(),
            git: self.git.deep_view(),
            slash: self.slash.deep_view(),
        }
    }
}

/// The value of what a match gave, if it gave anything.
pub open spec fn captures_value(captures: Option<ReferenceCaptures>) -> Option<CapturesView> {
    match captures {
        Some(c) => Some(c@),
        None => None,
    }
}

/// The value of a parse result.
pub open spec fn meta_result(r: AppResult<RepoMeta>) -> Result<RepoMetaView, ErrorView> {
    match r {
        Ok(meta) => Ok(meta@),
        Err(e) => Err(e@),
    }
}

/// The text of a part, nothing if the part is not there.
pub open spec fn or_empty(part: Option<Seq<char>>) -> Seq<char> {
    match part {
        Some(text) => text,
        None => Seq::empty(),
    }
}

/// The reference that is made of these parts.
pub open spec fn reference_text(c: CapturesView) -> Seq<char> {
    or_empty(c.protocol) + or_empty(c.host) + or_empty(c.separator) + or_empty(c.owner) + SLASH@
        + or_empty(c.repo) + or_empty(c.git) + or_empty(c.slash)
}

/// Whether a host is one that is served: none at all, or GitHub.
pub open spec fn host_accepted(host: Option<Seq<char>>) -> bool {
    match host {
        Some(h) => h == GITHUB@,
        None => true,
    }
}

/// Whether a protocol marker is one of the two that exist.
pub open spec fn marker_accepted(protocol: Option<Seq<char>>) -> bool {
    match protocol {
        Some(p) => p == HTTPS_MARKER@ || p == SSH_PROTOCOL@,
        None => true,
    }
}

/// Whether the separator before the owner is in order: a slash or a colon,
/// or nothing where neither marker nor host was written.
pub open spec fn separator_accepted(c: CapturesView) -> bool {
    let separator = or_empty(c.separator);
    separator == SLASH@ || separator == COLON@ || (separator.len() == 0 && c.protocol is None
        && c.host is None)
}

/// Whether what follows the name is in order: `.git` or nothing, then a slash
/// or nothing.
pub open spec fn suffix_accepted(c: CapturesView) -> bool {
    &&& match c.git {
        Some(g) => g == GIT_SUFFIX@,
        None => true,
    }
    &&& match c.slash {
        Some(s) => s == SLASH@,
        None => true,
    }
}

/// Whether an owner or a name is there and is an identifier.
pub open spec fn names_identifier(part: Option<Seq<char>>) -> bool {
    part is Some && is_identifier(part->0)
}

/// Whether parts make up a reference: every part has its shape.
pub open spec fn well_formed(c: CapturesView) -> bool {
    &&& marker_accepted(c.protocol)
    &&& match c.host {
        Some(h) => is_host(h),
        None => true,
    }
    &&& separator_accepted(c)
    &&& names_identifier(c.owner)
    &&& names_identifier(c.repo)
    &&& suffix_accepted(c)
}

/// The protocol of an address: the marker as it was written, else the default.
pub open spec fn protocol_hint(protocol: Option<Seq<char>>) -> Seq<char> {
    match protocol {
        Some(p) => p,
        None => DEFAULT_PROTOCOL@,
    }
}

/// The address that parts stand for.
pub open spec fn address_of(c: CapturesView) -> RepoMetaView {
    RepoMetaView {
        protocol: protocol_hint(c.protocol),
        url_stem: stem_of(or_empty(c.owner), or_empty(c.repo)),
    }
}

/// How the parts of a reference are judged. No match at all is bad input. A
/// host other than GitHub is refused before anything else is looked at. Then
/// the owner and the name must be identifiers, in that order, and last the
/// marker, the separator and what follows the name must be in order.
pub open spec fn reference_outcome(captures: Option<CapturesView>) -> Result<
    RepoMetaView,
    ErrorView,
> {
    match captures {
        None => Err(ErrorView::BadInput),
        Some(c) => {
            if !host_accepted(c.host) {
                Err(ErrorView::BadHost)
            } else if !names_identifier(c.owner) {
                Err(ErrorView::BadOwner)
            } else if !names_identifier(c.repo) {
                Err(ErrorView::BadRepo)
            } else if !(marker_accepted(c.protocol) && separator_accepted(c) && suffix_accepted(
                c,
            )) {
                Err(ErrorView::BadInput)
            } else {
                Ok(address_of(c))
            }
        },
    }
}

/// How a text is judged from the parts that were found in it: parts that do
/// not make up the whole text count as no match.
pub open spec fn text_outcome(text: Seq<char>, captures: Option<CapturesView>) -> Result<
    RepoMetaView,
    ErrorView,
> {
    match captures {
        Some(c) if reference_text(c) != text => Err(ErrorView::BadInput),
        _ => reference_outcome(captures),
    }
}

fn identifier_char(c: char) -> (r: bool)
    ensures
        r == is_identifier_char(c),
{
    (c >= 'a' && c <= 'z') || (c >= 'A' && c <= 'Z') || (c >= '0' && c <= '9') || c == '_' || c
        == '-'
}

/// Computes [`is_identifier`].
pub fn identifier_text(text: &str) -> (r: bool)
    ensures
        r == is_identifier(text@),
{
    let chars = chars_of(text);
    if chars.len() == 0 {
        return false;
    }
    let mut i: usize = 0;
    while i < chars.len()
        invariant
            i <= chars.len(),
            chars@ == text@,
            forall|j: int| 0 <= j < i ==> is_identifier_char(#[trigger] chars@[j]),
        decreases chars.len() - i,
    {
        if !identifier_char(chars[i]) {
            return false;
        }
        i += 1;
    }
    true
}

fn part_is(part: &Option<String>, text: &str) -> (r: bool)
    ensures
        r == (part.deep_view() == Some(text@)),
{
    match part {
        Some(p) => same_text(p.as_str(), text),
        None => false,
    }
}

fn names_identifier_text(part: &Option<String>) -> (r: bool)
    ensures
        r == names_identifier(part.deep_view()),
{
    match part {
        Some(p) => identifier_text(p.as_str()),
        None => false,
    }
}

fn shape_accepted(c: &ReferenceCaptures) -> (r: bool)
    ensures
        r == (marker_accepted(c@.protocol) && separator_accepted(c@) && suffix_accepted(c@)),
{
    proof {
        reveal_strlit("/");
        reveal_strlit(":");
    }
    let marker = c.protocol.is_none() || part_is(&c.protocol, HTTPS_MARKER) || part_is(
        &c.protocol,
        SSH_PROTOCOL,
    );
    let unseparated = match &c.separator {
        Some(s) => s.as_str().is_empty(),
        None => true,
    };
    let separator = part_is(&c.separator, SLASH) || part_is(&c.separator, COLON) || (unseparated
        && c.protocol.is_none() && c.host.is_none());
    let suffix = (c.git.is_none() || part_is(&c.git, GIT_SUFFIX)) && (c.slash.is_none() || part_is(
        &c.slash,
        SLASH,
    ));
    assert(unseparated == (or_empty(c@.separator).len() == 0));
    assert(separator == separator_accepted(c@));
    marker && separator && suffix
}

fn append_part(out: &mut String, part: &Option<String>)
    ensures
        final(out)@ == old(out)@ + or_empty(part.deep_view()),
{
    match part {
        Some(p) => out.append(p.as_str()),
        None => {
            assert(out@ + Seq::<char>::empty() =~= out@);
        },
    }
}

/// Puts the parts together again. See [`reference_text`].
pub fn assemble(c: &ReferenceCaptures) -> (r: String)
    ensures
        r@ == reference_text(c@),
{
    let mut out = String::new();
    append_part(&mut out, &c.protocol);
    append_part(&mut out, &c.host);
    append_part(&mut out, &c.separator);
    append_part(&mut out, &c.owner);
    out.append(SLASH);
    append_part(&mut out, &c.repo);
    append_part(&mut out, &c.git);
    append_part(&mut out, &c.slash);
    assert(out@ =~= reference_text(c@));
    out
}

/// Judges the parts of a reference. See [`reference_outcome`].
pub fn resolve_reference(captures: Option<ReferenceCaptures>) -> (r: AppResult<RepoMeta>)
    ensures
        meta_result(r) == reference_outcome(captures_value(captures)),
        r matches Ok(meta) ==> meta@.well_formed() && well_formed(captures->0@) && host_accepted(
            captures->0@.host,
        ),
        (captures matches Some(c) && !host_accepted(c@.host)) ==> (r matches Err(e) && e@
            == ErrorView::BadHost),
{
    let captures = match captures {
        Some(c) => c,
        None => return Err(Error::BadInput),
    };
    match &captures.host {
        Some(host) => {
            if !same_text(host.as_str(), GITHUB) {
                return Err(Error::BadHost);
            }
        },
        None => {},
    }
    if !names_identifier_text(&captures.owner) {
        return Err(Error::BadOwner);
    }
    if !names_identifier_text(&captures.repo) {
        return Err(Error::BadRepo);
    }
    if !shape_accepted(&captures) {
        return Err(Error::BadInput);
    }
    proof {
        lemma_github_is_a_host();
    }
    let ghost parts = captures@;
    let owner = captures.owner.unwrap();
    let repo = captures.repo.unwrap();
    let protocol = match captures.protocol {
        Some(p) => p,
        None => DEFAULT_PROTOCOL.to_owned(),
    };
    let meta = RepoMeta { protocol, url_stem: join3(owner.as_str(), SLASH, repo.as_str()) };
    assert(meta@.url_stem == stem_of(owner@, repo@));
    assert(meta@ == address_of(parts));
    Ok(meta)
}

/// What `regex` captures: the text of each group in `names` for the leftmost
/// match of `pattern` in `haystack`; `None` where the pattern does not compile
/// or matches nowhere.
pub uninterp spec fn named_captures(
    pattern: Seq<char>,
    names: Seq<Seq<char>>,
    haystack: Seq<char>,
) -> Option<Seq<Option<Seq<char>>>>;

/// Compiles `pattern` with `regex::Regex::new`, searches `haystack` with
/// `Regex::captures` and reads each group in `names` with `Captures::name`.
///
/// Trusted: the result is what those calls give for these arguments, one
/// entry for each name and in the order of `names`. An entry is `None` when
/// the pattern has no group of that name or the group took no part in the
/// match.
#[verifier::external_body]
fn capture_groups(pattern: &str, names: &Vec<&str>, haystack: &str) -> (groups: Option<
    Vec<Option<String>>,
>)
    ensures
        groups.deep_view() == named_captures(pattern@, names.deep_view(), haystack@),
        groups matches Some(g) ==> g.len() == names.len(),
{
    let re = regex::Regex::new(pattern).ok()?;
    let caps = re.captures(haystack)?;
    Some(names.iter().map(|n| caps.name(n).map(|m| m.as_str().to_owned())).collect())
}

/// The names handed to the pattern matcher, in the order in which their
/// groups are read back.
pub open spec fn group_names() -> Seq<Seq<char>> {
    seq![
        PROTOCOL_GROUP@,
        HOST_GROUP@,
        SEPARATOR_GROUP@,
        OWNER_GROUP@,
        REPO_GROUP@,
        GIT_GROUP@,
        SLASH_GROUP@,
    ]
}

/// The parts of a reference, read from the groups in the order of
/// [`group_names`].
pub open spec fn captures_of(groups: Option<Seq<Option<Seq<char>>>>) -> Option<CapturesView> {
    match groups {
        Some(g) if g.len() == 7 => Some(
            CapturesView {
                protocol: g[0],
                host: g[1],
                separator: g[2],
                owner: g[3],
                repo: g[4],
                git: g[5],
                slash: g[6],
            },
        ),
        _ => None,
    }
}

/// What [`REFERENCE_PATTERN`] finds in a text.
pub open spec fn pattern_captures(text: Seq<char>) -> Option<CapturesView> {
    captures_of(named_captures(REFERENCE_PATTERN@, group_names(), text))
}

/// Matches a reference against [`REFERENCE_PATTERN`].
pub fn capture_reference(repo_input: &str) -> (r: Option<ReferenceCaptures>)
    ensures
        captures_value(r) == pattern_captures(repo_input@),
{
    let names: Vec<&str> = vec![
        PROTOCOL_GROUP,
        HOST_GROUP,
        SEPARATOR_GROUP,
        OWNER_GROUP,
        REPO_GROUP,
        GIT_GROUP,
        SLASH_GROUP,
    ];
    assert(names.deep_view() =~= group_names());
    match capture_groups(REFERENCE_PATTERN, &names, repo_input) {
        Some(groups) => {
            let captures = ReferenceCaptures {
                protocol: copy_of(&groups[0]),
                host: copy_of(&groups[1]),
                separator: copy_of(&groups[2]),
                owner: copy_of(&groups[3]),
                repo: copy_of(&groups[4]),
                git: copy_of(&groups[5]),
                slash: copy_of(&groups[6]),
            };
            Some(captures)
        },
        None => None,
    }
}

/// Reads a repository reference.
///
/// Which result a text gets is [`text_outcome`] of what the pattern finds in
/// it. Whatever the pattern finds, an address is handed out only for a text
/// that is made of well-formed parts whose host, if there is one, is GitHub,
/// and it is the address those parts stand for; and a text that can be read
/// as naming another host is never given an address.
pub fn parse_repo_input(repo_input: &str) -> (r: AppResult<RepoMeta>)
    ensures
        meta_result(r) == text_outcome(repo_input@, pattern_captures(repo_input@)),
        r matches Ok(meta) ==> meta@.well_formed(),
        r matches Ok(meta) ==> exists|c: CapturesView|
            well_formed(c) && host_accepted(c.host) && #[trigger] reference_text(c)
                == repo_input@ && meta@ == address_of(c),
        forall|c: CapturesView|
            well_formed(c) && #[trigger] reference_text(c) == repo_input@ && !host_accepted(c.host)
                ==> r is Err,
{
    let captures = capture_reference(repo_input);
    match &captures {
        Some(c) => {
            let text = assemble(c);
            if !same_text(text.as_str(), repo_input) {
                return Err(Error::BadInput);
            }
        },
        None => {},
    }
    let ghost found = captures_value(captures);
    let r = resolve_reference(captures);
    proof {
        if r is Ok {
            let parts = found->0;
            assert(reference_text(parts) == repo_input@);
            assert forall|c: CapturesView|
                well_formed(c) && #[trigger] reference_text(c) == repo_input@ implies host_accepted(
                c.host,
            ) by {
                lemma_reference_text_is_unambiguous(parts, c);
            }
        }
    }
    r
}

/// GitHub's name has the shape of a host.
pub proof fn lemma_github_is_a_host()
    ensures
        is_host(GITHUB@),
{
    reveal_strlit("github.com");
}

/// An identifier holds no character that is not an identifier character.
proof fn lemma_identifier_lacks(text: Seq<char>, c: char)
    requires
        is_identifier(text),
        !is_identifier_char(c),
    ensures
        !text.contains(c),
{
    if text.contains(c) {
        let k = choose|k: int| 0 <= k < text.len() && text[k] == c;
        assert(is_identifier_char(text[k]));
    }
}

/// A text that ends in a delimiter and a run without delimiters can be cut
/// in one way only.
proof fn lemma_split_at_last(
    a1: Seq<char>,
    d1: char,
    x1: Seq<char>,
    a2: Seq<char>,
    d2: char,
    x2: Seq<char>,
)
    requires
        a1.push(d1) + x1 == a2.push(d2) + x2,
        !x1.contains(d2),
        !x2.contains(d1),
    ensures
        a1 == a2,
        d1 == d2,
        x1 == x2,
{
    let t = a1.push(d1) + x1;
    let u = a2.push(d2) + x2;
    assert(t.len() == a1.len() + 1 + x1.len());
    assert(u.len() == a2.len() + 1 + x2.len());
    if x1.len() > x2.len() {
        let k = a2.len() - a1.len() - 1;
        assert(u[a2.len() as int] == d2);
        assert(t[a2.len() as int] == x1[k]);
        assert(x1.contains(x1[k]));
    }
    if x2.len() > x1.len() {
        let k = a1.len() - a2.len() - 1;
        assert(t[a1.len() as int] == d1);
        assert(u[a1.len() as int] == x2[k]);
        assert(x2.contains(x2[k]));
    }
    assert(a1 =~= a2) by {
        assert forall|i: int| 0 <= i < a1.len() implies a1[i] == a2[i] by {
            assert(t[i] == a1[i]);
            assert(u[i] == a2[i]);
        }
    }
    assert(t[a1.len() as int] == d1);
    assert(u[a2.len() as int] == d2);
    assert(x1 =~= x2) by {
        assert forall|i: int| 0 <= i < x1.len() implies x1[i] == x2[i] by {
            assert(t[a1.len() + 1 + i] == x1[i]);
            assert(u[a2.len() + 1 + i] == x2[i]);
        }
    }
}

/// What follows the name can be read off the end of a reference.
proof fn lemma_suffix_is_determined(
    a1: Seq<char>,
    n1: Seq<char>,
    g1: Seq<char>,
    s1: Seq<char>,
    a2: Seq<char>,
    n2: Seq<char>,
    g2: Seq<char>,
    s2: Seq<char>,
)
    requires
        is_identifier(n1),
        is_identifier(n2),
        g1.len() == 0 || g1 == GIT_SUFFIX@,
        g2.len() == 0 || g2 == GIT_SUFFIX@,
        s1.len() == 0 || s1 == SLASH@,
        s2.len() == 0 || s2 == SLASH@,
        a1.push('/') + n1 + g1 + s1 == a2.push('/') + n2 + g2 + s2,
    ensures
        g1 == g2,
        s1 == s2,
        a1.push('/') + n1 == a2.push('/') + n2,
{
    reveal_strlit(".git");
    reveal_strlit("/");
    let b1 = a1.push('/') + n1;
    let b2 = a2.push('/') + n2;
    let t = b1 + g1 + s1;
    let u = b2 + g2 + s2;
    assert(is_identifier_char(n1[n1.len() - 1]));
    assert(is_identifier_char(n2[n2.len() - 1]));
    assert(t.last() == '/' <==> s1.len() == 1) by {
        if s1.len() == 1 {
            assert(t.last() == s1[0]);
        } else if g1.len() == 4 {
            assert(t.last() == g1[3]);
        } else {
            assert(t.last() == n1[n1.len() - 1]);
        }
    }
    assert(u.last() == '/' <==> s2.len() == 1) by {
        if s2.len() == 1 {
            assert(u.last() == s2[0]);
        } else if g2.len() == 4 {
            assert(u.last() == g2[3]);
        } else {
            assert(u.last() == n2[n2.len() - 1]);
        }
    }
    assert(s1 =~= s2);
    let v = b1 + g1;
    let w = b2 + g2;
    assert(v =~= w) by {
        assert(v =~= t.subrange(0, t.len() - s1.len()));
        assert(w =~= u.subrange(0, u.len() - s2.len()));
    }
    if g1.len() == 4 && g2.len() == 0 {
        lemma_no_identifier_ends_in_git(b1, a2, n2);
        assert(w =~= b2);
    }
    if g2.len() == 4 && g1.len() == 0 {
        lemma_no_identifier_ends_in_git(b2, a1, n1);
        assert(v =~= b1);
    }
    assert(g1 =~= g2);
    assert(b1 =~= b2) by {
        assert(b1 =~= v.subrange(0, v.len() - g1.len()));
        assert(b2 =~= w.subrange(0, w.len() - g2.len()));
    }
}

/// A text that ends in a slash and an identifier does not end in `.git`.
proof fn lemma_no_identifier_ends_in_git(b: Seq<char>, a: Seq<char>, n: Seq<char>)
    requires
        is_identifier(n),
    ensures
        b + GIT_SUFFIX@ != a.push('/') + n,
{
    reveal_strlit(".git");
    let t = b + GIT_SUFFIX@;
    let u = a.push('/') + n;
    if t == u {
        let len = t.len() as int;
        assert(t[len - 4] == GIT_SUFFIX@[0]);
        assert(t[len - 3] == GIT_SUFFIX@[1]);
        assert(t[len - 2] == GIT_SUFFIX@[2]);
        assert(t[len - 1] == GIT_SUFFIX@[3]);
        if n.len() >= 4 {
            assert(u[len - 4] == n[n.len() - 4]);
            assert(is_identifier_char(n[n.len() - 4]));
        } else {
            assert(u[len - 1 - n.len()] == '/');
        }
    }
}

/// A reference can be read in one way only: parts that make up the same text
/// agree in protocol, host, owner and name.
pub proof fn lemma_reference_text_is_unambiguous(p: CapturesView, q: CapturesView)
    requires
        well_formed(p),
        well_formed(q),
        reference_text(p) == reference_text(q),
    ensures
        p.protocol == q.protocol,
        p.host == q.host,
        p.owner == q.owner,
        p.repo == q.repo,
{
    reveal_strlit("/");
    reveal_strlit(":");
    reveal_strlit(".git");
    reveal_strlit("https://");
    reveal_strlit("git@");
    let (mp, hp, sp) = (or_empty(p.protocol), or_empty(p.host), or_empty(p.separator));
    let (mq, hq, sq) = (or_empty(q.protocol), or_empty(q.host), or_empty(q.separator));
    let (op, np) = (p.owner->0, p.repo->0);
    let (oq, nq) = (q.owner->0, q.repo->0);
    let ap = mp + hp + sp + op;
    let aq = mq + hq + sq + oq;
    assert(reference_text(p) =~= ap.push('/') + np + or_empty(p.git) + or_empty(p.slash));
    assert(reference_text(q) =~= aq.push('/') + nq + or_empty(q.git) + or_empty(q.slash));
    lemma_suffix_is_determined(
        ap,
        np,
        or_empty(p.git),
        or_empty(p.slash),
        aq,
        nq,
        or_empty(q.git),
        or_empty(q.slash),
    );
    lemma_identifier_lacks(np, '/');
    lemma_identifier_lacks(nq, '/');
    lemma_split_at_last(ap, '/', np, aq, '/', nq);
    // The owner, and what stands before it.
    let prep = mp + hp;
    let preq = mq + hq;
    lemma_identifier_lacks(op, '/');
    lemma_identifier_lacks(op, ':');
    lemma_identifier_lacks(oq, '/');
    lemma_identifier_lacks(oq, ':');
    if sp.len() == 1 && sq.len() == 1 {
        assert(ap =~= prep.push(sp[0]) + op);
        assert(aq =~= preq.push(sq[0]) + oq);
        lemma_split_at_last(prep, sp[0], op, preq, sq[0], oq);
    } else if sp.len() == 0 && sq.len() == 0 {
        assert(prep =~= Seq::<char>::empty());
        assert(preq =~= Seq::<char>::empty());
        assert(ap =~= op);
        assert(aq =~= oq);
    } else if sp.len() == 0 {
        assert(ap =~= op);
        assert(aq =~= preq.push(sq[0]) + oq);
        assert(aq[preq.len() as int] == sq[0]);
        assert(op.contains(op[preq.len() as int]));
    } else {
        assert(aq =~= oq);
        assert(ap =~= prep.push(sp[0]) + op);
        assert(ap[prep.len() as int] == sp[0]);
        assert(oq.contains(oq[prep.len() as int]));
    }
    assert(prep == preq);
    assert(op == oq);
    // The marker and the host.
    lemma_marker_is_determined(p.protocol, p.host, q.protocol, q.host);
}

/// A marker and a host can be told apart: no host holds a colon, a slash or
/// an `@`, and the two markers begin differently.
proof fn lemma_marker_is_determined(
    mp: Option<Seq<char>>,
    hp: Option<Seq<char>>,
    mq: Option<Seq<char>>,
    hq: Option<Seq<char>>,
)
    requires
        marker_accepted(mp),
        marker_accepted(mq),
        hp matches Some(h) ==> is_host(h),
        hq matches Some(h) ==> is_host(h),
        or_empty(mp) + or_empty(hp) == or_empty(mq) + or_empty(hq),
    ensures
        mp == mq,
        hp == hq,
{
    reveal_strlit("https://");
    reveal_strlit("git@");
    let t = or_empty(mp) + or_empty(hp);
    let u = or_empty(mq) + or_empty(hq);
    if mp is None && mq is Some {
        lemma_host_is_no_marker(hp, mq->0, or_empty(hq));
        assert(t =~= or_empty(hp));
    } else if mq is None && mp is Some {
        lemma_host_is_no_marker(hq, mp->0, or_empty(hp));
        assert(u =~= or_empty(hq));
    } else if mp is Some && mq is Some {
        assert(t[0] == mp->0[0]);
        assert(u[0] == mq->0[0]);
        assert(mp->0 =~= mq->0);
    }
    assert(or_empty(hp) =~= or_empty(hq)) by {
        assert(or_empty(hp) =~= t.subrange(or_empty(mp).len() as int, t.len() as int));
        assert(or_empty(hq) =~= u.subrange(or_empty(mq).len() as int, u.len() as int));
    }
}

/// No host begins with a marker.
proof fn lemma_host_is_no_marker(host: Option<Seq<char>>, marker: Seq<char>, rest: Seq<char>)
    requires
        host matches Some(h) ==> is_host(h),
        marker == HTTPS_MARKER@ || marker == SSH_PROTOCOL@,
    ensures
        or_empty(host) != marker + rest,
{
    reveal_strlit("https://");
    reveal_strlit("git@");
    let t = marker + rest;
    assert(t.len() >= marker.len());
    if host is Some && host->0 == t {
        let h = host->0;
        if marker == HTTPS_MARKER@ {
            assert(t[5] == marker[5]);
            assert(is_host_char(h[5]));
        } else {
            assert(t[3] == marker[3]);
            assert(is_host_char(h[3]));
        }
    }
}

/// A text that can be read as naming a host other than GitHub is refused,
/// whatever was found in it; and it is refused as a bad host whenever what
/// was found makes up the text and is well formed.
pub proof fn lemma_foreign_host_in_text_is_refused(
    text: Seq<char>,
    reading: CapturesView,
    found: Option<CapturesView>,
)
    requires
        well_formed(reading),
        reference_text(reading) == text,
        !host_accepted(reading.host),
    ensures
        text_outcome(text, found) is Err,
        (found matches Some(c) && well_formed(c) && reference_text(c) == text) ==> text_outcome(
            text,
            found,
        ) == Err::<RepoMetaView, ErrorView>(ErrorView::BadHost),
{
    if found is Some && reference_text(found->0) == text {
        let c = found->0;
        lemma_github_is_a_host();
        if well_formed(c) {
            lemma_reference_text_is_unambiguous(c, reading);
        }
    }
}

/// Whatever shape a reference was written in, the address read from it is
/// made of the owner and the name that were written, and its protocol is the
/// marker that was written, `https` if there was none. Two references with
/// the same owner and name therefore give the same `owner/name`.
pub proof fn lemma_address_is_independent_of_shape(a: CapturesView, b: CapturesView)
    requires
        well_formed(a),
        well_formed(b),
        host_accepted(a.host),
        host_accepted(b.host),
        a.owner == b.owner,
        a.repo == b.repo,
    ensures
        reference_outcome(Some(a)) is Ok,
        reference_outcome(Some(b)) is Ok,
        reference_outcome(Some(a))->Ok_0.url_stem == reference_outcome(Some(b))->Ok_0.url_stem,
        reference_outcome(Some(a))->Ok_0.url_stem == stem_of(a.owner->0, a.repo->0),
        reference_outcome(Some(a))->Ok_0.protocol == protocol_hint(a.protocol),
        reference_outcome(Some(b))->Ok_0.protocol == protocol_hint(b.protocol),
{
}

/// A host other than GitHub is refused, whatever else was written.
pub proof fn lemma_foreign_host_is_refused(c: CapturesView)
    requires
        c.host is Some,
        c.host->0 != GITHUB@,
    ensures
        reference_outcome(Some(c)) == Err::<RepoMetaView, ErrorView>(ErrorView::BadHost),
{
}

} // verus!
