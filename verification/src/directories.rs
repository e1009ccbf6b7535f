//! The staging workspace, the check on the destination, and the plan that
//! brings the selected entries from staging to the destination.
//!
//! Nothing here touches the file system. The caller reports what it found
//! there (whether a directory exists, how many entries it holds, what a
//! pattern matched) and carries out the steps it is given, in order.

use vstd::prelude::*;
use crate::errors::AppResult;
use crate::errors::Error;
use crate::errors::ErrorView;
use crate::errors::text_result;
use crate::text::join3;
use crate::tree::base_name;
use crate::tree::file_name;
use crate::tree::lemma_base_name_of_child;

verus! {

/// The name under which this tool keeps its staging directory and announces
/// itself to servers.
pub const TOOL_NAME: &'static str = "rsieve";

/// The pattern that stands for "everything directly under the staging root".
pub const EVERYTHING: &'static str = "*";

/// Where the staging directory lies, and whether a directory left there by an
/// earlier run has to be removed, with all it holds, before it is created.
pub struct Staging {
    pub path: String,
    pub clear_first: bool,
}

/// The staging directory's path under `root`.
pub open spec fn staging_path(root: Seq<char>) -> Seq<char> {
    root + "/."@ + TOOL_NAME@
}

/// Computes [`staging_path`].
pub fn staging_dir(root: &str) -> (r: String)
    ensures
        r@ == staging_path(root@),
{
    join3(root, "/.", TOOL_NAME)
}

/// Plans a fresh staging directory under `root`. `present` says whether a
/// directory already stands at [`staging_dir`]: then it is cleared away
/// first, whatever an earlier run left in it.
pub fn prep_tmp_dir(root: &str, present: bool) -> (r: Staging)
    ensures
        r.path@ == staging_path(root@),
        r.clear_first == present,
{
    Staging { path: staging_dir(root), clear_first: present }
}

/// What the check on the destination answers: it is refused exactly when it
/// exists, holds at least one entry and `force` is not set.
pub open spec fn gate_outcome(
    destination: Seq<char>,
    entries: Option<usize>,
    force: bool,
) -> Result<Seq<char>, ErrorView> {
    match entries {
        Some(count) if count != 0 && !force => Err(ErrorView::DestinationNotEmpty(destination)),
        _ => Ok(destination),
    }
}

/// Decides whether `destination` may be written to. `entries` is `None` when
/// nothing exists at the destination, else the number of entries it holds.
/// The destination is handed back unchanged; it is not created here.
pub fn check_distination(destination: &str, entries: Option<usize>, force: bool) -> (r: AppResult<
    String,
>)
    ensures
        text_result(r) == gate_outcome(destination@, entries, force),
        (entries is Some && entries->0 >= 1 && !force) ==> text_result(r) == Err::<
            Seq<char>,
            ErrorView,
        >(ErrorView::DestinationNotEmpty(destination@)),
        force ==> text_result(r) == Ok::<Seq<char>, ErrorView>(destination@),
{
    match entries {
        Some(count) => {
            if count != 0 && !force {
                return Err(Error::DestinationNotEmpty(destination.to_owned()));
            }
        },
        None => {},
    }
    Ok(destination.to_owned())
}

/// The pattern to match against the file system: the filter, or everything,
/// directly under the staging root.
pub open spec fn full_filter(tmp_dir: Seq<char>, filter: Option<Seq<char>>) -> Seq<char> {
    tmp_dir + "/"@ + match filter {
        Some(f) => f,
        None => EVERYTHING@,
    }
}

/// Builds [`full_filter`].
pub fn filter_pattern(tmp_dir: &str, filter: &Option<String>) -> (r: String)
    ensures
        r@ == full_filter(tmp_dir@, filter.deep_view()),
{
    match filter {
        Some(f) => join3(tmp_dir, "/", f.as_str()),
        None => join3(tmp_dir, "/", EVERYTHING),
    }
}

/// One result of matching the filter: a path in staging, or the report of an
/// entry that could not be traversed.
#[derive(Debug, PartialEq, Eq)]
pub enum GlobEntry {
    Found(String),
    Unreadable(String),
}

/// The mathematical value of a [`GlobEntry`].
pub enum GlobEntryView {
    Found(Seq<char>),
    Unreadable(Seq<char>),
}

impl View for GlobEntry {
    type V = GlobEntryView;

    open spec fn view(&self) -> GlobEntryView {
        match self {
            GlobEntry::Found(path) => GlobEntryView::Found(path@),
            GlobEntry::Unreadable(report) => GlobEntryView::Unreadable(report@),
        }
    }
}

/// One thing for the caller to do.
#[derive(Debug, PartialEq, Eq)]
pub enum Step {
    /// Create the destination directory.
    CreateDestination(String),
    /// From here on the placeholder stands for this branch.
    UseBranch(String),
    /// From here on the placeholder stands for the default branch of the
    /// repository found at this path, `main` if none can be read.
    LookUpBranch(String),
    /// Show this entry and what lies below it.
    ShowTree(String),
    /// Replace the placeholder in this file's text.
    RewritePlaceholder(String),
    /// Rename the entry, with all it holds, from staging into the destination.
    Move { from: String, to: String },
    /// Report that an entry was left out, and go on.
    Report(String),
}

/// The mathematical value of a [`Step`].
pub enum StepView {
    CreateDestination(Seq<char>),
    UseBranch(Seq<char>),
    LookUpBranch(Seq<char>),
    ShowTree(Seq<char>),
    RewritePlaceholder(Seq<char>),
    Move { from: Seq<char>, to: Seq<char> },
    Report(Seq<char>),
}

impl View for Step {
    type V = StepView;

    open spec fn view(&self) -> StepView {
        match self {
            Step::CreateDestination(path) => StepView::CreateDestination(path@),
            Step::UseBranch(name) => StepView::UseBranch(name@),
            Step::LookUpBranch(path) => StepView::LookUpBranch(path@),
            Step::ShowTree(path) => StepView::ShowTree(path@),
            Step::RewritePlaceholder(file) => StepView::RewritePlaceholder(file@),
            Step::Move { from, to } => StepView::Move { from: from@, to: to@ },
            Step::Report(report) => StepView::Report(report@),
        }
    }
}

impl StepView {
    /// Whether carrying out the step changes anything on disk.
    pub open spec fn mutates(self) -> bool {
        self is CreateDestination || self is RewritePlaceholder || self is Move
    }
}

/// The values of a list of entries.
pub open spec fn entries_view(entries: Seq<GlobEntry>) -> Seq<GlobEntryView> {
    entries.map_values(|e: GlobEntry| e@)
}

/// The values of a list of steps.
pub open spec fn steps_view(steps: Seq<Step>) -> Seq<StepView> {
    steps.map_values(|s: Step| s@)
}

/// Where an entry lands: directly under the destination, under its own name.
pub open spec fn landing_path(destination: Seq<char>, name: Seq<char>) -> Seq<char> {
    destination + "/"@ + name
}

/// Whether an entry can be given a landing path.
pub open spec fn placeable(entry: GlobEntryView) -> bool {
    entry matches GlobEntryView::Found(path) ==> base_name(path) is Some
}

/// The steps for one entry. In a preview it is shown. Otherwise its
/// placeholder is rewritten, if that was asked for, and it is moved. An entry
/// that could not be traversed is reported and left out.
pub open spec fn entry_steps(
    destination: Seq<char>,
    entry: GlobEntryView,
    preview: bool,
    rewrite: bool,
) -> Seq<StepView> {
    match entry {
        GlobEntryView::Unreadable(report) => seq![StepView::Report(report)],
        GlobEntryView::Found(path) => {
            if preview {
                seq![StepView::ShowTree(path)]
            } else {
                let landing = StepView::Move {
                    from: path,
                    to: landing_path(destination, base_name(path).unwrap()),
                };
                if rewrite {
                    seq![StepView::RewritePlaceholder(path), landing]
                } else {
                    seq![landing]
                }
            }
        },
    }
}

/// The steps for all entries, in the order in which they were matched.
pub open spec fn entries_steps(
    destination: Seq<char>,
    entries: Seq<GlobEntryView>,
    preview: bool,
    rewrite: bool,
) -> Seq<StepView>
    decreases entries.len(),
{
    if entries.len() == 0 {
        Seq::empty()
    } else {
        entries_steps(destination, entries.drop_last(), preview, rewrite) + entry_steps(
            destination,
            entries.last(),
            preview,
            rewrite,
        )
    }
}

/// What has to happen before the first entry is handled. A preview needs
/// nothing. Otherwise the destination is created unless it exists, and, if
/// the placeholder is to be rewritten, the branch is settled: the one that
/// was asked for, else the one looked up at the destination.
pub open spec fn opening_steps(
    destination: Seq<char>,
    destination_exists: bool,
    preview: bool,
    rewrite: bool,
    branch: Option<Seq<char>>,
) -> Seq<StepView> {
    if preview {
        Seq::empty()
    } else {
        let create = if destination_exists {
            Seq::empty()
        } else {
            seq![StepView::CreateDestination(destination)]
        };
        let settle = if rewrite {
            seq![
                match branch {
                    Some(name) => StepView::UseBranch(name),
                    None => StepView::LookUpBranch(destination),
                },
            ]
        } else {
            Seq::empty()
        };
        create + settle
    }
}

/// The whole plan: no entries is a failure, with nothing to do; otherwise the
/// opening steps, then the steps of each entry.
pub open spec fn move_plan(
    destination: Seq<char>,
    entries: Seq<GlobEntryView>,
    destination_exists: bool,
    preview: bool,
    rewrite: bool,
    branch: Option<Seq<char>>,
) -> Result<Seq<StepView>, ErrorView> {
    if entries.len() == 0 {
        Err(ErrorView::NoMatchingFiles)
    } else {
        Ok(
            opening_steps(destination, destination_exists, preview, rewrite, branch)
                + entries_steps(destination, entries, preview, rewrite),
        )
    }
}

/// Whether every entry that was found has a name to land under.
pub fn all_placeable(entries: &Vec<GlobEntry>) -> (r: bool)
    ensures
        r == forall|i: int| 0 <= i < entries.len() ==> placeable(#[trigger] entries[i]@),
{
    let mut i: usize = 0;
    while i < entries.len()
        invariant
            i <= entries.len(),
            forall|j: int| 0 <= j < i ==> placeable(#[trigger] entries[j]@),
        decreases entries.len() - i,
    {
        match &entries[i] {
            GlobEntry::Found(path) => {
                if file_name(path.as_str()).is_none() {
                    assert(!placeable(entries[i as int]@));
                    return false;
                }
            },
            GlobEntry::Unreadable(_) => {},
        }
        i += 1;
    }
    true
}

/// Plans how the matched entries reach the destination.
///
/// `entries` is what the filter matched, in order; `destination_exists` says
/// whether anything stands at the destination; `branch` is the branch the
/// repository was fetched at, if one was asked for.
pub fn move_to_destination(
    destination: &str,
    entries: &Vec<GlobEntry>,
    destination_exists: bool,
    preview: bool,
    update_default_branch: bool,
    branch: &Option<String>,
) -> (r: AppResult<Vec<Step>>)
    requires
        !preview ==> forall|i: int| 0 <= i < entries.len() ==> placeable(#[trigger] entries[i]@),
    ensures
        match r {
            Ok(steps) => move_plan(
                destination@,
                entries_view(entries@),
                destination_exists,
                preview,
                update_default_branch,
                branch.deep_view(),
            ) == Ok::<Seq<StepView>, ErrorView>(steps_view(steps@)),
            Err(e) => e@ == ErrorView::NoMatchingFiles && entries.len() == 0,
        },
        entries.len() == 0 ==> r is Err,
        preview ==> (r matches Ok(steps) ==> forall|i: int|
            0 <= i < steps.len() ==> !(#[trigger] steps[i]@).mutates()),
{
    if entries.len() == 0 {
        return Err(Error::NoMatchingFiles);
    }
    let ghost opening = opening_steps(
        destination@,
        destination_exists,
        preview,
        update_default_branch,
        branch.deep_view(),
    );
    let mut steps: Vec<Step> = Vec::new();
    if !preview {
        if !destination_exists {
            steps.push(Step::CreateDestination(destination.to_owned()));
        }
        if update_default_branch {
            match branch {
                Some(name) => steps.push(Step::UseBranch(name.clone())),
                None => steps.push(Step::LookUpBranch(destination.to_owned())),
            }
        }
    }
    let mut i: usize = 0;
    while i < entries.len()
        invariant
            i <= entries.len(),
            !preview ==> forall|j: int|
                0 <= j < entries.len() ==> placeable(#[trigger] entries[j]@),
            steps_view(steps@) == opening + entries_steps(
                destination@,
                entries_view(entries@).take(i as int),
                preview,
                update_default_branch,
            ),
            preview ==> forall|j: int| 0 <= j < steps.len() ==> !(#[trigger] steps[j]@).mutates(),
        decreases entries.len() - i,
    {
        let ghost before = steps_view(steps@);
        let ghost entry = entries[i as int]@;
        proof {
            let upto = entries_view(entries@).take(i + 1);
            assert(upto.drop_last() =~= entries_view(entries@).take(i as int));
        }
        match &entries[i] {
            GlobEntry::Unreadable(report) => {
                steps.push(Step::Report(report.clone()));
                assert(steps_view(steps@) =~= before + entry_steps(
                    destination@,
                    entry,
                    preview,
                    update_default_branch,
                ));
            },
            GlobEntry::Found(path) => {
                if preview {
                    steps.push(Step::ShowTree(path.clone()));
                    assert(steps_view(steps@) =~= before + entry_steps(
                        destination@,
                        entry,
                        preview,
                        update_default_branch,
                    ));
                } else {
                    let name = file_name(path.as_str()).unwrap();
                    if update_default_branch {
                        steps.push(Step::RewritePlaceholder(path.clone()));
                    }
                    steps.push(
                        Step::Move {
                            from: path.clone(),
                            to: join3(destination, "/", name.as_str()),
                        },
                    );
                    assert(steps_view(steps@) =~= before + entry_steps(
                        destination@,
                        entry,
                        preview,
                        update_default_branch,
                    ));
                }
            },
        }
        i += 1;
    }
    assert(entries_view(entries@).take(i as int) =~= entries_view(entries@));
    Ok(steps)
}

/// The move that brings an entry to the destination.
pub open spec fn landing_of(destination: Seq<char>, path: Seq<char>) -> StepView {
    StepView::Move { from: path, to: landing_path(destination, base_name(path).unwrap()) }
}

/// Outside a preview, the steps of a list of entries hold the move of every
/// entry that was found.
pub proof fn lemma_entries_steps_move_each(
    destination: Seq<char>,
    entries: Seq<GlobEntryView>,
    rewrite: bool,
    i: int,
)
    requires
        0 <= i < entries.len(),
        entries[i] is Found,
    ensures
        entries_steps(destination, entries, false, rewrite).contains(
            landing_of(destination, entries[i]->Found_0),
        ),
    decreases entries.len(),
{
    let all = entries_steps(destination, entries, false, rewrite);
    let head = entries_steps(destination, entries.drop_last(), false, rewrite);
    let last = entry_steps(destination, entries.last(), false, rewrite);
    let landing = landing_of(destination, entries[i]->Found_0);
    if i == entries.len() - 1 {
        let k = last.len() - 1;
        assert(all[head.len() + k] == landing);
    } else {
        lemma_entries_steps_move_each(destination, entries.drop_last(), rewrite, i);
        let k = choose|k: int| 0 <= k < head.len() && head[k] == landing;
        assert(all[k] == landing);
    }
}

/// Whenever something was matched and the run is no preview, the plan moves
/// every entry that was found from staging to the destination: the entry
/// itself, with all that lies below it, and under the name it had in staging.
pub proof fn lemma_every_entry_is_moved(
    destination: Seq<char>,
    entries: Seq<GlobEntryView>,
    destination_exists: bool,
    rewrite: bool,
    branch: Option<Seq<char>>,
    i: int,
)
    requires
        0 <= i < entries.len(),
        entries[i] is Found,
        placeable(entries[i]),
    ensures
        move_plan(destination, entries, destination_exists, false, rewrite, branch) is Ok,
        move_plan(destination, entries, destination_exists, false, rewrite, branch)->Ok_0.contains(
            landing_of(destination, entries[i]->Found_0),
        ),
        landing_of(destination, entries[i]->Found_0)->from == entries[i]->Found_0,
        base_name(landing_of(destination, entries[i]->Found_0)->to) == base_name(
            entries[i]->Found_0,
        ),
{
    let opening = opening_steps(destination, destination_exists, false, rewrite, branch);
    let rest = entries_steps(destination, entries, false, rewrite);
    let landing = landing_of(destination, entries[i]->Found_0);
    lemma_entries_steps_move_each(destination, entries, rewrite, i);
    let k = choose|k: int| 0 <= k < rest.len() && rest[k] == landing;
    assert((opening + rest)[opening.len() + k] == landing);
    reveal_strlit("/");
    assert("/"@ =~= seq!['/']);
    lemma_base_name_of_child(destination, entries[i]->Found_0);
}

/// Nothing in the plan of a preview changes anything on disk, and nothing at
/// all is planned when the filter matched nothing.
pub proof fn lemma_preview_and_empty_match_change_nothing(
    destination: Seq<char>,
    entries: Seq<GlobEntryView>,
    destination_exists: bool,
    preview: bool,
    rewrite: bool,
    branch: Option<Seq<char>>,
)
    ensures
        entries.len() == 0 ==> move_plan(
            destination,
            entries,
            destination_exists,
            preview,
            rewrite,
            branch,
        ) == Err::<Seq<StepView>, ErrorView>(ErrorView::NoMatchingFiles),
        preview && entries.len() > 0 ==> forall|k: int|
            0 <= k < move_plan(
                destination,
                entries,
                destination_exists,
                preview,
                rewrite,
                branch,
            )->Ok_0.len() ==> !(#[trigger] move_plan(
                destination,
                entries,
                destination_exists,
                preview,
                rewrite,
                branch,
            )->Ok_0[k]).mutates(),
{
    if preview && entries.len() > 0 {
        lemma_preview_steps_change_nothing(destination, entries, rewrite);
    }
}

/// In a preview every entry is shown or reported, nothing more.
proof fn lemma_preview_steps_change_nothing(
    destination: Seq<char>,
    entries: Seq<GlobEntryView>,
    rewrite: bool,
)
    ensures
        forall|k: int|
            0 <= k < entries_steps(destination, entries, true, rewrite).len() ==> !(
            #[trigger] entries_steps(destination, entries, true, rewrite)[k]).mutates(),
    decreases entries.len(),
{
    if entries.len() > 0 {
        lemma_preview_steps_change_nothing(destination, entries.drop_last(), rewrite);
        let all = entries_steps(destination, entries, true, rewrite);
        let head = entries_steps(destination, entries.drop_last(), true, rewrite);
        let last = entry_steps(destination, entries.last(), true, rewrite);
        assert forall|k: int| 0 <= k < all.len() implies !(#[trigger] all[k]).mutates() by {
            if k < head.len() {
                assert(all[k] == head[k]);
            } else {
                assert(all[k] == last[k - head.len()]);
            }
        }
    }
}

} // verus!
