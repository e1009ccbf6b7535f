//! Paths as the pipeline sees them: text with `/` between components.

use vstd::prelude::*;
use crate::text::chars_of;
use crate::text::string_of_range;

verus! {

/// Whether a path ends in something that names nothing: a separator, or a
/// `.` that stands behind a separator.
pub open spec fn ends_idle(path: Seq<char>) -> bool {
    path.len() > 0 && (path.last() == '/' || (path.last() == '.' && path.len() >= 2
        && path[path.len() - 2] == '/'))
}

/// A path without the separators and `.` components at its end.
pub open spec fn trim_end(path: Seq<char>) -> Seq<char>
    decreases path.len(),
{
    if ends_idle(path) {
        trim_end(path.drop_last())
    } else {
        path
    }
}

/// What stands behind the last separator of a path: all of it if it has none,
/// nothing if it ends in one.
pub open spec fn last_segment(path: Seq<char>) -> Seq<char>
    decreases path.len(),
{
    if path.len() == 0 || path.last() == '/' {
        Seq::empty()
    } else {
        last_segment(path.drop_last()).push(path.last())
    }
}

/// The name an entry keeps when it is placed somewhere else: its last
/// component, where separators and `.` components at the end do not count.
/// A path that ends in `..`, that is `.` alone, or that holds no component at
/// all, has none.
pub open spec fn base_name(path: Seq<char>) -> Option<Seq<char>> {
    let name = last_segment(trim_end(path));
    if name.len() == 0 || name == seq!['.'] || name == seq!['.', '.'] {
        None
    } else {
        Some(name)
    }
}

/// A segment never holds a separator.
pub proof fn lemma_last_segment_has_no_separator(path: Seq<char>)
    ensures
        !last_segment(path).contains('/'),
        last_segment(path).len() <= path.len(),
    decreases path.len(),
{
    if path.len() > 0 && path.last() != '/' {
        lemma_last_segment_has_no_separator(path.drop_last());
    }
}

/// Behind a separator, a run of characters that holds none is the last
/// segment.
pub proof fn lemma_last_segment_after_separator(prefix: Seq<char>, name: Seq<char>)
    requires
        !name.contains('/'),
    ensures
        last_segment(prefix + seq!['/'] + name) == name,
    decreases name.len(),
{
    if name.len() > 0 {
        let whole = prefix + seq!['/'] + name;
        let init = name.drop_last();
        assert(whole.drop_last() =~= prefix + seq!['/'] + init);
        lemma_last_segment_after_separator(prefix, init);
    }
}

/// A path that is one directory, a separator and a name has that name as its
/// base name, whenever the name is the base name of some path.
pub proof fn lemma_base_name_of_child(directory: Seq<char>, path: Seq<char>)
    requires
        base_name(path) is Some,
    ensures
        base_name(directory + seq!['/'] + base_name(path).unwrap()) == base_name(path),
{
    let name = base_name(path).unwrap();
    lemma_last_segment_has_no_separator(trim_end(path));
    if name.len() < 2 {
        assert(name =~= seq![name[0]]);
    }
    lemma_last_segment_after_separator(directory, name);
}

/// An entry of the staging tree, or of any directory that is shown as a tree.
#[derive(Clone, Debug)]
pub struct PathItem(pub String);

impl PathItem {
    /// The name that labels this entry in a listing.
    pub fn file_name(&self) -> (r: Option<String>)
        ensures
            match r {
                Some(name) => base_name(self.0@) == Some(name@),
                None => base_name(self.0@) is None,
            },
    {
        file_name(self.0.as_str())
    }
}

/// Where the last segment of `chars[..end]` begins.
pub(crate) fn last_segment_start(chars: &Vec<char>, end: usize) -> (start: usize)
    requires
        end <= chars.len(),
    ensures
        start <= end,
        last_segment(chars@.take(end as int)) == chars@.subrange(start as int, end as int),
{
    let mut start: usize = end;
    while start > 0 && chars[start - 1] != '/'
        invariant
            start <= end <= chars.len(),
            last_segment(chars@.take(end as int)) == last_segment(chars@.take(start as int))
                + chars@.subrange(start as int, end as int),
        decreases start,
    {
        assert(chars@.take(start as int).drop_last() =~= chars@.take(start - 1));
        start -= 1;
    }
    start
}

/// Computes [`base_name`].
pub fn file_name(path: &str) -> (r: Option<String>)
    ensures
        match r {
            Some(name) => base_name(path@) == Some(name@),
            None => base_name(path@) is None,
        },
{
    let chars = chars_of(path);
    let mut end: usize = chars.len();
    assert(chars@.take(end as int) =~= chars@);
    while end > 0 && (chars[end - 1] == '/' || (chars[end - 1] == '.' && end >= 2 && chars[end
        - 2] == '/'))
        invariant
            end <= chars.len(),
            chars@ == path@,
            trim_end(path@) == trim_end(chars@.take(end as int)),
        decreases end,
    {
        assert(chars@.take(end as int).drop_last() =~= chars@.take(end - 1));
        end -= 1;
    }
    let start: usize = last_segment_start(&chars, end);
    let ghost name = chars@.subrange(start as int, end as int);
    assert(last_segment(trim_end(path@)) =~= name);
    let len: usize = end - start;
    if len == 0 {
        None
    } else if len == 1 && chars[start] == '.' {
        assert(name =~= seq!['.']);
        None
    } else if len == 2 && chars[start] == '.' && chars[start + 1] == '.' {
        assert(name =~= seq!['.', '.']);
        None
    } else {
        assert(name != seq!['.']) by {
            if name == seq!['.'] {
                assert(name[0] == '.');
            }
        }
        Some(string_of_range(&chars, start, end))
    }
}

} // verus!
