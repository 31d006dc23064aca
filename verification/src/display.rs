//! The name under which a file is shown, and whether it is shown at all.

use vstd::prelude::*;
use vstd::std_specs::iter::IteratorSpec;
use vstd::string::StrSliceExecFns;

verus! {

broadcast use vstd::string::group_string_axioms;

/// The position behind the last character of `path` that is no separator,
/// or zero when there is none.
pub open spec fn name_end(path: Seq<char>) -> int
    decreases path.len(),
{
    if path.len() == 0 {
        0
    } else if path.last() != '/' {
        path.len() as int
    } else {
        name_end(path.drop_last())
    }
}

/// The position at which the component that ends at `end` begins: the
/// nearest position at or below `end` that is the start of the path or
/// stands right behind a separator.
pub open spec fn name_start(path: Seq<char>, end: int) -> int
    recommends
        0 <= end <= path.len(),
    decreases end,
{
    if end <= 0 {
        0
    } else if path[end - 1] == '/' {
        end
    } else {
        name_start(path, end - 1)
    }
}

/// The name under which a path is shown: its final component, without the
/// directories that lead to it and without separators that trail it. A path
/// that has no component at all (the empty path, or separators only) is
/// shown as it is.
pub open spec fn display_name(path: Seq<char>) -> Seq<char> {
    let end = name_end(path);
    if end == 0 {
        path
    } else {
        path.subrange(name_start(path, end), end)
    }
}

/// Whether a name marks a hidden file: it begins with a dot.
pub open spec fn is_hidden(name: Seq<char>) -> bool {
    name.len() > 0 && name[0] == '.'
}

/// Whether a file with this name is listed.
pub open spec fn visible(name: Seq<char>, show_all: bool) -> bool {
    show_all || !is_hidden(name)
}

/// Whether a text holds no separator.
pub open spec fn separator_free(name: Seq<char>) -> bool {
    forall|i: int| 0 <= i < name.len() ==> name[i] != '/'
}

/// The bounds of the shown name lie in the path, in order.
pub proof fn lemma_name_bounds(path: Seq<char>)
    ensures
        0 <= name_end(path) <= path.len(),
        0 <= name_start(path, name_end(path)) <= name_end(path),
        name_end(path) > 0 ==> name_start(path, name_end(path)) < name_end(path),
        name_end(path) > 0 ==> path[name_end(path) - 1] != '/',
        forall|k: int| name_end(path) <= k < path.len() ==> path[k] == '/',
    decreases path.len(),
{
    if path.len() > 0 && path.last() == '/' {
        let shorter = path.drop_last();
        lemma_name_bounds(shorter);
        assert forall|k: int| name_end(path) <= k < path.len() implies path[k] == '/' by {
            if k < shorter.len() {
                assert(path[k] == shorter[k]);
            }
        }
        if name_end(path) > 0 {
            assert(path[name_end(path) - 1] == shorter[name_end(shorter) - 1]);
        }
        lemma_name_start_of_prefix(shorter, path, name_end(path));
    }
    lemma_name_start_bounds(path, name_end(path));
}

/// The start of a component lies at or below its end, holds no separator
/// up to the end, and is the start of the path or stands behind a
/// separator.
pub proof fn lemma_name_start_bounds(path: Seq<char>, end: int)
    requires
        0 <= end <= path.len(),
    ensures
        0 <= name_start(path, end) <= end,
        end > 0 && path[end - 1] != '/' ==> name_start(path, end) < end,
        forall|k: int| name_start(path, end) <= k < end ==> path[k] != '/',
        name_start(path, end) == 0 || path[name_start(path, end) - 1] == '/',
    decreases end,
{
    if end > 0 && path[end - 1] != '/' {
        lemma_name_start_bounds(path, end - 1);
    }
}

/// Where a component begins depends only on the characters before its end.
pub proof fn lemma_name_start_of_prefix(a: Seq<char>, b: Seq<char>, end: int)
    requires
        0 <= end <= a.len(),
        end <= b.len(),
        forall|k: int| 0 <= k < end ==> a[k] == b[k],
    ensures
        name_start(a, end) == name_start(b, end),
    decreases end,
{
    if end > 0 && a[end - 1] != '/' {
        lemma_name_start_of_prefix(a, b, end - 1);
    }
}

/// The shown name of a path with a component holds no separator and is not
/// empty.
pub proof fn lemma_display_name_is_component(path: Seq<char>)
    requires
        name_end(path) > 0,
    ensures
        display_name(path).len() > 0,
        separator_free(display_name(path)),
{
    lemma_name_bounds(path);
    lemma_name_start_bounds(path, name_end(path));
}

/// A name that stands behind a separator, or alone, is shown as it is:
/// whatever leads up to it is stripped.
pub proof fn lemma_display_name_strips_prefix(prefix: Seq<char>, name: Seq<char>)
    requires
        prefix.len() == 0 || prefix.last() == '/',
        name.len() > 0,
        separator_free(name),
    ensures
        display_name(prefix + name) == name,
{
    let path = prefix + name;
    assert(path.last() == name.last());
    assert(name_end(path) == path.len());
    lemma_name_start_after_prefix(prefix, name, name.len() as int);
    assert(path.subrange(prefix.len() as int, path.len() as int) =~= name);
}

proof fn lemma_name_start_after_prefix(prefix: Seq<char>, name: Seq<char>, k: int)
    requires
        prefix.len() == 0 || prefix.last() == '/',
        separator_free(name),
        0 <= k <= name.len(),
    ensures
        name_start(prefix + name, prefix.len() + k) == prefix.len(),
    decreases k,
{
    let path = prefix + name;
    if k > 0 {
        assert(path[prefix.len() + k - 1] == name[k - 1]);
        lemma_name_start_after_prefix(prefix, name, k - 1);
    } else if prefix.len() > 0 {
        assert(path[prefix.len() - 1] == prefix.last());
    }
}

/// A child of a directory is shown by its bare name, whatever the
/// directory is called: listing `dir` shows `dir/name` as `name`.
pub proof fn lemma_child_shown_by_bare_name(dir: Seq<char>, name: Seq<char>)
    requires
        name.len() > 0,
        separator_free(name),
    ensures
        display_name(dir + seq!['/'] + name) == name,
        forall|show_all: bool|
            visible(display_name(dir + seq!['/'] + name), show_all) == (show_all || name[0] != '.'),
{
    lemma_display_name_strips_prefix(dir + seq!['/'], name);
}

/// The name under which `path` is shown.
pub fn normalize(path: &str) -> (name: String)
    ensures
        name@ == display_name(path@),
{
    let total = path.unicode_len();
    let mut chars = path.chars();
    let mut index: usize = 0;
    let mut start: usize = 0;
    let mut end: usize = 0;
    let mut in_name = false;
    proof {
        assert(path@.skip(0) =~= path@);
        assert(path@.take(0) =~= Seq::<char>::empty());
    }
    loop
        invariant
            total == path@.len(),
            index <= total,
            chars.remaining() == path@.skip(index as int),
            chars.obeys_prophetic_iter_laws(),
            end == name_end(path@.take(index as int)),
            start <= end <= index,
            end > 0 ==> start == name_start(path@, end as int),
            in_name == (index > 0 && path@[index - 1] != '/'),
            in_name ==> end == index,
        ensures
            index == total,
            end == name_end(path@),
            start <= end <= total,
            end > 0 ==> start == name_start(path@, end as int),
        decreases total - index,
    {
        let ghost before = chars;
        match chars.next() {
            None => {
                proof {
                    assert(path@.take(index as int) =~= path@);
                }
                break ;
            },
            Some(c) => {
                proof {
                    assert(before.remaining().len() > 0);
                    assert(c == path@[index as int]);
                    assert(path@.skip(index as int).drop_first() =~= path@.skip(index + 1));
                    assert(path@.take(index + 1).drop_last() =~= path@.take(index as int));
                    assert(path@.take(index + 1).last() == c);
                }
                if c == '/' {
                    in_name = false;
                } else {
                    proof {
                        assert(name_start(path@, index + 1) == name_start(path@, index as int));
                        if !in_name {
                            assert(name_start(path@, index as int) == index);
                        }
                    }
                    if !in_name {
                        start = index;
                    }
                    end = index + 1;
                    in_name = true;
                }
                index += 1;
            },
        }
    }
    if end == 0 {
        path.to_owned()
    } else {
        path.substring_char(start, end).to_owned()
    }
}

/// Whether `name` begins with a dot.
pub fn starts_with_dot(name: &str) -> (hidden: bool)
    ensures
        hidden == is_hidden(name@),
{
    let mut chars = name.chars();
    match chars.next() {
        Some(c) => c == '.',
        None => false,
    }
}

/// Whether a file shown as `name` is listed: always when everything is
/// asked for, else unless the name begins with a dot.
pub fn is_visible(name: &str, show_all: bool) -> (shown: bool)
    ensures
        shown == visible(name@, show_all),
{
    show_all || !starts_with_dot(name)
}

} // verus!
