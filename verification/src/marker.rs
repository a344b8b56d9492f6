//! File-name conventions of a template tree: the marker extension that makes
//! a file a template, and the reserved name of the manifest.

use vstd::prelude::*;
use vstd::string::*;
use crate::text::{ends_with, has_prefix, has_suffix, matches_at, occurs_at, starts_with};

verus! {

/// The marker extension, `.tera`.
pub open spec fn marker() -> Seq<char> {
    seq!['.', 't', 'e', 'r', 'a']
}

/// The marker followed by the dot of a further extension, `.tera.`.
pub open spec fn inner_marker() -> Seq<char> {
    seq!['.', 't', 'e', 'r', 'a', '.']
}

/// The prefix that reserves a file name for the manifest, `stamp.`.
pub open spec fn manifest_prefix() -> Seq<char> {
    seq!['s', 't', 'a', 'm', 'p', '.']
}

/// The name ends with the marker and has something in front of it.
pub open spec fn ends_with_marker(name: Seq<char>) -> bool {
    name.len() > marker().len() && has_suffix(name, marker())
}

/// The marker stands at `at` as an inner extension: after at least one
/// character, and followed by the dot of another extension.
pub open spec fn inner_marker_at(name: Seq<char>, at: int) -> bool {
    1 <= at && occurs_at(name, inner_marker(), at)
}

/// The marker stands somewhere in the name as an inner extension.
pub open spec fn has_inner_marker(name: Seq<char>) -> bool {
    exists|at: int| inner_marker_at(name, at)
}

/// `at` is the leftmost place where the marker stands as an inner extension.
pub open spec fn first_inner_marker_at(name: Seq<char>, at: int) -> bool {
    &&& inner_marker_at(name, at)
    &&& forall|before: int| before < at ==> !inner_marker_at(name, before)
}

/// A file with this name is rendered rather than copied.
pub open spec fn is_template_name(name: Seq<char>) -> bool {
    ends_with_marker(name) || has_inner_marker(name)
}

/// The name with the five characters of the marker at `at` taken out.
pub open spec fn cut_marker(name: Seq<char>, at: int) -> Seq<char> {
    name.subrange(0, at) + name.subrange(at + marker().len(), name.len() as int)
}

/// The name that a rendered file is written under: a trailing marker is
/// dropped; failing that the leftmost inner marker; a name without a marker
/// stays as it is.
pub open spec fn without_marker(name: Seq<char>) -> Seq<char> {
    if ends_with_marker(name) {
        cut_marker(name, name.len() - marker().len())
    } else if has_inner_marker(name) {
        cut_marker(name, choose|at: int| first_inner_marker_at(name, at))
    } else {
        name
    }
}

/// A file with this name is the manifest and takes no part in instantiation.
pub open spec fn is_manifest_name(name: Seq<char>) -> bool {
    has_prefix(name, manifest_prefix())
}

/// The name of the manifest at the root of a template.
pub fn manifest_file_name() -> (name: &'static str)
    ensures
        name@ == "stamp.yaml"@,
        is_manifest_name(name@),
{
    proof {
        reveal_strlit("stamp.yaml");
    }
    assert("stamp.yaml"@.subrange(0, 6) =~= manifest_prefix());
    "stamp.yaml"
}

/// Tests whether the name ends with the marker extension.
pub fn has_trailing_marker(name: &str) -> (found: bool)
    ensures
        found == ends_with_marker(name@),
{
    proof {
        reveal_strlit(".tera");
    }
    assert(".tera"@ =~= marker());
    name.unicode_len() > 5 && ends_with(name, ".tera")
}

/// Finds the leftmost place where the marker stands as an inner extension.
pub fn find_inner_marker(name: &str) -> (place: Option<usize>)
    ensures
        match place {
            Some(at) => first_inner_marker_at(name@, at as int),
            None => !has_inner_marker(name@),
        },
{
    proof {
        reveal_strlit(".tera.");
    }
    assert(".tera."@ =~= inner_marker());
    let len: usize = name.unicode_len();
    if len < 7 {
        return None;
    }
    let last: usize = len - 6;
    let mut at: usize = 1;
    while at <= last
        invariant
            1 <= at <= last + 1,
            last + 6 == len,
            len == name@.len(),
            ".tera."@ == inner_marker(),
            forall|before: int| before < at ==> !inner_marker_at(name@, before),
        decreases last + 1 - at,
    {
        if matches_at(name, ".tera.", at) {
            return Some(at);
        }
        at += 1;
    }
    None
}

/// Tests whether a file with this name is rendered rather than copied.
pub fn is_template(name: &str) -> (found: bool)
    ensures
        found == is_template_name(name@),
{
    has_trailing_marker(name) || find_inner_marker(name).is_some()
}

/// Takes the marker out of a name, once.
pub fn strip_marker(name: &str) -> (stripped: String)
    ensures
        stripped@ == without_marker(name@),
{
    let len: usize = name.unicode_len();
    if has_trailing_marker(name) {
        let kept = name.substring_char(0, len - 5);
        assert(name@.subrange(len as int, len as int) =~= Seq::<char>::empty());
        assert(kept@ =~= cut_marker(name@, len - 5));
        return kept.to_owned();
    }
    match find_inner_marker(name) {
        Some(at) => {
            proof {
                let chosen = choose|c: int| first_inner_marker_at(name@, c);
                assert(first_inner_marker_at(name@, at as int));
                assert(chosen == at);
            }
            let mut stripped = name.substring_char(0, at).to_owned();
            stripped.append(name.substring_char(at + 5, len));
            stripped
        },
        None => name.to_owned(),
    }
}

/// Tests whether a file with this name is the manifest.
pub fn is_manifest(name: &str) -> (found: bool)
    ensures
        found == is_manifest_name(name@),
{
    proof {
        reveal_strlit("stamp.");
    }
    assert("stamp."@ =~= manifest_prefix());
    starts_with(name, "stamp.")
}

/// Stripping takes the marker out of a marked name exactly once: the result
/// is five characters shorter, and putting the marker back at one place
/// gives the name again.
pub proof fn marker_removed_once(name: Seq<char>)
    requires
        is_template_name(name),
    ensures
        without_marker(name).len() + marker().len() == name.len(),
        exists|at: int|
            0 <= at <= without_marker(name).len() && #[trigger] without_marker(name).subrange(0, at)
                + marker() + without_marker(name).subrange(at, without_marker(name).len() as int)
                == name,
{
    let at = if ends_with_marker(name) {
        name.len() - marker().len()
    } else {
        let first = choose|at: int| inner_marker_at(name, at);
        least_inner_marker(name, first);
        choose|at: int| first_inner_marker_at(name, at)
    };
    let rest = without_marker(name);
    assert(rest == cut_marker(name, at));
    assert(occurs_at(name, marker(), at)) by {
        if !ends_with_marker(name) {
            assert(name.subrange(at, at + 6).subrange(0, 5) =~= name.subrange(at, at + 5));
            assert(inner_marker().subrange(0, 5) =~= marker());
        }
    }
    assert(rest.subrange(0, at) + marker() + rest.subrange(at, rest.len() as int) =~= name) by {
        assert(name.subrange(at, at + 5) == marker());
        assert forall|i: int| at <= i < at + 5 implies name[i] == marker()[i - at] by {
            assert(name.subrange(at, at + 5)[i - at] == name[i]);
        }
    }
}

/// Where the marker stands as an inner extension at all, it does so at a
/// leftmost place.
proof fn least_inner_marker(name: Seq<char>, at: int)
    requires
        inner_marker_at(name, at),
    ensures
        exists|first: int| first_inner_marker_at(name, first),
    decreases at,
{
    if exists|before: int| before < at && inner_marker_at(name, before) {
        let before = choose|before: int| before < at && inner_marker_at(name, before);
        least_inner_marker(name, before);
    } else {
        assert(first_inner_marker_at(name, at));
    }
}

} // verus!
