//! Paths as text: segments joined by `/`.

use vstd::prelude::*;
use vstd::string::*;
use crate::text::texts;

verus! {

/// `base` with one more segment under it. An empty base gives the segment
/// alone, and a base that ends in a separator gets no second one.
pub open spec fn joined(base: Seq<char>, segment: Seq<char>) -> Seq<char> {
    if base.len() == 0 {
        segment
    } else if base.last() == '/' {
        base + segment
    } else {
        base.push('/') + segment
    }
}

/// `base` with a run of segments under it, one below the other.
pub open spec fn joined_all(base: Seq<char>, segments: Seq<Seq<char>>) -> Seq<char>
    decreases segments.len(),
{
    if segments.len() == 0 {
        base
    } else {
        joined(joined_all(base, segments.drop_last()), segments.last())
    }
}

/// Puts one more segment under `base`.
pub fn join(base: &str, segment: &str) -> (path: String)
    ensures
        path@ == joined(base@, segment@),
{
    let len: usize = base.unicode_len();
    let mut path = base.to_owned();
    if len > 0 && base.get_char(len - 1) != '/' {
        proof {
            reveal_strlit("/");
        }
        assert("/"@ =~= seq!['/']);
        path.append("/");
        assert(path@ =~= base@.push('/'));
    }
    path.append(segment);
    assert(base@.len() == 0 ==> path@ =~= segment@);
    path
}

/// Puts the first `count` of a run of segments under `base`, one below the
/// other; a count beyond the run takes all of them.
pub fn join_first(base: &str, segments: &Vec<String>, count: usize) -> (path: String)
    ensures
        path@ == joined_all(
            base@,
            texts(segments@).take(if count <= segments@.len() { count as int } else {
                segments@.len() as int
            }),
        ),
{
    let count: usize = if count <= segments.len() { count } else { segments.len() };
    let mut path = base.to_owned();
    let mut next: usize = 0;
    assert(texts(segments@).take(0) =~= Seq::<Seq<char>>::empty());
    while next < count
        invariant
            next <= count <= segments@.len(),
            path@ == joined_all(base@, texts(segments@).take(next as int)),
        decreases count - next,
    {
        path = join(path.as_str(), segments[next].as_str());
        proof {
            let taken = texts(segments@).take(next + 1);
            assert(taken.drop_last() =~= texts(segments@).take(next as int));
            assert(taken.last() == segments@[next as int]@);
        }
        next += 1;
    }
    path
}

/// Puts a run of segments under `base`, one below the other.
pub fn join_all(base: &str, segments: &Vec<String>) -> (path: String)
    ensures
        path@ == joined_all(base@, texts(segments@)),
{
    assert(texts(segments@).take(segments@.len() as int) =~= texts(segments@));
    join_first(base, segments, segments.len())
}

} // verus!
