//! Character-level helpers on strings, stated over their views.

use vstd::prelude::*;
use vstd::string::*;

verus! {

/// `part` stands in `whole` at character position `at`.
pub open spec fn occurs_at(whole: Seq<char>, part: Seq<char>, at: int) -> bool {
    &&& 0 <= at
    &&& at + part.len() <= whole.len()
    &&& whole.subrange(at, at + part.len()) == part
}

/// `whole` begins with `part`.
pub open spec fn has_prefix(whole: Seq<char>, part: Seq<char>) -> bool {
    occurs_at(whole, part, 0)
}

/// `whole` ends with `part`.
pub open spec fn has_suffix(whole: Seq<char>, part: Seq<char>) -> bool {
    occurs_at(whole, part, whole.len() - part.len())
}

/// The characters of each string of a run of strings.
pub open spec fn texts(strings: Seq<String>) -> Seq<Seq<char>> {
    strings.map_values(|string: String| string@)
}

/// Tests whether `part` stands in `whole` at character position `at`.
pub fn matches_at(whole: &str, part: &str, at: usize) -> (found: bool)
    ensures
        found == occurs_at(whole@, part@, at as int),
{
    let whole_len: usize = whole.unicode_len();
    let part_len: usize = part.unicode_len();
    if at > whole_len || part_len > whole_len - at {
        return false;
    }
    let mut i: usize = 0;
    while i < part_len
        invariant
            i <= part_len,
            part_len == part@.len(),
            whole_len == whole@.len(),
            at + part_len <= whole_len,
            forall|j: int| 0 <= j < i ==> whole@[at + j] == part@[j],
        decreases part_len - i,
    {
        if whole.get_char(at + i) != part.get_char(i) {
            assert(whole@.subrange(at as int, at + part_len)[i as int] == whole@[at + i]);
            return false;
        }
        i += 1;
    }
    assert(whole@.subrange(at as int, at + part_len) =~= part@);
    true
}

/// Tests whether `whole` begins with `part`.
pub fn starts_with(whole: &str, part: &str) -> (found: bool)
    ensures
        found == has_prefix(whole@, part@),
{
    matches_at(whole, part, 0)
}

/// Tests whether `whole` ends with `part`.
pub fn ends_with(whole: &str, part: &str) -> (found: bool)
    ensures
        found == has_suffix(whole@, part@),
{
    let whole_len: usize = whole.unicode_len();
    let part_len: usize = part.unicode_len();
    if part_len > whole_len {
        return false;
    }
    matches_at(whole, part, whole_len - part_len)
}

/// Tests whether two strings hold the same characters.
pub fn same_text(left: &str, right: &str) -> (same: bool)
    ensures
        same == (left@ == right@),
{
    let same = left.unicode_len() == right.unicode_len() && matches_at(left, right, 0);
    proof {
        if left@.len() == right@.len() {
            assert(left@.subrange(0, right@.len() as int) =~= left@);
        }
    }
    same
}

/// Tests whether a text is among the given ones.
pub fn is_among(given: &Vec<String>, wanted: &str) -> (found: bool)
    ensures
        found == texts(given@).contains(wanted@),
{
    let mut next: usize = 0;
    while next < given.len()
        invariant
            next <= given@.len(),
            forall|i: int| 0 <= i < next ==> given@[i]@ != wanted@,
        decreases given@.len() - next,
    {
        if same_text(given[next].as_str(), wanted) {
            assert(texts(given@)[next as int] == wanted@);
            return true;
        }
        next += 1;
    }
    assert(!texts(given@).contains(wanted@)) by {
        if texts(given@).contains(wanted@) {
            let i = texts(given@).index_of(wanted@);
            assert(given@[i]@ == wanted@);
        }
    }
    false
}

/// A character that parts the words of a line: a comma, a blank or a tab.
pub open spec fn is_separator(c: char) -> bool {
    c == ',' || c == ' ' || c == '\t'
}

/// The words of a line: its longest runs of characters that are no
/// separators, in their order.
pub open spec fn words(line: Seq<char>) -> Seq<Seq<char>>
    decreases line.len(),
{
    if line.len() == 0 {
        Seq::empty()
    } else if is_separator(line.last()) {
        words(line.drop_last())
    } else if line.len() >= 2 && !is_separator(line[line.len() - 2]) {
        let before = words(line.drop_last());
        before.drop_last().push(before.last().push(line.last()))
    } else {
        words(line.drop_last()).push(seq![line.last()])
    }
}

/// Parts a line into its words.
pub fn split_words(line: &str) -> (found: Vec<String>)
    ensures
        texts(found@) == words(line@),
{
    let len: usize = line.unicode_len();
    let mut found: Vec<String> = Vec::new();
    let mut start: usize = 0;
    let mut inside = false;
    let mut next: usize = 0;
    assert(texts(found@) =~= Seq::<Seq<char>>::empty());
    assert(line@.take(0) =~= Seq::<char>::empty());
    while next < len
        invariant
            next <= len,
            len == line@.len(),
            inside ==> start < next,
            inside <==> (next > 0 && !is_separator(line@[next - 1])),
            words(line@.take(next as int)) == (if inside {
                texts(found@).push(line@.subrange(start as int, next as int))
            } else {
                texts(found@)
            }),
        decreases len - next,
    {
        let c = line.get_char(next);
        proof {
            let taken = line@.take(next + 1);
            assert(taken.drop_last() =~= line@.take(next as int));
            assert(taken.last() == c);
            if next > 0 {
                assert(taken[taken.len() - 2] == line@[next - 1]);
            }
        }
        if c == ',' || c == ' ' || c == '\t' {
            if inside {
                let ghost before = texts(found@);
                found.push(line.substring_char(start, next).to_owned());
                assert(texts(found@) =~= before.push(line@.subrange(start as int, next as int)));
                inside = false;
            }
        } else {
            if inside {
                assert(line@.subrange(start as int, next + 1) =~= line@.subrange(
                    start as int,
                    next as int,
                ).push(c));
                assert(texts(found@).push(line@.subrange(start as int, next as int)).drop_last()
                    =~= texts(found@));
            } else {
                start = next;
                inside = true;
                assert(line@.subrange(start as int, next + 1) =~= seq![c]);
            }
        }
        next += 1;
    }
    assert(line@.take(len as int) =~= line@);
    if inside {
        let ghost before = texts(found@);
        found.push(line.substring_char(start, len).to_owned());
        assert(texts(found@) =~= before.push(line@.subrange(start as int, len as int)));
    }
    found
}

} // verus!
