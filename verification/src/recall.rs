//! The plain keyword search of the first two exercises: a line matches when it contains the
//! keyword, case sensitively.

use vstd::prelude::*;
use crate::text::{contains_str, has_substring};

verus! {

/// Tests whether `keyword` occurs in `line`.
pub fn line_match(line: &str, keyword: &str) -> (r: bool)
    ensures
        r == has_substring(line@, keyword@),
{
    contains_str(line, keyword)
}

/// Tests whether `keyword` occurs in `line`.
pub fn match_line(line: &str, keyword: &str) -> (r: bool)
    ensures
        r == has_substring(line@, keyword@),
{
    contains_str(line, keyword)
}

pub open spec fn str_views(lines: Seq<&str>) -> Seq<Seq<char>> {
    lines.map_values(|l: &str| l@)
}

/// The lines in which `keyword` occurs, in their order.
pub open spec fn matching_lines_spec(lines: Seq<Seq<char>>, keyword: Seq<char>) -> Seq<Seq<char>> {
    lines.filter(|l: Seq<char>| has_substring(l, keyword))
}

/// The lines that contain `keyword`, in their order; how many matched is its length.
pub fn matching_lines<'a>(lines: &Vec<&'a str>, keyword: &str) -> (r: Vec<&'a str>)
    ensures
        str_views(r@) == matching_lines_spec(str_views(lines@), keyword@),
{
    let mut r: Vec<&'a str> = Vec::new();
    let n = lines.len();
    for i in 0..n
        invariant
            n == lines@.len(),
            str_views(r@) == matching_lines_spec(str_views(lines@.take(i as int)), keyword@),
    {
        let ghost before = r@;
        let ghost prefix = str_views(lines@.take(i as int));
        let ghost next = str_views(lines@.take(i + 1));
        assert(next.drop_last() =~= prefix);
        assert(next.last() == lines@[i as int]@);
        proof {
            reveal(Seq::filter);
        }
        if line_match(lines[i], keyword) {
            r.push(lines[i]);
            assert(str_views(r@) =~= str_views(before).push(lines@[i as int]@));
        }
    }
    assert(lines@.take(n as int) =~= lines@);
    r
}

/// Law: every line kept contains the keyword.
pub proof fn law_kept_lines_contain_keyword(lines: Seq<Seq<char>>, keyword: Seq<char>)
    ensures
        forall|i: int|
            0 <= i < matching_lines_spec(lines, keyword).len() ==> has_substring(
                #[trigger] matching_lines_spec(lines, keyword)[i],
                keyword,
            ),
{
    let pred = |l: Seq<char>| has_substring(l, keyword);
    assert forall|i: int| 0 <= i < lines.filter(pred).len() implies has_substring(
        #[trigger] lines.filter(pred)[i],
        keyword,
    ) by {
        lines.lemma_filter_pred(pred, i);
    }
}

/// Law: every line that contains the keyword is kept.
pub proof fn law_every_matching_line_is_kept(lines: Seq<Seq<char>>, keyword: Seq<char>)
    ensures
        forall|i: int|
            0 <= i < lines.len() && has_substring(#[trigger] lines[i], keyword)
                ==> matching_lines_spec(lines, keyword).contains(lines[i]),
{
    let pred = |l: Seq<char>| has_substring(l, keyword);
    assert forall|i: int| 0 <= i < lines.len() && has_substring(#[trigger] lines[i], keyword)
        implies lines.filter(pred).contains(lines[i]) by {
        lines.lemma_filter_contains(pred, i);
    }
}

/// Law: the lines kept from two parts of a file, one after the other, are those kept from the
/// whole file: the order of the lines is kept.
pub proof fn law_matching_lines_keep_order(a: Seq<Seq<char>>, b: Seq<Seq<char>>, keyword: Seq<char>)
    ensures
        matching_lines_spec(a + b, keyword) == matching_lines_spec(a, keyword) + matching_lines_spec(
            b,
            keyword,
        ),
{
    Seq::filter_distributes_over_add(a, b, |l: Seq<char>| has_substring(l, keyword));
}

/// Law: a single line is kept exactly when it contains the keyword.
pub proof fn law_single_line_kept_iff_match(line: Seq<char>, keyword: Seq<char>)
    ensures
        matching_lines_spec(seq![line], keyword) == if has_substring(line, keyword) {
            seq![line]
        } else {
            Seq::<Seq<char>>::empty()
        },
{
    reveal_with_fuel(Seq::filter, 2);
    let s = seq![line];
    assert(s.drop_last() =~= Seq::<Seq<char>>::empty());
    assert(s.last() == line);
    assert(Seq::<Seq<char>>::empty().push(line) =~= seq![line]);
}

} // verus!
