//! Character-level helpers over `str`, with their meaning stated on `Seq<char>`.

use vstd::prelude::*;
use vstd::utf8::is_ascii_chars;

verus! {

broadcast use vstd::string::group_string_axioms;

/// `needle` occurs in `hay` as a contiguous run of characters starting at `i`.
pub open spec fn occurs_at(hay: Seq<char>, needle: Seq<char>, i: int) -> bool {
    &&& 0 <= i
    &&& i + needle.len() <= hay.len()
    &&& hay.subrange(i, i + needle.len()) == needle
}

/// `needle` is a substring of `hay` (the empty needle is a substring of everything).
pub open spec fn has_substring(hay: Seq<char>, needle: Seq<char>) -> bool {
    exists|i: int| occurs_at(hay, needle, i)
}

/// The White_Space property of Unicode, which `char::is_whitespace` tests.
pub open spec fn is_white_space(c: char) -> bool {
    ||| ('\u{9}' <= c && c <= '\u{d}')
    ||| c == ' '
    ||| c == '\u{85}'
    ||| c == '\u{a0}'
    ||| c == '\u{1680}'
    ||| ('\u{2000}' <= c && c <= '\u{200a}')
    ||| c == '\u{2028}'
    ||| c == '\u{2029}'
    ||| c == '\u{202f}'
    ||| c == '\u{205f}'
    ||| c == '\u{3000}'
}

/// `s` without its leading white space.
pub open spec fn trim_start(s: Seq<char>) -> Seq<char>
    decreases s.len(),
{
    if s.len() > 0 && is_white_space(s[0]) {
        trim_start(s.drop_first())
    } else {
        s
    }
}

/// `s` without its trailing white space.
pub open spec fn trim_end(s: Seq<char>) -> Seq<char>
    decreases s.len(),
{
    if s.len() > 0 && is_white_space(s.last()) {
        trim_end(s.drop_last())
    } else {
        s
    }
}

/// `s` without leading and trailing white space, as `str::trim` gives it.
pub open spec fn trim(s: Seq<char>) -> Seq<char> {
    trim_end(trim_start(s))
}

/// What `str::to_lowercase` gives for a string: Unicode's lower-case mapping, applied to the
/// whole string (the mapping of a capital sigma depends on its neighbours).
pub uninterp spec fn str_to_lowercase(s: Seq<char>) -> Seq<char>;

/// `c` lower-cased when it is an ASCII capital letter, else `c` itself.
pub open spec fn ascii_lower_char(c: char) -> char {
    if 'A' <= c && c <= 'Z' {
        ((c as int) + 32) as char
    } else {
        c
    }
}

/// Every ASCII capital letter of `s` lower-cased, every other character kept.
pub open spec fn ascii_lowercase(s: Seq<char>) -> Seq<char> {
    s.map_values(|c: char| ascii_lower_char(c))
}

/// Calls `str::to_lowercase`. Its result is named `str_to_lowercase` of the input's
/// characters; on ASCII text, where Unicode's lower-case mapping turns `A`..`Z` into `a`..`z`
/// and keeps every other character, the result is stated in full.
#[verifier::external_body]
pub(crate) fn lowercase(s: &str) -> (r: String)
    ensures
        r@ == str_to_lowercase(s@),
        is_ascii_chars(s@) ==> r@ == ascii_lowercase(s@),
{
    s.to_lowercase()
}

/// Collects the characters of `s` into a vector.
pub fn chars_of(s: &str) -> (v: Vec<char>)
    ensures
        v@ == s@,
{
    let mut v: Vec<char> = Vec::new();
    for c in it: s.chars()
        invariant
            it.seq() == s@,
            v@ == it.seq().take(it.index() as int),
    {
        v.push(c);
    }
    v
}

/// Tests whether `c` has the Unicode White_Space property.
pub fn char_is_white_space(c: char) -> (r: bool)
    ensures
        r == is_white_space(c),
{
    ('\u{9}' <= c && c <= '\u{d}') || c == ' ' || c == '\u{85}' || c == '\u{a0}' || c
        == '\u{1680}' || ('\u{2000}' <= c && c <= '\u{200a}') || c == '\u{2028}' || c
        == '\u{2029}' || c == '\u{202f}' || c == '\u{205f}' || c == '\u{3000}'
}

/// Compares two character sequences.
pub fn chars_equal(a: &Vec<char>, b: &Vec<char>) -> (r: bool)
    ensures
        r == (a@ == b@),
{
    if a.len() != b.len() {
        return false;
    }
    let n = a.len();
    for i in 0..n
        invariant
            n == a@.len(),
            n == b@.len(),
            forall|j: int| 0 <= j < i ==> a@[j] == b@[j],
    {
        if a[i] != b[i] {
            return false;
        }
    }
    assert(a@ =~= b@);
    true
}

/// Compares two strings by their characters.
pub fn str_eq(a: &str, b: &str) -> (r: bool)
    ensures
        r == (a@ == b@),
{
    let va = chars_of(a);
    let vb = chars_of(b);
    chars_equal(&va, &vb)
}

/// Tests whether `needle` occurs at position `i` of `hay`.
fn occurs_at_exec(hay: &Vec<char>, needle: &Vec<char>, i: usize) -> (r: bool)
    requires
        i + needle@.len() <= hay@.len(),
    ensures
        r == occurs_at(hay@, needle@, i as int),
{
    let m = needle.len();
    let n = hay.len();
    for k in 0..m
        invariant
            m == needle@.len(),
            n == hay@.len(),
            i + m <= n,
            forall|j: int| 0 <= j < k ==> hay@[i + j] == needle@[j],
    {
        if hay[i + k] != needle[k] {
            assert(hay@.subrange(i as int, i + m)[k as int] != needle@[k as int]);
            return false;
        }
    }
    assert(hay@.subrange(i as int, i + m) =~= needle@);
    true
}

/// Tests whether `needle` is a substring of `hay`, on character vectors.
pub fn chars_contain(hay: &Vec<char>, needle: &Vec<char>) -> (r: bool)
    ensures
        r == has_substring(hay@, needle@),
{
    let n = hay.len();
    let m = needle.len();
    if m > n {
        return false;
    }
    let last = n - m;
    let mut i: usize = 0;
    loop
        invariant
            n == hay@.len(),
            m == needle@.len(),
            last == n - m,
            i <= last,
            forall|j: int| 0 <= j < i ==> !occurs_at(hay@, needle@, j),
        decreases last - i,
    {
        if occurs_at_exec(hay, needle, i) {
            return true;
        }
        if i == last {
            return false;
        }
        i = i + 1;
    }
}

/// Tests whether `needle` is a substring of `hay`, as `str::contains` does for a `&str` pattern.
pub fn contains_str(hay: &str, needle: &str) -> (r: bool)
    ensures
        r == has_substring(hay@, needle@),
{
    let h = chars_of(hay);
    let n = chars_of(needle);
    chars_contain(&h, &n)
}

/// Position of the first character of `s` that is not white space (`s.len()` if none).
fn skip_white_space(s: &Vec<char>) -> (start: usize)
    ensures
        start <= s@.len(),
        trim_start(s@) == s@.subrange(start as int, s@.len() as int),
{
    let n = s.len();
    let mut i: usize = 0;
    assert(s@.subrange(0, n as int) =~= s@);
    while i < n && char_is_white_space(s[i])
        invariant
            n == s@.len(),
            i <= n,
            trim_start(s@) == trim_start(s@.subrange(i as int, n as int)),
        decreases n - i,
    {
        assert(s@.subrange(i as int, n as int).drop_first() =~= s@.subrange(i + 1, n as int));
        i = i + 1;
    }
    i
}

/// Removes leading and trailing white space from `s`, as `str::trim` does.
pub fn trim_str(s: &str) -> (r: &str)
    ensures
        r@ == trim(s@),
{
    let v = chars_of(s);
    let n = v.len();
    let start = skip_white_space(&v);
    let mut end: usize = n;
    while end > start && char_is_white_space(v[end - 1])
        invariant
            n == v@.len(),
            start <= end <= n,
            trim(s@) == trim_end(v@.subrange(start as int, end as int)),
        decreases end,
    {
        assert(v@.subrange(start as int, end as int).drop_last() =~= v@.subrange(
            start as int,
            end - 1,
        ));
        end = end - 1;
    }
    s.substring_char(start, end)
}

/// Every character of `s` is white space.
pub open spec fn all_white_space(s: Seq<char>) -> bool {
    forall|i: int| 0 <= i < s.len() ==> is_white_space(#[trigger] s[i])
}

proof fn lemma_trim_start_white_space(s: Seq<char>)
    requires
        all_white_space(s),
    ensures
        trim_start(s).len() == 0,
    decreases s.len(),
{
    if s.len() > 0 {
        assert(is_white_space(s[0]));
        assert(all_white_space(s.drop_first())) by {
            assert forall|i: int| 0 <= i < s.drop_first().len() implies is_white_space(
                #[trigger] s.drop_first()[i],
            ) by {
                assert(s.drop_first()[i] == s[i + 1]);
            }
        }
        lemma_trim_start_white_space(s.drop_first());
    }
}

proof fn lemma_trim_start_concat(x: Seq<char>, y: Seq<char>)
    ensures
        trim_start(x + y) == if trim_start(x).len() > 0 {
            trim_start(x) + y
        } else {
            trim_start(y)
        },
    decreases x.len(),
{
    if x.len() == 0 {
        assert(x + y =~= y);
    } else {
        assert((x + y)[0] == x[0]);
        if is_white_space(x[0]) {
            assert((x + y).drop_first() =~= x.drop_first() + y);
            lemma_trim_start_concat(x.drop_first(), y);
        }
    }
}

proof fn lemma_trim_end_white_space_suffix(x: Seq<char>, post: Seq<char>)
    requires
        all_white_space(post),
    ensures
        trim_end(x + post) == trim_end(x),
    decreases post.len(),
{
    if post.len() == 0 {
        assert(x + post =~= x);
    } else {
        assert((x + post).last() == post.last());
        assert(is_white_space(post[post.len() - 1]));
        assert((x + post).drop_last() =~= x + post.drop_last());
        assert(all_white_space(post.drop_last())) by {
            assert forall|i: int| 0 <= i < post.drop_last().len() implies is_white_space(
                #[trigger] post.drop_last()[i],
            ) by {
                assert(post.drop_last()[i] == post[i]);
            }
        }
        lemma_trim_end_white_space_suffix(x, post.drop_last());
    }
}

/// White space added before and after a string is trimmed away with the string's own.
pub proof fn lemma_trim_surrounded(pre: Seq<char>, s: Seq<char>, post: Seq<char>)
    requires
        all_white_space(pre),
        all_white_space(post),
    ensures
        trim(pre + s + post) == trim(s),
{
    assert(pre + s + post =~= pre + (s + post));
    lemma_trim_start_white_space(pre);
    lemma_trim_start_concat(pre, s + post);
    lemma_trim_start_concat(s, post);
    if trim_start(s).len() > 0 {
        lemma_trim_end_white_space_suffix(trim_start(s), post);
    } else {
        lemma_trim_start_white_space(post);
        assert(trim_start(post) =~= trim_start(s));
    }
}

/// Lower-casing the ASCII letters of a text and of a substring of it keeps it a substring.
pub proof fn lemma_ascii_lowercase_keeps_substring(hay: Seq<char>, needle: Seq<char>)
    requires
        has_substring(hay, needle),
    ensures
        has_substring(ascii_lowercase(hay), ascii_lowercase(needle)),
{
    let i = choose|i: int| occurs_at(hay, needle, i);
    let lh = ascii_lowercase(hay);
    let ln = ascii_lowercase(needle);
    assert forall|k: int| 0 <= k < ln.len() implies lh.subrange(i, i + ln.len())[k] == ln[k] by {
        assert(hay.subrange(i, i + needle.len())[k] == needle[k]);
        assert(hay[i + k] == needle[k]);
    }
    assert(lh.subrange(i, i + ln.len()) =~= ln);
    assert(occurs_at(lh, ln, i));
}

/// Law: a run of characters taken out of a text is a substring of it.
pub proof fn law_substring_found_at(hay: Seq<char>, i: int, j: int)
    requires
        0 <= i <= j <= hay.len(),
    ensures
        has_substring(hay, hay.subrange(i, j)),
{
    assert(occurs_at(hay, hay.subrange(i, j), i));
}

/// Law: a text is a substring of anything it is written into, and the empty text is a
/// substring of everything.
pub proof fn law_substring_of_join(a: Seq<char>, needle: Seq<char>, b: Seq<char>)
    ensures
        has_substring(a + needle + b, needle),
        has_substring(a, Seq::<char>::empty()),
{
    let h = a + needle + b;
    assert(h.subrange(a.len() as int, (a.len() + needle.len()) as int) =~= needle);
    assert(occurs_at(h, needle, a.len() as int));
    assert(a.subrange(0, 0) =~= Seq::<char>::empty());
    assert(occurs_at(a, Seq::<char>::empty(), 0));
}

/// Law: a substring is no longer than the text, and each of its characters occurs in the text.
pub proof fn law_substring_within(hay: Seq<char>, needle: Seq<char>)
    requires
        has_substring(hay, needle),
    ensures
        needle.len() <= hay.len(),
        forall|k: int| 0 <= k < needle.len() ==> hay.contains(#[trigger] needle[k]),
{
    let i = choose|i: int| occurs_at(hay, needle, i);
    assert forall|k: int| 0 <= k < needle.len() implies hay.contains(#[trigger] needle[k]) by {
        assert(hay.subrange(i, i + needle.len())[k] == needle[k]);
        assert(hay[i + k] == needle[k]);
    }
}

/// Law: a text of white space alone trims to nothing.
pub proof fn law_trim_white_space_only(s: Seq<char>)
    requires
        all_white_space(s),
    ensures
        trim(s) == Seq::<char>::empty(),
{
    lemma_trim_start_white_space(s);
    assert(trim_start(s) =~= Seq::<char>::empty());
}

/// Law: a text that neither starts nor ends with white space is its own trim.
pub proof fn law_trim_keeps_bare_text(s: Seq<char>)
    requires
        s.len() > 0,
        !is_white_space(s[0]),
        !is_white_space(s.last()),
    ensures
        trim(s) == s,
{
}

} // verus!
