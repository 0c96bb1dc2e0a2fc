//! Reading structured pieces out of the completion oracle's free-text replies:
//! the text inside a tag, and the first run of digits.
use regex::Regex;
use vstd::prelude::*;
use vstd::string::*;

verus! {

/// Whether regex's Unicode-aware `\d` class (general category Nd) accepts `c`.
pub uninterp spec fn regex_digit(c: char) -> bool;

/// `s[a..b]` is the leftmost maximal run of digits in `s`.
pub open spec fn is_first_digit_run(s: Seq<char>, a: int, b: int) -> bool {
    &&& 0 <= a < b <= s.len()
    &&& forall|k: int| a <= k < b ==> regex_digit(#[trigger] s[k])
    &&& b == s.len() || !regex_digit(s[b])
    &&& forall|k: int| 0 <= k < a ==> !regex_digit(#[trigger] s[k])
}

pub open spec fn has_digit(s: Seq<char>) -> bool {
    exists|k: int| 0 <= k < s.len() && regex_digit(#[trigger] s[k])
}

/// The leftmost maximal run of digits of `s`, or the empty sequence when `s`
/// holds no digit.
pub open spec fn first_digit_run(s: Seq<char>) -> Seq<char> {
    if exists|a: int, b: int| is_first_digit_run(s, a, b) {
        let (a, b) = choose|a: int, b: int| is_first_digit_run(s, a, b);
        s.subrange(a, b)
    } else {
        Seq::empty()
    }
}

proof fn lemma_first_digit_run_unique(s: Seq<char>, a: int, b: int, c: int, d: int)
    requires
        is_first_digit_run(s, a, b),
        is_first_digit_run(s, c, d),
    ensures
        a == c && b == d,
{
    if a < c {
        assert(regex_digit(s[a]));
    }
    if c < a {
        assert(regex_digit(s[c]));
    }
    if b < d {
        assert(regex_digit(s[b]));
    }
    if d < b {
        assert(regex_digit(s[d]));
    }
}

/// Of the ASCII characters of `s`, regex's `\d` accepts exactly `0` to `9`.
pub open spec fn ascii_digits_known(s: Seq<char>) -> bool {
    forall|k: int|
        0 <= k < s.len() && (s[k] as u32) < 128 ==> (regex_digit(#[trigger] s[k]) <==> '0'
            <= s[k] <= '9')
}

/// Relies on `regex::Regex::find` with the pattern `\d+`: the leftmost match,
/// extended greedily, over Unicode decimal digits (of which the ASCII ones are
/// `0` to `9`).
#[verifier::external_body]
fn find_digit_run(input: &str) -> (r: Option<String>)
    ensures
        match r {
            Some(m) => ascii_digits_known(input@) && exists|a: int, b: int|
                is_first_digit_run(input@, a, b) && m@ == input@.subrange(a, b),
            None => ascii_digits_known(input@) && forall|k: int|
                0 <= k < input@.len() ==> !regex_digit(#[trigger] input@[k]),
        },
{
    let re = Regex::new(r"\d+").unwrap();
    re.find(input).map(|m| m.as_str().to_string())
}

/// The first maximal run of digits anywhere in `input`; empty when there is none.
pub fn extract_number(input: &str) -> (r: String)
    ensures
        r@ == first_digit_run(input@),
        r@.len() == 0 <==> !has_digit(input@),
        ascii_digits_known(input@),
{
    match find_digit_run(input) {
        Some(m) => {
            proof {
                let (a, b) = choose|a: int, b: int|
                    is_first_digit_run(input@, a, b) && m@ == input@.subrange(a, b);
                let (c, d) = choose|c: int, d: int| is_first_digit_run(input@, c, d);
                lemma_first_digit_run_unique(input@, a, b, c, d);
                assert(regex_digit(input@[a]));
            }
            m
        },
        None => {
            proof {
                if exists|a: int, b: int| is_first_digit_run(input@, a, b) {
                    let (a, b) = choose|a: int, b: int| is_first_digit_run(input@, a, b);
                    assert(regex_digit(input@[a]));
                }
            }
            String::new()
        },
    }
}

/// The simple case folding of `c`; regex's case-insensitive mode takes two
/// characters as equal when their foldings are.
pub uninterp spec fn case_fold(c: char) -> char;

/// A tag name that stands for itself in a pattern: ASCII letters, digits and
/// underscores, short enough for any pattern size limit.
pub open spec fn is_tag_name(tag: Seq<char>) -> bool {
    &&& tag.len() <= 64
    &&& forall|k: int|
        0 <= k < tag.len() ==> {
            let c = #[trigger] tag[k];
            ('a' <= c <= 'z') || ('A' <= c <= 'Z') || ('0' <= c <= '9') || c == '_'
        }
}

/// `<tag>` stands at `i`; `fs` and `ft` are the case foldings of `s` and of
/// the tag name.
pub open spec fn opens_at(s: Seq<char>, fs: Seq<char>, ft: Seq<char>, i: int) -> bool {
    let n = ft.len();
    &&& 0 <= i && i + n + 2 <= s.len()
    &&& s[i] == '<' && fs.subrange(i + 1, i + 1 + n) == ft && s[i + 1 + n] == '>'
}

/// `</tag>` stands at `j`.
pub open spec fn closes_at(s: Seq<char>, fs: Seq<char>, ft: Seq<char>, j: int) -> bool {
    let n = ft.len();
    &&& 0 <= j && j + n + 3 <= s.len()
    &&& s[j] == '<' && s[j + 1] == '/' && fs.subrange(j + 2, j + 2 + n) == ft
    &&& s[j + 2 + n] == '>'
}

/// `<tag>` opens at `i` and `</tag>` closes at `j`.
pub open spec fn tag_span(s: Seq<char>, fs: Seq<char>, ft: Seq<char>, i: int, j: int) -> bool {
    &&& opens_at(s, fs, ft, i)
    &&& i + ft.len() + 2 <= j
    &&& closes_at(s, fs, ft, j)
}

/// The span that a leftmost, non-greedy search finds: the earliest opening
/// tag, closed by the nearest closing tag after it.
pub open spec fn first_tag_span(s: Seq<char>, fs: Seq<char>, ft: Seq<char>, i: int, j: int) -> bool {
    &&& tag_span(s, fs, ft, i, j)
    &&& forall|p: int, q: int| #[trigger] tag_span(s, fs, ft, p, q) ==> i < p || (i == p && j <= q)
}

pub open spec fn folded(s: Seq<char>) -> Seq<char> {
    s.map_values(|c: char| case_fold(c))
}

/// What stands between the first `<tag>` and the nearest `</tag>` after it,
/// the tag name compared without regard to case; empty when there is no such pair.
pub open spec fn tag_content(s: Seq<char>, tag: Seq<char>) -> Seq<char> {
    let (fs, ft) = (folded(s), folded(tag));
    if exists|i: int, j: int| first_tag_span(s, fs, ft, i, j) {
        let (i, j) = choose|i: int, j: int| first_tag_span(s, fs, ft, i, j);
        s.subrange(i + tag.len() + 2, j)
    } else {
        Seq::empty()
    }
}

/// `c` and `d` are the capital and small forms of one ASCII letter, in either order.
pub open spec fn ascii_case_pair(c: char, d: char) -> bool {
    ||| 'A' <= c <= 'Z' && (d as u32) == (c as u32) + 32
    ||| 'a' <= c <= 'z' && (c as u32) == (d as u32) + 32
}

/// Each ASCII letter of `s` folds alike with its other case.
pub open spec fn ascii_folds_known(s: Seq<char>) -> bool {
    forall|k: int, d: char|
        0 <= k < s.len() && #[trigger] ascii_case_pair(s[k], d) ==> case_fold(s[k])
            == #[trigger] case_fold(d)
}

/// Relies on `regex::Regex::captures` with the pattern `(?is)<tag>(.*?)</tag>`:
/// the leftmost match, its group as short as possible, `.` taking any
/// character (line feeds too), and letters compared by simple case folding,
/// under which each ASCII capital folds with its small letter.
#[verifier::external_body]
fn capture_tag(input: &str, tag: &str) -> (r: Option<String>)
    requires
        is_tag_name(tag@),
    ensures
        ({
            let fs = input@.map_values(|x: char| case_fold(x));
            let ft = tag@.map_values(|x: char| case_fold(x));
            match r {
                Some(c) => ascii_folds_known(input@) && ascii_folds_known(tag@) && exists|
                    i: int,
                    j: int,
                |
                    #[trigger] first_tag_span(input@, fs, ft, i, j) && c@ == input@.subrange(
                        i + tag@.len() + 2,
                        j,
                    ),
                None => ascii_folds_known(input@) && ascii_folds_known(tag@) && forall|
                    i: int,
                    j: int,
                | !#[trigger] tag_span(input@, fs, ft, i, j),
            }
        }),
{
    let re = Regex::new(&format!(r"(?is)<{}>(.*?)</{}>", tag, tag)).unwrap();
    re.captures(input).and_then(|caps| caps.get(1)).map(|m| m.as_str().to_string())
}

/// The inner text of the first `<tag>...</tag>` pair in `input`, found without
/// regard to case and closed by the nearest closing tag; empty when absent.
pub fn extract_tag(input: &str, tag: &str) -> (r: String)
    requires
        is_tag_name(tag@),
    ensures
        r@ == tag_content(input@, tag@),
        ascii_folds_known(input@),
        ascii_folds_known(tag@),
{
    let ghost (fs, ft) = (folded(input@), folded(tag@));
    match capture_tag(input, tag) {
        Some(c) => {
            proof {
                assert(fs == input@.map_values(|x: char| case_fold(x)));
                assert(ft == tag@.map_values(|x: char| case_fold(x)));
                let (i, j) = choose|i: int, j: int|
                    first_tag_span(input@, fs, ft, i, j) && c@ == input@.subrange(
                        i + tag@.len() + 2,
                        j,
                    );
                let (p, q) = choose|p: int, q: int| first_tag_span(input@, fs, ft, p, q);
                assert(tag_span(input@, fs, ft, p, q));
                assert(tag_span(input@, fs, ft, i, j));
            }
            c
        },
        None => {
            proof {
                assert(fs == input@.map_values(|x: char| case_fold(x)));
                assert(ft == tag@.map_values(|x: char| case_fold(x)));
                if exists|i: int, j: int| first_tag_span(input@, fs, ft, i, j) {
                    let (i, j) = choose|i: int, j: int| first_tag_span(input@, fs, ft, i, j);
                    assert(tag_span(input@, fs, ft, i, j));
                }
            }
            String::new()
        },
    }
}

/// The tag name is matched without regard to case: names with the same case
/// folding find the same content.
pub proof fn lemma_tag_name_case_insensitive(s: Seq<char>, tag: Seq<char>, other: Seq<char>)
    requires
        folded(tag) == folded(other),
    ensures
        tag_content(s, tag) == tag_content(s, other),
{
    assert(tag.len() == folded(tag).len() && other.len() == folded(other).len());
}

/// The content found is the shortest: no closing tag stands inside it.
pub proof fn lemma_tag_content_is_shortest(s: Seq<char>, tag: Seq<char>, i: int, j: int)
    requires
        first_tag_span(s, folded(s), folded(tag), i, j),
    ensures
        tag_content(s, tag) == s.subrange(i + tag.len() + 2, j),
        forall|k: int|
            i + tag.len() + 2 <= k < j ==> !closes_at(s, folded(s), folded(tag), k),
{
    let (fs, ft) = (folded(s), folded(tag));
    let (p, q) = choose|p: int, q: int| first_tag_span(s, fs, ft, p, q);
    assert(tag_span(s, fs, ft, p, q));
    assert(tag_span(s, fs, ft, i, j));
    assert forall|k: int| i + tag.len() + 2 <= k < j implies !closes_at(s, fs, ft, k) by {
        if closes_at(s, fs, ft, k) {
            assert(tag_span(s, fs, ft, i, k));
        }
    };
}


/// `t` is `s` with any of its ASCII letters put in the other case.
pub open spec fn recased(s: Seq<char>, t: Seq<char>) -> bool {
    &&& s.len() == t.len()
    &&& forall|k: int| 0 <= k < s.len() ==> s[k] == t[k] || ascii_case_pair(s[k], #[trigger] t[k])
}

proof fn lemma_recased_folds_alike(s: Seq<char>, t: Seq<char>)
    requires
        ascii_folds_known(s),
        recased(s, t),
    ensures
        folded(t) == folded(s),
{
    assert forall|k: int| 0 <= k < s.len() implies case_fold(t[k]) == case_fold(s[k]) by {
        if s[k] != t[k] {
            assert(ascii_case_pair(s[k], t[k]));
        }
    };
    assert(folded(t) =~= folded(s));
}

proof fn lemma_recased_spans_alike(s: Seq<char>, t: Seq<char>, fs: Seq<char>, ft: Seq<char>, i: int, j: int)
    requires
        recased(s, t),
    ensures
        tag_span(s, fs, ft, i, j) == tag_span(t, fs, ft, i, j),
{
    let n = ft.len();
    if 0 <= i && i + n + 2 <= j && j + n + 3 <= s.len() {
        assert(s[i] == t[i] || ascii_case_pair(s[i], t[i]));
        assert(s[i + 1 + n] == t[i + 1 + n] || ascii_case_pair(s[i + 1 + n], t[i + 1 + n]));
        assert(s[j] == t[j] || ascii_case_pair(s[j], t[j]));
        assert(s[j + 1] == t[j + 1] || ascii_case_pair(s[j + 1], t[j + 1]));
        assert(s[j + 2 + n] == t[j + 2 + n] || ascii_case_pair(s[j + 2 + n], t[j + 2 + n]));
    }
}

/// The tag markers in the text are matched without regard to case too:
/// re-casing the ASCII letters of the text anywhere but inside the content
/// that is found (the markers' letters included), and those of the tag name,
/// finds the same span and the same content. The first two premises are what
/// [`extract_tag`] ensures of its arguments.
pub proof fn lemma_tag_markers_case_insensitive(
    s: Seq<char>,
    s2: Seq<char>,
    tag: Seq<char>,
    tag2: Seq<char>,
)
    requires
        ascii_folds_known(s),
        ascii_folds_known(tag),
        recased(s, s2),
        recased(tag, tag2),
        forall|i: int, j: int|
            #[trigger] first_tag_span(s, folded(s), folded(tag), i, j) ==> s2.subrange(
                i + tag.len() + 2,
                j,
            ) == s.subrange(i + tag.len() + 2, j),
    ensures
        forall|i: int, j: int|
            first_tag_span(s, folded(s), folded(tag), i, j) == #[trigger] first_tag_span(
                s2,
                folded(s2),
                folded(tag2),
                i,
                j,
            ),
        tag_content(s2, tag2) == tag_content(s, tag),
{
    lemma_recased_folds_alike(s, s2);
    lemma_recased_folds_alike(tag, tag2);
    let (fs, ft) = (folded(s), folded(tag));
    assert forall|i: int, j: int| tag_span(s, fs, ft, i, j) == #[trigger] tag_span(s2, fs, ft, i, j) by {
        lemma_recased_spans_alike(s, s2, fs, ft, i, j);
    };
    assert forall|i: int, j: int|
        first_tag_span(s, fs, ft, i, j) == #[trigger] first_tag_span(s2, fs, ft, i, j) by {
        if first_tag_span(s, fs, ft, i, j) {
            assert forall|p: int, q: int| #[trigger] tag_span(s2, fs, ft, p, q) implies i < p || (i == p
                && j <= q) by {
                assert(tag_span(s, fs, ft, p, q));
            };
        }
        if first_tag_span(s2, fs, ft, i, j) {
            assert forall|p: int, q: int| #[trigger] tag_span(s, fs, ft, p, q) implies i < p || (i == p
                && j <= q) by {
                assert(tag_span(s2, fs, ft, p, q));
            };
        }
    };
    if exists|i: int, j: int| first_tag_span(s, fs, ft, i, j) {
        let (i, j) = choose|i: int, j: int| first_tag_span(s, fs, ft, i, j);
        let (p, q) = choose|p: int, q: int| first_tag_span(s2, fs, ft, p, q);
        assert(first_tag_span(s2, fs, ft, i, j));
        assert(first_tag_span(s, fs, ft, p, q));
        assert(tag_span(s, fs, ft, p, q) && tag_span(s, fs, ft, i, j));
        assert(p == i && q == j);
        assert(first_tag_span(s, folded(s), folded(tag), i, j));
    }
}

} // verus!
