//! Small string operations over the character view of `str` and `String`.
use vstd::prelude::*;
use vstd::string::*;

verus! {

/// `needle` occurs in `hay` as a contiguous run of characters.
pub open spec fn seq_contains(hay: Seq<char>, needle: Seq<char>) -> bool {
    exists|i: int|
        0 <= i && i + needle.len() <= hay.len() && #[trigger] hay.subrange(i, i + needle.len())
            == needle
}

/// Whether `needle` occurs in `hay`.
pub fn contains(hay: &str, needle: &str) -> (r: bool)
    ensures
        r == seq_contains(hay@, needle@),
{
    let n = hay.unicode_len();
    let k = needle.unicode_len();
    if k > n {
        return false;
    }
    let mut i: usize = 0;
    loop
        invariant
            k <= n,
            n == hay@.len(),
            k == needle@.len(),
            i <= n - k,
            forall|p: int| 0 <= p < i ==> #[trigger] hay@.subrange(p, p + k) != needle@,
        decreases n - k - i,
    {
        if same_at(hay, i, needle) {
            return true;
        }
        if i == n - k {
            return false;
        }
        i = i + 1;
    }
}

/// Whether `needle` occurs in `hay` at character position `at`.
fn same_at(hay: &str, at: usize, needle: &str) -> (r: bool)
    requires
        at + needle@.len() <= hay@.len(),
    ensures
        r == (hay@.subrange(at as int, at + needle@.len()) == needle@),
{
    let n = hay.unicode_len();
    let k = needle.unicode_len();
    let mut j: usize = 0;
    while j < k
        invariant
            n == hay@.len(),
            k == needle@.len(),
            at + k <= hay@.len(),
            j <= k,
            forall|q: int| 0 <= q < j ==> hay@[at + q] == needle@[q],
        decreases k - j,
    {
        if hay.get_char(at + j) != needle.get_char(j) {
            assert(hay@.subrange(at as int, at + k)[j as int] != needle@[j as int]);
            return false;
        }
        j = j + 1;
    }
    assert(hay@.subrange(at as int, at + k) =~= needle@);
    true
}

/// Whether two strings hold the same characters.
pub fn same_text(a: &str, b: &str) -> (r: bool)
    ensures
        r == (a@ == b@),
{
    let n = a.unicode_len();
    if n != b.unicode_len() {
        return false;
    }
    let mut i: usize = 0;
    while i < n
        invariant
            n == a@.len(),
            n == b@.len(),
            i <= n,
            forall|q: int| 0 <= q < i ==> a@[q] == b@[q],
        decreases n - i,
    {
        if a.get_char(i) != b.get_char(i) {
            return false;
        }
        i = i + 1;
    }
    assert(a@ =~= b@);
    true
}

/// The concatenation of three pieces.
pub fn join3(a: &str, b: &str, c: &str) -> (r: String)
    ensures
        r@ == a@ + b@ + c@,
{
    let mut s = String::from_str(a);
    s.append(b);
    s.append(c);
    s
}

/// What `str::to_lowercase` makes of a text.
pub uninterp spec fn lower_of(s: Seq<char>) -> Seq<char>;

/// The characters with Unicode's White_Space property, which
/// `char::is_whitespace` tests for.
pub open spec fn is_white_space(c: char) -> bool {
    let u = c as u32;
    ||| 0x09 <= u <= 0x0D
    ||| u == 0x20 || u == 0x85 || u == 0xA0 || u == 0x1680
    ||| 0x2000 <= u <= 0x200A
    ||| u == 0x2028 || u == 0x2029 || u == 0x202F || u == 0x205F || u == 0x3000
}

/// `s[a..b]` is `s` without its leading and trailing white space.
pub open spec fn is_trim(s: Seq<char>, a: int, b: int) -> bool {
    &&& 0 <= a <= b <= s.len()
    &&& forall|k: int| 0 <= k < a ==> is_white_space(#[trigger] s[k])
    &&& forall|k: int| b <= k < s.len() ==> is_white_space(#[trigger] s[k])
    &&& a < b ==> !is_white_space(s[a]) && !is_white_space(s[b - 1])
}

/// `t` is `s[a..b]`, and that is `s` without its leading and trailing white space.
pub open spec fn trims_to(s: Seq<char>, a: int, b: int, t: Seq<char>) -> bool {
    is_trim(s, a, b) && t == s.subrange(a, b)
}

/// `s` without its leading and trailing white space.
pub open spec fn trim(s: Seq<char>) -> Seq<char> {
    if exists|a: int, b: int| is_trim(s, a, b) {
        let (a, b) = choose|a: int, b: int| is_trim(s, a, b);
        s.subrange(a, b)
    } else {
        Seq::empty()
    }
}

proof fn lemma_trim_unique(s: Seq<char>, a: int, b: int, c: int, d: int)
    requires
        is_trim(s, a, b),
        is_trim(s, c, d),
    ensures
        s.subrange(a, b) == s.subrange(c, d),
{
    if a < b {
        assert(!is_white_space(s[a]) && !is_white_space(s[b - 1]));
        if c < d {
            if a < c { assert(is_white_space(s[a])); }
            if c < a { assert(!is_white_space(s[c])); }
            if b < d { assert(!is_white_space(s[d - 1])); }
            if d < b { assert(is_white_space(s[b - 1])); }
        } else {
            assert(is_white_space(s[a]));
        }
    } else if c < d {
        assert(is_white_space(s[c]));
    } else {
        assert(s.subrange(a, b) =~= s.subrange(c, d));
    }
}

/// Relies on `str::to_lowercase`: the Unicode lowercase mapping of each
/// character, which depends on the text alone.
#[verifier::external_body]
pub(crate) fn lowercase(s: &str) -> (r: String)
    ensures
        r@ == lower_of(s@),
{
    s.to_lowercase()
}

/// Relies on `str::trim`: the text without its leading and trailing
/// characters of the White_Space property.
#[verifier::external_body]
fn trimmed_slice(s: &str) -> (r: &str)
    ensures
        exists|a: int, b: int| #[trigger] trims_to(s@, a, b, r@),
{
    s.trim()
}

/// `s` without its leading and trailing white space.
pub fn trimmed(s: &str) -> (r: &str)
    ensures
        r@ == trim(s@),
{
    let r = trimmed_slice(s);
    proof {
        let (a, b) = choose|a: int, b: int| trims_to(s@, a, b, r@);
        let (c, d) = choose|c: int, d: int| is_trim(s@, c, d);
        lemma_trim_unique(s@, a, b, c, d);
    }
    r
}

} // verus!
