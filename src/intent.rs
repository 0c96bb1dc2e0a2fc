//! The five purposes a user message can have, and how the oracle's reply to
//! the classification prompt is read: the first number in it names the intent.
use crate::extract::{extract_number, first_digit_run, is_first_digit_run};
use vstd::prelude::*;
use vstd::string::*;

verus! {

/// The classified purpose of a user message.
#[derive(Clone, Copy, Debug, PartialEq, Eq, Structural)]
pub enum Intent {
    Question,
    Fact,
    ForgetRequest,
    CommandRequest,
    Other,
}

pub open spec fn is_ascii_digit(c: char) -> bool {
    '0' <= c <= '9'
}

pub open spec fn digit_value(c: char) -> int {
    (c as u32) - ('0' as u32)
}

/// The value of a numeral written in ASCII decimal digits, most significant first.
pub open spec fn decimal_value(s: Seq<char>) -> int
    decreases s.len(),
{
    if s.len() == 0 {
        0
    } else {
        decimal_value(s.drop_last()) * 10 + digit_value(s.last())
    }
}

/// The number that `s` spells as an `i32`: a non-empty run of ASCII digits
/// whose value fits; `None` otherwise.
pub open spec fn numeral(s: Seq<char>) -> Option<int> {
    if s.len() > 0 && (forall|k: int| 0 <= k < s.len() ==> is_ascii_digit(#[trigger] s[k]))
        && decimal_value(s) <= i32::MAX {
        Some(decimal_value(s))
    } else {
        None
    }
}

/// The category numbers of the classification prompt; anything else is `Other`.
pub open spec fn intent_of(n: Option<int>) -> Intent {
    if n == Some(1int) {
        Intent::Question
    } else if n == Some(2int) {
        Intent::Fact
    } else if n == Some(3int) {
        Intent::ForgetRequest
    } else if n == Some(4int) {
        Intent::CommandRequest
    } else {
        Intent::Other
    }
}

/// The intent that a classification reply names.
pub open spec fn classified(reply: Seq<char>) -> Intent {
    intent_of(numeral(first_digit_run(reply)))
}

proof fn lemma_decimal_value_grows(s: Seq<char>, t: Seq<char>)
    requires
        s.len() <= t.len(),
        s == t.subrange(0, s.len() as int),
        forall|k: int| 0 <= k < t.len() ==> is_ascii_digit(#[trigger] t[k]),
    ensures
        0 <= decimal_value(s) <= decimal_value(t),
    decreases t.len(),
{
    if t.len() == 0 {
    } else if s.len() == t.len() {
        assert(s =~= t);
        assert(t.drop_last() =~= t.drop_last().subrange(0, t.len() - 1));
        lemma_decimal_value_grows(t.drop_last(), t.drop_last());
    } else {
        assert(s =~= t.drop_last().subrange(0, s.len() as int));
        lemma_decimal_value_grows(s, t.drop_last());
    }
}

/// Reads `digits` as a decimal `i32`; `None` when it is empty, holds anything
/// but ASCII digits, or does not fit.
pub fn parse_numeral(digits: &str) -> (r: Option<i32>)
    ensures
        match r {
            Some(v) => numeral(digits@) == Some(v as int),
            None => numeral(digits@) is None,
        },
{
    let n = digits.unicode_len();
    if n == 0 {
        return None;
    }
    let mut acc: i32 = 0;
    let mut i: usize = 0;
    while i < n
        invariant
            n == digits@.len(),
            i <= n,
            0 <= acc,
            acc as int == decimal_value(digits@.subrange(0, i as int)),
            forall|k: int| 0 <= k < i ==> is_ascii_digit(#[trigger] digits@[k]),
        decreases n - i,
    {
        let c = digits.get_char(i);
        if c < '0' || c > '9' {
            return None;
        }
        let d = (c as u32 - '0' as u32) as i32;
        proof {
            let s = digits@.subrange(0, i as int + 1);
            assert(s.drop_last() =~= digits@.subrange(0, i as int));
            assert(s.last() == c);
        }
        if acc > (i32::MAX - d) / 10 {
            proof {
                let s = digits@.subrange(0, i as int + 1);
                let a = acc as int;
                let e = d as int;
                assert(a * 10 + e > i32::MAX) by (nonlinear_arith)
                    requires
                        a > (i32::MAX - e) / 10,
                        0 <= e <= 9,
                ;
                if forall|k: int| 0 <= k < n ==> is_ascii_digit(#[trigger] digits@[k]) {
                    lemma_decimal_value_grows(s, digits@);
                }
            }
            return None;
        }
        proof {
            let a = acc as int;
            let e = d as int;
            assert(a * 10 + e <= i32::MAX) by (nonlinear_arith)
                requires
                    0 <= a <= (i32::MAX - e) / 10,
                    0 <= e <= 9,
            ;
        }
        acc = acc * 10 + d;
        i = i + 1;
    }
    assert(digits@.subrange(0, n as int) =~= digits@);
    Some(acc)
}

/// The intent for the number a classification reply starts its first digit run with.
pub fn intent_for_number(digits: &str) -> (r: Intent)
    ensures
        r == intent_of(numeral(digits@)),
{
    match parse_numeral(digits) {
        Some(1) => Intent::Question,
        Some(2) => Intent::Fact,
        Some(3) => Intent::ForgetRequest,
        Some(4) => Intent::CommandRequest,
        _ => Intent::Other,
    }
}

/// Reads the oracle's reply to the classification prompt: the first number in
/// it names the intent, and anything unreadable is `Other`.
pub fn classify(reply: &str) -> (r: Intent)
    ensures
        r == classified(reply@),
{
    let digits = extract_number(reply);
    intent_for_number(digits.as_str())
}

/// A reply in which none of the characters `1` to `4` occurs is classified as
/// `Other`, whatever else it holds.
pub proof fn lemma_reply_without_category_digit(reply: Seq<char>)
    requires
        forall|k: int| 0 <= k < reply.len() ==> !('1' <= #[trigger] reply[k] <= '4'),
    ensures
        classified(reply) == Intent::Other,
{
    let r = first_digit_run(reply);
    if let Some(v) = numeral(r) {
        if 1 <= v <= 4 {
            let (a, b) = choose|a: int, b: int| is_first_digit_run(reply, a, b);
            assert(r == reply.subrange(a, b));
            assert(r.last() == reply[b - 1]);
            let p = r.drop_last();
            assert(Seq::<char>::empty() =~= p.subrange(0, 0));
            lemma_decimal_value_grows(Seq::<char>::empty(), p);
            assert(decimal_value(r) == decimal_value(p) * 10 + digit_value(r.last()));
            assert(is_ascii_digit(r[r.len() - 1]));
            assert('1' <= reply[b - 1] <= '4');
        }
    }
}

} // verus!
