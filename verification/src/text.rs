//! Text primitives shared by the whole library.
//!
//! A string is modelled by the sequence of its characters.

use vstd::prelude::*;

verus! {

/// `part` occurs in `s` at character position `at`.
pub open spec fn occurs_at(s: Seq<char>, part: Seq<char>, at: int) -> bool {
    0 <= at && at + part.len() <= s.len() && s.subrange(at, at + part.len() as int) == part
}

/// `part` occurs somewhere in `s`.
pub open spec fn contains_text(s: Seq<char>, part: Seq<char>) -> bool {
    exists|at: int| occurs_at(s, part, at)
}

/// The texts before and after the first occurrence of `separator` in `s`.
pub open spec fn cut(s: Seq<char>, separator: Seq<char>) -> Option<(Seq<char>, Seq<char>)>
    decreases s.len(),
{
    if occurs_at(s, separator, 0) {
        Some((Seq::empty(), s.skip(separator.len() as int)))
    } else if s.len() == 0 {
        None
    } else {
        match cut(s.drop_first(), separator) {
            Some((before, after)) => Some((seq![s[0]] + before, after)),
            None => None,
        }
    }
}

/// The Unicode `White_Space` property.
pub open spec fn white_space(c: char) -> bool {
    let n = c as int;
    ||| 0x09 <= n <= 0x0d
    ||| n == 0x20
    ||| n == 0x85
    ||| n == 0xa0
    ||| n == 0x1680
    ||| 0x2000 <= n <= 0x200a
    ||| n == 0x2028
    ||| n == 0x2029
    ||| n == 0x202f
    ||| n == 0x205f
    ||| n == 0x3000
}

/// `s` without the white space at its end.
pub open spec fn trimmed_end(s: Seq<char>) -> Seq<char>
    decreases s.len(),
{
    if s.len() > 0 && white_space(s.last()) {
        trimmed_end(s.drop_last())
    } else {
        s
    }
}

/// `s` without the white space at its start.
pub open spec fn trimmed_start(s: Seq<char>) -> Seq<char>
    decreases s.len(),
{
    if s.len() > 0 && white_space(s[0]) {
        trimmed_start(s.drop_first())
    } else {
        s
    }
}

/// `s` without the white space at either end.
pub open spec fn trimmed(s: Seq<char>) -> Seq<char> {
    trimmed_start(trimmed_end(s))
}

/// The decimal digit for `d`.
pub open spec fn digit(d: nat) -> char {
    (('0' as u32) + d) as char
}

/// The decimal numeral of `n`, without leading zeros.
pub open spec fn decimal(n: nat) -> Seq<char>
    decreases n,
{
    if n < 10 {
        seq![digit(n)]
    } else {
        decimal(n / 10).push(digit(n % 10))
    }
}

/// The decimal numeral of `n`, with a minus sign where it is negative.
pub open spec fn signed_decimal(n: int) -> Seq<char> {
    if n < 0 {
        seq!['-'] + decimal((-n) as nat)
    } else {
        decimal(n as nat)
    }
}

/// The characters of an optional string.
pub open spec fn opt_text(s: Option<String>) -> Option<Seq<char>> {
    match s {
        Some(s) => Some(s@),
        None => None,
    }
}

/// Calls `==` of `str`, which compares the two strings character by character.
#[verifier::external_body]
pub(crate) fn str_eq(a: &str, b: &str) -> (same: bool)
    ensures
        same == (a@ == b@),
{
    a == b
}

/// Calls `str::starts_with`, which tells whether `prefix` begins `s`.
#[verifier::external_body]
pub(crate) fn starts_with(s: &str, prefix: &str) -> (found: bool)
    ensures
        found == prefix@.is_prefix_of(s@),
{
    s.starts_with(prefix)
}

/// Calls `str::contains`, which tells whether `part` occurs in `s`.
#[verifier::external_body]
pub(crate) fn contains(s: &str, part: &str) -> (found: bool)
    ensures
        found == contains_text(s@, part@),
{
    s.contains(part)
}

/// Calls `str::split_once`, which cuts `s` at the first occurrence of
/// `separator` and drops that occurrence.
#[verifier::external_body]
pub(crate) fn split_once<'a>(s: &'a str, separator: &str) -> (parts: Option<(&'a str, &'a str)>)
    ensures
        cut(s@, separator@) == (match parts {
            Some((before, after)) => Some((before@, after@)),
            None => None,
        }),
{
    s.split_once(separator)
}

/// Calls `str::trim`, which drops the white space at both ends.
#[verifier::external_body]
pub(crate) fn trim(s: &str) -> (res: &str)
    ensures
        res@ == trimmed(s@),
{
    s.trim()
}

/// Calls `str::trim_end`, which drops the white space at the end.
#[verifier::external_body]
pub(crate) fn trim_end(s: &str) -> (res: &str)
    ensures
        res@ == trimmed_end(s@),
{
    s.trim_end()
}

/// The strings `a` and `b` in one.
pub(crate) fn concat(a: &str, b: &str) -> (res: String)
    ensures
        res@ == a@ + b@,
{
    let mut res: String = a.to_owned();
    res.append(b);
    res
}

/// The strings `a`, `b` and `c` in one.
pub(crate) fn concat3(a: &str, b: &str, c: &str) -> (res: String)
    ensures
        res@ == a@ + b@ + c@,
{
    let mut res: String = a.to_owned();
    res.append(b);
    res.append(c);
    res
}

/// The numeral for one decimal digit.
fn digit_str(d: u64) -> (res: &'static str)
    requires
        d < 10,
    ensures
        res@ == seq![digit(d as nat)],
{
    proof {
        reveal_strlit("0");
        reveal_strlit("1");
        reveal_strlit("2");
        reveal_strlit("3");
        reveal_strlit("4");
        reveal_strlit("5");
        reveal_strlit("6");
        reveal_strlit("7");
        reveal_strlit("8");
        reveal_strlit("9");
    }
    match d {
        0 => "0",
        1 => "1",
        2 => "2",
        3 => "3",
        4 => "4",
        5 => "5",
        6 => "6",
        7 => "7",
        8 => "8",
        _ => "9",
    }
}

/// The decimal numeral of `n`.
pub fn decimal_text(n: u64) -> (res: String)
    ensures
        res@ == decimal(n as nat),
    decreases n,
{
    if n < 10 {
        digit_str(n).to_owned()
    } else {
        let mut res: String = decimal_text(n / 10);
        res.append(digit_str(n % 10));
        res
    }
}

/// The decimal numeral of `n`, with a minus sign where it is negative.
pub fn signed_text(n: i64) -> (res: String)
    ensures
        res@ == signed_decimal(n as int),
{
    if n < 0 {
        proof {
            reveal_strlit("-");
        }
        let magnitude: u64 = (-(n as i128)) as u64;
        let res: String = concat("-", decimal_text(magnitude).as_str());
        assert("-"@ =~= seq!['-']);
        res
    } else {
        decimal_text(n as u64)
    }
}

/// A text is cut at the first place where its separator occurs.
pub proof fn lemma_cut(before: Seq<char>, separator: Seq<char>, after: Seq<char>)
    requires
        separator.len() > 0,
        forall|at: int|
            0 <= at < before.len() ==> !occurs_at(before + separator + after, separator, at),
    ensures
        cut(before + separator + after, separator) == Some((before, after)),
    decreases before.len(),
{
    let s = before + separator + after;
    if before.len() == 0 {
        assert(s.subrange(0, separator.len() as int) =~= separator);
        assert(s.skip(separator.len() as int) =~= after);
        assert(before =~= Seq::empty());
    } else {
        assert(!occurs_at(s, separator, 0));
        assert(s[0] == before[0]);
        let rest = before.drop_first();
        let tail = rest + separator + after;
        assert(s.drop_first() =~= tail);
        assert forall|at: int| 0 <= at < rest.len() implies !occurs_at(tail, separator, at) by {
            lemma_occurs_later(s, separator, at);
            assert(!occurs_at(s, separator, at + 1));
        }
        lemma_cut(rest, separator, after);
        assert(seq![s[0]] + rest =~= before);
    }
}

/// Where a part occurs behind the first character, it occurs in the whole.
proof fn lemma_occurs_later(s: Seq<char>, part: Seq<char>, at: int)
    requires
        s.len() > 0,
    ensures
        occurs_at(s.drop_first(), part, at) ==> occurs_at(s, part, at + 1),
{
    if occurs_at(s.drop_first(), part, at) {
        assert(s.subrange(at + 1, at + 1 + part.len() as int) =~= s.drop_first().subrange(
            at,
            at + part.len() as int,
        ));
    }
}

/// A text in which the separator does not occur is not cut.
pub proof fn lemma_no_cut(s: Seq<char>, separator: Seq<char>)
    requires
        !contains_text(s, separator),
    ensures
        cut(s, separator) is None,
    decreases s.len(),
{
    assert(!occurs_at(s, separator, 0));
    if s.len() > 0 {
        let rest = s.drop_first();
        if contains_text(rest, separator) {
            let at = choose|at: int| occurs_at(rest, separator, at);
            lemma_occurs_later(s, separator, at);
            assert(occurs_at(s, separator, at + 1));
        }
        lemma_no_cut(rest, separator);
    }
}

} // verus!
