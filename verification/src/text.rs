//! Verified text helpers shared by the command parser, the webhook formatter
//! and the mailbox poller: whitespace trimming, prefix stripping, substring
//! search and decimal parsing, each proved against a direct mathematical
//! definition on `Seq<char>`.

use vstd::prelude::*;
use vstd::string::StrSliceExecFns;

verus! {

/// The whitespace characters the relay trims around addresses and arguments.
pub open spec fn is_space_char(c: char) -> bool {
    c == ' ' || c == '\t' || c == '\r' || c == '\n'
}

/// `s` without its leading whitespace.
pub open spec fn trim_front_spec(s: Seq<char>) -> Seq<char>
    decreases s.len(),
{
    if s.len() == 0 {
        s
    } else if is_space_char(s[0]) {
        trim_front_spec(s.drop_first())
    } else {
        s
    }
}

/// `s` without its trailing whitespace.
pub open spec fn trim_back_spec(s: Seq<char>) -> Seq<char>
    decreases s.len(),
{
    if s.len() == 0 {
        s
    } else if is_space_char(s.last()) {
        trim_back_spec(s.drop_last())
    } else {
        s
    }
}

/// `s` without leading and trailing whitespace.
pub open spec fn trim_spec(s: Seq<char>) -> Seq<char> {
    trim_back_spec(trim_front_spec(s))
}

/// `s` with every repetition of the leading prefix `p` removed.
pub open spec fn strip_repeated_prefix_spec(s: Seq<char>, p: Seq<char>) -> Seq<char>
    decreases s.len(),
{
    if p.len() == 0 {
        s
    } else if s.len() >= p.len() && s.subrange(0, p.len() as int) == p {
        strip_repeated_prefix_spec(s.skip(p.len() as int), p)
    } else {
        s
    }
}

/// Whether `needle` occurs contiguously inside `hay`.
pub open spec fn contains_sub(hay: Seq<char>, needle: Seq<char>) -> bool {
    exists|i: int|
        0 <= i <= hay.len() - needle.len() && #[trigger] hay.subrange(i, i + needle.len() as int)
            == needle
}

pub open spec fn is_dec_digit(c: char) -> bool {
    '0' <= c && c <= '9'
}

pub open spec fn dec_digit_val(c: char) -> int {
    c as int - '0' as int
}

/// The value of a decimal digit string, most significant digit first.
pub open spec fn dec_val(s: Seq<char>) -> int
    decreases s.len(),
{
    if s.len() == 0 {
        0
    } else {
        dec_val(s.drop_last()) * 10 + dec_digit_val(s.last())
    }
}

pub open spec fn all_dec_digits(s: Seq<char>) -> bool {
    s.len() > 0 && forall|i: int| 0 <= i < s.len() ==> is_dec_digit(#[trigger] s[i])
}

/// What a decimal port field parses to: a value only for a non-empty,
/// all-digit string whose value fits in sixteen bits.
pub open spec fn parse_u16_spec(s: Seq<char>) -> Option<u16> {
    if all_dec_digits(s) && 0 <= dec_val(s) <= u16::MAX {
        Some(dec_val(s) as u16)
    } else {
        None
    }
}

pub fn is_space(c: char) -> (r: bool)
    ensures
        r == is_space_char(c),
{
    c == ' ' || c == '\t' || c == '\r' || c == '\n'
}

/// Removes leading whitespace.
pub fn trim_front(s: &str) -> (r: String)
    ensures
        r@ == trim_front_spec(s@),
    decreases s@.len(),
{
    let n = s.unicode_len();
    if n == 0 {
        proof {
            assert(s@ =~= Seq::<char>::empty());
        }
        String::new()
    } else {
        let c = s.get_char(0);
        if is_space(c) {
            let rest = s.substring_char(1, n);
            proof {
                assert(rest@ =~= s@.drop_first());
            }
            trim_front(rest)
        } else {
            s.to_owned()
        }
    }
}

/// Removes trailing whitespace.
pub fn trim_back(s: &str) -> (r: String)
    ensures
        r@ == trim_back_spec(s@),
    decreases s@.len(),
{
    let n = s.unicode_len();
    if n == 0 {
        proof {
            assert(s@ =~= Seq::<char>::empty());
        }
        String::new()
    } else {
        let c = s.get_char(n - 1);
        if is_space(c) {
            let rest = s.substring_char(0, n - 1);
            proof {
                assert(rest@ =~= s@.drop_last());
            }
            trim_back(rest)
        } else {
            s.to_owned()
        }
    }
}

/// Removes leading and trailing whitespace, as the poller does around a
/// sender address and the console command parser around an argument.
pub fn trim_str(s: &str) -> (r: String)
    ensures
        r@ == trim_spec(s@),
{
    let front = trim_front(s);
    trim_back(front.as_str())
}

/// Character-wise string equality.
pub fn str_eq(a: &str, b: &str) -> (r: bool)
    ensures
        r == (a@ == b@),
{
    let na = a.unicode_len();
    let nb = b.unicode_len();
    if na != nb {
        return false;
    }
    let mut i: usize = 0;
    while i < na
        invariant
            na == a@.len(),
            na == b@.len(),
            0 <= i <= na,
            forall|k: int| 0 <= k < i ==> a@[k] == b@[k],
        decreases na - i,
    {
        if a.get_char(i) != b.get_char(i) {
            return false;
        }
        i += 1;
    }
    proof {
        assert(a@ =~= b@);
    }
    true
}

/// Whether `s` starts with `p`.
pub fn starts_with_str(s: &str, p: &str) -> (r: bool)
    ensures
        r == (s@.len() >= p@.len() && s@.subrange(0, p@.len() as int) == p@),
{
    let ns = s.unicode_len();
    let np = p.unicode_len();
    if ns < np {
        return false;
    }
    let mut i: usize = 0;
    while i < np
        invariant
            ns == s@.len(),
            np == p@.len(),
            np <= ns,
            0 <= i <= np,
            forall|k: int| 0 <= k < i ==> s@[k] == p@[k],
        decreases np - i,
    {
        if s.get_char(i) != p.get_char(i) {
            proof {
                assert(s@.subrange(0, np as int)[i as int] != p@[i as int]);
            }
            return false;
        }
        i += 1;
    }
    proof {
        assert(s@.subrange(0, np as int) =~= p@);
    }
    true
}

/// Whether `needle` occurs inside `hay`, as the body extractor asks of a
/// content type and the console parser of an argument.
pub fn str_contains(hay: &str, needle: &str) -> (r: bool)
    ensures
        r == contains_sub(hay@, needle@),
{
    let nh = hay.unicode_len();
    let nn = needle.unicode_len();
    if nn > nh {
        proof {
            assert(!contains_sub(hay@, needle@));
        }
        return false;
    }
    if nn == 0 {
        proof {
            assert(hay@.subrange(0, 0 + needle@.len() as int) =~= needle@);
            assert(contains_sub(hay@, needle@));
        }
        return true;
    }
    let mut i: usize = 0;
    while i <= nh - nn
        invariant
            nh == hay@.len(),
            nn == needle@.len(),
            1 <= nn <= nh,
            0 <= i <= nh - nn + 1,
            forall|k: int|
                0 <= k < i ==> #[trigger] hay@.subrange(k, k + nn as int) != needle@,
        decreases nh - nn + 1 - i,
    {
        let mut j: usize = 0;
        let mut matched = true;
        while j < nn
            invariant
                nh == hay@.len(),
                nn == needle@.len(),
                1 <= nn <= nh,
                0 <= i <= nh - nn,
                0 <= j <= nn,
                matched ==> forall|k: int| 0 <= k < j ==> hay@[i + k] == needle@[k],
                !matched ==> hay@.subrange(i as int, i + nn as int) != needle@,
            decreases nn - j,
        {
            if hay.get_char(i + j) != needle.get_char(j) {
                matched = false;
                proof {
                    assert(hay@.subrange(i as int, i + nn as int)[j as int] != needle@[j as int]);
                }
                j = nn;
            } else {
                j += 1;
            }
        }
        if matched {
            proof {
                assert(hay@.subrange(i as int, i + nn as int) =~= needle@);
            }
            return true;
        }
        i += 1;
    }
    false
}

/// Index of the first occurrence of `c` in `s`.
pub fn find_char(s: &str, c: char) -> (r: Option<usize>)
    ensures
        match r {
            Some(i) => i < s@.len() && s@[i as int] == c && forall|k: int|
                0 <= k < i ==> s@[k] != c,
            None => forall|k: int| 0 <= k < s@.len() ==> s@[k] != c,
        },
{
    let n = s.unicode_len();
    let mut i: usize = 0;
    while i < n
        invariant
            n == s@.len(),
            0 <= i <= n,
            forall|k: int| 0 <= k < i ==> s@[k] != c,
        decreases n - i,
    {
        if s.get_char(i) == c {
            return Some(i);
        }
        i += 1;
    }
    None
}

/// Index of the last occurrence of `c` in `s`.
pub fn rfind_char(s: &str, c: char) -> (r: Option<usize>)
    ensures
        match r {
            Some(i) => i < s@.len() && s@[i as int] == c && forall|k: int|
                i < k < s@.len() ==> s@[k] != c,
            None => forall|k: int| 0 <= k < s@.len() ==> s@[k] != c,
        },
{
    let n = s.unicode_len();
    let mut i: usize = n;
    while i > 0
        invariant
            n == s@.len(),
            0 <= i <= n,
            forall|k: int| i <= k < n ==> s@[k] != c,
        decreases i,
    {
        i -= 1;
        if s.get_char(i) == c {
            return Some(i);
        }
    }
    None
}

proof fn lemma_dec_val_step(s: Seq<char>, k: int)
    requires
        0 <= k < s.len(),
    ensures
        dec_val(s.subrange(0, k + 1)) == dec_val(s.subrange(0, k)) * 10 + dec_digit_val(s[k]),
{
    let t = s.subrange(0, k + 1);
    assert(t.drop_last() =~= s.subrange(0, k));
    assert(t.last() == s[k]);
}

proof fn lemma_dec_val_grows(s: Seq<char>, k: int)
    requires
        0 <= k <= s.len(),
        forall|i: int| 0 <= i < s.len() ==> is_dec_digit(#[trigger] s[i]),
    ensures
        dec_val(s.subrange(0, k)) <= dec_val(s),
        dec_val(s.subrange(0, k)) >= 0,
    decreases s.len() - k,
{
    if k == s.len() {
        assert(s.subrange(0, k) =~= s);
        lemma_dec_val_nonneg(s);
    } else {
        lemma_dec_val_grows(s, k + 1);
        lemma_dec_val_step(s, k);
        lemma_dec_val_nonneg(s.subrange(0, k));
    }
}

proof fn lemma_dec_val_nonneg(s: Seq<char>)
    requires
        forall|i: int| 0 <= i < s.len() ==> is_dec_digit(#[trigger] s[i]),
    ensures
        dec_val(s) >= 0,
    decreases s.len(),
{
    if s.len() > 0 {
        assert(forall|i: int|
            0 <= i < s.drop_last().len() ==> is_dec_digit(#[trigger] s.drop_last()[i]));
        lemma_dec_val_nonneg(s.drop_last());
    }
}

/// Parses a decimal number that must fit in sixteen bits, as the poller does
/// with the port of an `imap_service` address.
pub fn parse_u16_str(s: &str) -> (r: Option<u16>)
    ensures
        r == parse_u16_spec(s@),
{
    let n = s.unicode_len();
    if n == 0 {
        return None;
    }
    let mut acc: u32 = 0;
    let mut i: usize = 0;
    while i < n
        invariant
            n == s@.len(),
            0 < n,
            0 <= i <= n,
            forall|k: int| 0 <= k < i ==> is_dec_digit(#[trigger] s@[k]),
            acc == dec_val(s@.subrange(0, i as int)),
            acc <= u16::MAX,
        decreases n - i,
    {
        let c = s.get_char(i);
        if !('0' <= c && c <= '9') {
            return None;
        }
        let d: u32 = (c as u32) - 48;
        proof {
            lemma_dec_val_step(s@, i as int);
        }
        let next: u32 = acc * 10 + d;
        if next > 65535 {
            proof {
                assert(next == dec_val(s@.subrange(0, i + 1)));
                if all_dec_digits(s@) {
                    lemma_dec_val_grows(s@, i + 1);
                }
            }
            return None;
        }
        acc = next;
        i += 1;
    }
    proof {
        assert(s@.subrange(0, n as int) =~= s@);
        assert(all_dec_digits(s@));
    }
    Some(acc as u16)
}

} // verus!
