//! Verified text primitives the feed mappers are built on: substring search,
//! first-occurrence splitting, pattern removal, trimming, and decimal
//! conversion in both directions.

use vstd::prelude::*;
use vstd::string::StrSliceExecFns;
use vstd::string::StringExecFns;

verus! {

// ---------------------------------------------------------------------------
// Substring search
// ---------------------------------------------------------------------------

/// The pattern `p` occurs in `s` at position `i`.
pub open spec fn match_at(s: Seq<char>, p: Seq<char>, i: int) -> bool {
    0 <= i && i + p.len() <= s.len() && s.subrange(i, i + p.len() as int) == p
}

pub open spec fn starts_with(s: Seq<char>, p: Seq<char>) -> bool {
    p.len() <= s.len() && s.subrange(0, p.len() as int) == p
}

/// Position of the first occurrence of `p` in `s`, if any.
pub open spec fn first_match(s: Seq<char>, p: Seq<char>) -> Option<int>
    decreases s.len(),
{
    if starts_with(s, p) {
        Some(0 as int)
    } else if s.len() == 0 {
        None
    } else {
        match first_match(s.skip(1), p) {
            Some(i) => Some(i + 1),
            None => None,
        }
    }
}

proof fn lemma_match_at_shift(s: Seq<char>, p: Seq<char>, j: int)
    requires
        s.len() > 0,
        0 <= j,
    ensures
        match_at(s.skip(1), p, j) <==> match_at(s, p, j + 1),
{
    if j + 1 + p.len() <= s.len() {
        assert(s.skip(1).subrange(j, j + p.len() as int) =~= s.subrange(
            j + 1,
            j + 1 + p.len() as int,
        ));
    }
}

/// `first_match` really is the first match: it matches where it points, and
/// nowhere earlier; `None` means no occurrence at all.
pub proof fn lemma_first_match_props(s: Seq<char>, p: Seq<char>)
    ensures
        match first_match(s, p) {
            Some(i) => match_at(s, p, i) && (forall|j: int| 0 <= j < i ==> !match_at(s, p, j)),
            None => forall|j: int| !match_at(s, p, j),
        },
    decreases s.len(),
{
    if starts_with(s, p) {
        assert(match_at(s, p, 0));
    } else if s.len() == 0 {
        assert forall|j: int| !match_at(s, p, j) by {
            if match_at(s, p, j) {
                assert(p.len() == 0 && j == 0);
                assert(s.subrange(0, 0) =~= p);
                assert(starts_with(s, p));
            }
        }
    } else {
        lemma_first_match_props(s.skip(1), p);
        assert(!match_at(s, p, 0));
        match first_match(s.skip(1), p) {
            Some(i) => {
                lemma_match_at_shift(s, p, i);
                assert(match_at(s, p, i + 1));
                assert forall|j: int| 0 <= j < i + 1 implies !match_at(s, p, j) by {
                    if j > 0 {
                        lemma_match_at_shift(s, p, j - 1);
                    }
                }
            },
            None => {
                assert forall|j: int| !match_at(s, p, j) by {
                    if match_at(s, p, j) && j > 0 {
                        lemma_match_at_shift(s, p, j - 1);
                    }
                }
            },
        }
    }
}

/// Converse direction: a match at `i` with no earlier match pins `first_match`.
pub proof fn lemma_first_match_at(s: Seq<char>, p: Seq<char>, i: int)
    requires
        match_at(s, p, i),
        forall|j: int| 0 <= j < i ==> !match_at(s, p, j),
    ensures
        first_match(s, p) == Some(i),
    decreases s.len(),
{
    if i == 0 {
        assert(starts_with(s, p));
    } else {
        assert(!match_at(s, p, 0));
        assert(!starts_with(s, p));
        assert(s.len() > 0);
        lemma_match_at_shift(s, p, i - 1);
        assert forall|j: int| 0 <= j < i - 1 implies !match_at(s.skip(1), p, j) by {
            lemma_match_at_shift(s, p, j);
        }
        lemma_first_match_at(s.skip(1), p, i - 1);
    }
}

/// Character-for-character string equality, stated over the views.
pub fn str_eq(a: &str, b: &str) -> (r: bool)
    ensures
        r == (a@ == b@),
{
    let alen: usize = a.unicode_len();
    let blen: usize = b.unicode_len();
    if alen != blen {
        return false;
    }
    let mut i: usize = 0;
    while i < alen
        invariant
            alen == a@.len(),
            alen == b@.len(),
            i <= alen,
            forall|j: int| 0 <= j < i ==> a@[j] == b@[j],
        decreases alen - i,
    {
        if a.get_char(i) != b.get_char(i) {
            return false;
        }
        i = i + 1;
    }
    proof {
        assert(a@ =~= b@);
    }
    true
}

/// First occurrence of `p` in `s`, as an index in characters.
pub fn find_str(s: &str, p: &str) -> (r: Option<usize>)
    ensures
        match r {
            Some(i) => first_match(s@, p@) == Some(i as int),
            None => first_match(s@, p@) is None,
        },
{
    let slen: usize = s.unicode_len();
    let plen: usize = p.unicode_len();
    if plen > slen {
        proof {
            lemma_first_match_props(s@, p@);
        }
        return None;
    }
    if plen == 0 {
        proof {
            assert(s@.subrange(0, 0) =~= p@);
            assert(match_at(s@, p@, 0));
            lemma_first_match_at(s@, p@, 0);
        }
        return Some(0);
    }
    let mut i: usize = 0;
    while i <= slen - plen
        invariant
            0 < plen <= slen,
            slen == s@.len(),
            plen == p@.len(),
            i <= slen - plen + 1,
            forall|j: int| 0 <= j < i ==> !match_at(s@, p@, j),
        decreases slen - plen + 1 - i,
    {
        let sub = s.substring_char(i, i + plen);
        if str_eq(sub, p) {
            proof {
                assert(match_at(s@, p@, i as int));
                lemma_first_match_at(s@, p@, i as int);
            }
            return Some(i);
        }
        proof {
            assert(!match_at(s@, p@, i as int));
        }
        i = i + 1;
    }
    proof {
        lemma_first_match_props(s@, p@);
        if first_match(s@, p@) is Some {
            let k = first_match(s@, p@).unwrap();
            assert(match_at(s@, p@, k));
            assert(false);
        }
    }
    None
}

// ---------------------------------------------------------------------------
// Splitting on the first occurrence of a pattern
// ---------------------------------------------------------------------------

/// Text before the first occurrence of `p`; all of `s` when `p` is absent.
pub open spec fn split_before(s: Seq<char>, p: Seq<char>) -> Seq<char> {
    match first_match(s, p) {
        Some(i) => s.subrange(0, i),
        None => s,
    }
}

/// Text after the first occurrence of `p`; empty when `p` is absent.
pub open spec fn split_after(s: Seq<char>, p: Seq<char>) -> Seq<char> {
    match first_match(s, p) {
        Some(i) => s.subrange(i + p.len() as int, s.len() as int),
        None => Seq::empty(),
    }
}

/// Split `s` on the first occurrence of `p`, as `str::split_once` does.
pub fn split_once_str<'a>(s: &'a str, p: &str) -> (r: Option<(&'a str, &'a str)>)
    ensures
        r is Some <==> first_match(s@, p@) is Some,
        r matches Some(pair) ==> pair.0@ == split_before(s@, p@) && pair.1@ == split_after(
            s@,
            p@,
        ),
{
    let slen: usize = s.unicode_len();
    let plen: usize = p.unicode_len();
    match find_str(s, p) {
        Some(i) => {
            proof {
                lemma_first_match_props(s@, p@);
            }
            let before = s.substring_char(0, i);
            let after = s.substring_char(i + plen, slen);
            Some((before, after))
        },
        None => None,
    }
}

// ---------------------------------------------------------------------------
// Removing every occurrence of a pattern
// ---------------------------------------------------------------------------

/// `s` with every (leftmost-first, non-overlapping) occurrence of `p` removed,
/// as `str::replace(p, "")` leaves it.
pub open spec fn remove_all(s: Seq<char>, p: Seq<char>) -> Seq<char>
    decreases s.len(),
{
    if p.len() == 0 || s.len() < p.len() {
        s
    } else if starts_with(s, p) {
        remove_all(s.skip(p.len() as int), p)
    } else {
        seq![s[0]] + remove_all(s.skip(1), p)
    }
}

pub fn remove_all_str(s: &str, p: &str) -> (r: String)
    requires
        p@.len() > 0,
    ensures
        r@ == remove_all(s@, p@),
{
    let slen: usize = s.unicode_len();
    let plen: usize = p.unicode_len();
    let mut out = String::new();
    if plen > slen {
        out.append(s);
        return out;
    }
    let mut i: usize = 0;
    proof {
        assert(s@.skip(0) =~= s@);
        assert(Seq::<char>::empty() + remove_all(s@, p@) =~= remove_all(s@, p@));
    }
    while i <= slen - plen
        invariant
            0 < plen <= slen,
            slen == s@.len(),
            plen == p@.len(),
            i <= slen,
            remove_all(s@, p@) == out@ + remove_all(s@.skip(i as int), p@),
        decreases slen - i,
    {
        let sub = s.substring_char(i, i + plen);
        proof {
            assert(s@.skip(i as int).subrange(0, plen as int) =~= s@.subrange(
                i as int,
                i + plen as int,
            ));
        }
        if str_eq(sub, p) {
            proof {
                assert(starts_with(s@.skip(i as int), p@));
                assert(s@.skip(i as int).skip(plen as int) =~= s@.skip(i + plen as int));
            }
            i = i + plen;
        } else {
            proof {
                assert(!starts_with(s@.skip(i as int), p@));
                assert(s@.skip(i as int).skip(1) =~= s@.skip(i + 1));
                assert(seq![s@.skip(i as int)[0]] =~= s@.subrange(i as int, i + 1));
                assert((out@ + s@.subrange(i as int, i + 1)) + remove_all(s@.skip(i + 1), p@)
                    =~= out@ + (s@.subrange(i as int, i + 1) + remove_all(s@.skip(i + 1), p@)));
            }
            let piece = s.substring_char(i, i + 1);
            out.append(piece);
            i = i + 1;
        }
    }
    proof {
        assert(s@.skip(i as int).len() < plen);
        assert(remove_all(s@.skip(i as int), p@) == s@.skip(i as int));
        assert(s@.skip(i as int) =~= s@.subrange(i as int, slen as int));
    }
    let tail = s.substring_char(i, slen);
    out.append(tail);
    out
}

// ---------------------------------------------------------------------------
// Trimming spaces
// ---------------------------------------------------------------------------

pub open spec fn trim_front(s: Seq<char>) -> Seq<char>
    decreases s.len(),
{
    if s.len() > 0 && s[0] == ' ' {
        trim_front(s.skip(1))
    } else {
        s
    }
}

pub open spec fn trim_back(s: Seq<char>) -> Seq<char>
    decreases s.len(),
{
    if s.len() > 0 && s[s.len() - 1] == ' ' {
        trim_back(s.take(s.len() - 1))
    } else {
        s
    }
}

/// `s` without leading and trailing spaces.
pub open spec fn trim_spaces(s: Seq<char>) -> Seq<char> {
    trim_back(trim_front(s))
}

proof fn lemma_trim_front_skip(s: Seq<char>, a: int)
    requires
        0 <= a <= s.len(),
        forall|j: int| 0 <= j < a ==> s[j] == ' ',
        a < s.len() ==> s[a] != ' ',
    ensures
        trim_front(s) == s.skip(a),
    decreases a,
{
    if a == 0 {
        assert(s.skip(0) =~= s);
    } else {
        assert(s[0] == ' ');
        lemma_trim_front_skip(s.skip(1), a - 1);
        assert(s.skip(1).skip(a - 1) =~= s.skip(a));
    }
}

proof fn lemma_trim_back_take(s: Seq<char>, b: int)
    requires
        0 <= b <= s.len(),
        forall|j: int| b <= j < s.len() ==> s[j] == ' ',
        b > 0 ==> s[b - 1] != ' ',
    ensures
        trim_back(s) == s.take(b),
    decreases s.len(),
{
    if b == s.len() {
        assert(s.take(b) =~= s);
    } else {
        assert(s[s.len() - 1] == ' ');
        lemma_trim_back_take(s.take(s.len() - 1), b);
    }
}

/// `s` without leading and trailing spaces, as `str::trim` leaves a
/// space-separated string.
pub fn trim_str<'a>(s: &'a str) -> (r: &'a str)
    ensures
        r@ == trim_spaces(s@),
{
    let slen: usize = s.unicode_len();
    let mut a: usize = 0;
    while a < slen && s.get_char(a) == ' '
        invariant
            slen == s@.len(),
            a <= slen,
            forall|j: int| 0 <= j < a ==> s@[j] == ' ',
        decreases slen - a,
    {
        a = a + 1;
    }
    let mut b: usize = slen;
    while b > a && s.get_char(b - 1) == ' '
        invariant
            slen == s@.len(),
            a <= b <= slen,
            forall|j: int| b <= j < slen ==> s@[j] == ' ',
        decreases b,
    {
        b = b - 1;
    }
    proof {
        lemma_trim_front_skip(s@, a as int);
        let t = s@.skip(a as int);
        if b == a {
            lemma_trim_back_take(t, 0);
        } else {
            lemma_trim_back_take(t, b - a);
        }
        assert(t.take(b - a) =~= s@.subrange(a as int, b as int));
    }
    s.substring_char(a, b)
}

// ---------------------------------------------------------------------------
// Delimiter literals
// ---------------------------------------------------------------------------

/// A single space, the provider's only token delimiter.
pub fn space_str() -> (r: &'static str)
    ensures
        r@ == seq![' '],
{
    let r = " ";
    proof {
        reveal_strlit(" ");
        assert(r@ =~= seq![' ']);
    }
    r
}

/// The comma between a penalty label and its reason.
pub fn comma_str() -> (r: &'static str)
    ensures
        r@ == seq![','],
{
    let r = ",";
    proof {
        reveal_strlit(",");
        assert(r@ =~= seq![',']);
    }
    r
}

/// The colon between minutes and seconds of a time value.
pub fn colon_str() -> (r: &'static str)
    ensures
        r@ == seq![':'],
{
    let r = ":";
    proof {
        reveal_strlit(":");
        assert(r@ =~= seq![':']);
    }
    r
}

// ---------------------------------------------------------------------------
// Decimal digits: parsing
// ---------------------------------------------------------------------------

pub open spec fn is_digit(c: char) -> bool {
    48 <= c as u32 <= 57
}

pub open spec fn all_digits(s: Seq<char>) -> bool {
    forall|i: int| 0 <= i < s.len() ==> is_digit(s[i])
}

/// Value of a digit string read left to right.
pub open spec fn digits_val(s: Seq<char>) -> int
    decreases s.len(),
{
    if s.len() == 0 {
        0
    } else {
        digits_val(s.take(s.len() - 1)) * 10 + (s[s.len() - 1] as u32 - 48)
    }
}

/// What a best-effort decimal read of `s` yields: the value of the digits, or
/// 0 when `s` is empty, holds a non-digit, or does not fit an `i32`.
pub open spec fn parse_dec(s: Seq<char>) -> int {
    if s.len() == 0 || !all_digits(s) || digits_val(s) > i32::MAX {
        0
    } else {
        digits_val(s)
    }
}

proof fn lemma_digits_val_nonneg(s: Seq<char>)
    requires
        all_digits(s),
    ensures
        digits_val(s) >= 0,
    decreases s.len(),
{
    if s.len() > 0 {
        assert(all_digits(s.take(s.len() - 1)));
        lemma_digits_val_nonneg(s.take(s.len() - 1));
    }
}

/// Best-effort decimal parse: digits only, anything else (or overflow) is 0.
pub fn parse_dec_str(s: &str) -> (r: i32)
    ensures
        r as int == parse_dec(s@),
        r >= 0,
{
    let slen: usize = s.unicode_len();
    let mut i: usize = 0;
    let mut acc: i32 = 0;
    let mut over: bool = false;
    while i < slen
        invariant
            slen == s@.len(),
            i <= slen,
            all_digits(s@.take(i as int)),
            !over ==> 0 <= acc && acc as int == digits_val(s@.take(i as int)),
            over ==> digits_val(s@.take(i as int)) > i32::MAX,
        decreases slen - i,
    {
        let c = s.get_char(i);
        let d: u32 = c as u32;
        if d < 48 || d > 57 {
            proof {
                assert(!is_digit(s@[i as int]));
                assert(!all_digits(s@));
            }
            return 0;
        }
        proof {
            assert(s@.take(i + 1).take(i as int) =~= s@.take(i as int));
            assert(s@.take(i + 1)[i as int] == s@[i as int]);
        }
        if !over {
            let big: u64 = (acc as u64) * 10 + ((d - 48) as u64);
            if big > (i32::MAX as u64) {
                over = true;
            } else {
                acc = big as i32;
            }
        } else {
            proof {
                lemma_digits_val_nonneg(s@.take(i as int));
            }
        }
        i = i + 1;
    }
    proof {
        assert(s@.take(slen as int) =~= s@);
    }
    if over {
        0
    } else {
        acc
    }
}

// ---------------------------------------------------------------------------
// Decimal digits: formatting
// ---------------------------------------------------------------------------

/// Decimal representation of a non-negative number, most significant first.
pub open spec fn dec_rep(n: int) -> Seq<char>
    decreases n,
{
    if n < 10 {
        seq![((48 + n) as u8) as char]
    } else {
        dec_rep(n / 10) + seq![((48 + n % 10) as u8) as char]
    }
}

/// Decimal representation of any number, with a leading minus when negative.
pub open spec fn dec_str(n: int) -> Seq<char> {
    if n < 0 {
        seq!['-'] + dec_rep(-n)
    } else {
        dec_rep(n)
    }
}

fn digit_str(d: u32) -> (r: &'static str)
    requires
        d < 10,
    ensures
        r@ == seq![((48 + d) as u8) as char],
{
    let r: &'static str = if d == 0 {
        "0"
    } else if d == 1 {
        "1"
    } else if d == 2 {
        "2"
    } else if d == 3 {
        "3"
    } else if d == 4 {
        "4"
    } else if d == 5 {
        "5"
    } else if d == 6 {
        "6"
    } else if d == 7 {
        "7"
    } else if d == 8 {
        "8"
    } else {
        "9"
    };
    proof {
        reveal_strlit("0");
        reveal_strlit("1");
        reveal_strlit("2");
        reveal_strlit("3");
        reveal_strlit("4");
        reveal_strlit("5");
        reveal_strlit("6");
        reveal_strlit("7");
        reveal_strlit("8");
        reveal_strlit("9");
        assert(r@ =~= seq![((48 + d) as u8) as char]);
    }
    r
}

fn u32_dec(n: u32) -> (r: String)
    ensures
        r@ == dec_rep(n as int),
    decreases n,
{
    if n < 10 {
        digit_str(n).to_owned()
    } else {
        let mut pre = u32_dec(n / 10);
        pre.append(digit_str(n % 10));
        pre
    }
}

/// `n` written in decimal, as `format!("{}", n)` writes it.
pub fn i32_dec(n: i32) -> (r: String)
    ensures
        r@ == dec_str(n as int),
{
    if n >= 0 {
        u32_dec(n as u32)
    } else {
        let m: u32 = (-(n as i64)) as u32;
        let mut out = "-".to_owned();
        proof {
            reveal_strlit("-");
            assert("-"@ =~= seq!['-']);
        }
        let digits = u32_dec(m);
        out.append(digits.as_str());
        out
    }
}

} // verus!
