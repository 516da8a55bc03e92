//! The two number grammars that inputs follow: unsigned integers and decimal fractions.
use vstd::prelude::*;

use crate::text::{chars_of, digit, digits, padded, zeros};

verus! {

/// Whether `c` is one of the ten ASCII digits.
pub open spec fn is_digit(c: char) -> bool {
    '0' <= c && c <= '9'
}

/// The number that a row of digits stands for.
pub open spec fn value_of(s: Seq<char>) -> nat
    decreases s.len(),
{
    if s.len() == 0 {
        0
    } else {
        value_of(s.drop_last()) * 10 + ((s.last() as int - 48) as nat)
    }
}

/// Whether every character is a digit.
pub open spec fn all_digits(s: Seq<char>) -> bool {
    forall|i: int| 0 <= i < s.len() ==> is_digit(#[trigger] s[i])
}

/// An unsigned integer of 64 bits: at least one digit, with a plus sign before them or none.
pub open spec fn u64_of(s: Seq<char>) -> Option<u64> {
    let body = if s.len() > 0 && s[0] == '+' {
        s.skip(1)
    } else {
        s
    };
    if body.len() > 0 && all_digits(body) && value_of(body) <= u64::MAX {
        Some(value_of(body) as u64)
    } else {
        None
    }
}

proof fn lemma_value_grows(s: Seq<char>, k: int)
    requires
        0 <= k <= s.len(),
        all_digits(s),
    ensures
        value_of(s.take(k)) <= value_of(s),
    decreases s.len() - k,
{
    if k < s.len() {
        assert(s.take(k + 1).drop_last() =~= s.take(k));
        assert(is_digit(s[k]));
        lemma_value_grows(s, k + 1);
    } else {
        assert(s.take(k) =~= s);
    }
}

/// Reads an unsigned integer of 64 bits.
pub fn parse_u64(text: &str) -> (r: Option<u64>)
    ensures
        r == u64_of(text@),
{
    let v = chars_of(text);
    let start: usize = if v.len() > 0 && v[0] == '+' { 1 } else { 0 };
    let ghost body = v@.skip(start as int);
    proof {
        assert(body =~= (if v@.len() > 0 && v@[0] == '+' { v@.skip(1) } else { v@ }));
    }
    if start == v.len() {
        return None;
    }
    let mut total: u64 = 0;
    let mut i: usize = start;
    proof {
        assert(body.take(0) =~= Seq::<char>::empty());
    }
    while i < v.len()
        invariant
            v@ == text@,
            start <= i <= v@.len(),
            start <= 1,
            body == v@.skip(start as int),
            body.len() == v@.len() - start,
            forall|k: int| 0 <= k < i - start ==> is_digit(#[trigger] body[k]),
            total == value_of(body.take(i - start)),
            u64_of(text@) == (if body.len() > 0 && all_digits(body) && value_of(body) <= u64::MAX {
                Some(value_of(body) as u64)
            } else {
                None
            }),
        decreases v@.len() - i,
    {
        let c = v[i];
        proof {
            assert(body[i - start] == c);
            assert(body.take(i - start + 1).drop_last() =~= body.take(i - start));
            assert(body.take(i - start + 1).last() == c);
        }
        if !('0' <= c && c <= '9') {
            proof {
                assert(!is_digit(body[i - start]));
            }
            return None;
        }
        let d: u64 = (c as u32 - 48) as u64;
        if total > (u64::MAX - d) / 10 {
            proof {
                if all_digits(body) {
                    lemma_value_grows(body, i - start + 1);
                }
            }
            return None;
        }
        total = total * 10 + d;
        i = i + 1;
    }
    proof {
        assert(body.take(i - start) =~= body);
    }
    Some(total)
}

/// The digits of a number stand for it.
pub proof fn lemma_digits_read_back(n: nat)
    ensures
        digits(n).len() > 0,
        all_digits(digits(n)),
        value_of(digits(n)) == n,
    decreases n,
{
    if n < 10 {
        let s = digits(n);
        assert(s.drop_last() =~= Seq::<char>::empty());
        assert(s.last() == digit(n as int));
        assert(value_of(s.drop_last()) == 0);
    } else {
        lemma_digits_read_back(n / 10);
        let s = digits(n);
        let d = digit((n % 10) as int);
        assert(s.drop_last() =~= digits(n / 10));
        assert(s.last() == d);
        assert forall|i: int| 0 <= i < s.len() implies is_digit(#[trigger] s[i]) by {
            if i < s.len() - 1 {
                assert(s[i] == digits(n / 10)[i]);
            }
        }
    }
}

/// Reading the decimal text of a number gives the number back.
pub proof fn law_decimal_round_trip(n: u64)
    ensures
        u64_of(digits(n as nat)) == Some(n),
{
    lemma_digits_read_back(n as nat);
    assert(is_digit(digits(n as nat)[0]));
}

proof fn lemma_leading_zeros(k: nat, s: Seq<char>)
    ensures
        value_of(zeros(k) + s) == value_of(s),
    decreases s.len(), k,
{
    let t = zeros(k) + s;
    if s.len() > 0 {
        assert(t.drop_last() =~= zeros(k) + s.drop_last());
        lemma_leading_zeros(k, s.drop_last());
    } else if k > 0 {
        assert(t.drop_last() =~= zeros((k - 1) as nat) + s);
        lemma_leading_zeros((k - 1) as nat, s);
    }
}

proof fn lemma_padded_reads_back(v: int, width: nat)
    ensures
        ({
            let p = padded(v, width);
            &&& p.len() > 0
            &&& p[0] == '-' <==> v < 0
            &&& value_of(
                if v < 0 {
                    p.skip(1)
                } else {
                    p
                },
            ) == if v < 0 {
                -v
            } else {
                v
            }
        }),
{
    let n: nat = if v < 0 {
        (-v) as nat
    } else {
        v as nat
    };
    let body = digits(n);
    lemma_digits_read_back(n);
    let sign: nat = if v < 0 {
        1
    } else {
        0
    };
    let fill: nat = if body.len() + sign < width {
        (width - body.len() - sign) as nat
    } else {
        0
    };
    lemma_leading_zeros(fill, body);
    let p = padded(v, width);
    assert(is_digit(body[0]));
    if v < 0 {
        assert(p.skip(1) =~= zeros(fill) + body);
    } else {
        assert(p =~= zeros(fill) + body);
        assert(is_digit(p[0]));
    }
}

/// Numbers that are filled to the same width have different texts where they differ.
pub proof fn lemma_padded_unique(a: int, b: int, width: nat)
    requires
        padded(a, width) == padded(b, width),
    ensures
        a == b,
{
    lemma_padded_reads_back(a, width);
    lemma_padded_reads_back(b, width);
}

/// The first place at or after `i` where no digit stands.
pub open spec fn run_end(s: Seq<char>, i: int) -> int
    decreases s.len() - i,
{
    if 0 <= i < s.len() && is_digit(s[i]) {
        run_end(s, i + 1)
    } else {
        i
    }
}

/// `i`, or the place behind it where a sign stands there.
pub open spec fn skip_sign(s: Seq<char>, i: int) -> int {
    if 0 <= i < s.len() && (s[i] == '+' || s[i] == '-') {
        i + 1
    } else {
        i
    }
}

/// The lower-case form of an ASCII letter; any other character as it is.
pub open spec fn lower(c: char) -> char {
    if 'A' <= c && c <= 'Z' {
        (c as int + 32) as char
    } else {
        c
    }
}

/// Whether the characters from `i` on are `word`, in either case.
pub open spec fn word_at(s: Seq<char>, i: int, word: Seq<char>) -> bool {
    &&& 0 <= i
    &&& s.len() == i + word.len()
    &&& forall|k: int| 0 <= k < word.len() ==> lower(#[trigger] s[i + k]) == word[k]
}

/// The place where the fraction ends, for digits that end at `whole`.
pub open spec fn fraction_end(s: Seq<char>, whole: int) -> int {
    if whole < s.len() && s[whole] == '.' {
        run_end(s, whole + 1)
    } else {
        whole
    }
}

/// Whether an exponent, or nothing, stands from `i` to the end.
pub open spec fn exponent_ok(s: Seq<char>, i: int) -> bool {
    ||| i == s.len()
    ||| {
        &&& i < s.len()
        &&& lower(s[i]) == 'e'
        &&& skip_sign(s, i + 1) < s.len()
        &&& run_end(s, skip_sign(s, i + 1)) == s.len()
    }
}

/// Digits, a point among them or not, and an exponent or none: from `i` to the end.
pub open spec fn plain_number(s: Seq<char>, i: int) -> bool {
    let whole = run_end(s, i);
    let frac = fraction_end(s, whole);
    &&& whole > i || frac > whole + 1
    &&& exponent_ok(s, frac)
}

/// The decimal fractions that inputs may hold: an optional sign, then `inf`, `infinity` or `nan`
/// in either case, or a number with an optional point and an optional exponent.
pub open spec fn is_fraction(s: Seq<char>) -> bool {
    let i = skip_sign(s, 0);
    ||| word_at(s, i, seq!['i', 'n', 'f'])
    ||| word_at(s, i, seq!['i', 'n', 'f', 'i', 'n', 'i', 't', 'y'])
    ||| word_at(s, i, seq!['n', 'a', 'n'])
    ||| plain_number(s, i)
}

fn lower_char(c: char) -> (r: char)
    ensures
        r == lower(c),
{
    if 'A' <= c && c <= 'Z' {
        (c as u8 + 32) as char
    } else {
        c
    }
}

fn find_run_end(v: &Vec<char>, start: usize) -> (end: usize)
    requires
        start <= v@.len(),
    ensures
        end == run_end(v@, start as int),
        start <= end <= v@.len(),
{
    let mut i: usize = start;
    while i < v.len() && '0' <= v[i] && v[i] <= '9'
        invariant
            start <= i <= v@.len(),
            run_end(v@, i as int) == run_end(v@, start as int),
        decreases v@.len() - i,
    {
        i = i + 1;
    }
    i
}

fn sign_end(v: &Vec<char>, i: usize) -> (r: usize)
    requires
        i <= v@.len(),
    ensures
        r == skip_sign(v@, i as int),
        i <= r <= v@.len(),
{
    if i < v.len() && (v[i] == '+' || v[i] == '-') {
        i + 1
    } else {
        i
    }
}

fn reads_word(v: &Vec<char>, i: usize, word: &Vec<char>) -> (r: bool)
    requires
        i <= v@.len(),
    ensures
        r == word_at(v@, i as int, word@),
{
    if v.len() - i != word.len() {
        return false;
    }
    let mut k: usize = 0;
    while k < word.len()
        invariant
            i + word@.len() == v@.len(),
            v@.len() <= usize::MAX,
            k <= word@.len(),
            forall|j: int| 0 <= j < k ==> lower(#[trigger] v@[i + j]) == word@[j],
        decreases word@.len() - k,
    {
        if lower_char(v[i + k]) != word[k] {
            proof {
                assert(lower(v@[i + k]) != word@[k as int]);
            }
            return false;
        }
        k = k + 1;
    }
    true
}

fn reads_exponent(v: &Vec<char>, i: usize) -> (r: bool)
    requires
        i <= v@.len(),
    ensures
        r == exponent_ok(v@, i as int),
{
    if i == v.len() {
        return true;
    }
    if lower_char(v[i]) != 'e' {
        return false;
    }
    let from = sign_end(v, i + 1);
    from < v.len() && find_run_end(v, from) == v.len()
}

fn reads_plain_number(v: &Vec<char>, i: usize) -> (r: bool)
    requires
        i <= v@.len(),
    ensures
        r == plain_number(v@, i as int),
{
    let whole = find_run_end(v, i);
    let frac: usize = if whole < v.len() && v[whole] == '.' {
        find_run_end(v, whole + 1)
    } else {
        whole
    };
    if whole == i && frac - whole <= 1 {
        return false;
    }
    reads_exponent(v, frac)
}

/// Whether a text is a decimal fraction.
pub fn is_fraction_text(text: &str) -> (r: bool)
    ensures
        r == is_fraction(text@),
{
    let v = chars_of(text);
    let i = sign_end(&v, 0);
    reads_word(&v, i, &vec!['i', 'n', 'f']) || reads_word(
        &v,
        i,
        &vec!['i', 'n', 'f', 'i', 'n', 'i', 't', 'y'],
    ) || reads_word(&v, i, &vec!['n', 'a', 'n']) || reads_plain_number(&v, i)
}

} // verus!
