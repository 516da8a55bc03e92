//! Laws of texts, numbers and timestamps.
use vstd::prelude::*;

use crate::dates::{
    day_number, epoch_of, is_date, is_leap, month_days, number_at, timestamp, timestamp_date,
    unix_time, zone_min,
};
use crate::number::{
    all_digits, is_digit, is_fraction, lemma_digits_read_back, plain_number, run_end, u64_of,
    value_of,
};
use crate::order::{lemma_text_irreflexive, lemma_text_transitive, pair_less, text_less};
use crate::snapshot::today;
use crate::text::{digits, has_text, int_text, padded};

verus! {

/// The digits are the ten characters from `0` to `9`.
pub proof fn law_ten_digits(c: char, n: int)
    ensures
        is_digit(c) <==> 48 <= c as int <= 57,
        0 <= n <= 9 ==> is_digit(crate::text::digit(n)) && crate::text::digit(n) as int == 48 + n,
{
}

/// A row of digits stands for a number in the positional system.
pub proof fn law_positions(s: Seq<char>, c: char)
    requires
        is_digit(c),
    ensures
        value_of(Seq::empty()) == 0,
        value_of(s.push(c)) == 10 * value_of(s) + (c as int - '0' as int),
{
    assert(s.push(c).drop_last() =~= s);
}

/// A number is written with digits alone, without zeros in front, so that they stand for it.
pub proof fn law_digits(n: nat)
    ensures
        value_of(digits(n)) == n,
        digits(n).len() > 0,
        forall|i: int|
            0 <= i < digits(n).len() ==> '0' <= #[trigger] digits(n)[i] && digits(n)[i] <= '9',
        digits(n).len() > 1 ==> digits(n)[0] != '0',
    decreases n,
{
    lemma_digits_read_back(n);
    assert forall|i: int| 0 <= i < digits(n).len() implies '0' <= #[trigger] digits(n)[i]
        && digits(n)[i] <= '9' by {
        assert(is_digit(digits(n)[i]));
    }
    if n >= 10 {
        law_digits(n / 10);
        assert(digits(n)[0] == digits(n / 10)[0]);
        if n / 10 < 10 {
            assert(digits(n / 10)[0] == crate::text::digit((n / 10) as int));
        } else {
            lemma_digits_read_back(n / 10 / 10);
        }
    }
}

/// A negative number has a minus sign before the digits of its size.
pub proof fn law_signed_numbers(n: nat)
    ensures
        int_text(n as int) == digits(n),
        n > 0 ==> int_text(-(n as int)) == seq!['-'] + digits(n),
{
}

/// A number that is filled to a width has that many characters, or as many as it needs, with zeros
/// between its sign and its digits.
pub proof fn law_filled_numbers(n: nat, width: nat)
    ensures
        ({
            let p = padded(n as int, width);
            &&& p.len() == if digits(n).len() < width {
                width
            } else {
                digits(n).len()
            }
            &&& digits(n).is_suffix_of(p)
            &&& forall|i: int| 0 <= i < p.len() - digits(n).len() ==> #[trigger] p[i] == '0'
        }),
        n > 0 ==> ({
            let p = padded(-(n as int), width);
            &&& p.len() == if digits(n).len() + 1 < width {
                width
            } else {
                digits(n).len() + 1
            }
            &&& p[0] == '-'
            &&& digits(n).is_suffix_of(p)
            &&& forall|i: int| 1 <= i < p.len() - digits(n).len() ==> #[trigger] p[i] == '0'
        }),
{
    let p = padded(n as int, width);
    assert(p.skip(p.len() - digits(n).len()) =~= digits(n));
    assert(p.subrange(p.len() - digits(n).len(), p.len() as int) =~= digits(n));
    if n > 0 {
        let q = padded(-(n as int), width);
        assert(q.subrange(q.len() - digits(n).len(), q.len() as int) =~= digits(n));
    }
}

/// An unsigned number is read exactly where all characters are digits, but for a plus sign in
/// front, and what they stand for stays within 64 bits.
pub proof fn law_unsigned_numbers(s: Seq<char>)
    requires
        s.len() > 0,
    ensures
        all_digits(s) && value_of(s) <= 0xffff_ffff_ffff_ffff ==> u64_of(s) == Some(
            value_of(s) as u64,
        ) && u64_of(seq!['+'] + s) == Some(value_of(s) as u64),
        value_of(s) > 0xffff_ffff_ffff_ffff && s[0] != '+' ==> u64_of(s) is None,
        s[0] != '+' ==> u64_of(seq!['+'] + s) == u64_of(s),
        u64_of(s) is Some ==> forall|i: int|
            0 <= i < s.len() ==> is_digit(#[trigger] s[i]) || (i == 0 && s[i] == '+'),
        u64_of(s) is Some ==> s != seq!['+'],
        u64_of(Seq::empty()) is None,
{
    let marked = seq!['+'] + s;
    assert(marked.skip(1) =~= s);
    if all_digits(s) {
        assert(is_digit(s[0]));
    }
    if u64_of(s) is Some && s[0] == '+' {
        let body = s.skip(1);
        assert forall|i: int| 1 <= i < s.len() implies is_digit(#[trigger] s[i]) by {
            assert(is_digit(body[i - 1]));
        }
    }
}

proof fn lemma_run(s: Seq<char>, i: int, j: int)
    requires
        0 <= i <= j <= s.len(),
        forall|k: int| i <= k < j ==> is_digit(#[trigger] s[k]),
        j == s.len() || !is_digit(s[j]),
    ensures
        run_end(s, i) == j,
    decreases j - i,
{
    if i < j {
        lemma_run(s, i + 1, j);
    }
}

/// Digits with a point among, before or behind them are a fraction, also with a sign in front and
/// an exponent behind; digits alone are one too.
pub proof fn law_fractions(a: Seq<char>, b: Seq<char>, e: Seq<char>, sign: char, mark: char)
    requires
        all_digits(a),
        all_digits(b),
        a.len() + b.len() > 0,
        all_digits(e),
        e.len() > 0,
        sign == '+' || sign == '-',
        mark == 'e' || mark == 'E',
    ensures
        a.len() > 0 ==> is_fraction(a) && is_fraction(seq![sign] + a),
        is_fraction(a + seq!['.'] + b),
        is_fraction(seq![sign] + a + seq!['.'] + b),
        is_fraction(a + seq!['.'] + b + seq![mark] + e),
        is_fraction(a + seq!['.'] + b + seq![mark] + seq![sign] + e),
        a.len() > 0 ==> is_fraction(a + seq![mark] + e),
{
    let x = a.len() as int;
    let y = b.len() as int;
    if a.len() > 0 {
        assert(is_digit(a[0]));
        lemma_run(a, 0, x);
        assert(plain_number(a, 0));
        let s = seq![sign] + a;
        assert forall|k: int| 1 <= k < s.len() implies is_digit(#[trigger] s[k]) by {
            assert(s[k] == a[k - 1]);
        }
        lemma_run(s, 1, x + 1);
        assert(plain_number(s, 1));
        let m = a + seq![mark] + e;
        assert forall|k: int| 0 <= k < x implies is_digit(#[trigger] m[k]) by {
            assert(m[k] == a[k]);
        }
        assert forall|k: int| x + 1 <= k < m.len() implies is_digit(#[trigger] m[k]) by {
            assert(m[k] == e[k - x - 1]);
        }
        assert(is_digit(m[0]));
        assert(is_digit(m[x + 1]));
        lemma_run(m, 0, x);
        lemma_run(m, x + 1, m.len() as int);
        assert(plain_number(m, 0));
    }
    lemma_point(a, b, Seq::empty(), 0);
    let f = a + seq!['.'] + b;
    assert(f + Seq::<char>::empty() =~= f);
    let g = seq![sign] + a + seq!['.'] + b;
    lemma_signed_point(a, b, sign);
    lemma_point(a, b, seq![mark] + e, 0);
    assert(f + (seq![mark] + e) =~= a + seq!['.'] + b + seq![mark] + e);
    lemma_point(a, b, seq![mark] + seq![sign] + e, 0);
    assert(f + (seq![mark] + seq![sign] + e) =~= a + seq!['.'] + b + seq![mark] + seq![sign] + e);
    lemma_exponent(f, e, sign, mark);
}

proof fn lemma_point(a: Seq<char>, b: Seq<char>, rest: Seq<char>, z: int)
    requires
        all_digits(a),
        all_digits(b),
        a.len() + b.len() > 0,
        rest.len() > 0 ==> !is_digit(rest[0]),
    ensures
        ({
            let s = a + seq!['.'] + b + rest;
            &&& run_end(s, 0) == a.len()
            &&& run_end(s, a.len() as int + 1) == a.len() + 1 + b.len()
            &&& rest.len() == 0 ==> is_fraction(s)
            &&& crate::number::exponent_ok(s, a.len() + 1 + b.len() as int) ==> is_fraction(s)
        }),
{
    let s = a + seq!['.'] + b + rest;
    let x = a.len() as int;
    let y = b.len() as int;
    assert forall|k: int| 0 <= k < x implies is_digit(#[trigger] s[k]) by {
        assert(s[k] == a[k]);
    }
    assert forall|k: int| x + 1 <= k < x + 1 + y implies is_digit(#[trigger] s[k]) by {
        assert(s[k] == b[k - x - 1]);
    }
    assert(s[x] == '.');
    if rest.len() > 0 {
        assert(s[x + 1 + y] == rest[0]);
    }
    lemma_run(s, 0, x);
    lemma_run(s, x + 1, x + 1 + y);
    assert(s[0] != '+' && s[0] != '-') by {
        if x > 0 {
            assert(is_digit(s[0]));
        }
    }
    assert(crate::number::skip_sign(s, 0) == 0);
    assert(crate::number::fraction_end(s, x) == x + 1 + y);
    if rest.len() == 0 {
        assert(crate::number::exponent_ok(s, x + 1 + y));
    }
    if crate::number::exponent_ok(s, x + 1 + y) {
        assert(plain_number(s, 0));
    }
}

proof fn lemma_signed_point(a: Seq<char>, b: Seq<char>, sign: char)
    requires
        all_digits(a),
        all_digits(b),
        a.len() + b.len() > 0,
        sign == '+' || sign == '-',
    ensures
        is_fraction(seq![sign] + a + seq!['.'] + b),
{
    let s = seq![sign] + a + seq!['.'] + b;
    let x = a.len() as int;
    assert forall|k: int| 1 <= k < x + 1 implies is_digit(#[trigger] s[k]) by {
        assert(s[k] == a[k - 1]);
    }
    assert forall|k: int| x + 2 <= k < s.len() implies is_digit(#[trigger] s[k]) by {
        assert(s[k] == b[k - x - 2]);
    }
    assert(s[x + 1] == '.');
    lemma_run(s, 1, x + 1);
    lemma_run(s, x + 2, s.len() as int);
    assert(plain_number(s, 1));
}

proof fn lemma_exponent(f: Seq<char>, e: Seq<char>, sign: char, mark: char)
    requires
        all_digits(e),
        e.len() > 0,
        sign == '+' || sign == '-',
        mark == 'e' || mark == 'E',
    ensures
        crate::number::exponent_ok(f + (seq![mark] + e), f.len() as int),
        crate::number::exponent_ok(f + (seq![mark] + seq![sign] + e), f.len() as int),
{
    let n = f.len() as int;
    let s = f + (seq![mark] + e);
    assert forall|k: int| n + 1 <= k < s.len() implies is_digit(#[trigger] s[k]) by {
        assert(s[k] == e[k - n - 1]);
    }
    assert(is_digit(s[n + 1]));
    assert(s[n] == mark);
    lemma_run(s, n + 1, s.len() as int);
    let t = f + (seq![mark] + seq![sign] + e);
    assert forall|k: int| n + 2 <= k < t.len() implies is_digit(#[trigger] t[k]) by {
        assert(t[k] == e[k - n - 2]);
    }
    assert(t[n] == mark);
    assert(t[n + 1] == sign);
    lemma_run(t, n + 2, t.len() as int);
}

proof fn lemma_word_start(s: Seq<char>, i: int, word: Seq<char>)
    requires
        word.len() > 0,
    ensures
        crate::number::word_at(s, i, word) ==> i < s.len() && crate::number::lower(s[i]) == word[0],
{
    if crate::number::word_at(s, i, word) {
        assert(crate::number::lower(s[i + 0]) == word[0]);
    }
}

/// A fraction begins with a sign, a digit, a point, or a letter of the words for what is infinite
/// or no number; a text without a digit or such a letter is none.
pub proof fn law_what_no_fraction_is(s: Seq<char>)
    ensures
        s.len() == 0 ==> !is_fraction(s),
        s.len() > 0 && !is_digit(s[0]) && s[0] != '+' && s[0] != '-' && s[0] != '.' && s[0] != 'i'
            && s[0] != 'I' && s[0] != 'n' && s[0] != 'N' ==> !is_fraction(s),
        s == seq!['.'] || s == seq!['+'] || s == seq!['-'] ==> !is_fraction(s),
        s.len() > 1 && (s[0] == '+' || s[0] == '-') && (s[1] == '+' || s[1] == '-') ==> !is_fraction(
            s,
        ),
{
    let i = crate::number::skip_sign(s, 0);
    lemma_word_start(s, i, seq!['i', 'n', 'f']);
    lemma_word_start(s, i, seq!['i', 'n', 'f', 'i', 'n', 'i', 't', 'y']);
    lemma_word_start(s, i, seq!['n', 'a', 'n']);
    if s == seq!['.'] {
        assert(run_end(s, 0) == 0);
        assert(run_end(s, 1) == 1);
    }
}

/// Texts are ordered by the first place where they differ; a text stands behind its own front.
pub proof fn law_text_order(p: Seq<char>, x: Seq<char>, y: Seq<char>, c: char, d: char)
    ensures
        c < d ==> text_less(p + seq![c] + x, p + seq![d] + y) && !text_less(
            p + seq![d] + y,
            p + seq![c] + x,
        ),
        x.len() > 0 ==> text_less(p, p + x) && !text_less(p + x, p),
        !text_less(p, p),
    decreases p.len(),
{
    let a = p + seq![c] + x;
    let b = p + seq![d] + y;
    if p.len() > 0 {
        let q = p.skip(1);
        law_text_order(q, x, y, c, d);
        assert(a.skip(1) =~= q + seq![c] + x);
        assert(b.skip(1) =~= q + seq![d] + y);
        assert((p + x).skip(1) =~= q + x);
    } else {
        assert(p + x =~= x);
    }
}

/// A text holds every piece of itself.
pub proof fn law_pieces_of_texts(a: Seq<char>, needle: Seq<char>, b: Seq<char>)
    ensures
        has_text(a + needle + b, needle),
        has_text(a, needle) ==> exists|x: Seq<char>, y: Seq<char>| a == #[trigger] (x + needle + y),
{
    if has_text(a, needle) {
        let i = choose|i: int|
            0 <= i <= a.len() - needle.len() && #[trigger] a.subrange(i, i + needle.len())
                == needle;
        assert(a =~= a.take(i) + needle + a.skip(i + needle.len()));
    }
    let t = a + needle + b;
    let i = a.len() as int;
    assert(t.subrange(i, i + needle.len()) =~= needle);
}

/// The number that the decimal digit at place `i` is.
pub open spec fn digit_at(b: Seq<u8>, i: int) -> int {
    b[i] - 48
}

/// Whether decimal digits stand from place `i` on, `n` of them.
pub open spec fn digits_at(b: Seq<u8>, i: int, n: int) -> bool {
    i + n <= b.len() && forall|k: int| i <= k < i + n ==> 48 <= #[trigger] b[k] <= 57
}

proof fn lemma_two(b: Seq<u8>, i: int)
    requires
        0 <= i,
    ensures
        number_at(b, i, 2) is Some <==> digits_at(b, i, 2),
        digits_at(b, i, 2) ==> number_at(b, i, 2) == Some(
            10 * digit_at(b, i) + digit_at(b, i + 1),
        ),
{
    reveal_with_fuel(number_at, 3);
    if digits_at(b, i, 2) {
        assert(48 <= b[i] <= 57);
        assert(48 <= b[i + 1] <= 57);
    }
}

proof fn lemma_four(b: Seq<u8>)
    ensures
        number_at(b, 0, 4) is Some <==> digits_at(b, 0, 4),
        digits_at(b, 0, 4) ==> number_at(b, 0, 4) == Some(
            1000 * digit_at(b, 0) + 100 * digit_at(b, 1) + 10 * digit_at(b, 2) + digit_at(b, 3),
        ),
{
    reveal_with_fuel(number_at, 5);
    if digits_at(b, 0, 4) {
        assert(48 <= b[0] <= 57);
        assert(48 <= b[1] <= 57);
        assert(48 <= b[2] <= 57);
        assert(48 <= b[3] <= 57);
    }
}

/// A timestamp is read from its places: four digits of the year, two each of month, day, hour,
/// minute and second, then the zone. It is read exactly where those digits are there and the zone
/// is `Z`, or a sign with two digits of hours and two of minutes.
pub proof fn law_timestamps(b: Seq<u8>)
    ensures
        ({
            let zoned = b[19] == 90 || ((b[19] == 43 || b[19] == 45) && digits_at(b, 20, 2)
                && digits_at(b, 23, 2));
            let minutes = 600 * digit_at(b, 20) + 60 * digit_at(b, 21) + 10 * digit_at(b, 23)
                + digit_at(b, 24);
            &&& timestamp(b) is Some <==> b.len() >= 20 && digits_at(b, 0, 4) && digits_at(b, 5, 2)
                && digits_at(b, 8, 2) && digits_at(b, 11, 2) && digits_at(b, 14, 2) && digits_at(
                b,
                17,
                2,
            ) && zoned
            &&& timestamp(b) matches Some(t) ==> {
                &&& t.0 == 1000 * digit_at(b, 0) + 100 * digit_at(b, 1) + 10 * digit_at(b, 2)
                    + digit_at(b, 3)
                &&& t.1 == 10 * digit_at(b, 5) + digit_at(b, 6)
                &&& t.2 == 10 * digit_at(b, 8) + digit_at(b, 9)
                &&& t.3 == 10 * digit_at(b, 11) + digit_at(b, 12)
                &&& t.4 == 10 * digit_at(b, 14) + digit_at(b, 15)
                &&& t.5 == 10 * digit_at(b, 17) + digit_at(b, 18)
                &&& b[19] == 90 ==> zone_min(b) == Some(0int)
                &&& b[19] == 43 ==> zone_min(b) == Some(minutes)
                &&& b[19] == 45 ==> zone_min(b) == Some(-minutes)
                &&& zone_min(b) == Some(zone_of(t))
            }
        }),
{
    lemma_four(b);
    lemma_two(b, 5);
    lemma_two(b, 8);
    lemma_two(b, 11);
    lemma_two(b, 14);
    lemma_two(b, 17);
    lemma_two(b, 20);
    lemma_two(b, 23);
}

/// The zone of a timestamp, in minutes.
pub open spec fn zone_of(t: (int, int, int, int, int, int, int)) -> int {
    t.6
}

/// A timestamp gives the local date at the instant that it names; so do any two timestamps of the
/// same instant, whatever their zones are.
pub proof fn law_timestamps_by_their_instant(
    a: Seq<u8>,
    b: Seq<u8>,
    s: (int, int, int, int, int, int, int),
    t: (int, int, int, int, int, int, int),
    offset: int,
)
    requires
        timestamp(a) == Some(s),
        timestamp(b) == Some(t),
    ensures
        epoch_of(s) == day_number(s.0, s.1, s.2) * 86400 + s.3 * 3600 + s.4 * 60 + s.5 - zone_of(s)
            * 60,
        timestamp_date(a, offset) == Some(today(epoch_of(s), offset)),
        epoch_of(s) == epoch_of(t) ==> timestamp_date(a, offset) == timestamp_date(b, offset),
{
}

/// A year has a leap day where 4 divides it, but for those that 100 divides and 400 does not; the
/// months have their usual lengths.
pub proof fn law_calendar(y: int, m: int)
    ensures
        is_leap(y) <==> y % 400 == 0 || (y % 4 == 0 && y % 100 != 0),
        m == 2 ==> month_days(y, m) == if is_leap(y) {
            29int
        } else {
            28
        },
        m == 4 || m == 6 || m == 9 || m == 11 ==> month_days(y, m) == 30,
        m == 1 || m == 3 || m == 5 || m == 7 || m == 8 || m == 10 || m == 12 ==> month_days(y, m)
            == 31,
        is_date(y, m, 1) <==> 1 <= m <= 12,
        1 <= m <= 12 ==> is_date(y, m, month_days(y, m)) && !is_date(y, m, month_days(y, m) + 1)
            && !is_date(y, m, 0),
{
    if y % 400 == 0 {
        assert(y % 4 == 0);
    }
}

/// Days and months beyond the calendar's are taken as they come: the days run on from the first of
/// the month; the months before January and behind December are those of the neighbouring years;
/// from the fifteenth on they begin again with March.
pub proof fn law_beyond_the_calendar(y: int, m: int, d: int)
    ensures
        day_number(y, m, d) == day_number(y, m, 1) + d - 1,
        day_number(y, 0, d) == day_number(y - 1, 12, d),
        day_number(y, 13, d) == day_number(y + 1, 1, d),
        day_number(y, 14, d) == day_number(y + 1, 2, d),
        m >= 15 ==> day_number(y, m, d) == day_number(y, m - 12, d),
{
    if m >= 15 {
        assert((m + 9) % 12 == (m - 12 + 9) % 12);
    }
}

/// Whether a text is a sign or nothing.
pub open spec fn is_sign(s: Seq<char>) -> bool {
    s.len() == 0 || s == seq!['+'] || s == seq!['-']
}

/// Whether a text is an exponent or nothing: its mark, a sign or none, and digits.
pub open spec fn is_exponent(s: Seq<char>) -> bool {
    s.len() == 0 || exists|mark: char, sign: Seq<char>, e: Seq<char>|
        (mark == 'e' || mark == 'E') && is_sign(sign) && all_digits(e) && e.len() > 0 && s
            == #[trigger] (seq![mark] + sign + e)
}

/// Whether a text is made of a sign, digits, a point with digits, and an exponent, of which only
/// digits on either side of the point must be there.
pub open spec fn is_made_up(
    s: Seq<char>,
    sign: Seq<char>,
    a: Seq<char>,
    point: Seq<char>,
    b: Seq<char>,
    exponent: Seq<char>,
) -> bool {
    &&& s == sign + a + point + b + exponent
    &&& is_sign(sign)
    &&& all_digits(a)
    &&& all_digits(b)
    &&& a.len() + b.len() > 0
    &&& point == seq!['.'] || (point.len() == 0 && b.len() == 0)
    &&& is_exponent(exponent)
}

/// Whether a character is a letter, in either case.
pub open spec fn is_letter(c: char, lower: char, upper: char) -> bool {
    c == lower || c == upper
}

/// Whether a text, behind a sign or none, is the word for what is infinite or no number.
pub open spec fn is_word(s: Seq<char>) -> bool {
    let w = if s.len() > 0 && (s[0] == '+' || s[0] == '-') {
        s.skip(1)
    } else {
        s
    };
    ||| w.len() == 3 && is_letter(w[0], 'i', 'I') && is_letter(w[1], 'n', 'N') && is_letter(
        w[2],
        'f',
        'F',
    )
    ||| w.len() == 3 && is_letter(w[0], 'n', 'N') && is_letter(w[1], 'a', 'A') && is_letter(
        w[2],
        'n',
        'N',
    )
    ||| w.len() == 8 && is_letter(w[0], 'i', 'I') && is_letter(w[1], 'n', 'N') && is_letter(
        w[2],
        'f',
        'F',
    ) && is_letter(w[3], 'i', 'I') && is_letter(w[4], 'n', 'N') && is_letter(w[5], 'i', 'I')
        && is_letter(w[6], 't', 'T') && is_letter(w[7], 'y', 'Y')
}

proof fn lemma_lower(c: char, l: char, u: char)
    requires
        'a' <= l && l <= 'z',
        u as int == l as int - 32,
    ensures
        crate::number::lower(c) == l <==> is_letter(c, l, u),
{
}

proof fn lemma_words(s: Seq<char>)
    ensures
        ({
            let i = crate::number::skip_sign(s, 0);
            is_word(s) <==> crate::number::word_at(s, i, seq!['i', 'n', 'f'])
                || crate::number::word_at(s, i, seq!['i', 'n', 'f', 'i', 'n', 'i', 't', 'y'])
                || crate::number::word_at(s, i, seq!['n', 'a', 'n'])
        }),
{
    let i = crate::number::skip_sign(s, 0);
    let w = s.skip(i);
    assert(s.skip(0) =~= s);
    assert forall|k: int| 0 <= k < w.len() implies #[trigger] w[k] == s[i + k] by {}
    let inf = seq!['i', 'n', 'f'];
    let long = seq!['i', 'n', 'f', 'i', 'n', 'i', 't', 'y'];
    let nan = seq!['n', 'a', 'n'];
    assert forall|c: char| #![trigger crate::number::lower(c)]
        (crate::number::lower(c) == 'i' <==> is_letter(c, 'i', 'I')) && (crate::number::lower(c)
            == 'n' <==> is_letter(c, 'n', 'N')) && (crate::number::lower(c) == 'f' <==> is_letter(
            c,
            'f',
            'F',
        )) && (crate::number::lower(c) == 't' <==> is_letter(c, 't', 'T'))
            && (crate::number::lower(c) == 'y' <==> is_letter(c, 'y', 'Y')) && (
        crate::number::lower(c) == 'a' <==> is_letter(c, 'a', 'A')) by {
        lemma_lower(c, 'i', 'I');
        lemma_lower(c, 'n', 'N');
        lemma_lower(c, 'f', 'F');
        lemma_lower(c, 't', 'T');
        lemma_lower(c, 'y', 'Y');
        lemma_lower(c, 'a', 'A');
    }
    if w.len() == 3 {
        assert(w[0] == s[i + 0] && w[1] == s[i + 1] && w[2] == s[i + 2]);
        assert(crate::number::word_at(s, i, inf) <==> (crate::number::lower(s[i + 0]) == inf[0]
            && crate::number::lower(s[i + 1]) == inf[1] && crate::number::lower(s[i + 2])
            == inf[2]));
        assert(crate::number::word_at(s, i, nan) <==> (crate::number::lower(s[i + 0]) == nan[0]
            && crate::number::lower(s[i + 1]) == nan[1] && crate::number::lower(s[i + 2])
            == nan[2]));
    }
    if w.len() == 8 {
        assert(w[0] == s[i + 0] && w[1] == s[i + 1] && w[2] == s[i + 2] && w[3] == s[i + 3] && w[4]
            == s[i + 4] && w[5] == s[i + 5] && w[6] == s[i + 6] && w[7] == s[i + 7]);
        assert(crate::number::word_at(s, i, long) <==> (crate::number::lower(s[i + 0]) == long[0]
            && crate::number::lower(s[i + 1]) == long[1] && crate::number::lower(s[i + 2])
            == long[2] && crate::number::lower(s[i + 3]) == long[3] && crate::number::lower(
            s[i + 4],
        ) == long[4] && crate::number::lower(s[i + 5]) == long[5] && crate::number::lower(s[i + 6])
            == long[6] && crate::number::lower(s[i + 7]) == long[7]));
    }
}

proof fn lemma_run_end(s: Seq<char>, i: int)
    requires
        0 <= i <= s.len(),
    ensures
        i <= run_end(s, i) <= s.len(),
        forall|k: int| i <= k < run_end(s, i) ==> is_digit(#[trigger] s[k]),
    decreases s.len() - i,
{
    if i < s.len() && is_digit(s[i]) {
        lemma_run_end(s, i + 1);
    }
}

/// A fraction is a word for what is infinite or no number, or is made up of a sign, digits, a point
/// with digits, and an exponent; nothing else is one.
pub proof fn law_fractions_are_made_up(s: Seq<char>)
    ensures
        is_word(s) ==> is_fraction(s),
        is_fraction(s) && !is_word(s) ==> exists|
            sign: Seq<char>,
            a: Seq<char>,
            point: Seq<char>,
            b: Seq<char>,
            exponent: Seq<char>,
        |
            is_made_up(s, sign, a, point, b, exponent),
{
    lemma_words(s);
    if is_fraction(s) && !is_word(s) {
        let i = crate::number::skip_sign(s, 0);
        let n = s.len() as int;
        lemma_run_end(s, i);
        let whole = run_end(s, i);
        let dotted = whole < n && s[whole] == '.';
        if dotted {
            lemma_run_end(s, whole + 1);
        }
        let frac = crate::number::fraction_end(s, whole);
        let sign = s.take(i);
        let a = s.subrange(i, whole);
        let point = if dotted {
            seq!['.']
        } else {
            Seq::<char>::empty()
        };
        let b = if dotted {
            s.subrange(whole + 1, frac)
        } else {
            Seq::<char>::empty()
        };
        let exponent = s.skip(frac);
        assert(s =~= sign + a + point + b + exponent);
        assert(is_sign(sign)) by {
            if i == 1 {
                assert(sign =~= seq![s[0]]);
            }
        }
        assert forall|k: int| 0 <= k < a.len() implies is_digit(#[trigger] a[k]) by {
            assert(is_digit(s[i + k]));
        }
        assert forall|k: int| 0 <= k < b.len() implies is_digit(#[trigger] b[k]) by {
            assert(is_digit(s[whole + 1 + k]));
        }
        if frac < n {
            let from = crate::number::skip_sign(s, frac + 1);
            lemma_run_end(s, from);
            lemma_lower(s[frac], 'e', 'E');
            let inner = s.subrange(frac + 1, from);
            let e = s.skip(from);
            assert(exponent =~= seq![s[frac]] + inner + e);
            assert(is_sign(inner)) by {
                if from == frac + 2 {
                    assert(inner =~= seq![s[frac + 1]]);
                }
            }
            assert forall|k: int| 0 <= k < e.len() implies is_digit(#[trigger] e[k]) by {
                assert(is_digit(s[from + k]));
            }
        }
        assert(is_made_up(s, sign, a, point, b, exponent));
    }
}

/// Pairs of texts are ordered by their first texts, and where these are the same by their second.
pub proof fn law_pair_order(a: Seq<char>, b: Seq<char>, c: Seq<char>, d: Seq<char>)
    ensures
        text_less(a, c) ==> pair_less((a, b), (c, d)),
        text_less(c, a) ==> !pair_less((a, b), (c, d)),
        a == c ==> (pair_less((a, b), (c, d)) <==> text_less(b, d)),
{
    lemma_text_irreflexive(a);
    if text_less(c, a) && text_less(a, c) {
        lemma_text_transitive(a, c, a);
    }
}

/// A reading of the clock is the Unix time where 64 bits hold it; without one the time is 0.
pub proof fn law_clock_readings(secs: u64)
    ensures
        unix_time(None) == 0,
        secs <= i64::MAX ==> unix_time(Some(secs)) == secs,
{
}

} // verus!
