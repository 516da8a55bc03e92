//! Text: decimal numbers, comparison and searching.
use vstd::prelude::*;
use vstd::string::*;

verus! {

/// `String::push` appends one character and changes nothing else.
pub assume_specification[ String::push ](text: &mut String, c: char)
    ensures
        final(text)@ == old(text)@.push(c),
;

/// The character of the decimal digit `n`.
pub open spec fn digit(n: int) -> char {
    (48 + n) as char
}

/// The decimal digits of `n`, without leading zeros.
pub open spec fn digits(n: nat) -> Seq<char>
    decreases n,
{
    if n < 10 {
        seq![digit(n as int)]
    } else {
        digits(n / 10).push(digit((n % 10) as int))
    }
}

/// A signed number in decimal: a minus sign where it is negative, then its digits.
pub open spec fn int_text(v: int) -> Seq<char> {
    if v < 0 {
        seq!['-'] + digits((-v) as nat)
    } else {
        digits(v as nat)
    }
}

/// `n` zeros.
pub open spec fn zeros(n: nat) -> Seq<char> {
    Seq::new(n, |i: int| '0')
}

/// A signed number filled with zeros to `width` characters, the sign counted among them.
pub open spec fn padded(v: int, width: nat) -> Seq<char> {
    let body = digits(if v < 0 { (-v) as nat } else { v as nat });
    let sign = if v < 0 { seq!['-'] } else { Seq::<char>::empty() };
    let used = body.len() + sign.len();
    let fill = if used < width { (width - used) as nat } else { 0 };
    sign + zeros(fill) + body
}

fn push_digits(out: &mut String, n: u64)
    ensures
        final(out)@ == old(out)@ + digits(n as nat),
    decreases n,
{
    if n >= 10 {
        push_digits(out, n / 10);
    }
    let d: u8 = (n % 10) as u8;
    out.push((48u8 + d) as char);
    proof {
        let before = if n >= 10 { old(out)@ + digits((n / 10) as nat) } else { old(out)@ };
        assert(before.push(digit((n % 10) as int)) =~= old(out)@ + digits(n as nat));
    }
}

/// The decimal text of `n`.
pub fn u64_text(n: u64) -> (text: String)
    ensures
        text@ == digits(n as nat),
{
    let mut out = String::new();
    push_digits(&mut out, n);
    proof {
        assert(out@ =~= digits(n as nat));
    }
    out
}

/// The decimal text of a length.
pub fn usize_text(n: usize) -> (text: String)
    ensures
        text@ == digits(n as nat),
{
    u64_text(n as u64)
}

fn magnitude(v: i64) -> (n: u64)
    ensures
        n == (if v < 0 { -(v as int) } else { v as int }),
{
    if v < 0 {
        (-(v as i128)) as u64
    } else {
        v as u64
    }
}

/// The decimal text of a signed number.
pub fn i64_text(v: i64) -> (text: String)
    ensures
        text@ == int_text(v as int),
{
    let n = u64_text(magnitude(v));
    if v < 0 {
        let mut out = String::new();
        out.push('-');
        out.append(n.as_str());
        proof {
            assert(out@ =~= int_text(v as int));
        }
        out
    } else {
        n
    }
}

/// The decimal text of a signed number, filled with zeros to `width` characters.
pub fn padded_text(v: i64, width: usize) -> (text: String)
    ensures
        text@ == padded(v as int, width as nat),
{
    let body = u64_text(magnitude(v));
    let mut out = String::new();
    if v < 0 {
        out.push('-');
    }
    let ghost sign = out@;
    proof {
        assert(sign =~= (if v < 0 { seq!['-'] } else { Seq::<char>::empty() }));
    }
    let used: usize = body.as_str().unicode_len();
    let taken: usize = if v < 0 { 1 } else { 0 };
    let mut filled: usize = 0;
    while filled < width && used < width - filled && taken < width - filled - used
        invariant
            used == body@.len(),
            taken == sign.len(),
            out@ == sign + zeros(filled as nat),
            filled == 0 || filled + used + taken <= width,
        decreases width - filled,
    {
        out.push('0');
        proof {
            assert((sign + zeros(filled as nat)).push('0') =~= sign + zeros((filled + 1) as nat));
        }
        filled = filled + 1;
    }
    out.append(body.as_str());
    out
}

/// The characters of a text.
pub fn chars_of(s: &str) -> (v: Vec<char>)
    ensures
        v@ == s@,
{
    let mut v: Vec<char> = Vec::new();
    for c in it: s.chars()
        invariant
            it.seq() == s@,
            v@ == it.seq().take(it.index() as int),
    {
        v.push(c);
    }
    v
}

/// Whether two texts are the same.
pub fn text_eq(a: &str, b: &str) -> (same: bool)
    ensures
        same == (a@ == b@),
{
    a.to_owned() == b.to_owned()
}

/// Whether an optional text is there and equals `b`.
pub fn option_text_is(a: &Option<String>, b: &str) -> (same: bool)
    ensures
        same == (a matches Some(t) && t@ == b@),
{
    match a {
        Some(t) => text_eq(t.as_str(), b),
        None => false,
    }
}

/// A copy of an optional text.
pub fn copy_option_text(a: &Option<String>) -> (r: Option<String>)
    ensures
        option_text(r) == option_text(*a),
{
    match a {
        Some(t) => Some(t.clone()),
        None => None,
    }
}

/// The content of an optional text.
pub open spec fn option_text(a: Option<String>) -> Option<Seq<char>> {
    match a {
        Some(t) => Some(t@),
        None => None,
    }
}

/// The contents of a list of texts.
pub open spec fn texts(v: Seq<String>) -> Seq<Seq<char>> {
    v.map_values(|t: String| t@)
}

/// Whether `needle` stands somewhere in `hay`.
pub open spec fn has_text(hay: Seq<char>, needle: Seq<char>) -> bool {
    exists|i: int|
        0 <= i <= hay.len() - needle.len() && #[trigger] hay.subrange(i, i + needle.len())
            == needle
}

fn matches_at(hay: &Vec<char>, needle: &Vec<char>, at: usize) -> (r: bool)
    requires
        at + needle@.len() <= hay@.len(),
    ensures
        r == (hay@.subrange(at as int, at + needle@.len()) == needle@),
{
    let size: usize = hay.len();
    let mut k: usize = 0;
    while k < needle.len()
        invariant
            size == hay@.len(),
            at + needle@.len() <= size,
            k <= needle@.len(),
            forall|j: int| 0 <= j < k ==> hay@[at + j] == needle@[j],
        decreases needle@.len() - k,
    {
        if hay[at + k] != needle[k] {
            proof {
                assert(hay@.subrange(at as int, at + needle@.len())[k as int] != needle@[k as int]);
            }
            return false;
        }
        k = k + 1;
    }
    proof {
        assert(hay@.subrange(at as int, at + needle@.len()) =~= needle@);
    }
    true
}

/// Whether `needle` stands somewhere in `hay`.
pub fn contains_text(hay: &str, needle: &str) -> (r: bool)
    ensures
        r == has_text(hay@, needle@),
{
    let h = chars_of(hay);
    let n = chars_of(needle);
    if n.len() > h.len() {
        return false;
    }
    let last: usize = h.len() - n.len();
    let mut i: usize = 0;
    while i <= last
        invariant
            h@ == hay@,
            n@ == needle@,
            last == h@.len() - n@.len(),
            i <= last + 1,
            forall|k: int| 0 <= k < i ==> #[trigger] h@.subrange(k, k + n@.len()) != n@,
        decreases last + 1 - i,
    {
        if matches_at(&h, &n, i) {
            proof {
                assert(hay@.subrange(i as int, i + needle@.len()) == needle@);
            }
            return true;
        }
        if i == last {
            return false;
        }
        i = i + 1;
    }
    false
}

/// Whether `text` begins with `prefix`.
pub fn begins_with(text: &str, prefix: &str) -> (r: bool)
    ensures
        r == prefix@.is_prefix_of(text@),
{
    let t = chars_of(text);
    let p = chars_of(prefix);
    if p.len() > t.len() {
        return false;
    }
    proof {
        assert(prefix@.is_prefix_of(text@) <==> text@.subrange(0, prefix@.len() as int)
            == prefix@);
    }
    matches_at(&t, &p, 0)
}

/// Whether `text` ends with `suffix`.
pub fn finishes_with(text: &str, suffix: &str) -> (r: bool)
    ensures
        r == suffix@.is_suffix_of(text@),
{
    let t = chars_of(text);
    let p = chars_of(suffix);
    if p.len() > t.len() {
        return false;
    }
    matches_at(&t, &p, t.len() - p.len())
}

/// `s` without the slashes at its end.
pub open spec fn without_end_slashes(s: Seq<char>) -> Seq<char>
    decreases s.len(),
{
    if s.len() > 0 && s.last() == '/' {
        without_end_slashes(s.drop_last())
    } else {
        s
    }
}

/// `s` without the slashes at its end.
pub fn trim_end_slashes(s: &str) -> (r: String)
    ensures
        r@ == without_end_slashes(s@),
{
    let v = chars_of(s);
    let mut end: usize = v.len();
    proof {
        assert(s@.take(end as int) =~= s@);
    }
    while end > 0 && v[end - 1] == '/'
        invariant
            v@ == s@,
            end <= s@.len(),
            without_end_slashes(s@.take(end as int)) == without_end_slashes(s@),
        decreases end,
    {
        proof {
            assert(s@.take(end as int).drop_last() =~= s@.take(end - 1));
        }
        end = end - 1;
    }
    proof {
        assert(s@.subrange(0, end as int) =~= s@.take(end as int));
    }
    s.substring_char(0, end).to_owned()
}

}
