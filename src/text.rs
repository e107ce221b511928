//! Character-level text helpers shared by the parsers.
use vstd::prelude::*;

verus! {

broadcast use vstd::string::group_string_axioms;

/// The characters for which `char::is_whitespace` holds (Unicode White_Space).
pub open spec fn is_space(c: char) -> bool {
    ('\u{9}' <= c && c <= '\u{d}') || c == ' ' || c == '\u{85}' || c == '\u{a0}'
        || c == '\u{1680}' || ('\u{2000}' <= c && c <= '\u{200a}') || c == '\u{2028}'
        || c == '\u{2029}' || c == '\u{202f}' || c == '\u{205f}' || c == '\u{3000}'
}

pub fn is_space_char(c: char) -> (r: bool)
    ensures
        r == is_space(c),
{
    ('\u{9}' <= c && c <= '\u{d}') || c == ' ' || c == '\u{85}' || c == '\u{a0}'
        || c == '\u{1680}' || ('\u{2000}' <= c && c <= '\u{200a}') || c == '\u{2028}'
        || c == '\u{2029}' || c == '\u{202f}' || c == '\u{205f}' || c == '\u{3000}'
}

/// The characters of `s`, in order.
pub fn chars_of(s: &str) -> (r: Vec<char>)
    ensures
        r@ == s@,
{
    let mut r: Vec<char> = Vec::new();
    for c in it: s.chars()
        invariant
            r@ == it.seq().take(it.index() as int),
            it.seq() == s@,
    {
        r.push(c);
    }
    r
}

/// Relies on `String::push`: appends one character at the end.
#[verifier::external_body]
fn push_char(s: &mut String, c: char)
    ensures
        final(s)@ == old(s)@.push(c),
{
    s.push(c)
}

/// The string made of `v[lo..hi]`.
pub fn string_of(v: &Vec<char>, lo: usize, hi: usize) -> (r: String)
    requires
        lo <= hi <= v.len(),
    ensures
        r@ == v@.subrange(lo as int, hi as int),
{
    let mut r = String::new();
    let mut i: usize = lo;
    while i < hi
        invariant
            lo <= i <= hi <= v.len(),
            r@ == v@.subrange(lo as int, i as int),
        decreases hi - i,
    {
        push_char(&mut r, v[i]);
        assert(v@.subrange(lo as int, i + 1) == v@.subrange(lo as int, i as int).push(v@[i as int]));
        i += 1;
    }
    r
}


pub open spec fn trim_start(s: Seq<char>) -> Seq<char>
    decreases s.len(),
{
    if s.len() > 0 && is_space(s[0]) {
        trim_start(s.drop_first())
    } else {
        s
    }
}

pub open spec fn trim_end(s: Seq<char>) -> Seq<char>
    decreases s.len(),
{
    if s.len() > 0 && is_space(s.last()) {
        trim_end(s.drop_last())
    } else {
        s
    }
}

/// `s` without leading and trailing white space, as `str::trim` gives it.
pub open spec fn trim(s: Seq<char>) -> Seq<char> {
    trim_end(trim_start(s))
}

/// The bounds of `trim(v[lo..hi])` within `v`.
pub fn trim_bounds(v: &Vec<char>, lo: usize, hi: usize) -> (r: (usize, usize))
    requires
        lo <= hi <= v.len(),
    ensures
        lo <= r.0 <= r.1 <= hi,
        v@.subrange(r.0 as int, r.1 as int) == trim(v@.subrange(lo as int, hi as int)),
{
    let mut a: usize = lo;
    while a < hi && is_space_char(v[a])
        invariant
            lo <= a <= hi <= v.len(),
            trim_start(v@.subrange(lo as int, hi as int)) == trim_start(
                v@.subrange(a as int, hi as int),
            ),
        decreases hi - a,
    {
        assert(v@.subrange(a as int, hi as int).drop_first() == v@.subrange(a + 1, hi as int));
        a += 1;
    }
    let mut b: usize = hi;
    while b > a && is_space_char(v[b - 1])
        invariant
            lo <= a <= b <= hi <= v.len(),
            trim_end(v@.subrange(a as int, hi as int)) == trim_end(v@.subrange(a as int, b as int)),
        decreases b - a,
    {
        assert(v@.subrange(a as int, b as int).drop_last() == v@.subrange(a as int, b - 1));
        b -= 1;
    }
    (a, b)
}

/// Index of the first `c` in `s`, or `s.len()` where there is none.
pub open spec fn find(s: Seq<char>, c: char) -> nat
    decreases s.len(),
{
    if s.len() == 0 {
        0
    } else if s[0] == c {
        0
    } else {
        1 + find(s.drop_first(), c)
    }
}

/// The position of the first `c` in `v[lo..hi]`, or `hi`.
pub fn find_char(v: &Vec<char>, lo: usize, hi: usize, c: char) -> (r: usize)
    requires
        lo <= hi <= v.len(),
    ensures
        lo <= r <= hi,
        r - lo == find(v@.subrange(lo as int, hi as int), c),
{
    let mut i: usize = lo;
    while i < hi && v[i] != c
        invariant
            lo <= i <= hi <= v.len(),
            find(v@.subrange(lo as int, hi as int), c) == (i - lo) + find(
                v@.subrange(i as int, hi as int),
                c,
            ),
        decreases hi - i,
    {
        assert(v@.subrange(i as int, hi as int).drop_first() == v@.subrange(i + 1, hi as int));
        i += 1;
    }
    i
}

/// The lines of `s`: the pieces between `'\n'` characters.
pub open spec fn lines(s: Seq<char>) -> Seq<Seq<char>>
    decreases s.len(),
{
    let k = find(s, '\n');
    if k < s.len() {
        seq![s.take(k as int)] + lines(s.skip(k + 1 as int))
    } else {
        seq![s]
    }
}

pub open spec fn is_digit(c: char) -> bool {
    '0' <= c && c <= '9'
}

pub open spec fn digit_value(c: char) -> nat {
    (c as u32 - '0' as u32) as nat
}

pub open spec fn all_digits(s: Seq<char>) -> bool {
    forall|i: int| 0 <= i < s.len() ==> is_digit(#[trigger] s[i])
}

/// The number that the decimal digits `s` write.
pub open spec fn digits_value(s: Seq<char>) -> nat
    decreases s.len(),
{
    if s.len() == 0 {
        0
    } else {
        digits_value(s.drop_last()) * 10 + digit_value(s.last())
    }
}

pub proof fn lemma_digits_prefix(s: Seq<char>, k: int)
    requires
        0 <= k <= s.len(),
    ensures
        digits_value(s.take(k)) <= digits_value(s),
    decreases s.len(),
{
    if k < s.len() {
        lemma_digits_prefix(s.drop_last(), k);
        assert(s.drop_last().take(k) == s.take(k));
    } else {
        assert(s.take(k) == s);
    }
}

/// The text without a leading `'+'`, the one sign that unsigned parsing accepts.
pub open spec fn unsigned_body(s: Seq<char>) -> Seq<char> {
    if s.len() > 0 && s[0] == '+' {
        s.drop_first()
    } else {
        s
    }
}

/// What `str::parse` gives for an unsigned integer type whose largest value is `max`.
pub open spec fn parse_unsigned(s: Seq<char>, max: nat) -> Option<nat> {
    let d = unsigned_body(s);
    if d.len() > 0 && all_digits(d) && digits_value(d) <= max {
        Some(digits_value(d))
    } else {
        None
    }
}

pub open spec fn parse_u32(s: Seq<char>) -> Option<u32> {
    match parse_unsigned(s, u32::MAX as nat) {
        Some(n) => Some(n as u32),
        None => None,
    }
}

pub open spec fn parse_u64(s: Seq<char>) -> Option<u64> {
    match parse_unsigned(s, u64::MAX as nat) {
        Some(n) => Some(n as u64),
        None => None,
    }
}

fn digit_of(c: char) -> (r: u128)
    requires
        is_digit(c),
    ensures
        r == digit_value(c),
        r <= 9,
{
    (c as u32 - '0' as u32) as u128
}

/// The number that the digits `v[lo..hi]` write, where it is at most `max`.
fn digits_up_to(v: &Vec<char>, lo: usize, hi: usize, max: u64) -> (r: Option<u64>)
    requires
        lo <= hi <= v.len(),
    ensures
        r == (if all_digits(v@.subrange(lo as int, hi as int)) && digits_value(
            v@.subrange(lo as int, hi as int),
        ) <= max {
            Some(digits_value(v@.subrange(lo as int, hi as int)) as u64)
        } else {
            None::<u64>
        }),
{
    let ghost s = v@.subrange(lo as int, hi as int);
    let mut acc: u128 = 0;
    let mut i: usize = lo;
    while i < hi
        invariant
            lo <= i <= hi <= v.len(),
            s == v@.subrange(lo as int, hi as int),
            all_digits(v@.subrange(lo as int, i as int)),
            acc == digits_value(v@.subrange(lo as int, i as int)),
            acc <= max,
        decreases hi - i,
    {
        if !is_digit_char(v[i]) {
            assert(!is_digit(s[i - lo]));
            return None;
        }
        let ghost pre = v@.subrange(lo as int, i + 1);
        assert(pre.drop_last() == v@.subrange(lo as int, i as int));
        acc = acc * 10 + digit_of(v[i]);
        if acc > max as u128 {
            proof {
                assert(pre == s.take(i + 1 - lo));
                lemma_digits_prefix(s, i + 1 - lo);
            }
            return None;
        }
        i += 1;
    }
    assert(s == v@.subrange(lo as int, i as int));
    Some(acc as u64)
}

pub fn is_digit_char(c: char) -> (r: bool)
    ensures
        r == is_digit(c),
{
    '0' <= c && c <= '9'
}

/// `v[lo..hi]` parsed as an unsigned integer of at most `max`, as `str::parse` does.
pub fn parse_unsigned_at(v: &Vec<char>, lo: usize, hi: usize, max: u64) -> (r: Option<u64>)
    requires
        lo <= hi <= v.len(),
    ensures
        r == (match parse_unsigned(v@.subrange(lo as int, hi as int), max as nat) {
            Some(n) => Some(n as u64),
            None => None::<u64>,
        }),
{
    let mut a = lo;
    if lo < hi && v[lo] == '+' {
        a = lo + 1;
        assert(v@.subrange(lo as int, hi as int).drop_first() == v@.subrange(a as int, hi as int));
    } else {
        assert(unsigned_body(v@.subrange(lo as int, hi as int)) == v@.subrange(lo as int, hi as int));
    }
    if a == hi {
        return None;
    }
    digits_up_to(v, a, hi, max)
}


/// Whether `v[lo..hi]` is the text `lit`.
pub fn eq_at(v: &Vec<char>, lo: usize, hi: usize, lit: &Vec<char>) -> (r: bool)
    requires
        lo <= hi <= v.len(),
    ensures
        r == (v@.subrange(lo as int, hi as int) == lit@),
{
    if hi - lo != lit.len() {
        return false;
    }
    let mut i: usize = 0;
    while i < lit.len()
        invariant
            lo <= hi <= v.len(),
            hi - lo == lit.len(),
            i <= lit.len(),
            forall|j: int| 0 <= j < i ==> v@[lo + j] == lit@[j],
        decreases lit.len() - i,
    {
        if v[lo + i] != lit[i] {
            assert(v@.subrange(lo as int, hi as int)[i as int] != lit@[i as int]);
            return false;
        }
        i += 1;
    }
    assert(v@.subrange(lo as int, hi as int) =~= lit@);
    true
}


/// Index of the first white-space character of `s`, or `s.len()`.
pub open spec fn find_space(s: Seq<char>) -> nat
    decreases s.len(),
{
    if s.len() == 0 {
        0
    } else if is_space(s[0]) {
        0
    } else {
        1 + find_space(s.drop_first())
    }
}

pub fn find_space_at(v: &Vec<char>, lo: usize, hi: usize) -> (r: usize)
    requires
        lo <= hi <= v.len(),
    ensures
        lo <= r <= hi,
        r - lo == find_space(v@.subrange(lo as int, hi as int)),
{
    let mut i: usize = lo;
    while i < hi && !is_space_char(v[i])
        invariant
            lo <= i <= hi <= v.len(),
            find_space(v@.subrange(lo as int, hi as int)) == (i - lo) + find_space(
                v@.subrange(i as int, hi as int),
            ),
        decreases hi - i,
    {
        assert(v@.subrange(i as int, hi as int).drop_first() == v@.subrange(i + 1, hi as int));
        i += 1;
    }
    i
}

/// The fraction digits `f` read as thousandths: the first three, padded with zeros.
pub open spec fn thousandths(f: Seq<char>) -> nat {
    digits_value((f + seq!['0', '0', '0']).take(3))
}

/// A decimal number such as `"3400.125"`, in thousandths, where its whole part
/// has digits and fits in a `u32`; further fraction digits are dropped.
pub open spec fn decimal_thousandths(s: Seq<char>) -> Option<u64> {
    let k = find(s, '.');
    let whole = s.take(k as int);
    let frac = if k < s.len() {
        s.skip(k + 1 as int)
    } else {
        Seq::<char>::empty()
    };
    if whole.len() > 0 && all_digits(whole) && digits_value(whole) <= u32::MAX && all_digits(frac) {
        Some((digits_value(whole) * 1000 + thousandths(frac)) as u64)
    } else {
        None
    }
}

fn all_digits_at(v: &Vec<char>, lo: usize, hi: usize) -> (r: bool)
    requires
        lo <= hi <= v.len(),
    ensures
        r == all_digits(v@.subrange(lo as int, hi as int)),
{
    let mut i: usize = lo;
    while i < hi
        invariant
            lo <= i <= hi <= v.len(),
            all_digits(v@.subrange(lo as int, i as int)),
        decreases hi - i,
    {
        if !is_digit_char(v[i]) {
            assert(!is_digit(v@.subrange(lo as int, hi as int)[i - lo]));
            return false;
        }
        assert forall|j: int| 0 <= j < i + 1 - lo implies is_digit(
            #[trigger] v@.subrange(lo as int, i + 1)[j],
        ) by {
            if j < i - lo {
                assert(v@.subrange(lo as int, i + 1)[j] == v@.subrange(lo as int, i as int)[j]);
            }
        }
        i += 1;
    }
    true
}

fn digit_or_zero(v: &Vec<char>, f0: usize, j: usize, hi: usize) -> (r: u64)
    requires
        f0 <= hi <= v.len(),
        all_digits(v@.subrange(f0 as int, hi as int)),
    ensures
        r == (if j < hi - f0 {
            digit_value(v@[f0 + j])
        } else {
            0
        }),
        r <= 9,
{
    if j < hi - f0 {
        assert(is_digit(v@.subrange(f0 as int, hi as int)[j as int]));
        digit_of(v[f0 + j]) as u64
    } else {
        0
    }
}

/// `decimal_thousandths` of `v[lo..hi]`.
pub fn decimal_thousandths_at(v: &Vec<char>, lo: usize, hi: usize) -> (r: Option<u64>)
    requires
        lo <= hi <= v.len(),
    ensures
        r == decimal_thousandths(v@.subrange(lo as int, hi as int)),
{
    let ghost s = v@.subrange(lo as int, hi as int);
    let k = find_char(v, lo, hi, '.');
    assert(s.take(k - lo) == v@.subrange(lo as int, k as int));
    let f0 = if k < hi {
        k + 1
    } else {
        hi
    };
    assert(k < hi ==> s.skip(k - lo + 1) == v@.subrange(f0 as int, hi as int));
    assert(k == hi ==> v@.subrange(f0 as int, hi as int) == Seq::<char>::empty());
    if k == lo {
        return None;
    }
    let whole = match digits_up_to(v, lo, k, 0xffff_ffff) {
        Some(n) => n,
        None => return None,
    };
    if !all_digits_at(v, f0, hi) {
        return None;
    }
    let ghost f = v@.subrange(f0 as int, hi as int);
    let ghost p = (f + seq!['0', '0', '0']).take(3);
    let d0 = digit_or_zero(v, f0, 0, hi);
    let d1 = digit_or_zero(v, f0, 1, hi);
    let d2 = digit_or_zero(v, f0, 2, hi);
    proof {
        assert(p[0] == if 0 < hi - f0 { v@[f0 as int] } else { '0' });
        assert(p[1] == if 1 < hi - f0 { v@[f0 + 1] } else { '0' });
        assert(p[2] == if 2 < hi - f0 { v@[f0 + 2] } else { '0' });
        let first_digit = p.drop_last().drop_last();
        assert(first_digit.len() == 1 && first_digit[0] == p[0]);
        assert(first_digit.drop_last() =~= Seq::<char>::empty());
        assert(digits_value(first_digit.drop_last()) == 0);
        assert(digits_value(first_digit) == digit_value(p[0]));
        assert(digits_value(p.drop_last()) == digit_value(p[0]) * 10 + digit_value(p[1]));
        assert(digits_value(p) == (digit_value(p[0]) * 10 + digit_value(p[1])) * 10 + digit_value(p[2]));
    }
    Some(whole * 1000 + (d0 * 100 + d1 * 10 + d2))
}


pub proof fn lemma_find_space(s: Seq<char>)
    ensures
        find_space(s) <= s.len(),
        s.len() > 0 && !is_space(s[0]) ==> find_space(s) > 0,
    decreases s.len(),
{
    if s.len() > 0 && !is_space(s[0]) {
        lemma_find_space(s.drop_first());
    }
}

/// The white-space separated words of `s`, as `str::split_whitespace` gives them.
pub open spec fn words(s: Seq<char>) -> Seq<Seq<char>>
    decreases s.len(),
    via words_decreases
{
    if s.len() == 0 {
        Seq::empty()
    } else if is_space(s[0]) {
        words(s.drop_first())
    } else {
        let k = find_space(s);
        seq![s.take(k as int)] + words(s.skip(k as int))
    }
}

#[via_fn]
proof fn words_decreases(s: Seq<char>) {
    lemma_find_space(s);
}

/// The views of a list of strings.
pub open spec fn texts(v: Seq<String>) -> Seq<Seq<char>> {
    v.map_values(|s: String| s@)
}

/// The words of `s`, each as a string of its own.
pub fn split_words(s: &str) -> (r: Vec<String>)
    ensures
        texts(r@) == words(s@),
{
    let v = chars_of(s);
    let n = v.len();
    let mut r: Vec<String> = Vec::new();
    let mut i: usize = 0;
    assert(v@.skip(0) =~= v@);
    assert(texts(r@) =~= Seq::<Seq<char>>::empty());
    while i < n
        invariant
            i <= n == v.len(),
            v@ == s@,
            words(s@) == texts(r@) + words(v@.skip(i as int)),
        decreases n - i,
    {
        if is_space_char(v[i]) {
            assert(v@.skip(i as int).drop_first() == v@.skip(i + 1));
            i += 1;
        } else {
            let k = find_space_at(&v, i, n);
            let ghost rest = v@.skip(i as int);
            assert(v@.subrange(i as int, n as int) == rest);
            proof {
                lemma_find_space(rest);
            }
            assert(rest.take(k - i) == v@.subrange(i as int, k as int));
            assert(rest.skip(k - i) == v@.skip(k as int));
            let w = string_of(&v, i, k);
            let ghost old_r = texts(r@);
            r.push(w);
            assert(texts(r@) == old_r.push(w@));
            assert(words(s@) == texts(r@) + words(v@.skip(k as int))) by {
                assert(old_r + (seq![w@] + words(v@.skip(k as int))) =~= old_r.push(w@) + words(
                    v@.skip(k as int),
                ));
            }
            i = k;
        }
    }
    assert(v@.skip(i as int) =~= Seq::<char>::empty());
    assert(texts(r@) + Seq::<Seq<char>>::empty() =~= texts(r@));
    r
}

/// `l` without one `'\r'` at its end.
pub open spec fn strip_cr(l: Seq<char>) -> Seq<char> {
    if l.len() > 0 && l.last() == '\r' {
        l.drop_last()
    } else {
        l
    }
}

/// The lines of `s` as `str::lines` gives them: split at `'\n'` or `"\r\n"`,
/// with no empty line after a final line ending.
pub open spec fn text_lines(s: Seq<char>) -> Seq<Seq<char>>
    decreases s.len(),
{
    let k = find(s, '\n');
    if k < s.len() {
        seq![strip_cr(s.take(k as int))] + text_lines(s.skip(k + 1 as int))
    } else if s.len() == 0 {
        Seq::empty()
    } else {
        seq![s]
    }
}

/// Splits `v` into lines as `str::lines` does.
pub fn split_lines(v: &Vec<char>) -> (r: Vec<String>)
    ensures
        texts(r@) == text_lines(v@),
{
    let n = v.len();
    let mut r: Vec<String> = Vec::new();
    let mut p: usize = 0;
    assert(v@.skip(0) =~= v@);
    assert(texts(r@) =~= Seq::<Seq<char>>::empty());
    while p < n
        invariant
            p <= n == v.len(),
            text_lines(v@) == texts(r@) + text_lines(v@.skip(p as int)),
        decreases n - p,
    {
        let ghost rest = v@.skip(p as int);
        let ghost old_r = texts(r@);
        let q = find_char(v, p, n, '\n');
        assert(v@.subrange(p as int, n as int) == rest);
        if q == n {
            assert(rest.len() > 0);
            assert(rest == v@.subrange(p as int, n as int));
            r.push(string_of(v, p, n));
            assert(texts(r@) == old_r.push(rest));
            assert(text_lines(rest) == seq![rest]);
            assert(v@.skip(n as int) =~= Seq::<char>::empty());
            assert(texts(r@) + text_lines(v@.skip(n as int)) =~= old_r + seq![rest]);
            p = n;
        } else {
            assert(rest.take(q - p) == v@.subrange(p as int, q as int));
            assert(rest.skip(q - p + 1) == v@.skip(q + 1));
            let end = if q > p && v[q - 1] == '\r' {
                q - 1
            } else {
                q
            };
            assert(v@.subrange(p as int, end as int) == strip_cr(v@.subrange(p as int, q as int)));
            let line = string_of(v, p, end);
            r.push(line);
            assert(texts(r@) == old_r.push(line@));
            assert(texts(r@) + text_lines(v@.skip(q + 1)) =~= old_r + (seq![line@] + text_lines(
                v@.skip(q + 1),
            )));
            p = q + 1;
        }
    }
    assert(v@.skip(p as int) =~= Seq::<char>::empty());
    assert(texts(r@) + Seq::<Seq<char>>::empty() =~= texts(r@));
    r
}

} // verus!
