//! Text helpers shared by the whole library: characters of a string, trimming,
//! splitting on a separator, cursor positions inside a one-line buffer and the
//! decimal form of identifiers.
//!
//! Every contract is stated over `Seq<char>`, the view of `str` and `String`.

use vstd::prelude::*;
use vstd::string::*;

verus! {

/// The views of a sequence of strings.
pub open spec fn texts(v: Seq<String>) -> Seq<Seq<char>> {
    Seq::new(v.len(), |i: int| v[i]@)
}

/// Whether `c` is white space: one of the code points that have the Unicode
/// property `White_Space`, which is what `char::is_whitespace` tests.
pub open spec fn is_whitespace(c: char) -> bool {
    ||| ('\u{9}' <= c && c <= '\u{d}')
    ||| c == ' '
    ||| c == '\u{85}'
    ||| c == '\u{a0}'
    ||| c == '\u{1680}'
    ||| ('\u{2000}' <= c && c <= '\u{200a}')
    ||| c == '\u{2028}'
    ||| c == '\u{2029}'
    ||| c == '\u{202f}'
    ||| c == '\u{205f}'
    ||| c == '\u{3000}'
}

/// What `str::to_lowercase` returns for a string with the characters `s`.
pub uninterp spec fn lowercase(s: Seq<char>) -> Seq<char>;

/// Trusted: `char::is_whitespace`, which is true of the code points with the
/// Unicode property `White_Space` and of no other.
#[verifier::external_body]
pub(crate) fn char_is_whitespace(c: char) -> (b: bool)
    ensures
        b == is_whitespace(c),
{
    c.is_whitespace()
}

/// Trusted: `String::push`, which appends one character.
#[verifier::external_body]
pub(crate) fn push_char(s: &mut String, c: char)
    ensures
        final(s)@ == old(s)@.push(c),
{
    s.push(c)
}

/// Trusted: `str::to_lowercase`. The result depends on the characters alone and
/// is the value that the name `lowercase` stands for.
#[verifier::external_body]
pub(crate) fn to_lowercase(s: &str) -> (r: String)
    ensures
        r@ == lowercase(s@),
{
    s.to_lowercase()
}

/// Whether two texts hold the same characters.
pub fn same_text(a: &str, b: &str) -> (r: bool)
    ensures
        r == (a@ == b@),
{
    let x = a.to_owned();
    let y = b.to_owned();
    x == y
}

/// Whether `needle` occurs in `hay` as a contiguous run of characters.
pub open spec fn occurs_in(hay: Seq<char>, needle: Seq<char>) -> bool {
    exists|i: int|
        0 <= i && i + needle.len() <= hay.len() && #[trigger] hay.subrange(
            i,
            i + needle.len(),
        ) == needle
}

/// Whether `needle` occurs in `hay`.
pub fn contains_text(hay: &str, needle: &str) -> (b: bool)
    ensures
        b == occurs_in(hay@, needle@),
{
    let h = to_chars(hay);
    let n = to_chars(needle);
    if n.len() > h.len() {
        return false;
    }
    let last = h.len() - n.len();
    let mut i: usize = 0;
    while i <= last
        invariant
            0 <= i <= last + 1,
            last == h.len() - n.len(),
            h@ == hay@,
            n@ == needle@,
            forall|k: int| 0 <= k < i ==> #[trigger] h@.subrange(k, k + n.len()) != n@,
        decreases last + 1 - i,
    {
        let mut j: usize = 0;
        while j < n.len() && h[i + j] == n[j]
            invariant
                0 <= j <= n.len(),
                i + n.len() <= h.len(),
                forall|m: int| 0 <= m < j ==> h@[i + m] == n@[m],
            decreases n.len() - j,
        {
            j += 1;
        }
        if j == n.len() {
            proof {
                assert(h@.subrange(i as int, i + n.len()) =~= n@);
            }
            return true;
        }
        proof {
            assert(h@.subrange(i as int, i + n.len())[j as int] == h@[i + j]);
        }
        i += 1;
    }
    false
}

/// The characters of `s`, in order.
pub fn to_chars(s: &str) -> (v: Vec<char>)
    ensures
        v@ == s@,
{
    let mut v: Vec<char> = Vec::new();
    for c in it: s.chars()
        invariant
            v@ == it.seq().take(it.index() as int),
            it.seq() == s@,
    {
        v.push(c);
    }
    v
}

/// The first position at or after `from` that holds no white space, or the
/// length of `s` where there is none.
pub open spec fn skip_whitespace(s: Seq<char>, from: int) -> int
    decreases s.len() - from,
{
    if 0 <= from < s.len() && is_whitespace(s[from]) {
        skip_whitespace(s, from + 1)
    } else {
        from
    }
}

/// The end of `s[lo..hi]` once the white space at its end is dropped.
pub open spec fn drop_trailing_whitespace(s: Seq<char>, lo: int, hi: int) -> int
    decreases hi - lo,
{
    if 0 <= lo < hi <= s.len() && is_whitespace(s[hi - 1]) {
        drop_trailing_whitespace(s, lo, hi - 1)
    } else {
        hi
    }
}

/// Where the trimmed part of `s` begins.
pub open spec fn trim_start(s: Seq<char>) -> int {
    skip_whitespace(s, 0)
}

/// Where the trimmed part of `s` ends.
pub open spec fn trim_end(s: Seq<char>) -> int {
    drop_trailing_whitespace(s, trim_start(s), s.len() as int)
}

/// `s` without the white space at its two ends.
pub open spec fn trimmed(s: Seq<char>) -> Seq<char> {
    s.subrange(trim_start(s), trim_end(s))
}

/// `s` holds nothing but white space.
pub open spec fn is_blank(s: Seq<char>) -> bool {
    trimmed(s).len() == 0
}

pub proof fn lemma_skip_whitespace_bounds(s: Seq<char>, from: int)
    requires
        0 <= from <= s.len(),
    ensures
        from <= skip_whitespace(s, from) <= s.len(),
    decreases s.len() - from,
{
    if from < s.len() && is_whitespace(s[from]) {
        lemma_skip_whitespace_bounds(s, from + 1);
    }
}

pub proof fn lemma_drop_trailing_bounds(s: Seq<char>, lo: int, hi: int)
    requires
        0 <= lo <= hi <= s.len(),
    ensures
        lo <= drop_trailing_whitespace(s, lo, hi) <= hi,
    decreases hi - lo,
{
    if lo < hi && is_whitespace(s[hi - 1]) {
        lemma_drop_trailing_bounds(s, lo, hi - 1);
    }
}

/// The bounds of the trimmed part lie inside the string, in order.
pub proof fn lemma_trim_bounds(s: Seq<char>)
    ensures
        0 <= trim_start(s) <= trim_end(s) <= s.len(),
        trimmed(s).len() == trim_end(s) - trim_start(s),
{
    lemma_skip_whitespace_bounds(s, 0);
    lemma_drop_trailing_bounds(s, trim_start(s), s.len() as int);
}

/// The bounds of the trimmed part of `chars`.
fn trim_bounds(chars: &Vec<char>) -> (r: (usize, usize))
    ensures
        r.0 == trim_start(chars@),
        r.1 == trim_end(chars@),
        r.0 <= r.1 <= chars.len(),
{
    let n = chars.len();
    let mut a: usize = 0;
    while a < n && char_is_whitespace(chars[a])
        invariant
            0 <= a <= n,
            n == chars.len(),
            skip_whitespace(chars@, a as int) == skip_whitespace(chars@, 0),
        decreases n - a,
    {
        a += 1;
    }
    let mut b: usize = n;
    while b > a && char_is_whitespace(chars[b - 1])
        invariant
            a <= b <= n,
            n == chars.len(),
            drop_trailing_whitespace(chars@, a as int, b as int) == drop_trailing_whitespace(
                chars@,
                a as int,
                n as int,
            ),
        decreases b - a,
    {
        b -= 1;
    }
    (a, b)
}

/// `s` without the white space at its two ends.
pub fn trim(s: &str) -> (r: &str)
    ensures
        r@ == trimmed(s@),
{
    let chars = to_chars(s);
    let (a, b) = trim_bounds(&chars);
    s.substring_char(a, b)
}

/// Whether `s` holds nothing but white space.
pub fn blank(s: &str) -> (b: bool)
    ensures
        b == is_blank(s@),
{
    let chars = to_chars(s);
    let (a, b) = trim_bounds(&chars);
    proof {
        lemma_trim_bounds(s@);
    }
    a == b
}

/// The first position at or after `from` that holds `sep`, or the length of
/// `s` where there is none.
pub open spec fn next_separator(s: Seq<char>, sep: char, from: int) -> int
    decreases s.len() - from,
{
    if 0 <= from < s.len() && s[from] != sep {
        next_separator(s, sep, from + 1)
    } else {
        from
    }
}

/// The pieces of `s` from position `from` on, cut at each `sep`.
pub open spec fn split_from(s: Seq<char>, sep: char, from: int) -> Seq<Seq<char>>
    decreases s.len() - from,
{
    let i = next_separator(s, sep, from);
    if 0 <= from <= i < s.len() {
        seq![s.subrange(from, i)] + split_from(s, sep, i + 1)
    } else {
        seq![s.subrange(from, s.len() as int)]
    }
}

/// The pieces of `s` cut at each `sep`: one more piece than there are
/// separators, empty pieces included.
pub open spec fn split_on(s: Seq<char>, sep: char) -> Seq<Seq<char>> {
    split_from(s, sep, 0)
}

/// The pieces of `s` cut at each `sep`.
pub fn split(s: &str, sep: char) -> (parts: Vec<String>)
    ensures
        texts(parts@) == split_on(s@, sep),
{
    let chars = to_chars(s);
    let n = chars.len();
    let mut parts: Vec<String> = Vec::new();
    let mut start: usize = 0;
    let mut done = false;
    while !done
        invariant
            0 <= start <= n,
            n == chars.len(),
            chars@ == s@,
            !done ==> texts(parts@) + split_from(s@, sep, start as int) == split_on(s@, sep),
            done ==> texts(parts@) == split_on(s@, sep),
        decreases n - start + (if done { 0int } else { 1int }),
    {
        let mut i: usize = start;
        while i < n && chars[i] != sep
            invariant
                start <= i <= n,
                n == chars.len(),
                next_separator(chars@, sep, i as int) == next_separator(chars@, sep, start as int),
            decreases n - i,
        {
            i += 1;
        }
        let ghost before = texts(parts@);
        if i < n {
            let piece = s.substring_char(start, i);
            parts.push(piece.to_owned());
            proof {
                assert(texts(parts@) =~= before + seq![s@.subrange(start as int, i as int)]);
                assert(before + (seq![s@.subrange(start as int, i as int)] + split_from(
                    s@,
                    sep,
                    i + 1,
                )) =~= texts(parts@) + split_from(s@, sep, i + 1));
            }
            start = i + 1;
        } else {
            let piece = s.substring_char(start, n);
            parts.push(piece.to_owned());
            proof {
                assert(texts(parts@) =~= before + seq![s@.subrange(start as int, n as int)]);
            }
            done = true;
        }
    }
    parts
}

/// Whether the trimmed text begins with `{` and ends with `}`.
pub open spec fn braced(s: Seq<char>) -> bool {
    let t = trimmed(s);
    t.len() > 0 && t[0] == '{' && t[t.len() - 1] == '}'
}

/// Whether `s`, white space at its ends aside, is written between braces.
pub fn is_braced_object(s: &str) -> (b: bool)
    ensures
        b == braced(s@),
{
    let chars = to_chars(s);
    let (a, e) = trim_bounds(&chars);
    proof {
        lemma_trim_bounds(s@);
    }
    a < e && chars[a] == '{' && chars[e - 1] == '}'
}

/// The cursor position at the end of what can be edited inside `s`: before the
/// closing brace of a braced text of two or more characters, else at the end.
pub open spec fn inner_end(s: Seq<char>) -> nat {
    if braced(s) && s.len() >= 2 {
        (s.len() - 1) as nat
    } else {
        s.len()
    }
}

pub fn inner_end_pos(s: &str) -> (pos: usize)
    ensures
        pos == inner_end(s@),
{
    let len = s.unicode_len();
    if is_braced_object(s) && len >= 2 {
        len - 1
    } else {
        len
    }
}

/// `pos`, or the number of characters of `s` where `pos` lies beyond it.
pub fn clamp_cursor(pos: usize, s: &str) -> (r: usize)
    ensures
        r == if pos <= s@.len() { pos as nat } else { s@.len() },
{
    let len = s.unicode_len();
    if pos <= len {
        pos
    } else {
        len
    }
}

/// `s` with `c` put in before position `pos`.
pub fn insert_char(s: &str, pos: usize, c: char) -> (r: String)
    requires
        pos <= s@.len(),
    ensures
        r@ == s@.insert(pos as int, c),
{
    let len = s.unicode_len();
    let mut r = s.substring_char(0, pos).to_owned();
    push_char(&mut r, c);
    r.append(s.substring_char(pos, len));
    proof {
        assert(r@ =~= s@.insert(pos as int, c));
    }
    r
}

/// `s` without the character at position `pos`.
pub fn remove_char(s: &str, pos: usize) -> (r: String)
    requires
        pos < s@.len(),
    ensures
        r@ == s@.remove(pos as int),
{
    let len = s.unicode_len();
    let mut r = s.substring_char(0, pos).to_owned();
    r.append(s.substring_char(pos + 1, len));
    proof {
        assert(r@ =~= s@.remove(pos as int));
    }
    r
}

/// `a` followed by `b`.
pub fn join(a: &str, b: &str) -> (r: String)
    ensures
        r@ == a@ + b@,
{
    let mut r = a.to_owned();
    r.append(b);
    r
}

/// Whether `c` is one of the ten decimal digits.
pub open spec fn is_digit(c: char) -> bool {
    '0' <= c && c <= '9'
}

/// The number a decimal digit stands for.
pub open spec fn digit_value(c: char) -> nat {
    (c as u32 - '0' as u32) as nat
}

/// The number written by the decimal digits `s`, 0 for no digits.
pub open spec fn digits_value(s: Seq<char>) -> nat
    decreases s.len(),
{
    if s.len() == 0 {
        0
    } else {
        digits_value(s.drop_last()) * 10 + digit_value(s.last())
    }
}

/// Whether `d` holds decimal digits only.
pub open spec fn all_digits(d: Seq<char>) -> bool {
    forall|i: int| 0 <= i < d.len() ==> is_digit(#[trigger] d[i])
}

/// The number that `s` is parsed to as a `usize`: an optional `+`, then one or
/// more decimal digits and nothing else, with a value that fits.
pub open spec fn parsed_usize(s: Seq<char>) -> Option<usize> {
    let d = if s.len() > 0 && s[0] == '+' {
        s.drop_first()
    } else {
        s
    };
    if d.len() > 0 && all_digits(d) && digits_value(d) <= usize::MAX {
        Some(digits_value(d) as usize)
    } else {
        None
    }
}

/// The digits of a text are worth no less than the digits it begins with.
pub proof fn lemma_digits_value_grows(s: Seq<char>, k: int)
    requires
        0 <= k <= s.len(),
    ensures
        digits_value(s.take(k)) <= digits_value(s),
    decreases s.len() - k,
{
    if k < s.len() {
        lemma_digits_value_grows(s, k + 1);
        assert(s.take(k + 1).drop_last() =~= s.take(k));
    } else {
        assert(s.take(k) =~= s);
    }
}

/// The number written by the decimal digits of `chars` from position `start`
/// on, where there are digits only, one at least, and the number fits.
pub fn digits_from(chars: &Vec<char>, start: usize) -> (r: Option<u64>)
    requires
        start <= chars.len(),
    ensures
        r == ({
            let d = chars@.skip(start as int);
            if d.len() > 0 && all_digits(d) && digits_value(d) <= u64::MAX {
                Some(digits_value(d) as u64)
            } else {
                None
            }
        }),
{
    let ghost d = chars@.skip(start as int);
    let n = chars.len();
    if start == n {
        return None;
    }
    let mut acc: u64 = 0;
    let mut i: usize = start;
    proof {
        assert(d.take(0) =~= Seq::<char>::empty());
    }
    while i < n
        invariant
            start <= i <= n,
            n == chars.len(),
            d == chars@.skip(start as int),
            forall|k: int| 0 <= k < i - start ==> is_digit(#[trigger] d[k]),
            acc == digits_value(d.take(i - start)),
        decreases n - i,
    {
        let c = chars[i];
        proof {
            assert(d[i - start] == c);
        }
        if !('0' <= c && c <= '9') {
            return None;
        }
        let digit = (c as u32 - '0' as u32) as u64;
        proof {
            assert(d.take(i - start + 1).drop_last() =~= d.take(i - start));
            assert(d.take(i - start + 1).last() == c);
            lemma_digits_value_grows(d, i - start + 1);
        }
        acc = match acc.checked_mul(10) {
            Some(tens) => match tens.checked_add(digit) {
                Some(v) => v,
                None => {
                    return None;
                },
            },
            None => {
                return None;
            },
        };
        i += 1;
    }
    proof {
        assert(d.take(n - start) =~= d);
    }
    Some(acc)
}

/// Reads a number written as an optional `+` and decimal digits.
pub fn parse_usize(s: &str) -> (r: Option<usize>)
    ensures
        r == parsed_usize(s@),
{
    let chars = to_chars(s);
    let start: usize = if chars.len() > 0 && chars[0] == '+' {
        1
    } else {
        0
    };
    proof {
        if start == 1 {
            assert(chars@.skip(1) =~= s@.drop_first());
        } else {
            assert(chars@.skip(0) =~= s@);
        }
    }
    match digits_from(&chars, start) {
        Some(v) => if v <= usize::MAX as u64 {
            Some(v as usize)
        } else {
            None
        },
        None => None,
    }
}

/// The character of a decimal digit.
pub open spec fn digit_char(d: nat) -> char {
    if d == 0 {
        '0'
    } else if d == 1 {
        '1'
    } else if d == 2 {
        '2'
    } else if d == 3 {
        '3'
    } else if d == 4 {
        '4'
    } else if d == 5 {
        '5'
    } else if d == 6 {
        '6'
    } else if d == 7 {
        '7'
    } else if d == 8 {
        '8'
    } else {
        '9'
    }
}

/// The decimal digits of `n`, without leading zeros; `"0"` for 0.
pub open spec fn decimal(n: nat) -> Seq<char>
    decreases n,
{
    if n < 10 {
        seq![digit_char(n)]
    } else {
        decimal(n / 10).push(digit_char(n % 10))
    }
}

/// The decimal digits of `n`, and none at all for 0.
pub open spec fn significant(n: nat) -> Seq<char> {
    if n == 0 {
        Seq::empty()
    } else {
        decimal(n)
    }
}

/// The digits of a number are the digits of its tenth and its last digit.
pub proof fn lemma_decimal_step(n: nat)
    ensures
        decimal(n) == significant(n / 10).push(digit_char(n % 10)),
{
    if n < 10 {
        assert(decimal(n) =~= Seq::<char>::empty().push(digit_char(n)));
    }
}

fn digit_of(d: u64) -> (c: char)
    requires
        d < 10,
    ensures
        c == digit_char(d as nat),
{
    if d == 0 {
        '0'
    } else if d == 1 {
        '1'
    } else if d == 2 {
        '2'
    } else if d == 3 {
        '3'
    } else if d == 4 {
        '4'
    } else if d == 5 {
        '5'
    } else if d == 6 {
        '6'
    } else if d == 7 {
        '7'
    } else if d == 8 {
        '8'
    } else {
        '9'
    }
}

/// `n` written in decimal.
pub fn decimal_text(n: u64) -> (r: String)
    ensures
        r@ == decimal(n as nat),
{
    let mut digits: Vec<char> = Vec::new();
    digits.push(digit_of(n % 10));
    let mut m = n / 10;
    proof {
        lemma_decimal_step(n as nat);
        assert(digits@.reverse() =~= seq![digit_char((n % 10) as nat)]);
        assert(decimal(n as nat) =~= significant(m as nat) + digits@.reverse());
    }
    while m > 0
        invariant
            decimal(n as nat) == significant(m as nat) + digits@.reverse(),
        decreases m,
    {
        let ghost before = digits@;
        let d = digit_of(m % 10);
        digits.push(d);
        proof {
            lemma_decimal_step(m as nat);
            assert(digits@.reverse() =~= seq![d] + before.reverse());
            assert(significant(m as nat) + before.reverse() =~= significant((m / 10) as nat) + (
            seq![d] + before.reverse()));
        }
        m = m / 10;
    }
    let len = digits.len();
    let mut r = String::new();
    let mut i: usize = 0;
    let ghost rev = digits@.reverse();
    while i < len
        invariant
            0 <= i <= len,
            len == digits.len(),
            rev == digits@.reverse(),
            r@ == rev.take(i as int),
        decreases len - i,
    {
        push_char(&mut r, digits[len - 1 - i]);
        proof {
            assert(rev.take(i + 1) =~= rev.take(i as int).push(rev[i as int]));
        }
        i += 1;
    }
    proof {
        assert(rev.take(len as int) =~= rev);
        assert(significant(0) + rev =~= rev);
    }
    r
}

} // verus!
