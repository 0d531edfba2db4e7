//! Character-level string operations with exact specifications.

use vstd::prelude::*;

verus! {

/// `s` with every trailing occurrence of `c` removed.
pub open spec fn trim_end_char(s: Seq<char>, c: char) -> Seq<char>
    decreases s.len(),
{
    if s.len() > 0 && s.last() == c {
        trim_end_char(s.drop_last(), c)
    } else {
        s
    }
}

/// Removes every trailing `/` (as `str::trim_end_matches('/')`).
pub fn trim_end_slashes(s: &str) -> (r: String)
    ensures
        r@ == trim_end_char(s@, '/'),
{
    let mut end = s.unicode_len();
    assert(s@.subrange(0, end as int) =~= s@);
    while end > 0 && s.get_char(end - 1) == '/'
        invariant
            end <= s@.len(),
            trim_end_char(s@, '/') == trim_end_char(s@.subrange(0, end as int), '/'),
        decreases end,
    {
        assert(s@.subrange(0, end as int).drop_last() =~= s@.subrange(0, end - 1));
        end = end - 1;
    }
    String::from_str(s.substring_char(0, end))
}


/// The digit for `d` (below 16) in lower-case hexadecimal notation.
pub open spec fn digit_char(d: nat) -> char {
    if d < 10 {
        (48 + d) as char
    } else {
        (87 + d) as char
    }
}

/// The digits of `n` written in base `radix`, most significant first, with
/// no leading zeros ("0" for zero).
pub open spec fn radix_digits(n: nat, radix: nat) -> Seq<char>
    decreases n,
{
    if radix < 2 || n < radix {
        seq![digit_char(n)]
    } else {
        proof {
            assert(n / radix < n) by (nonlinear_arith)
                requires
                    radix >= 2,
                    n >= radix,
            ;
        }
        radix_digits(n / radix, radix).push(digit_char(n % radix))
    }
}

/// The decimal numeral of `n`.
pub open spec fn decimal(n: nat) -> Seq<char> {
    radix_digits(n, 10)
}

/// The digit `d` (below 16) as a one-character string.
pub fn digit_string(d: u64) -> (r: String)
    requires
        d < 16,
    ensures
        r@ == seq![digit_char(d as nat)],
{
    let table = "0123456789abcdef";
    proof {
        reveal_strlit("0123456789abcdef");
    }
    let i = d as usize;
    let piece = table.substring_char(i, i + 1);
    assert(piece@ =~= seq![digit_char(d as nat)]);
    String::from_str(piece)
}

/// Writes `n` in base `radix` (2 to 16) with lower-case digits, as
/// `format!("{}", n)` does for 10 and `format!("{:o}", n)` for 8.
pub fn radix_string(n: u64, radix: u64) -> (r: String)
    requires
        2 <= radix <= 16,
    ensures
        r@ == radix_digits(n as nat, radix as nat),
    decreases n,
{
    if n < radix {
        digit_string(n)
    } else {
        assert(n / radix < n) by (nonlinear_arith)
            requires
                radix >= 2,
                n >= radix,
        ;
        let mut out = radix_string(n / radix, radix);
        let last = digit_string(n % radix);
        out.append(last.as_str());
        out
    }
}

/// Writes `n` in decimal notation, as `n.to_string()` does.
pub fn decimal_string(n: u64) -> (r: String)
    ensures
        r@ == decimal(n as nat),
{
    radix_string(n, 10)
}

/// Whether `c` is white space in the sense of `char::is_whitespace`: the
/// characters with the Unicode `White_Space` property.
pub open spec fn is_white_space(c: char) -> bool {
    ||| c == ' '
    ||| ('\t' <= c && c <= '\r')
    ||| c == '\u{85}'
    ||| c == '\u{a0}'
    ||| c == '\u{1680}'
    ||| ('\u{2000}' <= c && c <= '\u{200a}')
    ||| c == '\u{2028}'
    ||| c == '\u{2029}'
    ||| c == '\u{202f}'
    ||| c == '\u{205f}'
    ||| c == '\u{3000}'
}

/// Decides `is_white_space`.
pub fn white_space(c: char) -> (b: bool)
    ensures
        b == is_white_space(c),
{
    c == ' ' || ('\t' <= c && c <= '\r') || c == '\u{85}' || c == '\u{a0}' || c == '\u{1680}'
        || ('\u{2000}' <= c && c <= '\u{200a}') || c == '\u{2028}' || c == '\u{2029}' || c
        == '\u{202f}' || c == '\u{205f}' || c == '\u{3000}'
}

/// `s` without its trailing white space.
pub open spec fn trim_end_white(s: Seq<char>) -> Seq<char>
    decreases s.len(),
{
    if s.len() > 0 && is_white_space(s.last()) {
        trim_end_white(s.drop_last())
    } else {
        s
    }
}

/// `s` without its leading white space.
pub open spec fn trim_start_white(s: Seq<char>) -> Seq<char>
    decreases s.len(),
{
    if s.len() > 0 && is_white_space(s[0]) {
        trim_start_white(s.drop_first())
    } else {
        s
    }
}

/// `s` without its leading and trailing white space.
pub open spec fn trim_white(s: Seq<char>) -> Seq<char> {
    trim_start_white(trim_end_white(s))
}

/// Removes leading and trailing white space (as `str::trim`).
pub fn trim_white_space(s: &str) -> (r: String)
    ensures
        r@ == trim_white(s@),
{
    let mut end = s.unicode_len();
    assert(s@.subrange(0, end as int) =~= s@);
    while end > 0 && white_space(s.get_char(end - 1))
        invariant
            end <= s@.len(),
            trim_end_white(s@) == trim_end_white(s@.subrange(0, end as int)),
        decreases end,
    {
        assert(s@.subrange(0, end as int).drop_last() =~= s@.subrange(0, end - 1));
        end = end - 1;
    }
    let mut start: usize = 0;
    assert(s@.subrange(0, end as int).subrange(0, end as int) =~= s@.subrange(0, end as int));
    while start < end && white_space(s.get_char(start))
        invariant
            start <= end <= s@.len(),
            trim_end_white(s@) == s@.subrange(0, end as int),
            trim_white(s@) == trim_start_white(s@.subrange(start as int, end as int)),
        decreases end - start,
    {
        assert(s@.subrange(start as int, end as int).drop_first() =~= s@.subrange(
            start + 1,
            end as int,
        ));
        start = start + 1;
    }
    String::from_str(s.substring_char(start, end))
}

/// `i` is the position of the first `c` in `s`.
pub open spec fn is_first_index_of(s: Seq<char>, c: char, i: int) -> bool {
    &&& 0 <= i < s.len()
    &&& s[i] == c
    &&& forall|j: int| 0 <= j < i ==> s[j] != c
}

/// The parts of `s` before and after its first `c`, or `None` where `s`
/// holds no `c` (as `str::split_once` with a character pattern).
pub open spec fn split_once_char(s: Seq<char>, c: char) -> Option<(Seq<char>, Seq<char>)> {
    if exists|i: int| is_first_index_of(s, c, i) {
        let i = choose|i: int| is_first_index_of(s, c, i);
        Some((s.take(i), s.skip(i + 1)))
    } else {
        None
    }
}

/// Splits `s` at its first `c`.
pub fn split_once(s: &str, c: char) -> (r: Option<(String, String)>)
    ensures
        match r {
            Some((before, after)) => split_once_char(s@, c) == Some((before@, after@)),
            None => split_once_char(s@, c) is None,
        },
{
    let n = s.unicode_len();
    let mut i: usize = 0;
    while i < n
        invariant
            i <= n,
            n == s@.len(),
            forall|j: int| 0 <= j < i ==> s@[j] != c,
        decreases n - i,
    {
        if s.get_char(i) == c {
            assert(is_first_index_of(s@, c, i as int));
            proof {
                let k = choose|k: int| is_first_index_of(s@, c, k);
                if k < i {
                    assert(s@[k] != c);
                } else if k > i {
                    assert(s@[i as int] != c);
                }
                assert(k == i as int);
            }
            let before = String::from_str(s.substring_char(0, i));
            let after = String::from_str(s.substring_char(i + 1, n));
            assert(before@ =~= s@.take(i as int));
            assert(after@ =~= s@.skip(i + 1));
            return Some((before, after));
        }
        i = i + 1;
    }
    assert(!exists|k: int| is_first_index_of(s@, c, k));
    None
}

/// Whether `a` and `b` hold the same characters.
pub fn same_chars(a: &str, b: &str) -> (r: bool)
    ensures
        r == (a@ == b@),
{
    let n = a.unicode_len();
    if n != b.unicode_len() {
        return false;
    }
    let mut i: usize = 0;
    while i < n
        invariant
            i <= n,
            n == a@.len(),
            n == b@.len(),
            forall|j: int| 0 <= j < i ==> a@[j] == b@[j],
        decreases n - i,
    {
        if a.get_char(i) != b.get_char(i) {
            return false;
        }
        i = i + 1;
    }
    assert(a@ =~= b@);
    true
}

/// `n` spaces.
pub open spec fn spaces(n: nat) -> Seq<char> {
    Seq::new(n, |i: int| ' ')
}

/// `s` right-aligned in a field of `w` characters (as `{:>w}`).
pub open spec fn pad_left(s: Seq<char>, w: nat) -> Seq<char> {
    if s.len() >= w {
        s
    } else {
        spaces((w - s.len()) as nat) + s
    }
}

/// `s` left-aligned in a field of `w` characters (as `{:<w}`).
pub open spec fn pad_right(s: Seq<char>, w: nat) -> Seq<char> {
    if s.len() >= w {
        s
    } else {
        s + spaces((w - s.len()) as nat)
    }
}

/// A string of `n` spaces.
pub fn space_string(n: usize) -> (r: String)
    ensures
        r@ == spaces(n as nat),
{
    let mut out = String::new();
    let mut i: usize = 0;
    while i < n
        invariant
            i <= n,
            out@ == spaces(i as nat),
        decreases n - i,
    {
        out.append(" ");
        proof {
            reveal_strlit(" ");
        }
        assert(out@ =~= spaces((i + 1) as nat));
        i = i + 1;
    }
    out
}

/// Right-aligns `s` in a field of `w` characters.
pub fn align_right(s: &str, w: usize) -> (r: String)
    ensures
        r@ == pad_left(s@, w as nat),
{
    let n = s.unicode_len();
    if n >= w {
        String::from_str(s)
    } else {
        let mut out = space_string(w - n);
        out.append(s);
        out
    }
}

/// Left-aligns `s` in a field of `w` characters.
pub fn align_left(s: &str, w: usize) -> (r: String)
    ensures
        r@ == pad_right(s@, w as nat),
{
    let n = s.unicode_len();
    if n >= w {
        String::from_str(s)
    } else {
        let pad = space_string(w - n);
        let mut out = String::from_str(s);
        out.append(pad.as_str());
        out
    }
}

/// Digits grouped by threes from the right with `,` (`1550` as `1,550`).
pub open spec fn group_thousands(d: Seq<char>) -> Seq<char>
    decreases d.len(),
{
    if d.len() <= 3 {
        d
    } else {
        group_thousands(d.take(d.len() - 3)) + ","@ + d.skip(d.len() - 3)
    }
}

/// Groups the digits of `d` by threes with `,`.
pub fn grouped(d: &str) -> (r: String)
    ensures
        r@ == group_thousands(d@),
    decreases d@.len(),
{
    let n = d.unicode_len();
    if n <= 3 {
        String::from_str(d)
    } else {
        let head = d.substring_char(0, n - 3);
        let tail = d.substring_char(n - 3, n);
        let mut out = grouped(head);
        out.append(",");
        out.append(tail);
        assert(head@ =~= d@.take(d@.len() - 3));
        assert(tail@ =~= d@.skip(d@.len() - 3));
        out
    }
}

/// Whether `c` is a decimal digit.
pub open spec fn is_digit(c: char) -> bool {
    '0' <= c && c <= '9'
}

/// The number that the decimal digits `s` stand for.
pub open spec fn digits_value(s: Seq<char>) -> nat
    decreases s.len(),
{
    if s.len() == 0 {
        0
    } else {
        digits_value(s.drop_last()) * 10 + ((s.last() as int) - 48) as nat
    }
}

/// The count that `s` writes: one or more decimal digits standing for a
/// number that fits in 64 bits; nothing for any other text.
pub open spec fn count_value(s: Seq<char>) -> Option<nat> {
    if s.len() > 0 && (forall|i: int| 0 <= i < s.len() ==> is_digit(s[i])) && digits_value(s)
        <= u64::MAX {
        Some(digits_value(s))
    } else {
        None
    }
}

proof fn lemma_digits_value_grows(s: Seq<char>, j: int)
    requires
        0 <= j <= s.len(),
        forall|i: int| 0 <= i < s.len() ==> is_digit(s[i]),
    ensures
        digits_value(s.take(j)) <= digits_value(s),
    decreases s.len(),
{
    if j < s.len() {
        assert(s.drop_last().take(j) =~= s.take(j));
        lemma_digits_value_grows(s.drop_last(), j);
    } else {
        assert(s.take(j) =~= s);
    }
}

/// Reads a count written in decimal digits.
pub fn parse_count(s: &str) -> (r: Option<u64>)
    ensures
        match r {
            Some(v) => count_value(s@) == Some(v as nat),
            None => count_value(s@) is None,
        },
{
    let n = s.unicode_len();
    if n == 0 {
        return None;
    }
    let mut acc: u64 = 0;
    let mut i: usize = 0;
    assert(s@.take(0) =~= Seq::<char>::empty());
    while i < n
        invariant
            i <= n,
            n == s@.len(),
            forall|k: int| 0 <= k < i ==> is_digit(s@[k]),
            acc as nat == digits_value(s@.take(i as int)),
        decreases n - i,
    {
        let c = s.get_char(i);
        if !('0' <= c && c <= '9') {
            return None;
        }
        let d = (c as u32 - 48) as u64;
        assert(s@.take(i + 1).drop_last() =~= s@.take(i as int));
        if acc > (u64::MAX - d) / 10 {
            proof {
                assert(acc * 10 + d > u64::MAX) by (nonlinear_arith)
                    requires
                        acc > (u64::MAX - d) / 10,
                        d <= 9,
                ;
                if forall|k: int| 0 <= k < s@.len() ==> is_digit(s@[k]) {
                    lemma_digits_value_grows(s@, i + 1);
                }
            }
            return None;
        }
        assert(acc * 10 + d <= u64::MAX) by (nonlinear_arith)
            requires
                acc <= (u64::MAX - d) / 10,
                d <= 9,
        ;
        acc = acc * 10 + d;
        i = i + 1;
    }
    assert(s@.take(n as int) =~= s@);
    Some(acc)
}

} // verus!
