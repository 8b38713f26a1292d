//! Verified helpers for building and inspecting the ASCII fragments that
//! make up ANSI escape sequences: digits, small decimal numbers, and
//! character-by-character string comparison.

use vstd::prelude::*;
use vstd::string::StrSliceExecFns;
use vstd::string::StringExecFns;

verus! {

/// The sixteen lowercase hexadecimal digit characters, by value.
pub open spec fn spec_digit(d: int) -> char {
    seq!['0', '1', '2', '3', '4', '5', '6', '7', '8', '9', 'a', 'b', 'c', 'd', 'e', 'f'][d]
}

/// Decimal representation (one to three digits, no leading zeros) of a byte value.
pub open spec fn spec_dec(n: int) -> Seq<char> {
    if n < 10 {
        seq![spec_digit(n)]
    } else if n < 100 {
        seq![spec_digit(n / 10), spec_digit(n % 10)]
    } else {
        seq![spec_digit(n / 100), spec_digit((n / 10) % 10), spec_digit(n % 10)]
    }
}

/// A one-character string holding the hexadecimal digit of value `d`.
pub fn digit_str(d: u8) -> (s: &'static str)
    requires
        d < 16,
    ensures
        s@ == seq![spec_digit(d as int)],
{
    let hex = "0123456789abcdef";
    proof {
        reveal_strlit("0123456789abcdef");
        assert(hex@ =~= seq!['0', '1', '2', '3', '4', '5', '6', '7', '8', '9', 'a', 'b', 'c', 'd', 'e', 'f']);
        assert(hex.is_ascii());
    }
    let s = hex.substring_ascii(d as usize, d as usize + 1);
    proof {
        assert(s@ =~= seq![spec_digit(d as int)]);
    }
    s
}

/// The decimal representation of a byte, as a string.
pub fn dec_u8(n: u8) -> (s: String)
    ensures
        s@ == spec_dec(n as int),
{
    let mut s = String::new();
    if n >= 100 {
        s.append(digit_str(n / 100));
    }
    if n >= 10 {
        s.append(digit_str((n / 10) % 10));
    }
    s.append(digit_str(n % 10));
    proof {
        assert(s@ =~= spec_dec(n as int));
    }
    s
}

/// Index of the first occurrence of `c` in `s`, or `s.len()` when absent.
pub open spec fn spec_first_at(s: Seq<char>, c: char) -> int
    decreases s.len(),
{
    if s.len() == 0 {
        0
    } else if s[0] == c {
        0
    } else {
        1 + spec_first_at(s.skip(1), c)
    }
}

/// Any index with the first-occurrence properties is the first occurrence.
pub proof fn lemma_first_at_unique(s: Seq<char>, c: char, k: int)
    requires
        0 <= k <= s.len(),
        k < s.len() ==> s[k] == c,
        forall|j: int| 0 <= j < k ==> s[j] != c,
    ensures
        k == spec_first_at(s, c),
    decreases s.len(),
{
    if s.len() == 0 {
    } else if s[0] == c {
        assert(k == 0);
    } else {
        assert(k >= 1);
        assert(k - 1 < s.skip(1).len() ==> s.skip(1)[k - 1] == s[k]);
        assert forall|j: int| 0 <= j < k - 1 implies s.skip(1)[j] != c by {
            assert(s.skip(1)[j] == s[j + 1]);
        }
        lemma_first_at_unique(s.skip(1), c, k - 1);
    }
}

/// The index of the first occurrence of `c` in `s` at or after `from`,
/// or the length of `s` when there is none.
pub fn find_char(s: &str, c: char, from: usize) -> (r: usize)
    requires
        from <= s@.len(),
    ensures
        from <= r <= s@.len(),
        r - from == spec_first_at(s@.skip(from as int), c),
    {
    let len = s.unicode_len();
    let mut i: usize = from;
    while i < len
        invariant
            from <= i <= len,
            len == s@.len(),
            forall|j: int| from <= j < i ==> s@[j] != c,
        decreases len - i,
    {
        if s.get_char(i) == c {
            proof {
                assert forall|j: int| 0 <= j < i - from implies s@.skip(from as int)[j] != c by {
                    assert(s@.skip(from as int)[j] == s@[j + from]);
                }
                assert(s@.skip(from as int)[i - from] == s@[i as int]);
                lemma_first_at_unique(s@.skip(from as int), c, i - from);
            }
            return i;
        }
        i += 1;
    }
    proof {
        assert forall|j: int| 0 <= j < len - from implies s@.skip(from as int)[j] != c by {
            assert(s@.skip(from as int)[j] == s@[j + from]);
        }
        lemma_first_at_unique(s@.skip(from as int), c, len - from);
    }
    len
}

/// A decimal digit character.
pub open spec fn spec_is_digit(c: char) -> bool {
    '0' <= c && c <= '9'
}

/// The numeric value of a decimal digit character.
pub open spec fn spec_digit_val(c: char) -> int {
    c as u32 - 48
}

/// Every character is a decimal digit.
pub open spec fn spec_all_digits(s: Seq<char>) -> bool {
    forall|i: int| 0 <= i < s.len() ==> spec_is_digit(#[trigger] s[i])
}

/// The value of a string of decimal digits, most significant first.
pub open spec fn spec_dec_value(s: Seq<char>) -> int
    decreases s.len(),
{
    if s.len() == 0 {
        0
    } else {
        spec_dec_value(s.take(s.len() - 1)) * 10 + spec_digit_val(s[s.len() - 1])
    }
}

/// The digit portion of a decimal token: an optional leading `+` sign
/// is dropped.
pub open spec fn spec_digits_part(s: Seq<char>) -> Seq<char> {
    if s.len() > 0 && s[0] == '+' {
        s.skip(1)
    } else {
        s
    }
}

/// Whether `s` is a decimal token for a byte: after the optional sign, at
/// least one character, all digits, value at most 255.
pub open spec fn spec_is_dec_u8(s: Seq<char>) -> bool {
    let d = spec_digits_part(s);
    d.len() > 0 && spec_all_digits(d) && spec_dec_value(d) <= 255
}

/// The value of a decimal token.
pub open spec fn spec_dec_u8_val(s: Seq<char>) -> int {
    spec_dec_value(spec_digits_part(s))
}

/// The value of a decimal byte token fits in a byte.
pub proof fn lemma_dec_u8_val_in_range(s: Seq<char>)
    requires
        spec_is_dec_u8(s),
    ensures
        0 <= spec_dec_u8_val(s) <= 255,
{
    lemma_dec_value_nonneg(spec_digits_part(s));
}

/// The value of a digit string is never negative.
pub proof fn lemma_dec_value_nonneg(s: Seq<char>)
    requires
        spec_all_digits(s),
    ensures
        spec_dec_value(s) >= 0,
    decreases s.len(),
{
    if s.len() > 0 {
        let t = s.take(s.len() - 1);
        assert forall|i: int| 0 <= i < t.len() implies spec_is_digit(#[trigger] t[i]) by {
            assert(t[i] == s[i]);
        }
        lemma_dec_value_nonneg(t);
    }
}

/// Extending a digit string never shrinks its value.
pub proof fn lemma_dec_value_grows(s: Seq<char>, k: int)
    requires
        0 <= k <= s.len(),
        spec_all_digits(s),
    ensures
        spec_dec_value(s.take(k)) <= spec_dec_value(s),
    decreases s.len() - k,
{
    if k < s.len() {
        lemma_dec_value_grows(s, k + 1);
        assert(s.take(k + 1).take(k) =~= s.take(k));
        assert forall|i: int| 0 <= i < k implies spec_is_digit(#[trigger] s.take(k)[i]) by {
            assert(s.take(k)[i] == s[i]);
        }
        lemma_dec_value_nonneg(s.take(k));
        assert(s.take(k + 1)[k] == s[k]);
        assert(spec_dec_value(s.take(k + 1)) == spec_dec_value(s.take(k)) * 10 + spec_digit_val(
            s[k],
        ));
    } else {
        assert(s.take(k) =~= s);
    }
}

/// Parses a decimal byte token as the standard library's byte parser does:
/// an optional `+` sign, then one or more digits whose value fits in a byte.
pub fn parse_dec_u8(s: &str) -> (r: Option<u8>)
    ensures
        (r is Some) <==> spec_is_dec_u8(s@),
        (r is Some) ==> r->0 as int == spec_dec_u8_val(s@),
{
    let len = s.unicode_len();
    let start: usize = if len > 0 && s.get_char(0) == '+' {
        1
    } else {
        0
    };
    let ghost d = spec_digits_part(s@);
    proof {
        assert(d =~= s@.skip(start as int));
    }
    if len == start {
        return None;
    }
    let mut acc: u32 = 0;
    let mut i: usize = start;
    while i < len
        invariant
            start <= i <= len,
            len == s@.len(),
            d == spec_digits_part(s@),
            d == s@.skip(start as int),
            d.len() == len - start,
            forall|j: int| 0 <= j < i - start ==> spec_is_digit(#[trigger] d[j]),
            acc <= 255,
            acc as int == spec_dec_value(d.take(i - start)),
        decreases len - i,
    {
        let c = s.get_char(i);
        proof {
            assert(d[i - start] == s@[i as int]);
        }
        let v = c as u32;
        if !(48 <= v && v <= 57) {
            proof {
                assert(!spec_is_digit(d[i - start]));
            }
            return None;
        }
        proof {
            assert(d.take(i - start + 1).take(i - start) =~= d.take(i - start));
            assert(d.take(i - start + 1)[i - start] == d[i - start]);
        }
        acc = acc * 10 + (v - 48);
        if acc > 255 {
            proof {
                if spec_all_digits(d) {
                    lemma_dec_value_grows(d, i - start + 1);
                }
            }
            return None;
        }
        i += 1;
    }
    proof {
        assert(d.take(len - start) =~= d);
    }
    Some(acc as u8)
}

/// The 26 lowercase letters, by position in the alphabet.
pub open spec fn spec_lower_alphabet() -> Seq<char> {
    seq![
        'a',
        'b',
        'c',
        'd',
        'e',
        'f',
        'g',
        'h',
        'i',
        'j',
        'k',
        'l',
        'm',
        'n',
        'o',
        'p',
        'q',
        'r',
        's',
        't',
        'u',
        'v',
        'w',
        'x',
        'y',
        'z',
    ]
}

/// ASCII lowercasing of one character: uppercase letters map to their
/// lowercase partner, everything else is unchanged.
pub open spec fn spec_lower_char(c: char) -> char {
    if 'A' <= c && c <= 'Z' {
        spec_lower_alphabet()[c as u32 - 65]
    } else {
        c
    }
}

/// ASCII lowercasing of a character sequence.
pub open spec fn spec_lower(s: Seq<char>) -> Seq<char> {
    s.map_values(|c: char| spec_lower_char(c))
}

/// ASCII lowercasing of a string.
pub fn to_lower(s: &str) -> (r: String)
    ensures
        r@ == spec_lower(s@),
{
    let lower = "abcdefghijklmnopqrstuvwxyz";
    proof {
        reveal_strlit("abcdefghijklmnopqrstuvwxyz");
        assert(lower@ =~= spec_lower_alphabet());
        assert(lower.is_ascii());
    }
    let len = s.unicode_len();
    let mut out = String::new();
    let mut i: usize = 0;
    while i < len
        invariant
            0 <= i <= len,
            len == s@.len(),
            lower@ == spec_lower_alphabet(),
            lower.is_ascii(),
            out@ == spec_lower(s@).take(i as int),
        decreases len - i,
    {
        let c = s.get_char(i);
        let v = c as u32;
        if 65 <= v && v <= 90 {
            let idx = (v - 65) as usize;
            out.append(lower.substring_ascii(idx, idx + 1));
        } else {
            out.append(s.substring_char(i, i + 1));
        }
        proof {
            assert(out@ =~= spec_lower(s@).take(i as int + 1));
        }
        i += 1;
    }
    proof {
        assert(spec_lower(s@).take(len as int) =~= spec_lower(s@));
    }
    out
}

/// A whitespace character, in the ASCII range.
pub open spec fn spec_is_space(c: char) -> bool {
    c == ' ' || c == '\t' || c == '\n' || c == '\r' || c == '\u{b}' || c == '\u{c}'
}

/// The sequence without its leading whitespace.
pub open spec fn spec_ltrim(s: Seq<char>) -> Seq<char>
    decreases s.len(),
{
    if s.len() > 0 && spec_is_space(s[0]) {
        spec_ltrim(s.skip(1))
    } else {
        s
    }
}

/// The sequence without its trailing whitespace.
pub open spec fn spec_rtrim(s: Seq<char>) -> Seq<char>
    decreases s.len(),
{
    if s.len() > 0 && spec_is_space(s[s.len() - 1]) {
        spec_rtrim(s.take(s.len() - 1))
    } else {
        s
    }
}

/// The sequence without leading and trailing whitespace.
pub open spec fn spec_trim(s: Seq<char>) -> Seq<char> {
    spec_rtrim(spec_ltrim(s))
}

/// If everything before `k` is whitespace and `k` is not (or is the end),
/// left-trimming drops exactly the first `k` characters.
pub proof fn lemma_ltrim_at(s: Seq<char>, k: int)
    requires
        0 <= k <= s.len(),
        forall|j: int| 0 <= j < k ==> spec_is_space(#[trigger] s[j]),
        k < s.len() ==> !spec_is_space(s[k]),
    ensures
        spec_ltrim(s) == s.skip(k),
    decreases k,
{
    if k == 0 {
        if s.len() > 0 && spec_is_space(s[0]) {
            assert(k < s.len());
            assert(false);
        }
        assert(s.skip(0) =~= s);
    } else {
        assert(spec_is_space(s[0]));
        assert forall|j: int| 0 <= j < k - 1 implies spec_is_space(#[trigger] s.skip(1)[j]) by {
            assert(s.skip(1)[j] == s[j + 1]);
        }
        assert(k - 1 < s.skip(1).len() ==> s.skip(1)[k - 1] == s[k]);
        lemma_ltrim_at(s.skip(1), k - 1);
        assert(s.skip(1).skip(k - 1) =~= s.skip(k));
    }
}

/// If everything from `k` on is whitespace and the character before `k`
/// is not (or `k` is the start), right-trimming keeps exactly the first
/// `k` characters.
pub proof fn lemma_rtrim_at(s: Seq<char>, k: int)
    requires
        0 <= k <= s.len(),
        forall|j: int| k <= j < s.len() ==> spec_is_space(#[trigger] s[j]),
        k > 0 ==> !spec_is_space(s[k - 1]),
    ensures
        spec_rtrim(s) == s.take(k),
    decreases s.len(),
{
    if k == s.len() {
        if s.len() > 0 && spec_is_space(s[s.len() - 1]) {
            assert(!spec_is_space(s[k - 1]));
            assert(false);
        }
        assert(s.take(k) =~= s);
    } else {
        assert(spec_is_space(s[s.len() - 1]));
        let t = s.take(s.len() - 1);
        assert forall|j: int| k <= j < t.len() implies spec_is_space(#[trigger] t[j]) by {
            assert(t[j] == s[j]);
        }
        assert(k > 0 ==> t[k - 1] == s[k - 1]);
        lemma_rtrim_at(t, k);
        assert(t.take(k) =~= s.take(k));
    }
}

/// The string without leading and trailing whitespace (ASCII whitespace,
/// which covers every whitespace character that can occur in a color name).
pub fn trim(s: &str) -> (r: &str)
    ensures
        r@ == spec_trim(s@),
{
    let len = s.unicode_len();
    let mut start: usize = 0;
    while start < len && is_space(s.get_char(start))
        invariant
            0 <= start <= len,
            len == s@.len(),
            forall|j: int| 0 <= j < start ==> spec_is_space(#[trigger] s@[j]),
        decreases len - start,
    {
        start += 1;
    }
    proof {
        lemma_ltrim_at(s@, start as int);
    }
    let mut end: usize = len;
    while end > start && is_space(s.get_char(end - 1))
        invariant
            start <= end <= len,
            len == s@.len(),
            forall|j: int| end <= j < len ==> spec_is_space(#[trigger] s@[j]),
        decreases end,
    {
        end -= 1;
    }
    proof {
        let t = s@.skip(start as int);
        assert forall|j: int| end - start <= j < t.len() implies spec_is_space(
            #[trigger] t[j],
        ) by {
            assert(t[j] == s@[j + start]);
        }
        assert(end - start > 0 ==> t[end - start - 1] == s@[end as int - 1]);
        lemma_rtrim_at(t, end - start);
        assert(t.take(end - start) =~= s@.subrange(start as int, end as int));
    }
    s.substring_char(start, end)
}

/// Whether the character is ASCII whitespace.
fn is_space(c: char) -> (r: bool)
    ensures
        r == spec_is_space(c),
{
    c == ' ' || c == '\t' || c == '\n' || c == '\r' || c == '\u{b}' || c == '\u{c}'
}

/// Character-by-character string equality, decided at the `Seq<char>` level.
pub fn str_eq(a: &str, b: &str) -> (r: bool)
    ensures
        r == (a@ == b@),
{
    let alen = a.unicode_len();
    let blen = b.unicode_len();
    if alen != blen {
        return false;
    }
    let mut i: usize = 0;
    while i < alen
        invariant
            alen == a@.len(),
            blen == b@.len(),
            alen == blen,
            0 <= i <= alen,
            forall|j: int| 0 <= j < i ==> a@[j] == b@[j],
        decreases alen - i,
    {
        let ca = a.get_char(i);
        let cb = b.get_char(i);
        if ca != cb {
            return false;
        }
        i += 1;
    }
    proof {
        assert(a@ =~= b@);
    }
    true
}

} // verus!
