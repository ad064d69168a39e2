//! Character-level text helpers: ASCII case folding, whitespace trimming,
//! substring search, field splitting, and decimal and hexadecimal numbers.
use vstd::prelude::*;

verus! {

/// ASCII lowercase of a character; other characters are unchanged.
pub open spec fn spec_lower(c: char) -> char {
    if 'A' <= c && c <= 'Z' {
        ((c as u32) + 32) as char
    } else {
        c
    }
}

pub open spec fn spec_lower_seq(s: Seq<char>) -> Seq<char> {
    s.map_values(|c: char| spec_lower(c))
}

pub fn lower_char(c: char) -> (r: char)
    ensures
        r == spec_lower(c),
{
    if 'A' <= c && c <= 'Z' {
        let code: u32 = c as u32 + 32;
        proof {
            assert(code <= 0x7a);
        }
        (code as u8) as char
    } else {
        c
    }
}

/// The characters of a string.
pub fn chars_of(s: &str) -> (v: Vec<char>)
    ensures
        v@ == s@,
{
    let n = s.unicode_len();
    let mut v: Vec<char> = Vec::new();
    let mut i: usize = 0;
    while i < n
        invariant
            n == s@.len(),
            i <= n,
            v@ == s@.subrange(0, i as int),
        decreases n - i,
    {
        v.push(s.get_char(i));
        i = i + 1;
    }
    proof {
        assert(s@.subrange(0, n as int) =~= s@);
    }
    v
}

/// The ASCII-lowercased characters of a string.
pub fn lower_chars(s: &str) -> (v: Vec<char>)
    ensures
        v@ == spec_lower_seq(s@),
{
    let n = s.unicode_len();
    let mut v: Vec<char> = Vec::new();
    let mut i: usize = 0;
    while i < n
        invariant
            n == s@.len(),
            i <= n,
            v@ == spec_lower_seq(s@.subrange(0, i as int)),
        decreases n - i,
    {
        let c = lower_char(s.get_char(i));
        proof {
            assert(spec_lower_seq(s@.subrange(0, i as int + 1)) =~= spec_lower_seq(s@.subrange(0, i as int)).push(c));
        }
        v.push(c);
        i = i + 1;
    }
    proof {
        assert(s@.subrange(0, n as int) =~= s@);
    }
    v
}

/// Unicode white space, as `char::is_whitespace` defines it.
pub open spec fn spec_is_whitespace(c: char) -> bool {
    ||| ('\t' <= c && c <= '\r')
    ||| c == ' '
    ||| c == '\u{85}'
    ||| c == '\u{a0}'
    ||| c == '\u{1680}'
    ||| ('\u{2000}' <= c && c <= '\u{200a}')
    ||| c == '\u{2028}'
    ||| c == '\u{2029}'
    ||| c == '\u{202f}'
    ||| c == '\u{205f}'
    ||| c == '\u{3000}'
}

pub fn is_whitespace(c: char) -> (r: bool)
    ensures
        r == spec_is_whitespace(c),
{
    ('\t' <= c && c <= '\r') || c == ' ' || c == '\u{85}' || c == '\u{a0}' || c == '\u{1680}'
        || ('\u{2000}' <= c && c <= '\u{200a}') || c == '\u{2028}' || c == '\u{2029}' || c
        == '\u{202f}' || c == '\u{205f}' || c == '\u{3000}'
}

/// Start of `s` without leading white space.
pub open spec fn spec_trim_start(s: Seq<char>) -> int
    decreases s.len(),
{
    if s.len() > 0 && spec_is_whitespace(s[0]) {
        1 + spec_trim_start(s.subrange(1, s.len() as int))
    } else {
        0
    }
}

/// `s` without leading and trailing white space.
pub open spec fn spec_trim(s: Seq<char>) -> Seq<char>
    decreases s.len(),
{
    if s.len() > 0 && spec_is_whitespace(s[0]) {
        spec_trim(s.subrange(1, s.len() as int))
    } else if s.len() > 0 && spec_is_whitespace(s[s.len() - 1]) {
        spec_trim(s.subrange(0, s.len() - 1))
    } else {
        s
    }
}

/// The characters of `s` with leading and trailing white space removed.
pub fn trimmed(s: &[char]) -> (t: Vec<char>)
    ensures
        t@ == spec_trim(s@),
{
    let mut lo: usize = 0;
    let mut hi: usize = s.len();
    proof {
        assert(s@.subrange(0, hi as int) =~= s@);
    }
    while lo < hi && is_whitespace(s[lo])
        invariant
            lo <= hi <= s@.len(),
            hi == s@.len(),
            spec_trim(s@) == spec_trim(s@.subrange(lo as int, hi as int)),
        decreases hi - lo,
    {
        proof {
            let sub = s@.subrange(lo as int, hi as int);
            assert(sub.subrange(1, sub.len() as int) =~= s@.subrange(lo as int + 1, hi as int));
        }
        lo = lo + 1;
    }
    while lo < hi && is_whitespace(s[hi - 1])
        invariant
            lo <= hi <= s@.len(),
            spec_trim(s@) == spec_trim(s@.subrange(lo as int, hi as int)),
            lo < hi ==> !spec_is_whitespace(s@[lo as int]),
        decreases hi - lo,
    {
        proof {
            let sub = s@.subrange(lo as int, hi as int);
            assert(sub.subrange(0, sub.len() - 1) =~= s@.subrange(lo as int, hi - 1));
        }
        hi = hi - 1;
    }
    let mut t: Vec<char> = Vec::new();
    let mut i: usize = lo;
    while i < hi
        invariant
            lo <= i <= hi <= s@.len(),
            t@ == s@.subrange(lo as int, i as int),
        decreases hi - i,
    {
        t.push(s[i]);
        proof {
            assert(s@.subrange(lo as int, i as int + 1) =~= s@.subrange(lo as int, i as int).push(s@[i as int]));
        }
        i = i + 1;
    }
    t
}

/// `needle` occurs in `hay`.
pub open spec fn spec_contains(hay: Seq<char>, needle: Seq<char>) -> bool {
    exists|i: int| 0 <= i && i + needle.len() <= hay.len() && #[trigger] hay.subrange(i, i + needle.len()) == needle
}

fn matches_at(hay: &[char], needle: &[char], at: usize) -> (r: bool)
    requires
        at + needle@.len() <= hay@.len(),
    ensures
        r == (hay@.subrange(at as int, at + needle@.len()) == needle@),
{
    let _hay_len = hay.len();
    let mut k: usize = 0;
    while k < needle.len()
        invariant
            at + needle@.len() <= hay@.len(),
            hay@.len() <= usize::MAX,
            k <= needle@.len(),
            forall|j: int| 0 <= j < k ==> hay@[at + j] == needle@[j],
        decreases needle@.len() - k,
    {
        if hay[at + k] != needle[k] {
            proof {
                let sub = hay@.subrange(at as int, at + needle@.len());
                assert(sub[k as int] != needle@[k as int]);
            }
            return false;
        }
        k = k + 1;
    }
    proof {
        assert(hay@.subrange(at as int, at + needle@.len()) =~= needle@);
    }
    true
}

/// Whether `needle` occurs in `hay`.
pub fn contains(hay: &[char], needle: &[char]) -> (r: bool)
    ensures
        r == spec_contains(hay@, needle@),
{
    if needle.len() > hay.len() {
        return false;
    }
    if needle.len() == 0 {
        proof {
            assert(hay@.subrange(0int, 0int + needle@.len()) =~= needle@);
        }
        return true;
    }
    let last = hay.len() - needle.len();
    let mut i: usize = 0;
    while i <= last
        invariant
            last + needle@.len() == hay@.len(),
            needle@.len() > 0,
            hay@.len() <= usize::MAX,
            i <= last + 1,
            forall|j: int| 0 <= j < i ==> #[trigger] hay@.subrange(j, j + needle@.len()) != needle@,
        decreases last + 1 - i,
    {
        if matches_at(hay, needle, i) {
            proof {
                assert(hay@.subrange(i as int, i + needle@.len()) == needle@);
            }
            return true;
        }
        i = i + 1;
    }
    false
}

/// Lowercase hexadecimal digit of `d < 16`.
pub open spec fn spec_hex_char(d: int) -> char {
    if d < 10 {
        ((48 + d) as u32) as char
    } else {
        ((87 + d) as u32) as char
    }
}

/// Decimal digits of `n`, most significant first.
pub open spec fn spec_decimal(n: nat) -> Seq<char>
    decreases n,
{
    if n < 10 {
        seq![spec_hex_char(n as int)]
    } else {
        spec_decimal(n / 10).push(spec_hex_char((n % 10) as int))
    }
}

/// Four lowercase hexadecimal digits of `v`, most significant first.
pub open spec fn spec_hex4(v: u16) -> Seq<char> {
    seq![
        spec_hex_char(((v / 4096) % 16) as int),
        spec_hex_char(((v / 256) % 16) as int),
        spec_hex_char(((v / 16) % 16) as int),
        spec_hex_char((v % 16) as int),
    ]
}

fn digit_str(d: u32) -> (s: &'static str)
    requires
        d < 16,
    ensures
        s@ == seq![spec_hex_char(d as int)],
{
    match d {
        0 => {
            proof {
                reveal_strlit("0");
            }
            "0"
        },
        1 => {
            proof {
                reveal_strlit("1");
            }
            "1"
        },
        2 => {
            proof {
                reveal_strlit("2");
            }
            "2"
        },
        3 => {
            proof {
                reveal_strlit("3");
            }
            "3"
        },
        4 => {
            proof {
                reveal_strlit("4");
            }
            "4"
        },
        5 => {
            proof {
                reveal_strlit("5");
            }
            "5"
        },
        6 => {
            proof {
                reveal_strlit("6");
            }
            "6"
        },
        7 => {
            proof {
                reveal_strlit("7");
            }
            "7"
        },
        8 => {
            proof {
                reveal_strlit("8");
            }
            "8"
        },
        9 => {
            proof {
                reveal_strlit("9");
            }
            "9"
        },
        10 => {
            proof {
                reveal_strlit("a");
            }
            "a"
        },
        11 => {
            proof {
                reveal_strlit("b");
            }
            "b"
        },
        12 => {
            proof {
                reveal_strlit("c");
            }
            "c"
        },
        13 => {
            proof {
                reveal_strlit("d");
            }
            "d"
        },
        14 => {
            proof {
                reveal_strlit("e");
            }
            "e"
        },
        15 => {
            proof {
                reveal_strlit("f");
            }
            "f"
        },
        _ => {
            proof {
                reveal_strlit("f");
            }
            "f"
        },
    }
}

/// Appends the decimal digits of `n`.
pub fn push_decimal(s: &mut String, n: u32)
    ensures
        final(s)@ == old(s)@ + spec_decimal(n as nat),
    decreases n,
{
    if n >= 10 {
        push_decimal(s, n / 10);
    }
    s.append(digit_str(n % 10));
    proof {
        if n >= 10 {
            assert(spec_decimal(n as nat) == spec_decimal((n / 10) as nat).push(spec_hex_char((n % 10) as int)));
        }
        assert(final(s)@ =~= old(s)@ + spec_decimal(n as nat));
    }
}

/// Appends four lowercase hexadecimal digits of `v`.
pub fn push_hex4(s: &mut String, v: u16)
    ensures
        final(s)@ == old(s)@ + spec_hex4(v),
{
    let ghost start = s@;
    s.append(digit_str(((v / 4096) % 16) as u32));
    s.append(digit_str(((v / 256) % 16) as u32));
    s.append(digit_str(((v / 16) % 16) as u32));
    s.append(digit_str((v % 16) as u32));
    proof {
        assert(s@ =~= start + spec_hex4(v));
    }
}

/// Whether two character sequences are equal.
pub fn same_chars(a: &[char], b: &[char]) -> (r: bool)
    ensures
        r == (a@ == b@),
{
    if a.len() != b.len() {
        return false;
    }
    let mut i: usize = 0;
    while i < a.len()
        invariant
            a@.len() == b@.len(),
            i <= a@.len(),
            forall|j: int| 0 <= j < i ==> a@[j] == b@[j],
        decreases a@.len() - i,
    {
        if a[i] != b[i] {
            return false;
        }
        i = i + 1;
    }
    proof {
        assert(a@ =~= b@);
    }
    true
}

/// `i` is the position of the first `sep` in `s`.
pub open spec fn spec_is_first_sep(s: Seq<char>, sep: char, i: int) -> bool {
    &&& 0 <= i < s.len()
    &&& s[i] == sep
    &&& forall|j: int| 0 <= j < i ==> s[j] != sep
}

/// Position of the first `sep` in `s`, or `s.len()` when there is none.
pub open spec fn spec_first_sep(s: Seq<char>, sep: char) -> int {
    if exists|i: int| spec_is_first_sep(s, sep, i) {
        choose|i: int| spec_is_first_sep(s, sep, i)
    } else {
        s.len() as int
    }
}

/// Field `k` of `s` split at every `sep` (as `str::split` gives them), when
/// `s` has that many fields.
pub open spec fn spec_field(s: Seq<char>, sep: char, k: nat) -> Option<Seq<char>>
    decreases k,
{
    let c = spec_first_sep(s, sep);
    if k == 0 {
        Some(s.subrange(0, c))
    } else if c < s.len() {
        spec_field(s.subrange(c + 1, s.len() as int), sep, (k - 1) as nat)
    } else {
        None
    }
}

/// The first separator is the one a scan finds.
proof fn lemma_first_sep(s: Seq<char>, sep: char, i: int)
    requires
        0 <= i <= s.len(),
        forall|j: int| 0 <= j < i ==> s[j] != sep,
        i < s.len() ==> s[i] == sep,
    ensures
        spec_first_sep(s, sep) == i,
{
    if i < s.len() {
        assert(spec_is_first_sep(s, sep, i));
        let c = choose|c: int| spec_is_first_sep(s, sep, c);
        assert(spec_is_first_sep(s, sep, c));
        if c < i {
            assert(s[c] != sep);
        }
        if i < c {
            assert(s[i] != sep);
        }
    } else {
        assert(!exists|c: int| spec_is_first_sep(s, sep, c));
    }
}

/// Start and end, in `s`, of field `k` of `s` split at every `sep`; `None`
/// when `s` has fewer fields.
pub fn field_range(s: &[char], sep: char, k: usize) -> (r: Option<(usize, usize)>)
    ensures
        match r {
            Some((a, b)) => a <= b <= s@.len() && spec_field(s@, sep, k as nat) == Some(s@.subrange(a as int, b as int)),
            None => spec_field(s@, sep, k as nat) is None,
        },
{
    let n = s.len();
    let mut start: usize = 0;
    let mut left: usize = k;
    proof {
        assert(s@.subrange(0, n as int) =~= s@);
    }
    loop
        invariant
            n == s@.len(),
            start <= n,
            left <= k,
            spec_field(s@, sep, k as nat) == spec_field(s@.subrange(start as int, n as int), sep, left as nat),
        decreases n - start,
    {
        let ghost rest = s@.subrange(start as int, n as int);
        let mut i: usize = start;
        while i < n && s[i] != sep
            invariant
                n == s@.len(),
                start <= i <= n,
                forall|j: int| start <= j < i ==> s@[j] != sep,
            decreases n - i,
        {
            i = i + 1;
        }
        proof {
            lemma_first_sep(rest, sep, i - start);
        }
        if left == 0 {
            proof {
                assert(rest.subrange(0, i - start) =~= s@.subrange(start as int, i as int));
            }
            return Some((start, i));
        }
        if i == n {
            return None;
        }
        proof {
            assert(rest.subrange(i - start + 1, rest.len() as int) =~= s@.subrange(i + 1, n as int));
        }
        start = i + 1;
        left = left - 1;
    }
}

/// Value of a hexadecimal digit, either case.
pub open spec fn spec_hex_digit(c: char) -> Option<int> {
    if '0' <= c && c <= '9' {
        Some(c as int - 48)
    } else if 'a' <= c && c <= 'f' {
        Some(c as int - 87)
    } else if 'A' <= c && c <= 'F' {
        Some(c as int - 55)
    } else {
        None
    }
}

/// Value of hexadecimal digits, most significant first.
pub open spec fn spec_hex_value(s: Seq<char>) -> int
    decreases s.len(),
{
    if s.len() == 0 {
        0
    } else {
        spec_hex_value(s.drop_last()) * 16 + match spec_hex_digit(s.last()) {
            Some(d) => d,
            None => 0,
        }
    }
}

/// The digits of an unsigned number: `s` without one leading `+`.
pub open spec fn spec_unsigned_digits(s: Seq<char>) -> Seq<char> {
    if s.len() > 0 && s[0] == '+' { s.drop_first() } else { s }
}

/// What `u16::from_str_radix(s, 16)` gives: an optional `+`, then one or more
/// hexadecimal digits whose value fits in 16 bits.
pub open spec fn spec_parse_hex_u16(s: Seq<char>) -> Option<u16> {
    let digits = spec_unsigned_digits(s);
    if digits.len() > 0 && (forall|i: int| 0 <= i < digits.len() ==> (#[trigger] spec_hex_digit(digits[i])) is Some)
        && spec_hex_value(digits) <= 0xffff {
        Some(spec_hex_value(digits) as u16)
    } else {
        None
    }
}

proof fn lemma_hex_value_nonneg(s: Seq<char>)
    ensures
        spec_hex_value(s) >= 0,
    decreases s.len(),
{
    if s.len() > 0 {
        lemma_hex_value_nonneg(s.drop_last());
    }
}

/// Adding digits never lowers the value.
proof fn lemma_hex_value_grows(s: Seq<char>, i: int)
    requires
        0 <= i <= s.len(),
    ensures
        spec_hex_value(s.subrange(0, i)) <= spec_hex_value(s),
    decreases s.len() - i,
{
    if i < s.len() {
        lemma_hex_value_grows(s, i + 1);
        let p = s.subrange(0, i + 1);
        assert(p.drop_last() =~= s.subrange(0, i));
        lemma_hex_value_nonneg(s.subrange(0, i));
    } else {
        assert(s.subrange(0, i) =~= s);
    }
}

fn hex_digit(c: char) -> (d: Option<u32>)
    ensures
        match spec_hex_digit(c) {
            Some(v) => d == Some(v as u32),
            None => d is None,
        },
{
    if '0' <= c && c <= '9' {
        Some(c as u32 - 48)
    } else if 'a' <= c && c <= 'f' {
        Some(c as u32 - 87)
    } else if 'A' <= c && c <= 'F' {
        Some(c as u32 - 55)
    } else {
        None
    }
}

/// Parses `s[start..end]` as `u16::from_str_radix` does in base 16.
pub fn parse_hex_u16(s: &[char], start: usize, end: usize) -> (r: Option<u16>)
    requires
        start <= end <= s@.len(),
    ensures
        r == spec_parse_hex_u16(s@.subrange(start as int, end as int)),
{
    let ghost whole = s@.subrange(start as int, end as int);
    let mut first = start;
    if start < end && s[start] == '+' {
        first = start + 1;
    }
    let ghost digits = s@.subrange(first as int, end as int);
    proof {
        if start < end && s@[start as int] == '+' {
            assert(whole.len() > 0 && whole[0] == '+');
            assert(digits =~= whole.drop_first());
        } else {
            assert(digits =~= whole);
        }
    }
    if first == end {
        return None;
    }
    let mut value: u32 = 0;
    let mut i: usize = first;
    while i < end
        invariant
            start <= first <= i <= end <= s@.len(),
            first < end,
            digits == s@.subrange(first as int, end as int),
            whole == s@.subrange(start as int, end as int),
            digits == spec_unsigned_digits(whole),
            value == spec_hex_value(digits.subrange(0, i - first)),
            value <= 0xffff,
            forall|j: int| 0 <= j < i - first ==> (#[trigger] spec_hex_digit(digits[j])) is Some,
        decreases end - i,
    {
        let d = match hex_digit(s[i]) {
            Some(d) => d,
            None => {
                proof {
                    assert(digits[i - first] == s@[i as int]);
                    assert(spec_hex_digit(digits[i - first]) is None);
                }
                return None;
            },
        };
        let next = value * 16 + d;
        proof {
            let p = digits.subrange(0, i - first + 1);
            assert(p.drop_last() =~= digits.subrange(0, i - first));
            assert(p.last() == s@[i as int]);
        }
        if next > 0xffff {
            proof {
                lemma_hex_value_grows(digits, i - first + 1);
            }
            return None;
        }
        value = next;
        i = i + 1;
    }
    proof {
        assert(digits.subrange(0, i - first) =~= digits);
    }
    Some(value as u16)
}

} // verus!
