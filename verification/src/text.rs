use vstd::prelude::*;

verus! {

/// The character that stands for the decimal digit `d` (0 through 9).
pub open spec fn digit_char(d: int) -> char {
    (48 + d) as char
}

/// The decimal numeral of `n`: no sign, no leading zero (but `0` itself).
pub open spec fn decimal(n: nat) -> Seq<char>
    decreases n,
{
    if n < 10 {
        seq![digit_char(n as int)]
    } else {
        decimal(n / 10).push(digit_char((n % 10) as int))
    }
}

/// Appends one character to a string.
///
/// Trusted: calls `String::push`, which std documents as appending the
/// character to the end of the string.
#[verifier::external_body]
pub(crate) fn push_char(s: &mut String, c: char)
    ensures
        final(s)@ == old(s)@.push(c),
{
    s.push(c)
}

/// The character of a decimal digit.
pub fn digit(d: u32) -> (c: char)
    requires
        d < 10,
    ensures
        c == digit_char(d as int),
{
    let b: u8 = 48u8 + (d as u8);
    b as char
}

/// Appends the decimal numeral of `n` to `s`.
pub fn push_decimal(s: &mut String, n: u32)
    ensures
        final(s)@ == old(s)@ + decimal(n as nat),
    decreases n,
{
    if n >= 10 {
        push_decimal(s, n / 10);
    }
    push_char(s, digit(n % 10));
}


/// Whether `c` has Unicode's `White_Space` property (what `char::is_whitespace` tests).
pub open spec fn is_unicode_space(c: char) -> bool {
    let u = c as u32;
    ||| 9 <= u <= 13
    ||| u == 32
    ||| u == 0x85
    ||| u == 0xa0
    ||| u == 0x1680
    ||| 0x2000 <= u <= 0x200a
    ||| u == 0x2028
    ||| u == 0x2029
    ||| u == 0x202f
    ||| u == 0x205f
    ||| u == 0x3000
}

/// `s` without its leading white space.
pub open spec fn trim_start(s: Seq<char>) -> Seq<char>
    decreases s.len(),
{
    if s.len() > 0 && is_unicode_space(s[0]) {
        trim_start(s.drop_first())
    } else {
        s
    }
}

/// `s` without its trailing white space.
pub open spec fn trim_end(s: Seq<char>) -> Seq<char>
    decreases s.len(),
{
    if s.len() > 0 && is_unicode_space(s.last()) {
        trim_end(s.drop_last())
    } else {
        s
    }
}

/// `s` without leading and trailing white space, as `str::trim` gives it.
pub open spec fn trimmed(s: Seq<char>) -> Seq<char> {
    trim_end(trim_start(s))
}

/// Whether `c` is one of the ASCII digits `0` to `9`.
pub open spec fn is_digit(c: char) -> bool {
    48 <= (c as u32) <= 57
}

/// The value of a string of decimal digits, most significant first.
pub open spec fn digits_value(s: Seq<char>) -> nat
    decreases s.len(),
{
    if s.len() == 0 {
        0
    } else {
        digits_value(s.drop_last()) * 10 + ((s.last() as u32) - 48) as nat
    }
}

/// Whether every character of `s` is a decimal digit.
pub open spec fn all_digits(s: Seq<char>) -> bool {
    forall|i: int| 0 <= i < s.len() ==> is_digit(#[trigger] s[i])
}

/// What `u32::from_str` gives for `s`: an optional `+`, then one or more
/// decimal digits whose value fits in a `u32`; anything else is refused.
pub open spec fn parse_u32(s: Seq<char>) -> Option<u32> {
    let d = if s.len() > 0 && s[0] == '+' {
        s.drop_first()
    } else {
        s
    };
    if d.len() > 0 && all_digits(d) && digits_value(d) <= u32::MAX {
        Some(digits_value(d) as u32)
    } else {
        None
    }
}

/// `c` with an ASCII capital letter turned into its small letter.
pub open spec fn ascii_lower(c: char) -> char {
    if 65 <= (c as u32) <= 90 {
        ((c as u32) + 32) as char
    } else {
        c
    }
}

/// Whether `a` and `b` are equal when ASCII letters are compared without
/// regard to case (`str::eq_ignore_ascii_case`).
pub open spec fn eq_ignore_ascii_case(a: Seq<char>, b: Seq<char>) -> bool {
    &&& a.len() == b.len()
    &&& forall|i: int| 0 <= i < a.len() ==> ascii_lower(#[trigger] a[i]) == ascii_lower(b[i])
}

/// Whether `c` has Unicode's `White_Space` property.
pub fn is_space(c: char) -> (b: bool)
    ensures
        b == is_unicode_space(c),
{
    let u = c as u32;
    (9 <= u && u <= 13) || u == 32 || u == 0x85 || u == 0xa0 || u == 0x1680 || (0x2000 <= u
        && u <= 0x200a) || u == 0x2028 || u == 0x2029 || u == 0x202f || u == 0x205f || u
        == 0x3000
}

/// The characters of `s`, in order.
pub fn chars_of(s: &str) -> (v: Vec<char>)
    ensures
        v@ == s@,
{
    let n = s.unicode_len();
    let mut v: Vec<char> = Vec::new();
    let mut i: usize = 0;
    while i < n
        invariant
            n == s@.len(),
            i <= n,
            v@ == s@.subrange(0, i as int),
        decreases n - i,
    {
        v.push(s.get_char(i));
        i = i + 1;
    }
    v
}

/// The bounds of the part of `s[from..to]` that remains once leading and
/// trailing white space is cut off.
pub fn trim_bounds(s: &Vec<char>, from: usize, to: usize) -> (r: (usize, usize))
    requires
        from <= to <= s.len(),
    ensures
        from <= r.0 <= r.1 <= to,
        s@.subrange(r.0 as int, r.1 as int) == trimmed(s@.subrange(from as int, to as int)),
{
    let ghost whole = s@.subrange(from as int, to as int);
    let mut a: usize = from;
    while a < to && is_space(s[a])
        invariant
            from <= a <= to <= s.len(),
            trim_start(whole) == trim_start(s@.subrange(a as int, to as int)),
        decreases to - a,
    {
        assert(s@.subrange(a as int, to as int).drop_first() =~= s@.subrange(a + 1, to as int));
        a = a + 1;
    }
    assert(trim_start(whole) == s@.subrange(a as int, to as int));
    let mut b: usize = to;
    while b > a && is_space(s[b - 1])
        invariant
            from <= a <= b <= to <= s.len(),
            trimmed(whole) == trim_end(s@.subrange(a as int, b as int)),
        decreases b - a,
    {
        assert(s@.subrange(a as int, b as int).drop_last() =~= s@.subrange(a as int, b - 1));
        b = b - 1;
    }
    (a, b)
}

/// `digits_value` of a longer run of digits is at least that of its prefix.
pub proof fn lemma_digits_value_prefix(s: Seq<char>, k: int)
    requires
        0 <= k <= s.len(),
    ensures
        digits_value(s.take(k)) <= digits_value(s),
    decreases s.len(),
{
    if k < s.len() {
        lemma_digits_value_prefix(s.drop_last(), k);
        assert(s.drop_last().take(k) =~= s.take(k));
    } else {
        assert(s.take(k) =~= s);
    }
}

/// What `u32::from_str` gives for `s[from..to]`.
pub fn parse_u32_in(s: &Vec<char>, from: usize, to: usize) -> (r: Option<u32>)
    requires
        from <= to <= s.len(),
    ensures
        r == parse_u32(s@.subrange(from as int, to as int)),
{
    let ghost t = s@.subrange(from as int, to as int);
    let mut start = from;
    if from < to && s[from] == '+' {
        start = from + 1;
    }
    let ghost d = s@.subrange(start as int, to as int);
    assert(d =~= (if t.len() > 0 && t[0] == '+' { t.drop_first() } else { t }));
    if start == to {
        return None;
    }
    let mut acc: u64 = 0;
    let mut i: usize = start;
    while i < to
        invariant
            from <= start <= i <= to <= s.len(),
            d == s@.subrange(start as int, to as int),
            t == s@.subrange(from as int, to as int),
            d == (if t.len() > 0 && t[0] == '+' { t.drop_first() } else { t }),
            all_digits(d.take(i - start)),
            acc == digits_value(d.take(i - start)),
            acc <= u32::MAX,
        decreases to - i,
    {
        let c = s[i];
        let u = c as u32;
        assert(d.take(i - start + 1).drop_last() =~= d.take(i - start));
        assert(d.take(i - start + 1).last() == c);
        if u < 48 || u > 57 {
            assert(!is_digit(d[i - start]));
            return None;
        }
        acc = acc * 10 + ((u - 48) as u64);
        if acc > 0xffff_ffff {
            proof {
                lemma_digits_value_prefix(d, i - start + 1);
            }
            return None;
        }
        i = i + 1;
    }
    assert(d.take(i - start) =~= d);
    Some(acc as u32)
}


/// `c` with an ASCII capital letter turned into its small letter.
pub fn to_ascii_lower(c: char) -> (r: char)
    ensures
        r == ascii_lower(c),
{
    let u = c as u32;
    if 65 <= u && u <= 90 {
        let b: u8 = (u as u8) + 32;
        b as char
    } else {
        c
    }
}

/// Whether `s[from..to]` equals `pattern` when ASCII letters are compared
/// without regard to case.
pub fn eq_ignore_ascii_case_in(s: &Vec<char>, from: usize, to: usize, pattern: &str) -> (b: bool)
    requires
        from <= to <= s.len(),
    ensures
        b == eq_ignore_ascii_case(s@.subrange(from as int, to as int), pattern@),
{
    let p = chars_of(pattern);
    if to - from != p.len() {
        return false;
    }
    let ghost t = s@.subrange(from as int, to as int);
    let mut i: usize = 0;
    while i < p.len()
        invariant
            from <= to <= s.len(),
            t == s@.subrange(from as int, to as int),
            p@ == pattern@,
            t.len() == p.len(),
            i <= p.len(),
            forall|j: int| 0 <= j < i ==> ascii_lower(#[trigger] t[j]) == ascii_lower(p@[j]),
        decreases p.len() - i,
    {
        if to_ascii_lower(s[from + i]) != to_ascii_lower(p[i]) {
            assert(ascii_lower(t[i as int]) != ascii_lower(p@[i as int]));
            return false;
        }
        i = i + 1;
    }
    true
}

/// The decimal numeral of `n` is a non-empty run of digits worth `n`.
pub proof fn lemma_decimal_is_digits(n: nat)
    ensures
        decimal(n).len() > 0,
        all_digits(decimal(n)),
        digits_value(decimal(n)) == n,
    decreases n,
{
    if n >= 10 {
        lemma_decimal_is_digits(n / 10);
        let d = decimal(n);
        assert(d.drop_last() =~= decimal(n / 10));
        assert(d.last() == digit_char((n % 10) as int));
        assert(((d.last() as u32) - 48) as nat == n % 10);
        assert((n / 10) * 10 + n % 10 == n);
        assert(digits_value(d) == digits_value(d.drop_last()) * 10 + ((d.last() as u32) - 48) as nat);
        assert forall|i: int| 0 <= i < d.len() implies is_digit(#[trigger] d[i]) by {
            if i < d.len() - 1 {
                assert(d[i] == decimal(n / 10)[i]);
            }
        }
        assert(digits_value(d) == n);
    } else {
        let d = decimal(n);
        assert(d.drop_last() =~= Seq::<char>::empty());
        assert(d.last() == digit_char(n as int));
        assert(((d.last() as u32) - 48) as nat == n);
        assert(digits_value(d) == digits_value(d.drop_last()) * 10 + ((d.last() as u32) - 48) as nat);
    }
}

/// Reading back a decimal numeral gives the number it was written from:
/// `u32::from_str` of the text of `n` is `n`.
pub proof fn lemma_parse_decimal(n: u32)
    ensures
        parse_u32(decimal(n as nat)) == Some(n),
{
    lemma_decimal_is_digits(n as nat);
    assert(is_digit(decimal(n as nat)[0]));
}

/// Where `trim_start` cuts `s`.
proof fn lemma_trim_start_cut(s: Seq<char>) -> (a: int)
    ensures
        0 <= a <= s.len(),
        trim_start(s) == s.subrange(a, s.len() as int),
        forall|i: int| 0 <= i < a ==> is_unicode_space(#[trigger] s[i]),
        a < s.len() ==> !is_unicode_space(s[a]),
    decreases s.len(),
{
    if s.len() > 0 && is_unicode_space(s[0]) {
        let t = s.drop_first();
        let a0 = lemma_trim_start_cut(t);
        assert(t.subrange(a0, t.len() as int) =~= s.subrange(a0 + 1, s.len() as int));
        assert forall|i: int| 0 <= i < a0 + 1 implies is_unicode_space(#[trigger] s[i]) by {
            if i > 0 {
                assert(s[i] == t[i - 1]);
            }
        }
        if a0 + 1 < s.len() {
            assert(s[a0 + 1] == t[a0]);
        }
        a0 + 1
    } else {
        assert(s.subrange(0, s.len() as int) =~= s);
        0
    }
}

/// Where `trim_end` cuts `s`.
proof fn lemma_trim_end_cut(s: Seq<char>) -> (b: int)
    ensures
        0 <= b <= s.len(),
        trim_end(s) == s.subrange(0, b),
        forall|i: int| b <= i < s.len() ==> is_unicode_space(#[trigger] s[i]),
        b > 0 ==> !is_unicode_space(s[b - 1]),
    decreases s.len(),
{
    if s.len() > 0 && is_unicode_space(s.last()) {
        let t = s.drop_last();
        let b0 = lemma_trim_end_cut(t);
        assert(t.subrange(0, b0) =~= s.subrange(0, b0));
        assert forall|i: int| b0 <= i < s.len() implies is_unicode_space(#[trigger] s[i]) by {
            if i < s.len() - 1 {
                assert(s[i] == t[i]);
            }
        }
        if b0 > 0 {
            assert(s[b0 - 1] == t[b0 - 1]);
        }
        b0
    } else {
        assert(s.subrange(0, s.len() as int) =~= s);
        s.len() as int
    }
}

/// Trimming keeps one unbroken run of `s` and cuts off only white space: the
/// kept run neither starts nor ends with white space, and every character
/// cut off before or after it is white space.
pub proof fn lemma_trimmed_cuts_only_space(s: Seq<char>)
    ensures
        exists|a: int, b: int|
            {
                &&& 0 <= a <= b <= s.len()
                &&& trimmed(s) == #[trigger] s.subrange(a, b)
                &&& forall|i: int|
                    (0 <= i < a || b <= i < s.len()) ==> is_unicode_space(#[trigger] s[i])
                &&& a < b ==> !is_unicode_space(s[a]) && !is_unicode_space(s[b - 1])
            },
{
    let a = lemma_trim_start_cut(s);
    let u = s.subrange(a, s.len() as int);
    let c = lemma_trim_end_cut(u);
    let b = a + c;
    assert(u.subrange(0, c) =~= s.subrange(a, b));
    assert forall|i: int| (0 <= i < a || b <= i < s.len()) implies is_unicode_space(#[trigger] s[i]) by {
        if i >= b {
            assert(s[i] == u[i - a]);
        }
    }
    if a < b {
        assert(s[a] == u[0]);
        assert(s[b - 1] == u[c - 1]);
    }
    assert(trimmed(s) == s.subrange(a, b));
}

} // verus!
